//! Debouncing and throttling.
//!
//! A [`Debouncer`] lets an event through only when enough time has passed
//! since the last event it let through; a [`Throttle`] does the same with
//! the first event always allowed immediately. Both take the current time
//! as a plain nanosecond count supplied by the caller and keep no clock of
//! their own.

use vstd::prelude::*;

verus! {

/// Whether an event arriving at `now` is allowed, given the time of the
/// last allowed event and the minimum gap; a first event is always allowed.
pub open spec fn gate_allows(last: Option<u64>, gap: u64, now: u64) -> bool {
    match last {
        Some(lt) => (if now >= lt {
            now - lt
        } else {
            0
        }) >= gap,
        None => true,
    }
}

/// Skips events that arrive within the delay of the previous one.
#[derive(Debug, Clone)]
pub struct Debouncer {
    delay: u64,
    last_event: Option<u64>,
}

impl Debouncer {
    /// The minimum delay between processed events, in nanoseconds.
    pub closed spec fn spec_delay(&self) -> u64 {
        self.delay
    }

    /// The time of the last processed event, if any.
    pub closed spec fn spec_last(&self) -> Option<u64> {
        self.last_event
    }

    /// Creates a debouncer with the given delay in nanoseconds.
    pub fn new(delay_ns: u64) -> (r: Self)
        ensures
            r.spec_delay() == delay_ns,
            r.spec_last() is None,
    {
        Debouncer { delay: delay_ns, last_event: None }
    }

    /// Whether an event arriving at `now_ns` should be processed. When it
    /// should, the debouncer remembers the time, so later events within the
    /// delay are skipped.
    pub fn should_process(&mut self, now_ns: u64) -> (r: bool)
        ensures
            final(self).spec_delay() == old(self).spec_delay(),
            r == gate_allows(old(self).spec_last(), old(self).spec_delay(), now_ns),
            r ==> final(self).spec_last() == Some(now_ns),
            !r ==> final(self).spec_last() == old(self).spec_last(),
    {
        let allowed = match self.last_event {
            Some(last) => {
                let elapsed: u64 = if now_ns >= last {
                    now_ns - last
                } else {
                    0
                };
                elapsed >= self.delay
            },
            None => true,
        };
        if allowed {
            self.last_event = Some(now_ns);
        }
        allowed
    }

    /// Resets the debouncer; the next event is processed whatever the time.
    pub fn reset(&mut self)
        ensures
            final(self).spec_delay() == old(self).spec_delay(),
            final(self).spec_last() is None,
    {
        self.last_event = None;
    }

    /// The delay in nanoseconds.
    pub fn delay(&self) -> (r: u64)
        ensures
            r == self.spec_delay(),
    {
        self.delay
    }

    /// Sets a new delay in nanoseconds.
    pub fn set_delay(&mut self, delay_ns: u64)
        ensures
            final(self).spec_delay() == delay_ns,
            final(self).spec_last() == old(self).spec_last(),
    {
        self.delay = delay_ns;
    }

    /// The time since the last processed event, at `now_ns`; `None` when no
    /// event was processed yet, zero when the clock appears to have gone
    /// backwards.
    pub fn time_since_last(&self, now_ns: u64) -> (r: Option<u64>)
        ensures
            match self.spec_last() {
                Some(lt) => r == Some(if now_ns >= lt {
                    (now_ns - lt) as u64
                } else {
                    0u64
                }),
                None => r is None,
            },
    {
        match self.last_event {
            Some(last) => Some(
                if now_ns >= last {
                    now_ns - last
                } else {
                    0
                },
            ),
            None => None,
        }
    }

    /// The time remaining at `now_ns` until the next event is processed;
    /// zero when one can be processed immediately.
    pub fn remaining(&self, now_ns: u64) -> (r: u64)
        ensures
            r == 0 <==> gate_allows(self.spec_last(), self.spec_delay(), now_ns),
    {
        match self.last_event {
            Some(last) => {
                let elapsed: u64 = if now_ns >= last {
                    now_ns - last
                } else {
                    0
                };
                if elapsed >= self.delay {
                    0
                } else {
                    self.delay - elapsed
                }
            },
            None => 0,
        }
    }
}

impl Default for Debouncer {
    /// The default debouncer: a 50-millisecond delay.
    fn default() -> (r: Self)
        ensures
            r.spec_delay() == 50000000u64,
            r.spec_last() is None,
    {
        Debouncer::new(50000000)
    }
}

/// Limits events to a maximum rate: the first is allowed immediately, and
/// later ones only after the interval has passed.
#[derive(Debug, Clone)]
pub struct Throttle {
    interval: u64,
    last_allowed: Option<u64>,
}

impl Throttle {
    /// The minimum interval between processed events, in nanoseconds.
    pub closed spec fn spec_interval(&self) -> u64 {
        self.interval
    }

    /// The time of the last allowed event, if any.
    pub closed spec fn spec_last(&self) -> Option<u64> {
        self.last_allowed
    }

    /// Creates a throttle with the given interval in nanoseconds.
    pub fn new(interval_ns: u64) -> (r: Self)
        ensures
            r.spec_interval() == interval_ns,
            r.spec_last() is None,
    {
        Throttle { interval: interval_ns, last_allowed: None }
    }

    /// Creates a throttle allowing at most the given number of events per
    /// second: the interval is one second divided by the rate. A rate of
    /// zero is a programming error and is ruled out by precondition.
    pub fn from_rate(events_per_second: u32) -> (r: Self)
        requires
            events_per_second > 0,
        ensures
            r.spec_interval() == 1000000000u64 / (events_per_second as u64),
            r.spec_last() is None,
    {
        let interval: u64 = 1000000000u64 / (events_per_second as u64);
        Throttle { interval, last_allowed: None }
    }

    /// Whether an event arriving at `now_ns` should be processed; when it
    /// should, the throttle remembers the time.
    pub fn should_process(&mut self, now_ns: u64) -> (r: bool)
        ensures
            final(self).spec_interval() == old(self).spec_interval(),
            r == gate_allows(old(self).spec_last(), old(self).spec_interval(), now_ns),
            r ==> final(self).spec_last() == Some(now_ns),
            !r ==> final(self).spec_last() == old(self).spec_last(),
    {
        let allowed = match self.last_allowed {
            Some(last) => {
                let elapsed: u64 = if now_ns >= last {
                    now_ns - last
                } else {
                    0
                };
                elapsed >= self.interval
            },
            None => true,
        };
        if allowed {
            self.last_allowed = Some(now_ns);
        }
        allowed
    }

    /// Resets the throttle; the next event is allowed whatever the time.
    pub fn reset(&mut self)
        ensures
            final(self).spec_interval() == old(self).spec_interval(),
            final(self).spec_last() is None,
    {
        self.last_allowed = None;
    }

    /// The interval in nanoseconds.
    pub fn interval(&self) -> (r: u64)
        ensures
            r == self.spec_interval(),
    {
        self.interval
    }

    /// Sets a new interval in nanoseconds.
    pub fn set_interval(&mut self, interval_ns: u64)
        ensures
            final(self).spec_interval() == interval_ns,
            final(self).spec_last() == old(self).spec_last(),
    {
        self.interval = interval_ns;
    }

    /// The time since the last allowed event, at `now_ns`; `None` when no
    /// event was allowed yet.
    pub fn time_since_last(&self, now_ns: u64) -> (r: Option<u64>)
        ensures
            match self.spec_last() {
                Some(lt) => r == Some(if now_ns >= lt {
                    (now_ns - lt) as u64
                } else {
                    0u64
                }),
                None => r is None,
            },
    {
        match self.last_allowed {
            Some(last) => Some(
                if now_ns >= last {
                    now_ns - last
                } else {
                    0
                },
            ),
            None => None,
        }
    }

    /// The time remaining at `now_ns` until the next event is allowed; zero
    /// when one can be processed immediately.
    pub fn remaining(&self, now_ns: u64) -> (r: u64)
        ensures
            r == 0 <==> gate_allows(self.spec_last(), self.spec_interval(), now_ns),
    {
        match self.last_allowed {
            Some(last) => {
                let elapsed: u64 = if now_ns >= last {
                    now_ns - last
                } else {
                    0
                };
                if elapsed >= self.interval {
                    0
                } else {
                    self.interval - elapsed
                }
            },
            None => 0,
        }
    }
}

impl Default for Throttle {
    /// The default throttle: sixty events per second.
    fn default() -> (r: Self)
        ensures
            r.spec_interval() == 1000000000u64 / 60,
            r.spec_last() is None,
    {
        Throttle::from_rate(60)
    }
}

} // verus!
