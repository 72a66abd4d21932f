//! Terminal event-stream configuration.
//!
//! A [`TerminalEventStream`] holds the polling parameters for reading
//! terminal events. The reading itself is I/O and lives in the surrounding
//! application; this type carries the configuration it polls with.

use vstd::prelude::*;

verus! {

/// Configuration for polling terminal events.
#[derive(Debug, Clone)]
pub struct TerminalEventStream {
    poll_timeout: u64,
}

impl TerminalEventStream {
    /// The polling timeout in milliseconds.
    pub closed spec fn spec_poll_timeout(&self) -> u64 {
        self.poll_timeout
    }

    /// Creates a stream configuration with the default 10-millisecond poll
    /// timeout.
    pub fn new() -> (r: Self)
        ensures
            r.spec_poll_timeout() == 10,
    {
        TerminalEventStream { poll_timeout: 10 }
    }

    /// Creates a stream configuration with a custom poll timeout in
    /// milliseconds.
    pub fn with_timeout(timeout_ms: u64) -> (r: Self)
        ensures
            r.spec_poll_timeout() == timeout_ms,
    {
        TerminalEventStream { poll_timeout: timeout_ms }
    }

    /// The polling timeout in milliseconds.
    pub fn poll_timeout(&self) -> (r: u64)
        ensures
            r == self.spec_poll_timeout(),
    {
        self.poll_timeout
    }

    /// Sets a new polling timeout in milliseconds.
    pub fn set_poll_timeout(&mut self, timeout_ms: u64)
        ensures
            final(self).spec_poll_timeout() == timeout_ms,
    {
        self.poll_timeout = timeout_ms;
    }
}

impl Default for TerminalEventStream {
    /// The default configuration, as [`TerminalEventStream::new`] builds it.
    fn default() -> (r: Self)
        ensures
            r.spec_poll_timeout() == 10,
    {
        TerminalEventStream::new()
    }
}

} // verus!
