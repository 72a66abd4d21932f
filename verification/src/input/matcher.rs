//! The stateful sequence matcher.
//!
//! An [`InputMatcher`] owns a set of registered bindings and a buffer of
//! pending keys. Each incoming key event is appended to the buffer and the
//! buffer is matched against the registered sequences:
//!
//! 1. if the gap since the previous key exceeds the timeout, the stale
//!    partial sequence is discarded first;
//! 2. if any registered sequence strictly extends the buffer, the matcher
//!    reports [`MatchResult::Pending`] — a longer chord always gets the
//!    chance to complete, even when a shorter exact match exists;
//! 3. otherwise, if a registered sequence equals the buffer, the matcher
//!    resets and reports [`MatchResult::Matched`] with its action;
//! 4. otherwise, a multi-key buffer is abandoned and the current key retried
//!    alone (steps 2 and 3 again); failing that the matcher resets and
//!    reports [`MatchResult::NoMatch`].
//!
//! Timestamps are plain milliseconds supplied by the caller; the matcher
//! keeps no clock of its own.

use vstd::prelude::*;

use super::action::Action;
use super::binding::{KeyBinding, KeyEvent};
use super::sequence::KeySequence;

verus! {

/// The result of processing one key event.
#[derive(Debug, Clone, PartialEq, Eq)]
pub enum MatchResult {
    /// No binding matched the input.
    NoMatch,
    /// A partial sequence matched; more keys are needed.
    Pending,
    /// A complete binding matched, with its action.
    Matched(Action),
}

/// Spec-level mirror of [`MatchResult`]: the matched action as its name.
pub enum SpecMatch {
    NoMatch,
    Pending,
    Matched(Seq<char>),
}

impl View for MatchResult {
    type V = SpecMatch;

    open spec fn view(&self) -> SpecMatch {
        match self {
            MatchResult::NoMatch => SpecMatch::NoMatch,
            MatchResult::Pending => SpecMatch::Pending,
            MatchResult::Matched(a) => SpecMatch::Matched(a@),
        }
    }
}

impl MatchResult {
    /// Whether this result is a match.
    pub fn is_matched(&self) -> (r: bool)
        ensures
            r == (self@ is Matched),
    {
        match self {
            MatchResult::Matched(_) => true,
            _ => false,
        }
    }

    /// Whether this result is a partial (pending) sequence.
    pub fn is_pending(&self) -> (r: bool)
        ensures
            r == (self@ is Pending),
    {
        match self {
            MatchResult::Pending => true,
            _ => false,
        }
    }

    /// Whether no binding matched.
    pub fn is_no_match(&self) -> (r: bool)
        ensures
            r == (self@ is NoMatch),
    {
        match self {
            MatchResult::NoMatch => true,
            _ => false,
        }
    }

    /// The matched action, if this is a match.
    pub fn action(&self) -> (r: Option<&Action>)
        ensures
            match r {
                Some(a) => self@ is Matched && self@->Matched_0 == a@,
                None => !(self@ is Matched),
            },
    {
        match self {
            MatchResult::Matched(action) => Some(action),
            _ => None,
        }
    }

    /// Consumes the result, returning the action if matched.
    pub fn into_action(self) -> (r: Option<Action>)
        ensures
            match r {
                Some(a) => self@ is Matched && self@->Matched_0 == a@,
                None => !(self@ is Matched),
            },
    {
        match self {
            MatchResult::Matched(action) => Some(action),
            _ => None,
        }
    }
}

/// A registered binding: a sequence and the action it triggers.
#[derive(Debug, Clone)]
struct RegisteredBinding {
    sequence: KeySequence,
    action: Action,
}

/// The registered bindings as pairs of key list and action name.
pub open spec fn has_partial(bs: Seq<(Seq<KeyBinding>, Seq<char>)>, pending: Seq<KeyBinding>)
    -> bool {
    exists|i: int|
        0 <= i < bs.len() && bs[i].0.len() > pending.len() && bs[i].0.take(pending.len() as int)
            == pending
}

/// The action of the first binding whose sequence equals `pending`, scanning
/// from position `i`.
pub open spec fn first_complete_from(
    bs: Seq<(Seq<KeyBinding>, Seq<char>)>,
    pending: Seq<KeyBinding>,
    i: int,
) -> Option<Seq<char>>
    decreases bs.len() - i,
{
    if i < 0 || i >= bs.len() {
        None
    } else if bs[i].0 == pending {
        Some(bs[i].1)
    } else {
        first_complete_from(bs, pending, i + 1)
    }
}

/// The action of the first binding whose sequence equals `pending`.
pub open spec fn first_complete(bs: Seq<(Seq<KeyBinding>, Seq<char>)>, pending: Seq<KeyBinding>)
    -> Option<Seq<char>> {
    first_complete_from(bs, pending, 0)
}

/// One matching step on the freshly extended buffer `p1`: partial matches
/// win over exact ones; an abandoned multi-key buffer is retried as the last
/// key alone; the result and the new pending buffer are returned.
pub open spec fn step_of(bs: Seq<(Seq<KeyBinding>, Seq<char>)>, p1: Seq<KeyBinding>) -> (
    SpecMatch,
    Seq<KeyBinding>,
) {
    if has_partial(bs, p1) {
        (SpecMatch::Pending, p1)
    } else {
        match first_complete(bs, p1) {
            Some(a) => (SpecMatch::Matched(a), Seq::empty()),
            None => if p1.len() > 1 {
                let p2 = seq![p1.last()];
                if has_partial(bs, p2) {
                    (SpecMatch::Pending, p2)
                } else {
                    match first_complete(bs, p2) {
                        Some(a) => (SpecMatch::Matched(a), Seq::empty()),
                        None => (SpecMatch::NoMatch, Seq::empty()),
                    }
                }
            } else {
                (SpecMatch::NoMatch, Seq::empty())
            },
        }
    }
}

/// Whether a matcher whose last key arrived at `last` has timed out at `now`.
pub open spec fn spec_timed_out(last: Option<u64>, timeout: u64, now: u64) -> bool {
    match last {
        Some(lt) => now >= lt && now - lt > timeout,
        None => false,
    }
}

/// Matches key events against registered bindings, keeping multi-key
/// sequence state between calls.
#[derive(Debug)]
pub struct InputMatcher {
    bindings: Vec<RegisteredBinding>,
    pending_keys: Vec<KeyBinding>,
    last_key_time: Option<u64>,
    sequence_timeout: u64,
}

impl InputMatcher {
    /// The registered bindings, as (keys, action name) pairs in registration
    /// order.
    pub closed spec fn spec_bindings(&self) -> Seq<(Seq<KeyBinding>, Seq<char>)> {
        Seq::new(
            self.bindings@.len(),
            |i: int| (self.bindings@[i].sequence@, self.bindings@[i].action@),
        )
    }

    /// The pending (partially matched) keys.
    pub closed spec fn spec_pending(&self) -> Seq<KeyBinding> {
        self.pending_keys@
    }

    /// The time of the last processed key, if a sequence is in progress.
    pub closed spec fn spec_last_time(&self) -> Option<u64> {
        self.last_key_time
    }

    /// The sequence timeout in milliseconds.
    pub closed spec fn spec_timeout(&self) -> u64 {
        self.sequence_timeout
    }

    /// Creates a matcher with the given sequence timeout in milliseconds.
    pub fn new(sequence_timeout_ms: u64) -> (r: Self)
        ensures
            r.spec_bindings() == Seq::<(Seq<KeyBinding>, Seq<char>)>::empty(),
            r.spec_pending() == Seq::<KeyBinding>::empty(),
            r.spec_last_time() is None,
            r.spec_timeout() == sequence_timeout_ms,
    {
        let r = InputMatcher {
            bindings: Vec::new(),
            pending_keys: Vec::new(),
            last_key_time: None,
            sequence_timeout: sequence_timeout_ms,
        };
        proof {
            assert(r.spec_bindings() =~= Seq::<(Seq<KeyBinding>, Seq<char>)>::empty());
        }
        r
    }

    /// Creates a matcher with the default one-second timeout.
    pub fn with_default_timeout() -> (r: Self)
        ensures
            r.spec_bindings() == Seq::<(Seq<KeyBinding>, Seq<char>)>::empty(),
            r.spec_pending() == Seq::<KeyBinding>::empty(),
            r.spec_last_time() is None,
            r.spec_timeout() == 1000,
    {
        Self::new(1000)
    }

    /// Registers a key sequence that triggers an action.
    pub fn register(&mut self, sequence: KeySequence, action: Action)
        ensures
            final(self).spec_bindings() == old(self).spec_bindings().push((sequence@, action@)),
            final(self).spec_pending() == old(self).spec_pending(),
            final(self).spec_last_time() == old(self).spec_last_time(),
            final(self).spec_timeout() == old(self).spec_timeout(),
    {
        self.bindings.push(RegisteredBinding { sequence, action });
        proof {
            assert(self.spec_bindings() =~= old(self).spec_bindings().push(
                (self.bindings@.last().sequence@, self.bindings@.last().action@),
            ));
        }
    }

    /// Registers several key sequences that all trigger the same action.
    pub fn register_multiple(&mut self, sequences: Vec<KeySequence>, action: Action)
        ensures
            final(self).spec_bindings().len() == old(self).spec_bindings().len() + sequences@.len(),
            forall|i: int|
                0 <= i < old(self).spec_bindings().len() ==> final(self).spec_bindings()[i]
                    == old(self).spec_bindings()[i],
            forall|i: int|
                0 <= i < sequences@.len() ==> final(self).spec_bindings()[old(self).spec_bindings().len() + i] == (sequences@[i]@, action@),
            final(self).spec_pending() == old(self).spec_pending(),
            final(self).spec_last_time() == old(self).spec_last_time(),
            final(self).spec_timeout() == old(self).spec_timeout(),
    {
        let n = sequences.len();
        let mut i: usize = 0;
        while i < n
            invariant
                n == sequences@.len(),
                0 <= i <= n,
                self.spec_bindings().len() == old(self).spec_bindings().len() + i,
                forall|j: int|
                    0 <= j < old(self).spec_bindings().len() ==> self.spec_bindings()[j] == old(self).spec_bindings()[j],
                forall|j: int|
                    0 <= j < i ==> self.spec_bindings()[old(self).spec_bindings().len() + j] == (
                        sequences@[j]@,
                        action@,
                    ),
                self.spec_pending() == old(self).spec_pending(),
                self.spec_last_time() == old(self).spec_last_time(),
                self.spec_timeout() == old(self).spec_timeout(),
            decreases n - i,
        {
            let sequence = sequences[i].clone();
            self.register(sequence, action.clone());
            i += 1;
        }
    }

    /// Registers a single key binding that triggers an action.
    pub fn register_key(&mut self, binding: KeyBinding, action: Action)
        ensures
            final(self).spec_bindings() == old(self).spec_bindings().push((seq![binding], action@)),
            final(self).spec_pending() == old(self).spec_pending(),
            final(self).spec_last_time() == old(self).spec_last_time(),
            final(self).spec_timeout() == old(self).spec_timeout(),
    {
        self.register(KeySequence::single(binding), action);
    }

    /// Clears the sequence-matching state: the pending keys and the last key
    /// time.
    pub fn reset_sequence(&mut self)
        ensures
            final(self).spec_bindings() == old(self).spec_bindings(),
            final(self).spec_pending() == Seq::<KeyBinding>::empty(),
            final(self).spec_last_time() is None,
            final(self).spec_timeout() == old(self).spec_timeout(),
    {
        self.pending_keys.clear();
        self.last_key_time = None;
        proof {
            assert(self.spec_bindings() =~= old(self).spec_bindings());
        }
    }

    /// Whether a partial sequence is in progress.
    pub fn is_sequence_pending(&self) -> (r: bool)
        ensures
            r == (self.spec_pending().len() > 0),
    {
        self.pending_keys.len() > 0
    }

    /// The pending keys of the current partial sequence.
    pub fn pending_keys(&self) -> (r: &Vec<KeyBinding>)
        ensures
            r@ == self.spec_pending(),
    {
        &self.pending_keys
    }

    /// The sequence timeout in milliseconds.
    pub fn sequence_timeout(&self) -> (r: u64)
        ensures
            r == self.spec_timeout(),
    {
        self.sequence_timeout
    }

    /// Sets a new sequence timeout in milliseconds.
    pub fn set_sequence_timeout(&mut self, timeout_ms: u64)
        ensures
            final(self).spec_bindings() == old(self).spec_bindings(),
            final(self).spec_pending() == old(self).spec_pending(),
            final(self).spec_last_time() == old(self).spec_last_time(),
            final(self).spec_timeout() == timeout_ms,
    {
        self.sequence_timeout = timeout_ms;
        proof {
            assert(self.spec_bindings() =~= old(self).spec_bindings());
        }
    }

    /// The number of registered bindings.
    pub fn binding_count(&self) -> (r: usize)
        ensures
            r == self.spec_bindings().len(),
    {
        self.bindings.len()
    }

    /// Removes all registered bindings and resets the sequence state.
    pub fn clear_bindings(&mut self)
        ensures
            final(self).spec_bindings() == Seq::<(Seq<KeyBinding>, Seq<char>)>::empty(),
            final(self).spec_pending() == Seq::<KeyBinding>::empty(),
            final(self).spec_last_time() is None,
            final(self).spec_timeout() == old(self).spec_timeout(),
    {
        self.bindings.clear();
        self.reset_sequence();
        proof {
            assert(self.spec_bindings() =~= Seq::<(Seq<KeyBinding>, Seq<char>)>::empty());
        }
    }

    /// Whether the first `pending.len()` keys of `keys` equal `pending`.
    fn is_prefix(keys: &Vec<KeyBinding>, pending: &Vec<KeyBinding>) -> (r: bool)
        requires
            keys@.len() >= pending@.len(),
        ensures
            r == (keys@.take(pending@.len() as int) == pending@),
    {
        let n = pending.len();
        for i in 0..n
            invariant
                n == pending@.len(),
                n <= keys@.len(),
                forall|j: int| 0 <= j < i ==> keys@[j] == pending@[j],
        {
            if keys[i] != pending[i] {
                proof {
                    assert(keys@.take(n as int)[i as int] != pending@[i as int]);
                }
                return false;
            }
        }
        proof {
            assert(keys@.take(n as int) =~= pending@);
        }
        true
    }

    /// The action of the first registered binding whose sequence equals the
    /// pending keys, if any.
    fn find_complete_match(&self) -> (r: Option<Action>)
        ensures
            match r {
                Some(a) => first_complete(self.spec_bindings(), self.spec_pending()) == Some(a@),
                None => first_complete(self.spec_bindings(), self.spec_pending()) is None,
            },
    {
        let n = self.bindings.len();
        let ghost bs = self.spec_bindings();
        let ghost p = self.spec_pending();
        for i in 0..n
            invariant
                n == bs.len(),
                bs == self.spec_bindings(),
                p == self.spec_pending(),
                first_complete(bs, p) == first_complete_from(bs, p, i as int),
        {
            if self.bindings[i].sequence.len() == self.pending_keys.len() {
                if Self::is_prefix(self.bindings[i].sequence.keys(), &self.pending_keys) {
                    proof {
                        assert(bs[i as int].0 =~= p);
                    }
                    return Some(self.bindings[i].action.clone());
                }
                proof {
                    assert(bs[i as int].0.take(p.len() as int) =~= bs[i as int].0);
                }
            }
        }
        None
    }

    /// Whether any registered sequence strictly extends the pending keys.
    fn has_partial_match(&self) -> (r: bool)
        ensures
            r == has_partial(self.spec_bindings(), self.spec_pending()),
    {
        let n = self.bindings.len();
        let ghost bs = self.spec_bindings();
        let ghost p = self.spec_pending();
        for i in 0..n
            invariant
                n == bs.len(),
                bs == self.spec_bindings(),
                p == self.spec_pending(),
                forall|j: int|
                    0 <= j < i ==> !(bs[j].0.len() > p.len() && bs[j].0.take(p.len() as int)
                        == p),
        {
            if self.bindings[i].sequence.len() > self.pending_keys.len() {
                if Self::is_prefix(self.bindings[i].sequence.keys(), &self.pending_keys) {
                    proof {
                        assert(bs[i as int].0.len() > p.len() && bs[i as int].0.take(
                            p.len() as int,
                        ) == p);
                    }
                    return true;
                }
            }
        }
        false
    }

    /// Processes one key event arriving at `now_ms` (a caller-supplied clock
    /// in milliseconds), and reports whether it completed a binding, extended
    /// a partial sequence, or matched nothing.
    ///
    /// A stale partial sequence (older than the timeout) is discarded before
    /// the event is considered. The outcome and the new state are exactly one
    /// matching step ([`step_of`]) on the pending buffer extended with this
    /// key.
    pub fn process(&mut self, event: &KeyEvent, now_ms: u64) -> (r: MatchResult)
        ensures
            final(self).spec_bindings() == old(self).spec_bindings(),
            final(self).spec_timeout() == old(self).spec_timeout(),
            ({
                let base = if spec_timed_out(
                    old(self).spec_last_time(),
                    old(self).spec_timeout(),
                    now_ms,
                ) {
                    Seq::<KeyBinding>::empty()
                } else {
                    old(self).spec_pending()
                };
                let kb = KeyBinding { key: event.code, modifiers: event.modifiers };
                let sr = step_of(old(self).spec_bindings(), base.push(kb));
                r@ == sr.0 && final(self).spec_pending() == sr.1
                    && final(self).spec_last_time() == (
                if sr.0 is Pending {
                    Some(now_ms)
                } else {
                    None::<u64>
                })
            }),
    {
        match self.last_key_time {
            Some(last) => {
                let elapsed: u64 = if now_ms >= last {
                    now_ms - last
                } else {
                    0
                };
                if elapsed > self.sequence_timeout {
                    self.reset_sequence();
                }
            },
            None => {},
        }
        let ghost base = self.spec_pending();
        let key_binding = KeyBinding::with_mods(event.code, event.modifiers);
        self.pending_keys.push(key_binding);
        self.last_key_time = Some(now_ms);
        let ghost p1 = base.push(key_binding);
        proof {
            assert(self.spec_pending() == p1);
            assert(self.spec_bindings() =~= old(self).spec_bindings());
        }
        if self.has_partial_match() {
            return MatchResult::Pending;
        }
        match self.find_complete_match() {
            Some(action) => {
                self.reset_sequence();
                return MatchResult::Matched(action);
            },
            None => {},
        }
        if self.pending_keys.len() > 1 {
            self.pending_keys.clear();
            self.pending_keys.push(key_binding);
            proof {
                assert(self.spec_pending() =~= seq![p1.last()]);
                assert(self.spec_bindings() =~= old(self).spec_bindings());
            }
            if self.has_partial_match() {
                return MatchResult::Pending;
            }
            match self.find_complete_match() {
                Some(action) => {
                    self.reset_sequence();
                    return MatchResult::Matched(action);
                },
                None => {},
            }
        }
        self.reset_sequence();
        MatchResult::NoMatch
    }
}

impl Default for InputMatcher {
    /// The default matcher: no bindings, the default one-second timeout.
    fn default() -> (r: Self)
        ensures
            r.spec_bindings() == Seq::<(Seq<KeyBinding>, Seq<char>)>::empty(),
            r.spec_pending() == Seq::<KeyBinding>::empty(),
            r.spec_last_time() is None,
            r.spec_timeout() == 1000,
    {
        InputMatcher::with_default_timeout()
    }
}

/// For a registered sequence with no competing longer extension, feeding its
/// keys in order yields `Pending` on every key but the last, and the
/// registered action on the last, after which the pending buffer is empty:
/// the matcher is back in its idle state.
///
/// `bs` are the registered bindings, `s` the keys of the sequence, and `a`
/// the action of the first binding whose sequence equals `s`. The step from
/// a buffer holding the first `k` keys, on key `s[k]`, is `Pending` with the
/// buffer grown by that key while `k` is not last, and `Matched(a)` with an
/// empty buffer when it is.
pub proof fn lemma_sequence_completes(
    bs: Seq<(Seq<KeyBinding>, Seq<char>)>,
    s: Seq<KeyBinding>,
    a: Seq<char>,
    k: int,
)
    requires
        s.len() > 0,
        first_complete(bs, s) == Some(a),
        !has_partial(bs, s),
        0 <= k < s.len(),
    ensures
        k < s.len() - 1 ==> step_of(bs, s.take(k + 1)) == (SpecMatch::Pending, s.take(k + 1)),
        k == s.len() - 1 ==> step_of(bs, s.take(k + 1)) == (
            SpecMatch::Matched(a),
            Seq::<KeyBinding>::empty(),
        ),
{
    lemma_first_complete_registered(bs, s, 0);
    if k < s.len() - 1 {
        let i = choose|i: int| 0 <= i < bs.len() && bs[i].0 == s;
        assert(bs[i].0.len() > s.take(k + 1).len());
        assert(bs[i].0.take(s.take(k + 1).len() as int) =~= s.take(k + 1));
        assert(has_partial(bs, s.take(k + 1)));
    } else {
        assert(s.take(k + 1) =~= s);
    }
}


/// With no bindings registered, a matching step never reports a partial or
/// complete match: every key yields `NoMatch` and the buffer stays empty.
pub proof fn lemma_empty_registry_no_match(p1: Seq<KeyBinding>)
    requires
        p1.len() > 0,
    ensures
        step_of(Seq::empty(), p1) == (SpecMatch::NoMatch, Seq::<KeyBinding>::empty()),
{
}

/// Where `first_complete` finds an action, some binding's sequence equals
/// the buffer.
proof fn lemma_first_complete_registered(
    bs: Seq<(Seq<KeyBinding>, Seq<char>)>,
    p: Seq<KeyBinding>,
    i: int,
)
    requires
        first_complete_from(bs, p, i) is Some,
    ensures
        exists|j: int| 0 <= j < bs.len() && bs[j].0 == p,
    decreases bs.len() - i,
{
    if 0 <= i < bs.len() {
        if bs[i].0 == p {
        } else {
            lemma_first_complete_registered(bs, p, i + 1);
        }
    }
}

} // verus!
