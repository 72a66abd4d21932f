//! Focus traps: navigation restricted to a subset of components.
//!
//! A [`FocusTrap`] wraps its own [`FocusRing`], so Tab navigation cycles
//! only through the trapped components — as inside a modal dialog — and
//! optionally remembers which component had focus before the trap opened.

use vstd::prelude::*;

use super::id::FocusId;
use super::ring::{find_id, FocusRing};

verus! {

/// A focus trap: a private focus ring plus the focus to restore on close.
#[derive(Debug)]
pub struct FocusTrap {
    ring: FocusRing,
    saved_focus: Option<FocusId>,
}

impl Clone for FocusTrap {
    fn clone(&self) -> (r: Self)
        ensures
            r.spec_entries() == self.spec_entries(),
            r.spec_current() == self.spec_current(),
            r.spec_saved() == self.spec_saved(),
    {
        FocusTrap {
            ring: self.ring.clone(),
            saved_focus: match &self.saved_focus {
                Some(id) => Some(id.clone()),
                None => None,
            },
        }
    }
}

impl Default for FocusTrap {
    /// The default trap: empty, with no saved focus.
    fn default() -> (r: Self)
        ensures
            r.wf(),
            r.spec_entries() == Seq::<(Seq<char>, int)>::empty(),
            r.spec_current() is None,
            r.spec_saved() is None,
    {
        FocusTrap::new()
    }
}

impl FocusTrap {
    /// The `(identifier, order)` pairs of the trap's ring.
    pub closed spec fn spec_entries(&self) -> Seq<(Seq<char>, int)> {
        self.ring.spec_entries()
    }

    /// The position of the focused entry, if any.
    pub closed spec fn spec_current(&self) -> Option<int> {
        self.ring.spec_current()
    }

    /// The saved focus identifier, if any.
    pub closed spec fn spec_saved(&self) -> Option<Seq<char>> {
        match self.saved_focus {
            Some(ref id) => Some(id@),
            None => None,
        }
    }

    /// The trap's ring is well formed.
    pub open spec fn wf(&self) -> bool {
        self.spec_ring().wf()
    }

    /// The underlying ring value.
    pub closed spec fn spec_ring(&self) -> FocusRing {
        self.ring
    }

    /// Creates an empty trap with no saved focus.
    pub fn new() -> (r: Self)
        ensures
            r.wf(),
            r.spec_entries() == Seq::<(Seq<char>, int)>::empty(),
            r.spec_current() is None,
            r.spec_saved() is None,
    {
        FocusTrap { ring: FocusRing::new(), saved_focus: None }
    }

    /// Creates an empty trap that remembers the previously focused
    /// identifier.
    pub fn with_saved_focus(saved: FocusId) -> (r: Self)
        ensures
            r.wf(),
            r.spec_entries() == Seq::<(Seq<char>, int)>::empty(),
            r.spec_current() is None,
            r.spec_saved() == Some(saved@),
    {
        FocusTrap { ring: FocusRing::new(), saved_focus: Some(saved) }
    }

    /// Whether the trap has no entries.
    pub fn is_empty(&self) -> (r: bool)
        ensures
            r == (self.spec_entries().len() == 0),
    {
        self.ring.is_empty()
    }

    /// The number of entries.
    pub fn len(&self) -> (r: usize)
        ensures
            r == self.spec_entries().len(),
    {
        self.ring.len()
    }

    /// Registers a component in the trap, exactly as
    /// [`FocusRing::register`] does in the main ring.
    pub fn register(&mut self, id: FocusId, order: i32)
        requires
            old(self).wf(),
        ensures
            final(self).wf(),
            final(self).spec_saved() == old(self).spec_saved(),
            call_ensures_register(old(self).spec_ring(), final(self).spec_ring(), id@, order as int),
    {
        self.ring.register(id, order);
    }

    /// Unregisters a component, exactly as [`FocusRing::unregister`] does.
    pub fn unregister(&mut self, id: &FocusId) -> (r: bool)
        requires
            old(self).wf(),
        ensures
            final(self).wf(),
            final(self).spec_saved() == old(self).spec_saved(),
            ({
                let es = old(self).spec_entries();
                match find_id(es, id@, 0) {
                    None => !r && final(self).spec_entries() == es && final(self).spec_current()
                        == old(self).spec_current(),
                    Some(p) => r && final(self).spec_entries() == es.remove(p),
                }
            }),
    {
        self.ring.unregister(id)
    }

    /// Moves focus to the next trapped entry, cycling.
    pub fn next(&mut self) -> (r: Option<FocusId>)
        requires
            old(self).wf(),
        ensures
            final(self).wf(),
            final(self).spec_entries() == old(self).spec_entries(),
            final(self).spec_saved() == old(self).spec_saved(),
            ({
                let es = old(self).spec_entries();
                if es.len() == 0 {
                    r is None && final(self).spec_current() == old(self).spec_current()
                } else {
                    let ni = match old(self).spec_current() {
                        Some(c) => (c + 1) % (es.len() as int),
                        None => 0int,
                    };
                    final(self).spec_current() == Some(ni) && r is Some && r->0@ == es[ni].0
                }
            }),
    {
        self.ring.next()
    }

    /// Moves focus to the previous trapped entry, cycling.
    pub fn prev(&mut self) -> (r: Option<FocusId>)
        requires
            old(self).wf(),
        ensures
            final(self).wf(),
            final(self).spec_entries() == old(self).spec_entries(),
            final(self).spec_saved() == old(self).spec_saved(),
            ({
                let es = old(self).spec_entries();
                if es.len() == 0 {
                    r is None && final(self).spec_current() == old(self).spec_current()
                } else {
                    let ni = match old(self).spec_current() {
                        Some(c) => if c == 0 {
                            es.len() - 1
                        } else {
                            c - 1
                        },
                        None => es.len() - 1,
                    };
                    final(self).spec_current() == Some(ni) && r is Some && r->0@ == es[ni].0
                }
            }),
    {
        self.ring.prev()
    }

    /// Focuses the trapped entry with the given identifier, if present.
    pub fn focus(&mut self, id: &FocusId) -> (r: bool)
        requires
            old(self).wf(),
        ensures
            final(self).wf(),
            final(self).spec_entries() == old(self).spec_entries(),
            final(self).spec_saved() == old(self).spec_saved(),
            ({
                let es = old(self).spec_entries();
                match find_id(es, id@, 0) {
                    Some(p) => r && final(self).spec_current() == Some(p),
                    None => !r && final(self).spec_current() == old(self).spec_current(),
                }
            }),
    {
        self.ring.focus(id)
    }

    /// The identifier of the focused trapped entry, if any.
    pub fn current(&self) -> (r: Option<&FocusId>)
        requires
            self.wf(),
        ensures
            match r {
                Some(cid) => self.spec_current() is Some && cid@ == self.spec_entries()[
                    self.spec_current()->0
                ].0,
                None => self.spec_current() is None,
            },
    {
        self.ring.current()
    }

    /// Clears the focus inside the trap without removing entries.
    pub fn clear_focus(&mut self)
        requires
            old(self).wf(),
        ensures
            final(self).wf(),
            final(self).spec_entries() == old(self).spec_entries(),
            final(self).spec_saved() == old(self).spec_saved(),
            final(self).spec_current() is None,
    {
        self.ring.clear_focus();
    }

    /// The saved focus identifier, if any.
    pub fn saved_focus(&self) -> (r: Option<&FocusId>)
        ensures
            match r {
                Some(id) => self.spec_saved() == Some(id@),
                None => self.spec_saved() is None,
            },
    {
        match &self.saved_focus {
            Some(id) => Some(id),
            None => None,
        }
    }

    /// Takes the saved focus identifier out of the trap.
    pub fn take_saved_focus(&mut self) -> (r: Option<FocusId>)
        ensures
            final(self).spec_entries() == old(self).spec_entries(),
            final(self).spec_current() == old(self).spec_current(),
            final(self).spec_saved() is None,
            match r {
                Some(id) => old(self).spec_saved() == Some(id@),
                None => old(self).spec_saved() is None,
            },
    {
        self.saved_focus.take()
    }

    /// Whether the identifier is trapped.
    pub fn contains(&self, id: &FocusId) -> (r: bool)
        ensures
            r == (find_id(self.spec_entries(), id@, 0) is Some),
    {
        self.ring.contains(id)
    }

    /// The trap's focus ring.
    pub fn ring(&self) -> (r: &FocusRing)
        ensures
            r == &self.spec_ring(),
    {
        &self.ring
    }

    /// The trap's focus ring, mutably; the caller is trusted to keep it
    /// well formed.
    pub fn ring_mut(&mut self) -> &mut FocusRing {
        &mut self.ring
    }
}

/// What [`FocusRing::register`] guarantees, restated over ring values so a
/// trap can pass the guarantee through.
pub open spec fn call_ensures_register(
    before: FocusRing,
    after: FocusRing,
    id: Seq<char>,
    order: int,
) -> bool {
    &&& after.wf()
    &&& ({
        let es = before.spec_entries();
        let nes = after.spec_entries();
        match find_id(es, id, 0) {
            Some(p) => nes == (if es[p].1 == order {
                es
            } else {
                super::ring::stable_move(es, p, order)
            }),
            None => nes == es.insert(
                super::ring::first_gt(es, order, 0),
                (id, order),
            ),
        }
    })
    &&& ({
        let es = before.spec_entries();
        match before.spec_current() {
            None => after.spec_current() is None,
            Some(c) => after.spec_current() == (match find_id(after.spec_entries(), es[c].0, 0) {
                Some(q) => Some(q),
                None => None::<int>,
            }),
        }
    })
}

} // verus!
