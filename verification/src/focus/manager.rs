//! The focus manager: Tab navigation, traps, and focus restoration.
//!
//! A [`FocusManager`] owns the main focus ring, a stack of focus traps, and
//! a restoration stack. While a trap is active, navigation and focus are
//! confined to the topmost trap; registration always goes to the main ring.
//! Pushing a trap saves the current focus; popping it restores the saved
//! focus in the scope that becomes active.

use vstd::prelude::*;

use super::id::FocusId;
use super::ring::{find_id, FocusRing};
use super::trap::FocusTrap;

verus! {

/// A navigation direction: forward (Tab) or backward (Shift+Tab).
#[derive(Debug, Clone, Copy, PartialEq, Eq, Structural)]
pub enum FocusDirection {
    /// Forward to the next focusable component.
    Next,
    /// Backward to the previous focusable component.
    Previous,
}

/// The outcome of a navigation step.
#[derive(Debug, Clone, PartialEq, Eq)]
pub enum FocusResult {
    /// Focus moved to a new component.
    Moved {
        /// The previously focused identifier, if any.
        from: Option<FocusId>,
        /// The newly focused identifier.
        to: FocusId,
    },
    /// Focus stayed on the same component.
    Unchanged(FocusId),
    /// There was nothing to focus.
    NoFocusables,
}

/// Spec-level mirror of [`FocusResult`].
pub enum SpecFocusResult {
    Moved(Option<Seq<char>>, Seq<char>),
    Unchanged(Seq<char>),
    NoFocusables,
}

impl View for FocusResult {
    type V = SpecFocusResult;

    open spec fn view(&self) -> SpecFocusResult {
        match self {
            FocusResult::Moved { from: Some(f), to } => SpecFocusResult::Moved(Some(f@), to@),
            FocusResult::Moved { from: None, to } => SpecFocusResult::Moved(None, to@),
            FocusResult::Unchanged(id) => SpecFocusResult::Unchanged(id@),
            FocusResult::NoFocusables => SpecFocusResult::NoFocusables,
        }
    }
}

/// Coordinates focus across the main ring and a stack of traps.
#[derive(Debug)]
pub struct FocusManager {
    ring: FocusRing,
    traps: Vec<FocusTrap>,
    restoration_stack: Vec<FocusId>,
}

impl Default for FocusManager {
    /// The default manager: empty.
    fn default() -> (r: Self)
        ensures
            r.wf(),
            r.spec_ring().spec_entries() == Seq::<(Seq<char>, int)>::empty(),
            r.spec_traps() == Seq::<FocusTrap>::empty(),
            r.spec_restore() == Seq::<Seq<char>>::empty(),
    {
        FocusManager::new()
    }
}

impl FocusManager {
    /// The main ring.
    pub closed spec fn spec_ring(&self) -> FocusRing {
        self.ring
    }

    /// The trap stack, innermost last.
    pub closed spec fn spec_traps(&self) -> Seq<FocusTrap> {
        self.traps@
    }

    /// The restoration stack, most recent last.
    pub closed spec fn spec_restore(&self) -> Seq<Seq<char>> {
        Seq::new(self.restoration_stack@.len(), |i: int| self.restoration_stack@[i]@)
    }

    /// The entries of the active scope: the topmost trap, or the main ring.
    pub open spec fn act_entries(&self) -> Seq<(Seq<char>, int)> {
        if self.spec_traps().len() > 0 {
            self.spec_traps().last().spec_entries()
        } else {
            self.spec_ring().spec_entries()
        }
    }

    /// The focus position of the active scope.
    pub open spec fn act_current(&self) -> Option<int> {
        if self.spec_traps().len() > 0 {
            self.spec_traps().last().spec_current()
        } else {
            self.spec_ring().spec_current()
        }
    }

    /// The identifier focused in the active scope, if any.
    pub open spec fn act_current_id(&self) -> Option<Seq<char>> {
        match self.act_current() {
            Some(c) => Some(self.act_entries()[c].0),
            None => None,
        }
    }

    /// The ring and every trap are well formed.
    pub open spec fn wf(&self) -> bool {
        self.spec_ring().wf() && forall|i: int|
            0 <= i < self.spec_traps().len() ==> (#[trigger] self.spec_traps()[i]).wf()
    }

    /// Creates an empty manager.
    pub fn new() -> (r: Self)
        ensures
            r.wf(),
            r.spec_ring().spec_entries() == Seq::<(Seq<char>, int)>::empty(),
            r.spec_ring().spec_current() is None,
            r.spec_traps() == Seq::<FocusTrap>::empty(),
            r.spec_restore() == Seq::<Seq<char>>::empty(),
    {
        let r = FocusManager {
            ring: FocusRing::new(),
            traps: Vec::new(),
            restoration_stack: Vec::new(),
        };
        proof {
            assert(r.spec_restore() =~= Seq::<Seq<char>>::empty());
        }
        r
    }

    /// Whether no component is registered in the main ring.
    pub fn is_empty(&self) -> (r: bool)
        ensures
            r == (self.spec_ring().spec_entries().len() == 0),
    {
        self.ring.is_empty()
    }

    /// The number of components registered in the main ring.
    pub fn len(&self) -> (r: usize)
        ensures
            r == self.spec_ring().spec_entries().len(),
    {
        self.ring.len()
    }

    /// Whether a focus trap is active.
    pub fn has_trap(&self) -> (r: bool)
        ensures
            r == (self.spec_traps().len() > 0),
    {
        self.traps.len() > 0
    }

    /// The number of active traps.
    pub fn trap_count(&self) -> (r: usize)
        ensures
            r == self.spec_traps().len(),
    {
        self.traps.len()
    }

    /// Registers a component in the main ring (see [`FocusRing::register`]).
    pub fn register(&mut self, id: FocusId, order: i32)
        requires
            old(self).wf(),
        ensures
            final(self).wf(),
            final(self).spec_traps() == old(self).spec_traps(),
            final(self).spec_restore() == old(self).spec_restore(),
            super::trap::call_ensures_register(
                old(self).spec_ring(),
                final(self).spec_ring(),
                id@,
                order as int,
            ),
    {
        self.ring.register(id, order);
        proof {
            assert(self.spec_traps() =~= old(self).spec_traps());
            assert(self.spec_restore() =~= old(self).spec_restore());
            assert(self.wf());
        }
    }

    /// Unregisters a component from the main ring (see
    /// [`FocusRing::unregister`]).
    pub fn unregister(&mut self, id: &FocusId) -> (r: bool)
        requires
            old(self).wf(),
        ensures
            final(self).wf(),
            final(self).spec_traps() == old(self).spec_traps(),
            final(self).spec_restore() == old(self).spec_restore(),
            r == (find_id(old(self).spec_ring().spec_entries(), id@, 0) is Some),
    {
        let r = self.ring.unregister(id);
        proof {
            assert(self.spec_traps() =~= old(self).spec_traps());
            assert(self.spec_restore() =~= old(self).spec_restore());
            assert(self.wf());
        }
        r
    }

    /// Navigates the active scope one step in the given direction: the
    /// newly focused identifier is reported as a move from the previous
    /// one, as unchanged when it is the same identifier, or there is
    /// nothing to focus.
    pub fn navigate(&mut self, direction: FocusDirection) -> (r: FocusResult)
        requires
            old(self).wf(),
        ensures
            final(self).wf(),
            final(self).spec_traps().len() == old(self).spec_traps().len(),
            final(self).spec_restore() == old(self).spec_restore(),
            final(self).act_entries() == old(self).act_entries(),
            old(self).spec_traps().len() > 0 ==> final(self).spec_ring() == old(self).spec_ring()
                && forall|i: int|
                0 <= i < old(self).spec_traps().len() - 1 ==> final(self).spec_traps()[i] == old(self).spec_traps()[i],
            old(self).spec_traps().len() == 0 ==> final(self).spec_traps() == old(self).spec_traps(),
            ({
                let es = old(self).act_entries();
                if es.len() == 0 {
                    r@ is NoFocusables && final(self).act_current() == old(self).act_current()
                } else {
                    let ni = match direction {
                        FocusDirection::Next => match old(self).act_current() {
                            Some(c) => (c + 1) % (es.len() as int),
                            None => 0int,
                        },
                        FocusDirection::Previous => match old(self).act_current() {
                            Some(c) => if c == 0 {
                                es.len() - 1
                            } else {
                                c - 1
                            },
                            None => es.len() - 1,
                        },
                    };
                    final(self).act_current() == Some(ni) && r@ == (
                    match old(self).act_current_id() {
                        Some(f) => if f == es[ni].0 {
                            SpecFocusResult::Unchanged(es[ni].0)
                        } else {
                            SpecFocusResult::Moved(Some(f), es[ni].0)
                        },
                        None => SpecFocusResult::Moved(None, es[ni].0),
                    })
                }
            }),
    {
        let n = self.traps.len();
        let from: Option<FocusId> = if n > 0 {
            match self.traps[n - 1].current() {
                Some(id) => Some(id.clone()),
                None => None,
            }
        } else {
            match self.ring.current() {
                Some(id) => Some(id.clone()),
                None => None,
            }
        };
        let to: Option<FocusId> = if n > 0 {
            let ghost oldtraps = self.traps@;
            let t = &mut self.traps[n - 1];
            let res = match direction {
                FocusDirection::Next => t.next(),
                FocusDirection::Previous => t.prev(),
            };
            proof {
                assert(self.traps@ =~= oldtraps.update(n - 1, self.traps@[n - 1]));
            }
            res
        } else {
            match direction {
                FocusDirection::Next => self.ring.next(),
                FocusDirection::Previous => self.ring.prev(),
            }
        };
        proof {
            assert(self.spec_restore() =~= old(self).spec_restore());
        }
        match to {
            Some(to_id) => {
                let same = match &from {
                    Some(f) => *f == to_id,
                    None => false,
                };
                if same {
                    FocusResult::Unchanged(to_id)
                } else {
                    FocusResult::Moved { from, to: to_id }
                }
            },
            None => FocusResult::NoFocusables,
        }
    }

    /// Moves focus forward (Tab); the newly focused identifier, if any.
    pub fn focus_next(&mut self) -> (r: Option<FocusId>)
        requires
            old(self).wf(),
        ensures
            final(self).wf(),
            ({
                let es = old(self).act_entries();
                if es.len() == 0 {
                    r is None
                } else {
                    let ni = match old(self).act_current() {
                        Some(c) => (c + 1) % (es.len() as int),
                        None => 0int,
                    };
                    r is Some && r->0@ == es[ni].0 && final(self).act_current() == Some(ni)
                }
            }),
    {
        match self.navigate(FocusDirection::Next) {
            FocusResult::Moved { to, .. } => Some(to),
            FocusResult::Unchanged(id) => Some(id),
            FocusResult::NoFocusables => None,
        }
    }

    /// Moves focus backward (Shift+Tab); the newly focused identifier, if
    /// any.
    pub fn focus_prev(&mut self) -> (r: Option<FocusId>)
        requires
            old(self).wf(),
        ensures
            final(self).wf(),
            ({
                let es = old(self).act_entries();
                if es.len() == 0 {
                    r is None
                } else {
                    let ni = match old(self).act_current() {
                        Some(c) => if c == 0 {
                            es.len() - 1
                        } else {
                            c - 1
                        },
                        None => es.len() - 1,
                    };
                    r is Some && r->0@ == es[ni].0 && final(self).act_current() == Some(ni)
                }
            }),
    {
        match self.navigate(FocusDirection::Previous) {
            FocusResult::Moved { to, .. } => Some(to),
            FocusResult::Unchanged(id) => Some(id),
            FocusResult::NoFocusables => None,
        }
    }

    /// Focuses an identifier in the active scope, if it is there.
    pub fn focus(&mut self, id: &FocusId) -> (r: bool)
        requires
            old(self).wf(),
        ensures
            final(self).wf(),
            final(self).act_entries() == old(self).act_entries(),
            final(self).spec_restore() == old(self).spec_restore(),
            final(self).spec_traps().len() == old(self).spec_traps().len(),
            ({
                let es = old(self).act_entries();
                match find_id(es, id@, 0) {
                    Some(p) => r && final(self).act_current() == Some(p),
                    None => !r && final(self).act_current() == old(self).act_current(),
                }
            }),
    {
        let n = self.traps.len();
        if n > 0 {
            let ghost oldtraps = self.traps@;
            let t = &mut self.traps[n - 1];
            let res = t.focus(id);
            proof {
                assert(self.traps@ =~= oldtraps.update(n - 1, self.traps@[n - 1]));
                assert(self.spec_restore() =~= old(self).spec_restore());
            }
            res
        } else {
            let res = self.ring.focus(id);
            proof {
                assert(self.spec_restore() =~= old(self).spec_restore());
            }
            res
        }
    }

    /// The identifier focused in the active scope, if any.
    pub fn current(&self) -> (r: Option<&FocusId>)
        requires
            self.wf(),
        ensures
            match r {
                Some(id) => self.act_current_id() == Some(id@),
                None => self.act_current_id() is None,
            },
    {
        let n = self.traps.len();
        if n > 0 {
            self.traps[n - 1].current()
        } else {
            self.ring.current()
        }
    }

    /// Clears the focus of the active scope.
    pub fn clear_focus(&mut self)
        requires
            old(self).wf(),
        ensures
            final(self).wf(),
            final(self).act_entries() == old(self).act_entries(),
            final(self).act_current() is None,
            final(self).spec_restore() == old(self).spec_restore(),
            final(self).spec_traps().len() == old(self).spec_traps().len(),
    {
        let n = self.traps.len();
        if n > 0 {
            let ghost oldtraps = self.traps@;
            proof {
                assert(self.spec_traps()[n - 1].wf());
            }
            let t = &mut self.traps[n - 1];
            t.clear_focus();
            proof {
                assert(self.traps@ =~= oldtraps.update(n - 1, self.traps@[n - 1]));
                assert(self.spec_restore() =~= old(self).spec_restore());
            }
        } else {
            self.ring.clear_focus();
            proof {
                assert(self.spec_restore() =~= old(self).spec_restore());
            }
        }
    }

    /// Pushes a focus trap: the current focus is saved for restoration, and
    /// the trap's first entry is focused if the trap has entries but no
    /// focus yet.
    pub fn push_trap(&mut self, trap: FocusTrap)
        requires
            old(self).wf(),
            trap.wf(),
        ensures
            final(self).wf(),
            final(self).spec_ring() == old(self).spec_ring(),
            final(self).spec_traps().len() == old(self).spec_traps().len() + 1,
            forall|i: int|
                0 <= i < old(self).spec_traps().len() ==> final(self).spec_traps()[i] == old(self).spec_traps()[i],
            final(self).spec_restore() == (match old(self).act_current_id() {
                Some(cid) => old(self).spec_restore().push(cid),
                None => old(self).spec_restore(),
            }),
            ({
                let t = final(self).spec_traps().last();
                t.spec_entries() == trap.spec_entries() && t.spec_saved() == trap.spec_saved()
                    && t.spec_current() == (
                if trap.spec_current() is None && trap.spec_entries().len() > 0 {
                    Some(0int)
                } else {
                    trap.spec_current()
                })
            }),
    {
        let mut trap = trap;
        let current: Option<FocusId> = match self.current() {
            Some(id) => Some(id.clone()),
            None => None,
        };
        let ghost oldrestore = self.spec_restore();
        match current {
            Some(id) => {
                self.restoration_stack.push(id);
                proof {
                    assert(self.spec_restore() =~= oldrestore.push(
                        old(self).act_current_id()->Some_0,
                    ));
                }
            },
            None => {},
        }
        let focus_first = match trap.current() {
            Some(_) => false,
            None => !trap.is_empty(),
        };
        if focus_first {
            trap.next();
        }
        self.traps.push(trap);
    }

    /// Pops the topmost trap, restoring the saved focus in the scope that
    /// becomes active; returns the popped trap, or nothing when no trap was
    /// active. The restored identifier is the most recently saved one; when
    /// the newly active scope does not hold it, focus there is left as it
    /// was.
    pub fn pop_trap(&mut self) -> (r: Option<FocusTrap>)
        requires
            old(self).wf(),
        ensures
            final(self).wf(),
            old(self).spec_traps().len() == 0 ==> r is None && final(self).spec_traps() == old(self).spec_traps() && final(self).spec_ring() == old(self).spec_ring() && final(self).spec_restore() == old(self).spec_restore(),
            old(self).spec_traps().len() > 0 ==> r is Some && final(self).spec_traps().len() == old(self).spec_traps().len() - 1 && final(self).spec_restore() == (
            if old(self).spec_restore().len() > 0 {
                old(self).spec_restore().drop_last()
            } else {
                old(self).spec_restore()
            }) && final(self).act_entries() == (
            if old(self).spec_traps().len() > 1 {
                old(self).spec_traps()[old(self).spec_traps().len() - 2].spec_entries()
            } else {
                old(self).spec_ring().spec_entries()
            }),
    {
        let trap = match self.traps.pop() {
            Some(t) => t,
            None => {
                return None;
            },
        };
        proof {
            assert(self.spec_traps() =~= old(self).spec_traps().drop_last());
            assert(self.spec_restore() =~= old(self).spec_restore());
            assert(self.wf()) by {
                assert(forall|i: int|
                    0 <= i < self.spec_traps().len() ==> self.spec_traps()[i] == old(self).spec_traps()[i]);
            };
        }
        match self.restoration_stack.pop() {
            Some(saved_id) => {
                proof {
                    assert(self.spec_restore() =~= old(self).spec_restore().drop_last());
                    assert(self.wf());
                }
                self.focus(&saved_id);
            },
            None => {
                proof {
                    assert(self.spec_restore() =~= old(self).spec_restore());
                }
            },
        }
        Some(trap)
    }

    /// Saves the current focus onto the restoration stack.
    pub fn save_focus(&mut self)
        requires
            old(self).wf(),
        ensures
            final(self).wf(),
            final(self).spec_ring() == old(self).spec_ring(),
            final(self).spec_traps() == old(self).spec_traps(),
            final(self).spec_restore() == (match old(self).act_current_id() {
                Some(cid) => old(self).spec_restore().push(cid),
                None => old(self).spec_restore(),
            }),
    {
        let ghost oldrestore = self.spec_restore();
        let current: Option<FocusId> = match self.current() {
            Some(id) => Some(id.clone()),
            None => None,
        };
        match current {
            Some(id) => {
                self.restoration_stack.push(id);
                proof {
                    assert(self.spec_restore() =~= oldrestore.push(
                        old(self).act_current_id()->Some_0,
                    ));
                }
            },
            None => {},
        }
    }

    /// Pops the restoration stack and focuses that identifier in the active
    /// scope; the restored identifier, or nothing when the stack was empty.
    pub fn restore_focus(&mut self) -> (r: Option<FocusId>)
        requires
            old(self).wf(),
        ensures
            final(self).wf(),
            old(self).spec_restore().len() == 0 ==> r is None && final(self).spec_restore() == old(self).spec_restore(),
            old(self).spec_restore().len() > 0 ==> r is Some && r->0@ == old(self).spec_restore().last() && final(self).spec_restore() == old(self).spec_restore().drop_last(),
    {
        let id = match self.restoration_stack.pop() {
            Some(id) => id,
            None => {
                proof {
                    assert(self.spec_restore() =~= old(self).spec_restore());
                    assert(self.spec_traps() =~= old(self).spec_traps());
                    assert(self.wf());
                }
                return None;
            },
        };
        proof {
            assert(self.spec_restore() =~= old(self).spec_restore().drop_last());
            assert(self.spec_traps() =~= old(self).spec_traps());
            assert(self.wf());
        }
        self.focus(&id);
        Some(id)
    }

    /// Whether the identifier is focusable in the active scope.
    pub fn contains(&self, id: &FocusId) -> (r: bool)
        ensures
            r == (find_id(self.act_entries(), id@, 0) is Some),
    {
        let n = self.traps.len();
        if n > 0 {
            self.traps[n - 1].contains(id)
        } else {
            self.ring.contains(id)
        }
    }

    /// Clears every registration, trap and saved focus.
    pub fn clear(&mut self)
        ensures
            final(self).wf(),
            final(self).spec_ring().spec_entries() == Seq::<(Seq<char>, int)>::empty(),
            final(self).spec_traps() == Seq::<FocusTrap>::empty(),
            final(self).spec_restore() == Seq::<Seq<char>>::empty(),
    {
        self.ring.clear();
        self.traps.clear();
        self.restoration_stack.clear();
        proof {
            assert(self.spec_restore() =~= Seq::<Seq<char>>::empty());
        }
    }
}

} // verus!
