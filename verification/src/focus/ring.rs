//! The focus ring: an ordered cycle of focusable components.
//!
//! A [`FocusRing`] keeps its entries sorted by their order value — lower
//! values first — with ties kept in registration order, and tracks which
//! entry currently has focus. `next` and `prev` move focus circularly;
//! re-registering an identifier updates its order value while keeping its
//! position among entries of equal order.

use vstd::prelude::*;

use super::id::FocusId;

verus! {

/// An entry of the ring: an identifier and its order priority.
#[derive(Debug)]
struct FocusEntry {
    id: FocusId,
    order: i32,
}

impl Clone for FocusEntry {
    fn clone(&self) -> (r: Self)
        ensures
            r == *self,
    {
        FocusEntry { id: self.id.clone(), order: self.order }
    }
}

/// Tracks the order and focus state of focusable components.
#[derive(Debug)]
pub struct FocusRing {
    entries: Vec<FocusEntry>,
    current_index: Option<usize>,
}

impl Clone for FocusRing {
    fn clone(&self) -> (r: Self)
        ensures
            r.spec_entries() == self.spec_entries(),
            r.spec_current() == self.spec_current(),
    {
        let n = self.entries.len();
        let mut entries: Vec<FocusEntry> = Vec::new();
        for i in 0..n
            invariant
                n == self.entries@.len(),
                entries@.len() == i,
                forall|j: int|
                    0 <= j < i ==> entries@[j].id@ == self.entries@[j].id@ && entries@[j].order
                        == self.entries@[j].order,
        {
            entries.push(self.entries[i].clone());
        }
        let r = FocusRing { entries, current_index: self.current_index };
        proof {
            assert(r.spec_entries() =~= self.spec_entries());
        }
        r
    }
}

/// The first position at or after `i` whose order exceeds `k`; the length
/// when there is none.
pub open spec fn first_gt(es: Seq<(Seq<char>, int)>, k: int, i: int) -> int
    decreases es.len() - i,
{
    if i < 0 || i >= es.len() {
        es.len() as int
    } else if es[i].1 > k {
        i
    } else {
        first_gt(es, k, i + 1)
    }
}

/// The first position at or after `i` whose order is at least `k`; the
/// length when there is none.
pub open spec fn first_ge(es: Seq<(Seq<char>, int)>, k: int, i: int) -> int
    decreases es.len() - i,
{
    if i < 0 || i >= es.len() {
        es.len() as int
    } else if es[i].1 >= k {
        i
    } else {
        first_ge(es, k, i + 1)
    }
}

/// The first position at or after `i` carrying the identifier, if any.
pub open spec fn find_id(es: Seq<(Seq<char>, int)>, id: Seq<char>, i: int) -> Option<int>
    decreases es.len() - i,
{
    if i < 0 || i >= es.len() {
        None
    } else if es[i].0 == id {
        Some(i)
    } else {
        find_id(es, id, i + 1)
    }
}

/// Entries sorted by order value, lower first.
pub open spec fn sorted_by_order(es: Seq<(Seq<char>, int)>) -> bool {
    forall|i: int, j: int| 0 <= i < j < es.len() ==> es[i].1 <= es[j].1
}

/// Pairwise distinct identifiers.
pub open spec fn unique_ids(es: Seq<(Seq<char>, int)>) -> bool {
    forall|i: int, j: int| 0 <= i < j < es.len() ==> es[i].0 != es[j].0
}

/// Where the entry at `p` lands when its order becomes `k` and the list is
/// stably re-sorted: it is removed, and re-inserted after every entry of
/// smaller order and after the equal-order entries that preceded it, before
/// those that followed it.
pub open spec fn stable_move(es: Seq<(Seq<char>, int)>, p: int, k: int) -> Seq<(Seq<char>, int)> {
    let l2 = es.remove(p);
    let ge = first_ge(l2, k, 0);
    let gt = first_gt(l2, k, 0);
    let q = if p < ge {
        ge
    } else if p > gt {
        gt
    } else {
        p
    };
    l2.insert(q, (es[p].0, k))
}

proof fn lemma_first_gt_bounds(es: Seq<(Seq<char>, int)>, k: int, i: int)
    requires
        0 <= i <= es.len(),
    ensures
        i <= first_gt(es, k, i) <= es.len(),
        forall|j: int| i <= j < first_gt(es, k, i) ==> es[j].1 <= k,
        first_gt(es, k, i) < es.len() ==> es[first_gt(es, k, i)].1 > k,
    decreases es.len() - i,
{
    if i < es.len() && !(es[i].1 > k) {
        lemma_first_gt_bounds(es, k, i + 1);
    }
}

proof fn lemma_first_ge_bounds(es: Seq<(Seq<char>, int)>, k: int, i: int)
    requires
        0 <= i <= es.len(),
    ensures
        i <= first_ge(es, k, i) <= es.len(),
        forall|j: int| i <= j < first_ge(es, k, i) ==> es[j].1 < k,
        first_ge(es, k, i) < es.len() ==> es[first_ge(es, k, i)].1 >= k,
    decreases es.len() - i,
{
    if i < es.len() && !(es[i].1 >= k) {
        lemma_first_ge_bounds(es, k, i + 1);
    }
}

proof fn lemma_find_id_bounds(es: Seq<(Seq<char>, int)>, id: Seq<char>, i: int)
    requires
        0 <= i <= es.len(),
    ensures
        match find_id(es, id, i) {
            Some(p) => i <= p < es.len() && es[p].0 == id && forall|j: int|
                i <= j < p ==> es[j].0 != id,
            None => forall|j: int| i <= j < es.len() ==> es[j].0 != id,
        },
    decreases es.len() - i,
{
    if i < es.len() && es[i].0 != id {
        lemma_find_id_bounds(es, id, i + 1);
    }
}

impl Default for FocusRing {
    /// The default ring: empty.
    fn default() -> (r: Self)
        ensures
            r.wf(),
            r.spec_entries() == Seq::<(Seq<char>, int)>::empty(),
            r.spec_current() is None,
    {
        FocusRing::new()
    }
}

impl FocusRing {
    /// The `(identifier, order)` pairs, in focus order.
    pub closed spec fn spec_entries(&self) -> Seq<(Seq<char>, int)> {
        Seq::new(self.entries@.len(), |i: int| (self.entries@[i].id@, self.entries@[i].order as int))
    }

    /// The position of the focused entry, if any.
    pub closed spec fn spec_current(&self) -> Option<int> {
        match self.current_index {
            Some(c) => Some(c as int),
            None => None,
        }
    }

    /// Sorted by order, distinct identifiers, focus position in range.
    pub open spec fn wf(&self) -> bool {
        sorted_by_order(self.spec_entries()) && unique_ids(self.spec_entries()) && (
        match self.spec_current() {
            Some(c) => 0 <= c < self.spec_entries().len(),
            None => true,
        })
    }

    /// Creates an empty ring.
    pub fn new() -> (r: Self)
        ensures
            r.wf(),
            r.spec_entries() == Seq::<(Seq<char>, int)>::empty(),
            r.spec_current() is None,
    {
        let r = FocusRing { entries: Vec::new(), current_index: None };
        proof {
            assert(r.spec_entries() =~= Seq::<(Seq<char>, int)>::empty());
        }
        r
    }

    /// Whether the ring has no entries.
    pub fn is_empty(&self) -> (r: bool)
        ensures
            r == (self.spec_entries().len() == 0),
    {
        self.entries.len() == 0
    }

    /// The number of entries.
    pub fn len(&self) -> (r: usize)
        ensures
            r == self.spec_entries().len(),
    {
        self.entries.len()
    }

    /// The first index holding the identifier.
    fn find_index(&self, id: &FocusId) -> (r: Option<usize>)
        ensures
            match r {
                Some(p) => find_id(self.spec_entries(), id@, 0) == Some(p as int),
                None => find_id(self.spec_entries(), id@, 0) is None,
            },
    {
        let ghost es = self.spec_entries();
        let n = self.entries.len();
        for i in 0..n
            invariant
                n == es.len(),
                es == self.spec_entries(),
                find_id(es, id@, 0) == find_id(es, id@, i as int),
        {
            if self.entries[i].id == *id {
                return Some(i);
            }
        }
        None
    }

    /// The first index whose order exceeds `k`.
    fn find_first_gt(&self, k: i32) -> (r: usize)
        ensures
            r == first_gt(self.spec_entries(), k as int, 0),
            r <= self.spec_entries().len(),
    {
        let ghost es = self.spec_entries();
        let n = self.entries.len();
        for i in 0..n
            invariant
                n == es.len(),
                es == self.spec_entries(),
                first_gt(es, k as int, 0) == first_gt(es, k as int, i as int),
        {
            if self.entries[i].order > k {
                return i;
            }
        }
        n
    }

    /// The first index whose order is at least `k`.
    fn find_first_ge(&self, k: i32) -> (r: usize)
        ensures
            r == first_ge(self.spec_entries(), k as int, 0),
            r <= self.spec_entries().len(),
    {
        let ghost es = self.spec_entries();
        let n = self.entries.len();
        for i in 0..n
            invariant
                n == es.len(),
                es == self.spec_entries(),
                first_ge(es, k as int, 0) == first_ge(es, k as int, i as int),
        {
            if self.entries[i].order >= k {
                return i;
            }
        }
        n
    }

    /// Registers a component with an order priority. A new identifier is
    /// inserted after every entry of order at most `order`; re-registering
    /// an existing identifier updates its order and moves it stably (see
    /// [`stable_move`]). The focused entry keeps focus, wherever it moves.
    #[verifier::rlimit(60)]
    pub fn register(&mut self, id: FocusId, order: i32)
        requires
            old(self).wf(),
        ensures
            final(self).wf(),
            ({
                let es = old(self).spec_entries();
                let nes = final(self).spec_entries();
                match find_id(es, id@, 0) {
                    Some(p) => nes == (if es[p].1 == order {
                        es
                    } else {
                        stable_move(es, p, order as int)
                    }),
                    None => nes == es.insert(first_gt(es, order as int, 0), (id@, order as int)),
                }
            }),
            ({
                let es = old(self).spec_entries();
                match old(self).spec_current() {
                    None => final(self).spec_current() is None,
                    Some(c) => final(self).spec_current() == (
                    match find_id(final(self).spec_entries(), es[c].0, 0) {
                        Some(q) => Some(q),
                        None => None::<int>,
                    }),
                }
            }),
    {
        let ghost es = self.spec_entries();
        let cur_id: Option<FocusId> = match self.current_index {
            Some(c) => Some(self.entries[c].id.clone()),
            None => None,
        };
        proof {
            match old(self).spec_current() {
                Some(c) => {
                    assert(cur_id is Some && cur_id->0@ == es[c].0);
                },
                None => {},
            }
        }
        match self.find_index(&id) {
            Some(p) => {
                proof {
                    lemma_find_id_bounds(es, id@, 0);
                }
                if self.entries[p].order == order {
                    proof {
                        match old(self).spec_current() {
                            Some(c) => {
                                lemma_find_id_bounds(es, es[c].0, 0);
                                assert(find_id(es, es[c].0, 0) == Some(c)) by {
                                    assert(unique_ids(es));
                                };
                            },
                            None => {},
                        }
                    }
                    return;
                }
                let entry = self.entries.remove(p);
                let ghost l2 = self.spec_entries();
                proof {
                    assert(l2 =~= es.remove(p as int));
                    assert(sorted_by_order(l2));
                    assert(unique_ids(l2));
                    lemma_first_ge_bounds(l2, order as int, 0);
                    lemma_first_gt_bounds(l2, order as int, 0);
                }
                let ge = self.find_first_ge(order);
                let gt = self.find_first_gt(order);
                let q = if p < ge {
                    ge
                } else if p > gt {
                    gt
                } else {
                    p
                };
                self.entries.insert(q, FocusEntry { id: entry.id, order });
                proof {
                    assert(self.spec_entries() =~= l2.insert(q as int, (es[p as int].0, order as int)));
                    assert(self.spec_entries() == stable_move(es, p as int, order as int));
                    assert(ge <= gt) by {
                        if gt < l2.len() && ge > gt {
                            assert(l2[gt as int].1 > order);
                            assert(l2[gt as int].1 < order);
                        }
                    };
                    assert(sorted_by_order(self.spec_entries())) by {
                        let nes = self.spec_entries();
                        assert forall|i: int, j: int| 0 <= i < j < nes.len() implies nes[i].1
                            <= nes[j].1 by {
                            assert(forall|t: int| 0 <= t < q ==> l2[t].1 <= order);
                            assert(forall|t: int| q <= t < l2.len() ==> l2[t].1 >= order);
                        };
                    };
                    assert(unique_ids(self.spec_entries())) by {
                        let nes = self.spec_entries();
                        assert(forall|t: int| 0 <= t < l2.len() ==> l2[t].0 != es[p as int].0);
                    };
                }
                self.restore_current(cur_id);
            },
            None => {
                proof {
                    lemma_find_id_bounds(es, id@, 0);
                    lemma_first_gt_bounds(es, order as int, 0);
                    lemma_first_ge_bounds(es, order as int, 0);
                }
                let gt = self.find_first_gt(order);
                self.entries.insert(gt, FocusEntry { id, order });
                proof {
                    assert(self.spec_entries() =~= es.insert(
                        gt as int,
                        (self.entries@[gt as int].id@, order as int),
                    ));
                    assert(sorted_by_order(self.spec_entries()));
                    assert(unique_ids(self.spec_entries()));
                }
                self.restore_current(cur_id);
            },
        }
    }

    /// Re-finds the focused identifier after the entries moved.
    fn restore_current(&mut self, cur_id: Option<FocusId>)
        requires
            sorted_by_order(old(self).spec_entries()),
            unique_ids(old(self).spec_entries()),
        ensures
            final(self).wf(),
            final(self).spec_entries() == old(self).spec_entries(),
            final(self).spec_current() == (match cur_id {
                Some(cid) => match find_id(old(self).spec_entries(), cid@, 0) {
                    Some(q) => Some(q),
                    None => None::<int>,
                },
                None => None::<int>,
            }),
    {
        match cur_id {
            Some(cid) => {
                self.current_index = self.find_index(&cid);
                proof {
                    lemma_find_id_bounds(self.spec_entries(), cid@, 0);
                }
            },
            None => {
                self.current_index = None;
            },
        }
    }

    /// Unregisters a component. When the focused entry is removed, focus
    /// moves to the entry now at its position (or the last entry); entries
    /// before it keep focus, entries after it follow their shift.
    pub fn unregister(&mut self, id: &FocusId) -> (r: bool)
        requires
            old(self).wf(),
        ensures
            final(self).wf(),
            ({
                let es = old(self).spec_entries();
                match find_id(es, id@, 0) {
                    None => !r && final(self).spec_entries() == es && final(self).spec_current()
                        == old(self).spec_current(),
                    Some(p) => r && final(self).spec_entries() == es.remove(p) && final(self).spec_current() == (match old(self).spec_current() {
                        None => None::<int>,
                        Some(c) => if es.len() == 1 {
                            None::<int>
                        } else if c == p {
                            Some(if c < es.len() - 2 {
                                c
                            } else {
                                es.len() - 2
                            })
                        } else if c > p {
                            Some(c - 1)
                        } else {
                            Some(c)
                        },
                    }),
                }
            }),
    {
        let ghost es = self.spec_entries();
        match self.find_index(id) {
            Some(p) => {
                proof {
                    lemma_find_id_bounds(es, id@, 0);
                }
                self.entries.remove(p);
                proof {
                    assert(self.spec_entries() =~= es.remove(p as int));
                }
                match self.current_index {
                    Some(current) => {
                        if self.entries.len() == 0 {
                            self.current_index = None;
                        } else if current == p {
                            let last = self.entries.len() - 1;
                            self.current_index = Some(if current < last {
                                current
                            } else {
                                last
                            });
                        } else if current > p {
                            self.current_index = Some(current - 1);
                        }
                    },
                    None => {},
                }
                true
            },
            None => {
                proof {
                    lemma_find_id_bounds(es, id@, 0);
                }
                false
            },
        }
    }

    /// Moves focus to the next entry, starting at the first and wrapping
    /// from the last back to the first. Returns the newly focused
    /// identifier, or nothing when the ring is empty.
    pub fn next(&mut self) -> (r: Option<FocusId>)
        requires
            old(self).wf(),
        ensures
            final(self).wf(),
            final(self).spec_entries() == old(self).spec_entries(),
            ({
                let es = old(self).spec_entries();
                if es.len() == 0 {
                    r is None && final(self).spec_current() == old(self).spec_current()
                } else {
                    let ni = match old(self).spec_current() {
                        Some(c) => (c + 1) % (es.len() as int),
                        None => 0int,
                    };
                    final(self).spec_current() == Some(ni) && r is Some && r->0@ == es[ni].0
                }
            }),
    {
        if self.entries.len() == 0 {
            return None;
        }
        let new_index = match self.current_index {
            Some(current) => (current + 1) % self.entries.len(),
            None => 0,
        };
        self.current_index = Some(new_index);
        Some(self.entries[new_index].id.clone())
    }

    /// Moves focus to the previous entry, starting at the last and wrapping
    /// from the first back to the last. Returns the newly focused
    /// identifier, or nothing when the ring is empty.
    pub fn prev(&mut self) -> (r: Option<FocusId>)
        requires
            old(self).wf(),
        ensures
            final(self).wf(),
            final(self).spec_entries() == old(self).spec_entries(),
            ({
                let es = old(self).spec_entries();
                if es.len() == 0 {
                    r is None && final(self).spec_current() == old(self).spec_current()
                } else {
                    let ni = match old(self).spec_current() {
                        Some(c) => if c == 0 {
                            es.len() - 1
                        } else {
                            c - 1
                        },
                        None => es.len() - 1,
                    };
                    final(self).spec_current() == Some(ni) && r is Some && r->0@ == es[ni].0
                }
            }),
    {
        if self.entries.len() == 0 {
            return None;
        }
        let new_index = match self.current_index {
            Some(current) => if current == 0 {
                self.entries.len() - 1
            } else {
                current - 1
            },
            None => self.entries.len() - 1,
        };
        self.current_index = Some(new_index);
        Some(self.entries[new_index].id.clone())
    }

    /// Focuses the entry with the given identifier, if present.
    pub fn focus(&mut self, id: &FocusId) -> (r: bool)
        requires
            old(self).wf(),
        ensures
            final(self).wf(),
            final(self).spec_entries() == old(self).spec_entries(),
            ({
                let es = old(self).spec_entries();
                match find_id(es, id@, 0) {
                    Some(p) => r && final(self).spec_current() == Some(p),
                    None => !r && final(self).spec_current() == old(self).spec_current(),
                }
            }),
    {
        let ghost es = self.spec_entries();
        match self.find_index(id) {
            Some(p) => {
                proof {
                    lemma_find_id_bounds(es, id@, 0);
                }
                self.current_index = Some(p);
                true
            },
            None => false,
        }
    }

    /// The identifier of the focused entry, if any.
    pub fn current(&self) -> (r: Option<&FocusId>)
        requires
            self.wf(),
        ensures
            match r {
                Some(cid) => self.spec_current() is Some && cid@ == self.spec_entries()[
                    self.spec_current()->0
                ].0,
                None => self.spec_current() is None,
            },
    {
        match self.current_index {
            Some(i) => Some(&self.entries[i].id),
            None => None,
        }
    }

    /// Clears the focus without removing entries.
    pub fn clear_focus(&mut self)
        ensures
            final(self).spec_entries() == old(self).spec_entries(),
            final(self).spec_current() is None,
            old(self).wf() ==> final(self).wf(),
    {
        self.current_index = None;
        proof {
            assert(self.spec_entries() =~= old(self).spec_entries());
        }
    }

    /// Removes all entries and clears the focus.
    pub fn clear(&mut self)
        ensures
            final(self).wf(),
            final(self).spec_entries() == Seq::<(Seq<char>, int)>::empty(),
            final(self).spec_current() is None,
    {
        self.entries.clear();
        self.current_index = None;
        proof {
            assert(self.spec_entries() =~= Seq::<(Seq<char>, int)>::empty());
        }
    }

    /// Whether the identifier is registered.
    pub fn contains(&self, id: &FocusId) -> (r: bool)
        ensures
            r == (find_id(self.spec_entries(), id@, 0) is Some),
    {
        let ghost es = self.spec_entries();
        match self.find_index(id) {
            Some(_) => true,
            None => false,
        }
    }

    /// The identifiers in focus order.
    pub fn iter(&self) -> (r: Vec<FocusId>)
        ensures
            r@.len() == self.spec_entries().len(),
            forall|i: int| 0 <= i < r@.len() ==> r@[i]@ == self.spec_entries()[i].0,
    {
        let n = self.entries.len();
        let mut r: Vec<FocusId> = Vec::new();
        for i in 0..n
            invariant
                n == self.entries@.len(),
                r@.len() == i,
                forall|j: int| 0 <= j < i ==> r@[j]@ == self.entries@[j].id@,
        {
            r.push(self.entries[i].id.clone());
        }
        r
    }
}

} // verus!
