//! The binding registry: a two-level map from key sequences to actions.
//!
//! A [`KeyBindings`] holds global bindings and named contexts of bindings.
//! Looking up with a context name checks that context first and falls back
//! to the global scope; looking up without one checks only the global scope.
//! Registering the same sequence twice in one scope overwrites the earlier
//! action: last write wins.
//!
//! Both levels are stored as lists of pairs with distinct keys and specified
//! as the maps those lists denote.

use vstd::prelude::*;

use super::action::Action;
use super::assoc::{assoc_map, assoc_wf, lemma_assoc_absent, lemma_assoc_contains, lemma_assoc_get,
    lemma_assoc_len, lemma_assoc_push, lemma_assoc_update};
use super::binding::KeyBinding;
use super::parser::{parse_key_sequence, spec_parse_sequence, ParseKeyError, SpecParseError};
use super::sequence::KeySequence;
use super::text::strs_equal;

verus! {

/// The views of a list of sequence-action pairs.
pub open spec fn pairs_of(s: Seq<(KeySequence, Action)>) -> Seq<(Seq<KeyBinding>, Seq<char>)> {
    Seq::new(s.len(), |i: int| (s[i].0@, s[i].1@))
}

/// The map denoted by a list of sequence-action pairs.
pub open spec fn pairs_map(s: Seq<(KeySequence, Action)>) -> Map<Seq<KeyBinding>, Seq<char>> {
    assoc_map(pairs_of(s))
}

/// Finds the position of a sequence in a pair list.
fn find_pair(v: &Vec<(KeySequence, Action)>, sequence: &KeySequence) -> (r: Option<usize>)
    ensures
        match r {
            Some(i) => i < v@.len() && v@[i as int].0@ == sequence@,
            None => forall|i: int| 0 <= i < v@.len() ==> v@[i].0@ != sequence@,
        },
{
    let n = v.len();
    for i in 0..n
        invariant
            n == v@.len(),
            forall|j: int| 0 <= j < i ==> v@[j].0@ != sequence@,
    {
        if v[i].0 == *sequence {
            return Some(i);
        }
    }
    None
}

/// Inserts a binding into a pair list, overwriting an equal key in place.
fn insert_pair(v: &mut Vec<(KeySequence, Action)>, sequence: KeySequence, action: Action)
    requires
        assoc_wf(pairs_of(old(v)@)),
    ensures
        assoc_wf(pairs_of(final(v)@)),
        pairs_map(final(v)@) == pairs_map(old(v)@).insert(sequence@, action@),
{
    let ghost oldp = pairs_of(v@);
    match find_pair(v, &sequence) {
        Some(i) => {
            let ghost sv = sequence@;
            v[i] = (sequence, action);
            proof {
                assert(pairs_of(v@) =~= oldp.update(i as int, (oldp[i as int].0, action@)));
                lemma_assoc_update(oldp, i as int, action@);
                assert(assoc_wf(pairs_of(v@)));
                assert(pairs_map(v@) =~= assoc_map(oldp).insert(sv, action@));
            }
        },
        None => {
            let ghost sv = sequence@;
            let ghost av = action@;
            v.push((sequence, action));
            proof {
                assert(pairs_of(v@) =~= oldp.push((sv, av)));
                lemma_assoc_push(oldp, sv, av);
                assert(assoc_wf(pairs_of(v@)));
            }
        },
    }
}

/// Finds an action by sequence in a pair list.
fn lookup_pair<'a>(v: &'a Vec<(KeySequence, Action)>, sequence: &KeySequence) -> (r: Option<
    &'a Action,
>)
    requires
        assoc_wf(pairs_of(v@)),
    ensures
        match r {
            Some(a) => pairs_map(v@).contains_key(sequence@) && pairs_map(v@)[sequence@] == a@,
            None => !pairs_map(v@).contains_key(sequence@),
        },
{
    match find_pair(v, sequence) {
        Some(i) => {
            proof {
                lemma_assoc_get(pairs_of(v@), i as int);
            }
            Some(&v[i].1)
        },
        None => {
            proof {
                lemma_assoc_absent(pairs_of(v@), sequence@);
            }
            None
        },
    }
}

/// Clones a pair list; the views are preserved.
fn clone_pairs(v: &Vec<(KeySequence, Action)>) -> (r: Vec<(KeySequence, Action)>)
    ensures
        pairs_of(r@) == pairs_of(v@),
{
    let n = v.len();
    let mut r: Vec<(KeySequence, Action)> = Vec::new();
    for i in 0..n
        invariant
            n == v@.len(),
            r@.len() == i,
            forall|j: int| 0 <= j < i ==> r@[j].0@ == v@[j].0@ && r@[j].1@ == v@[j].1@,
    {
        let s = v[i].0.clone();
        let a = v[i].1.clone();
        r.push((s, a));
    }
    proof {
        assert(pairs_of(r@) =~= pairs_of(v@));
    }
    r
}

/// Container for all key bindings, organised as a global scope plus named
/// contexts.
#[derive(Debug)]
pub struct KeyBindings {
    global: Vec<(KeySequence, Action)>,
    contexts: Vec<(String, Vec<(KeySequence, Action)>)>,
}

impl KeyBindings {
    /// The global bindings as a map from key list to action name.
    pub closed spec fn spec_global(&self) -> Map<Seq<KeyBinding>, Seq<char>> {
        pairs_map(self.global@)
    }

    /// The context names, in registration order.
    pub closed spec fn spec_context_names(&self) -> Seq<Seq<char>> {
        Seq::new(self.contexts@.len(), |i: int| self.contexts@[i].0@)
    }

    /// The per-context binding maps, keyed by context name.
    pub closed spec fn spec_contexts(&self) -> Map<Seq<char>, Map<Seq<KeyBinding>, Seq<char>>> {
        assoc_map(
            Seq::new(
                self.contexts@.len(),
                |i: int| (self.contexts@[i].0@, pairs_map(self.contexts@[i].1@)),
            ),
        )
    }

    /// Distinct keys in the global scope, distinct context names, and
    /// distinct keys within each context.
    pub closed spec fn wf(&self) -> bool {
        assoc_wf(pairs_of(self.global@)) && (forall|i: int, j: int|
            0 <= i < j < self.contexts@.len() ==> self.contexts@[i].0@ != self.contexts@[j].0@)
            && (forall|i: int|
            0 <= i < self.contexts@.len() ==> assoc_wf(pairs_of(#[trigger] self.contexts@[i].1@)))
    }

    /// Creates an empty registry.
    pub fn new() -> (r: Self)
        ensures
            r.wf(),
            r.spec_global() == Map::<Seq<KeyBinding>, Seq<char>>::empty(),
            r.spec_contexts() == Map::<Seq<char>, Map<Seq<KeyBinding>, Seq<char>>>::empty(),
            r.spec_context_names() == Seq::<Seq<char>>::empty(),
    {
        let r = KeyBindings { global: Vec::new(), contexts: Vec::new() };
        proof {
            assert(pairs_of(r.global@) =~= Seq::<(Seq<KeyBinding>, Seq<char>)>::empty());
            assert(r.spec_contexts() =~= Map::<Seq<char>, Map<Seq<KeyBinding>, Seq<char>>>::empty());
            assert(r.spec_context_names() =~= Seq::<Seq<char>>::empty());
        }
        r
    }

    /// Creates a builder for fluent construction.
    pub fn builder() -> (r: KeyBindingsBuilder)
        ensures
            r.wf(),
            r.spec_global() == Map::<Seq<KeyBinding>, Seq<char>>::empty(),
            r.spec_contexts() == Map::<Seq<char>, Map<Seq<KeyBinding>, Seq<char>>>::empty(),
            r.spec_errors() == Seq::<SpecParseError>::empty(),
    {
        KeyBindingsBuilder::new()
    }

    /// What a lookup returns: the context's binding for the sequence when the
    /// context exists and has one, else the global binding, else nothing.
    /// Without a context name only the global scope is consulted.
    pub open spec fn lookup_spec(
        ctxs: Map<Seq<char>, Map<Seq<KeyBinding>, Seq<char>>>,
        global: Map<Seq<KeyBinding>, Seq<char>>,
        context: Option<Seq<char>>,
        sequence: Seq<KeyBinding>,
    ) -> Option<Seq<char>> {
        match context {
            Some(c) => if ctxs.contains_key(c) && ctxs[c].contains_key(sequence) {
                Some(ctxs[c][sequence])
            } else if global.contains_key(sequence) {
                Some(global[sequence])
            } else {
                None
            },
            None => if global.contains_key(sequence) {
                Some(global[sequence])
            } else {
                None
            },
        }
    }

    fn find_context(&self, name: &str) -> (r: Option<usize>)
        ensures
            match r {
                Some(i) => i < self.contexts@.len() && self.contexts@[i as int].0@ == name@,
                None => forall|i: int| 0 <= i < self.contexts@.len() ==> self.contexts@[i].0@
                    != name@,
            },
    {
        let n = self.contexts.len();
        for i in 0..n
            invariant
                n == self.contexts@.len(),
                forall|j: int| 0 <= j < i ==> self.contexts@[j].0@ != name@,
        {
            if strs_equal(self.contexts[i].0.as_str(), name) {
                return Some(i);
            }
        }
        None
    }

    /// Looks up the action bound to a sequence, checking the named context
    /// first and falling back to the global scope.
    pub fn lookup(&self, context: Option<&str>, sequence: &KeySequence) -> (r: Option<&Action>)
        requires
            self.wf(),
        ensures
            match r {
                Some(a) => Self::lookup_spec(
                    self.spec_contexts(),
                    self.spec_global(),
                    match context {
                        Some(c) => Some(c@),
                        None => None,
                    },
                    sequence@,
                ) == Some(a@),
                None => Self::lookup_spec(
                    self.spec_contexts(),
                    self.spec_global(),
                    match context {
                        Some(c) => Some(c@),
                        None => None,
                    },
                    sequence@,
                ) is None,
            },
    {
        let ghost cp = Seq::new(
            self.contexts@.len(),
            |i: int| (self.contexts@[i].0@, pairs_map(self.contexts@[i].1@)),
        );
        match context {
            Some(ctx_name) => {
                match self.find_context(ctx_name) {
                    Some(i) => {
                        proof {
                            lemma_assoc_get(cp, i as int);
                        }
                        match lookup_pair(&self.contexts[i].1, sequence) {
                            Some(action) => {
                                return Some(action);
                            },
                            None => {},
                        }
                    },
                    None => {
                        proof {
                            lemma_assoc_absent(cp, ctx_name@);
                        }
                    },
                }
            },
            None => {},
        }
        lookup_pair(&self.global, sequence)
    }

    /// Looks up the action bound to a single key binding.
    pub fn lookup_key(&self, context: Option<&str>, binding: &KeyBinding) -> (r: Option<&Action>)
        requires
            self.wf(),
        ensures
            match r {
                Some(a) => Self::lookup_spec(
                    self.spec_contexts(),
                    self.spec_global(),
                    match context {
                        Some(c) => Some(c@),
                        None => None,
                    },
                    seq![*binding],
                ) == Some(a@),
                None => Self::lookup_spec(
                    self.spec_contexts(),
                    self.spec_global(),
                    match context {
                        Some(c) => Some(c@),
                        None => None,
                    },
                    seq![*binding],
                ) is None,
            },
    {
        let sequence = KeySequence::single(*binding);
        self.lookup(context, &sequence)
    }

    /// The global bindings, as sequence-action pairs in registration order.
    pub fn global_bindings(&self) -> (r: &Vec<(KeySequence, Action)>)
        ensures
            pairs_map(r@) == self.spec_global(),
    {
        &self.global
    }

    /// The bindings of a named context, if it exists.
    pub fn context_bindings(&self, context: &str) -> (r: Option<&Vec<(KeySequence, Action)>>)
        requires
            self.wf(),
        ensures
            match r {
                Some(v) => self.spec_contexts().contains_key(context@) && pairs_map(v@)
                    == self.spec_contexts()[context@],
                None => !self.spec_contexts().contains_key(context@),
            },
    {
        let ghost cp = Seq::new(
            self.contexts@.len(),
            |i: int| (self.contexts@[i].0@, pairs_map(self.contexts@[i].1@)),
        );
        match self.find_context(context) {
            Some(i) => {
                proof {
                    lemma_assoc_get(cp, i as int);
                }
                Some(&self.contexts[i].1)
            },
            None => {
                proof {
                    lemma_assoc_absent(cp, context@);
                }
                None
            },
        }
    }

    /// The context names, in registration order.
    pub fn context_names(&self) -> (r: Vec<String>)
        ensures
            r.deep_view() == self.spec_context_names(),
    {
        let n = self.contexts.len();
        let mut r: Vec<String> = Vec::new();
        for i in 0..n
            invariant
                n == self.contexts@.len(),
                r@.len() == i,
                forall|j: int| 0 <= j < i ==> r@[j]@ == self.contexts@[j].0@,
        {
            r.push(self.contexts[i].0.clone());
        }
        proof {
            assert(r.deep_view() =~~= self.spec_context_names());
        }
        r
    }

    /// The number of global bindings.
    pub fn global_count(&self) -> (r: usize)
        requires
            self.wf(),
        ensures
            r == self.spec_global().len(),
    {
        proof {
            lemma_assoc_len(pairs_of(self.global@));
        }
        self.global.len()
    }

    /// The number of stored bindings up to context position `i`: the global
    /// entries plus each earlier context's entries.
    pub closed spec fn spec_count_upto(&self, i: int) -> int
        decreases i,
    {
        if i <= 0 {
            self.global@.len() as int
        } else {
            self.spec_count_upto(i - 1) + self.contexts@[i - 1].1@.len()
        }
    }

    /// The total number of bindings over the global scope and all contexts.
    pub closed spec fn spec_total_count(&self) -> int {
        self.spec_count_upto(self.contexts@.len() as int)
    }

    /// The total number of bindings over the global scope and all contexts,
    /// saturated at `usize::MAX`. With well-formed (distinct) keys this is
    /// the global map's size plus the size of every context's map.
    pub fn total_count(&self) -> (r: usize)
        requires
            self.wf(),
        ensures
            r == (if self.spec_total_count() <= usize::MAX {
                self.spec_total_count()
            } else {
                usize::MAX as int
            }),
            r >= self.spec_global().len(),
    {
        proof {
            lemma_assoc_len(pairs_of(self.global@));
        }
        let mut count = self.global.len();
        let n = self.contexts.len();
        for i in 0..n
            invariant
                n == self.contexts@.len(),
                count == (if self.spec_count_upto(i as int) <= usize::MAX {
                    self.spec_count_upto(i as int)
                } else {
                    usize::MAX as int
                }),
                count >= self.global@.len(),
        {
            let c = self.contexts[i].1.len();
            count = count.saturating_add(c);
        }
        proof {
            lemma_assoc_len(pairs_of(self.global@));
        }
        count
    }

    /// Merges another registry into this one. `other`'s global bindings
    /// overwrite equal global keys; each of `other`'s contexts is merged
    /// key-by-key into the same-named context, creating it if absent.
    pub fn merge(&mut self, other: KeyBindings)
        requires
            old(self).wf(),
            other.wf(),
        ensures
            final(self).wf(),
            final(self).spec_global() == old(self).spec_global().union_prefer_right(
                other.spec_global(),
            ),
            forall|n: Seq<char>|
                final(self).spec_contexts().contains_key(n) <==> old(self).spec_contexts().contains_key(n) || other.spec_contexts().contains_key(n),
            forall|n: Seq<char>|
                old(self).spec_contexts().contains_key(n) && !other.spec_contexts().contains_key(
                    n,
                ) ==> final(self).spec_contexts()[n] == old(self).spec_contexts()[n],
            forall|n: Seq<char>|
                !old(self).spec_contexts().contains_key(n) && other.spec_contexts().contains_key(
                    n,
                ) ==> final(self).spec_contexts()[n] == other.spec_contexts()[n],
            forall|n: Seq<char>|
                old(self).spec_contexts().contains_key(n) && other.spec_contexts().contains_key(
                    n,
                ) ==> final(self).spec_contexts()[n] == old(self).spec_contexts()[
                    n
                ].union_prefer_right(other.spec_contexts()[n]),
    {
        merge_globals(&mut self.global, &other.global);
        let n = other.contexts.len();
        let ghost oldc = old(self).spec_contexts();
        let ghost others = cviews(other.contexts@);
        for i in 0..n
            invariant
                n == other.contexts@.len(),
                others == cviews(other.contexts@),
                n == others.len(),
                other.wf(),
                forall|k: int, l: int| 0 <= k < l < n ==> others[k].0 != others[l].0,
                self.wf(),
                self.spec_global() == old(self).spec_global().union_prefer_right(
                    pairs_map(other.global@),
                ),
                merge_ctx_maps(oldc, others, 0) == merge_ctx_maps(
                    self.spec_contexts(),
                    others,
                    i as int,
                ),
        {
            let name = other.contexts[i].0.clone();
            let ghost prev = self.spec_contexts();
            let ghost prevviews = cviews(self.contexts@);
            proof {
                assert(others[i as int] == (name@, pairs_map(other.contexts@[i as int].1@)));
            }
            match self.find_context(name.as_str()) {
                Some(j) => {
                    let ghost prevc = self.contexts@;
                    proof {
                        lemma_assoc_get(prevviews, j as int);
                    }
                    merge_globals(&mut self.contexts[j].1, &other.contexts[i].1);
                    proof {
                        assert(self.contexts@.len() == prevc.len());
                        assert(forall|k: int|
                            0 <= k < prevc.len() && k != j ==> self.contexts@[k] == prevc[k]);
                        assert(self.contexts@[j as int].0 == prevc[j as int].0);
                        assert(cviews(self.contexts@) =~= prevviews.update(
                            j as int,
                            (
                                prevviews[j as int].0,
                                prevviews[j as int].1.union_prefer_right(others[i as int].1),
                            ),
                        ));
                        lemma_assoc_update(
                            prevviews,
                            j as int,
                            prevviews[j as int].1.union_prefer_right(others[i as int].1),
                        );
                        assert(self.spec_contexts() == prev.insert(
                            name@,
                            prev[name@].union_prefer_right(others[i as int].1),
                        ));
                        assert(self.wf());
                    }
                },
                None => {
                    let entries = clone_pairs(&other.contexts[i].1);
                    self.contexts.push((name, entries));
                    proof {
                        assert(cviews(self.contexts@) =~= prevviews.push(
                            (name@, others[i as int].1),
                        ));
                        lemma_assoc_push(prevviews, name@, others[i as int].1);
                        lemma_assoc_absent(prevviews, name@);
                        assert(self.spec_contexts() == prev.insert(name@, others[i as int].1));
                        assert(assoc_wf(pairs_of(other.contexts@[i as int].1@)));
                        assert(self.wf());
                    }
                },
            }
        }
        proof {
            lemma_merge_ctx_char(oldc, others, 0);
            let otherviews = cviews(other.contexts@);
            assert forall|nm: Seq<char>| other.spec_contexts().contains_key(nm) implies exists|
                k: int,
            | 0 <= k < otherviews.len() && otherviews[k].0 == nm by {
                lemma_assoc_contains(otherviews, nm);
            };
            assert forall|k: int| 0 <= k < otherviews.len() implies
                other.spec_contexts().contains_key(#[trigger] otherviews[k].0)
                && other.spec_contexts()[otherviews[k].0] == otherviews[k].1 by {
                lemma_assoc_get(otherviews, k);
            };
        }
    }
}

/// The (name, binding map) views of a stored context list.
pub open spec fn cviews(cs: Seq<(String, Vec<(KeySequence, Action)>)>) -> Seq<
    (Seq<char>, Map<Seq<KeyBinding>, Seq<char>>),
> {
    Seq::new(cs.len(), |i: int| (cs[i].0@, pairs_map(cs[i].1@)))
}

/// The context map after merging `others[i..]` into `base`, in order: each
/// entry is unioned into the same-named context, or added when absent.
pub open spec fn merge_ctx_maps(
    base: Map<Seq<char>, Map<Seq<KeyBinding>, Seq<char>>>,
    others: Seq<(Seq<char>, Map<Seq<KeyBinding>, Seq<char>>)>,
    i: int,
) -> Map<Seq<char>, Map<Seq<KeyBinding>, Seq<char>>>
    decreases others.len() - i,
{
    if i < 0 || i >= others.len() {
        base
    } else {
        let nm = others[i].0;
        let m = others[i].1;
        let nb = if base.contains_key(nm) {
            base.insert(nm, base[nm].union_prefer_right(m))
        } else {
            base.insert(nm, m)
        };
        merge_ctx_maps(nb, others, i + 1)
    }
}

/// Characterises [`merge_ctx_maps`] per name, for lists with distinct names:
/// a name keeps its base map, takes the other's map, or takes the union,
/// according to where it occurs.
proof fn lemma_merge_ctx_char(
    base: Map<Seq<char>, Map<Seq<KeyBinding>, Seq<char>>>,
    others: Seq<(Seq<char>, Map<Seq<KeyBinding>, Seq<char>>)>,
    i: int,
)
    requires
        0 <= i <= others.len(),
        forall|k: int, l: int| 0 <= k < l < others.len() ==> others[k].0 != others[l].0,
    ensures
        forall|nm: Seq<char>|
            merge_ctx_maps(base, others, i).contains_key(nm) <==> base.contains_key(nm) || exists|
                k: int,
            | i <= k < others.len() && others[k].0 == nm,
        forall|nm: Seq<char>|
            (forall|k: int| i <= k < others.len() ==> others[k].0 != nm) && base.contains_key(nm)
                ==> merge_ctx_maps(base, others, i)[nm] == base[nm],
        forall|k: int|
            i <= k < others.len() && base.contains_key(#[trigger] others[k].0) ==> merge_ctx_maps(
                base,
                others,
                i,
            )[others[k].0] == base[others[k].0].union_prefer_right(others[k].1),
        forall|k: int|
            i <= k < others.len() && !base.contains_key(#[trigger] others[k].0) ==> merge_ctx_maps(
                base,
                others,
                i,
            )[others[k].0] == others[k].1,
    decreases others.len() - i,
{
    if i < others.len() {
        let nm0 = others[i].0;
        let m0 = others[i].1;
        let nb = if base.contains_key(nm0) {
            base.insert(nm0, base[nm0].union_prefer_right(m0))
        } else {
            base.insert(nm0, m0)
        };
        let r = merge_ctx_maps(base, others, i);
        assert(r == merge_ctx_maps(nb, others, i + 1));
        lemma_merge_ctx_char(nb, others, i + 1);
        assert(forall|k: int| i + 1 <= k < others.len() ==> others[k].0 != nm0);
        assert forall|nm: Seq<char>|
            r.contains_key(nm) <==> base.contains_key(nm) || exists|k: int|
                i <= k < others.len() && others[k].0 == nm by {
            if r.contains_key(nm) {
                assert(nb.contains_key(nm) || exists|k: int|
                    i + 1 <= k < others.len() && others[k].0 == nm);
                if nb.contains_key(nm) {
                    if nm == nm0 {
                        assert(others[i].0 == nm);
                        assert(exists|k: int| i <= k < others.len() && others[k].0 == nm);
                    } else {
                        assert(base.contains_key(nm));
                    }
                } else {
                    let k = choose|k: int|
                        i + 1 <= k < others.len() && others[k].0 == nm;
                    assert(i <= k < others.len() && others[k].0 == nm);
                }
            }
            if base.contains_key(nm) {
                assert(nb.contains_key(nm));
                assert(r.contains_key(nm));
            }
            if exists|k: int| i <= k < others.len() && others[k].0 == nm {
                let k = choose|k: int| i <= k < others.len() && others[k].0 == nm;
                if k == i {
                    assert(nb.contains_key(nm));
                    assert(r.contains_key(nm));
                } else {
                    assert(i + 1 <= k < others.len() && others[k].0 == nm);
                    assert(r.contains_key(nm));
                }
            }
        };
        assert forall|nm: Seq<char>|
            (forall|k: int| i <= k < others.len() ==> others[k].0 != nm) && base.contains_key(nm)
                implies r[nm] == base[nm] by {
            assert(nm != nm0);
            assert(nb.contains_key(nm) && nb[nm] == base[nm]);
        };
        assert forall|k: int|
            i <= k < others.len() && base.contains_key(#[trigger] others[k].0) implies r[
            others[k].0] == base[others[k].0].union_prefer_right(others[k].1) by {
            if k == i {
                assert(nb.contains_key(nm0) && nb[nm0] == base[nm0].union_prefer_right(m0));
                assert(forall|l: int| i + 1 <= l < others.len() ==> others[l].0 != nm0);
                assert(r[nm0] == nb[nm0]);
            } else {
                assert(others[k].0 != nm0);
                assert(nb.contains_key(others[k].0) && nb[others[k].0] == base[others[k].0]);
            }
        };
        assert forall|k: int|
            i <= k < others.len() && !base.contains_key(#[trigger] others[k].0) implies r[
            others[k].0] == others[k].1 by {
            if k == i {
                assert(nb.contains_key(nm0) && nb[nm0] == m0);
                assert(forall|l: int| i + 1 <= l < others.len() ==> others[l].0 != nm0);
                assert(r[nm0] == nb[nm0]);
            } else {
                assert(others[k].0 != nm0);
                assert(!nb.contains_key(others[k].0));
            }
        };
    }
}

/// Inserting every pair of `src` into `dst`, in order, leaves `dst` holding
/// the union of the two maps, with `src`'s entries winning.
fn merge_globals(dst: &mut Vec<(KeySequence, Action)>, src: &Vec<(KeySequence, Action)>)
    requires
        assoc_wf(pairs_of(old(dst)@)),
    ensures
        assoc_wf(pairs_of(final(dst)@)),
        pairs_map(final(dst)@) == pairs_map(old(dst)@).union_prefer_right(pairs_map(src@)),
{
    let n = src.len();
    for i in 0..n
        invariant
            n == src@.len(),
            assoc_wf(pairs_of(dst@)),
            pairs_map(dst@) == pairs_map(old(dst)@).union_prefer_right(
                assoc_map(pairs_of(src@).take(i as int)),
            ),
    {
        let s = src[i].0.clone();
        let a = src[i].1.clone();
        let ghost sv = s@;
        let ghost av = a@;
        insert_pair(dst, s, a);
        proof {
            let p = pairs_of(src@);
            assert(p.take(i + 1).drop_last() =~= p.take(i as int));
            assert(p.take(i + 1).last() == (sv, av));
            assert(pairs_map(dst@) =~= pairs_map(old(dst)@).union_prefer_right(
                assoc_map(p.take(i + 1)),
            ));
        }
    }
    proof {
        assert(pairs_of(src@).take(n as int) =~= pairs_of(src@));
        if n == 0 {
            assert(pairs_map(dst@) =~= pairs_map(old(dst)@).union_prefer_right(
                assoc_map(pairs_of(src@)),
            ));
        }
    }
}


impl Default for KeyBindings {
    /// The default registry: empty.
    fn default() -> (r: Self)
        ensures
            r.wf(),
            r.spec_global() == Map::<Seq<KeyBinding>, Seq<char>>::empty(),
            r.spec_contexts() == Map::<Seq<char>, Map<Seq<KeyBinding>, Seq<char>>>::empty(),
    {
        KeyBindings::new()
    }
}

/// One `bind` call on a (global map, error list) state: a parse success
/// inserts the binding, a failure records the error.
pub open spec fn bind_step(
    g: Map<Seq<KeyBinding>, Seq<char>>,
    errs: Seq<SpecParseError>,
    action: Seq<char>,
    keys: Seq<char>,
) -> (Map<Seq<KeyBinding>, Seq<char>>, Seq<SpecParseError>) {
    match spec_parse_sequence(keys) {
        Ok(bs) => (g.insert(bs, action), errs),
        Err(e) => (g, errs.push(e)),
    }
}

/// `bind` applied to each of `keyss[i..]` in order, for one action.
pub open spec fn bind_multi_step(
    g: Map<Seq<KeyBinding>, Seq<char>>,
    errs: Seq<SpecParseError>,
    action: Seq<char>,
    keyss: Seq<Seq<char>>,
    i: int,
) -> (Map<Seq<KeyBinding>, Seq<char>>, Seq<SpecParseError>)
    decreases keyss.len() - i,
{
    if i < 0 || i >= keyss.len() {
        (g, errs)
    } else {
        let st = bind_step(g, errs, action, keyss[i]);
        bind_multi_step(st.0, st.1, action, keyss, i + 1)
    }
}

/// Builder for [`KeyBindings`]. Parse failures do not stop the build; they
/// accumulate and can be inspected, or turned into a failure by
/// [`KeyBindingsBuilder::try_build`].
#[derive(Debug)]
pub struct KeyBindingsBuilder {
    global: Vec<(KeySequence, Action)>,
    contexts: Vec<(String, Vec<(KeySequence, Action)>)>,
    errors: Vec<ParseKeyError>,
}

impl KeyBindingsBuilder {
    /// The global bindings collected so far, as a map.
    pub closed spec fn spec_global(&self) -> Map<Seq<KeyBinding>, Seq<char>> {
        pairs_map(self.global@)
    }

    /// The contexts collected so far, as a map of maps.
    pub closed spec fn spec_contexts(&self) -> Map<Seq<char>, Map<Seq<KeyBinding>, Seq<char>>> {
        assoc_map(cviews(self.contexts@))
    }

    /// The parse errors collected so far.
    pub closed spec fn spec_errors(&self) -> Seq<SpecParseError> {
        Seq::new(self.errors@.len(), |i: int| self.errors@[i]@)
    }

    /// Distinct keys and context names.
    pub closed spec fn wf(&self) -> bool {
        assoc_wf(pairs_of(self.global@)) && (forall|i: int, j: int|
            0 <= i < j < self.contexts@.len() ==> self.contexts@[i].0@ != self.contexts@[j].0@)
            && (forall|i: int|
            0 <= i < self.contexts@.len() ==> assoc_wf(pairs_of(#[trigger] self.contexts@[i].1@)))
    }

    /// Creates an empty builder.
    pub fn new() -> (r: Self)
        ensures
            r.wf(),
            r.spec_global() == Map::<Seq<KeyBinding>, Seq<char>>::empty(),
            r.spec_contexts() == Map::<Seq<char>, Map<Seq<KeyBinding>, Seq<char>>>::empty(),
            r.spec_errors() == Seq::<SpecParseError>::empty(),
    {
        let r = KeyBindingsBuilder { global: Vec::new(), contexts: Vec::new(), errors: Vec::new() };
        proof {
            assert(pairs_of(r.global@) =~= Seq::<(Seq<KeyBinding>, Seq<char>)>::empty());
            assert(r.spec_contexts() =~= Map::<Seq<char>, Map<Seq<KeyBinding>, Seq<char>>>::empty());
            assert(r.spec_errors() =~= Seq::<SpecParseError>::empty());
        }
        r
    }

    /// Binds an action to a key-combination string, parsed with
    /// [`parse_key_sequence`]. A parse failure is recorded and the binding
    /// skipped.
    pub fn bind(self, action: &str, keys: &str) -> (r: Self)
        requires
            self.wf(),
        ensures
            r.wf(),
            r.spec_contexts() == self.spec_contexts(),
            ({
                let st = bind_step(self.spec_global(), self.spec_errors(), action@, keys@);
                r.spec_global() == st.0 && r.spec_errors() == st.1
            }),
    {
        let mut b = self;
        match parse_key_sequence(keys) {
            Ok(sequence) => {
                insert_pair(&mut b.global, sequence, Action::new(action));
            },
            Err(e) => {
                let ghost ev = e@;
                b.errors.push(e);
                proof {
                    assert(b.spec_errors() =~= Seq::new(
                        (b.errors@.len() - 1) as nat,
                        |i: int| b.errors@[i]@,
                    ).push(ev));
                }
            },
        }
        b
    }

    /// Binds an action to several key-combination strings.
    pub fn bind_multi(self, action: &str, keys: &[&str]) -> (r: Self)
        requires
            self.wf(),
        ensures
            r.wf(),
            r.spec_contexts() == self.spec_contexts(),
            ({
                let keyss = Seq::new(keys@.len(), |i: int| keys@[i]@);
                let st = bind_multi_step(
                    self.spec_global(),
                    self.spec_errors(),
                    action@,
                    keyss,
                    0,
                );
                r.spec_global() == st.0 && r.spec_errors() == st.1
            }),
    {
        let ghost keyss = Seq::new(keys@.len(), |i: int| keys@[i]@);
        let n = keys.len();
        let mut b = self;
        for i in 0..n
            invariant
                n == keys@.len(),
                keyss == Seq::new(keys@.len(), |k: int| keys@[k]@),
                b.wf(),
                b.spec_contexts() == self.spec_contexts(),
                bind_multi_step(self.spec_global(), self.spec_errors(), action@, keyss, 0)
                    == bind_multi_step(b.spec_global(), b.spec_errors(), action@, keyss, i as int),
        {
            let key_str: &str = keys[i];
            b = b.bind(action, key_str);
        }
        b
    }

    /// Binds an action to an already-constructed key sequence.
    pub fn bind_sequence(self, sequence: KeySequence, action: &str) -> (r: Self)
        requires
            self.wf(),
        ensures
            r.wf(),
            r.spec_contexts() == self.spec_contexts(),
            r.spec_errors() == self.spec_errors(),
            r.spec_global() == self.spec_global().insert(sequence@, action@),
    {
        let mut b = self;
        insert_pair(&mut b.global, sequence, Action::new(action));
        b
    }

    /// Binds an action to a single key binding.
    pub fn bind_key(self, binding: KeyBinding, action: &str) -> (r: Self)
        requires
            self.wf(),
        ensures
            r.wf(),
            r.spec_contexts() == self.spec_contexts(),
            r.spec_errors() == self.spec_errors(),
            r.spec_global() == self.spec_global().insert(seq![binding], action@),
    {
        self.bind_sequence(KeySequence::single(binding), action)
    }

    /// Adds (or wholesale replaces) a named context with the bindings of a
    /// [`ContextBuilder`], and takes over its parse errors.
    pub fn context(self, name: &str, ctx: ContextBuilder) -> (r: Self)
        requires
            self.wf(),
            ctx.wf(),
        ensures
            r.wf(),
            r.spec_global() == self.spec_global(),
            r.spec_contexts() == self.spec_contexts().insert(name@, ctx.spec_map()),
            r.spec_errors() == self.spec_errors() + ctx.spec_errors(),
    {
        let mut b = self;
        let ghost prevviews = cviews(b.contexts@);
        let ghost preverrs = b.spec_errors();
        let ContextBuilder { bindings: ctx_bindings, errors: mut ctx_errors } = ctx;
        let ghost ctxerrs = Seq::new(ctx_errors@.len(), |i: int| ctx_errors@[i]@);
        let mut found: Option<usize> = None;
        let m = b.contexts.len();
        for i in 0..m
            invariant
                m == b.contexts@.len(),
                match found {
                    Some(j) => j < m && b.contexts@[j as int].0@ == name@,
                    None => forall|j: int| 0 <= j < i ==> b.contexts@[j].0@ != name@,
                },
        {
            if found.is_none() {
                if strs_equal(b.contexts[i].0.as_str(), name) {
                    found = Some(i);
                }
            }
        }
        match found {
            Some(j) => {
                b.contexts[j] = (name.to_owned(), ctx_bindings);
                proof {
                    assert(cviews(b.contexts@) =~= prevviews.update(
                        j as int,
                        (prevviews[j as int].0, pairs_map(b.contexts@[j as int].1@)),
                    ));
                    lemma_assoc_update(prevviews, j as int, pairs_map(b.contexts@[j as int].1@));
                }
            },
            None => {
                b.contexts.push((name.to_owned(), ctx_bindings));
                proof {
                    assert(cviews(b.contexts@) =~= prevviews.push(
                        (name@, pairs_map(b.contexts@.last().1@)),
                    ));
                    lemma_assoc_push(prevviews, name@, pairs_map(b.contexts@.last().1@));
                }
            },
        }
        let ghost before_append = b.spec_errors();
        proof {
            assert(before_append == preverrs);
        }
        b.errors.append(&mut ctx_errors);
        proof {
            assert(b.spec_errors() =~= preverrs + ctxerrs);
        }
        b
    }

    /// The parse errors encountered so far.
    pub fn errors(&self) -> (r: &Vec<ParseKeyError>)
        ensures
            r@.len() == self.spec_errors().len(),
            forall|i: int| 0 <= i < r@.len() ==> r@[i]@ == self.spec_errors()[i],
    {
        &self.errors
    }

    /// Whether any parse errors occurred.
    pub fn has_errors(&self) -> (r: bool)
        ensures
            r == (self.spec_errors().len() > 0),
    {
        self.errors.len() > 0
    }

    /// Builds the bindings, ignoring any parse errors.
    pub fn build(self) -> (r: KeyBindings)
        requires
            self.wf(),
        ensures
            r.wf(),
            r.spec_global() == self.spec_global(),
            r.spec_contexts() == self.spec_contexts(),
    {
        KeyBindings { global: self.global, contexts: self.contexts }
    }

    /// Builds the bindings, failing with the collected errors if any key
    /// string failed to parse.
    pub fn try_build(self) -> (r: Result<KeyBindings, Vec<ParseKeyError>>)
        requires
            self.wf(),
        ensures
            match r {
                Ok(kb) => self.spec_errors().len() == 0 && kb.wf() && kb.spec_global()
                    == self.spec_global() && kb.spec_contexts() == self.spec_contexts(),
                Err(es) => self.spec_errors().len() > 0 && es@.len() == self.spec_errors().len()
                    && forall|i: int| 0 <= i < es@.len() ==> es@[i]@ == self.spec_errors()[i],
            },
    {
        if self.errors.len() == 0 {
            Ok(KeyBindings { global: self.global, contexts: self.contexts })
        } else {
            Err(self.errors)
        }
    }
}

/// Builder for the bindings of one named context.
#[derive(Debug)]
pub struct ContextBuilder {
    bindings: Vec<(KeySequence, Action)>,
    errors: Vec<ParseKeyError>,
}

impl ContextBuilder {
    /// The bindings collected so far, as a map.
    pub closed spec fn spec_map(&self) -> Map<Seq<KeyBinding>, Seq<char>> {
        pairs_map(self.bindings@)
    }

    /// The parse errors collected so far.
    pub closed spec fn spec_errors(&self) -> Seq<SpecParseError> {
        Seq::new(self.errors@.len(), |i: int| self.errors@[i]@)
    }

    /// Distinct keys.
    pub closed spec fn wf(&self) -> bool {
        assoc_wf(pairs_of(self.bindings@))
    }

    /// Creates an empty context builder.
    pub fn new() -> (r: Self)
        ensures
            r.wf(),
            r.spec_map() == Map::<Seq<KeyBinding>, Seq<char>>::empty(),
            r.spec_errors() == Seq::<SpecParseError>::empty(),
    {
        let r = ContextBuilder { bindings: Vec::new(), errors: Vec::new() };
        proof {
            assert(pairs_of(r.bindings@) =~= Seq::<(Seq<KeyBinding>, Seq<char>)>::empty());
            assert(r.spec_errors() =~= Seq::<SpecParseError>::empty());
        }
        r
    }

    /// Binds an action to a key-combination string within this context.
    pub fn bind(self, action: &str, keys: &str) -> (r: Self)
        requires
            self.wf(),
        ensures
            r.wf(),
            ({
                let st = bind_step(self.spec_map(), self.spec_errors(), action@, keys@);
                r.spec_map() == st.0 && r.spec_errors() == st.1
            }),
    {
        let mut b = self;
        match parse_key_sequence(keys) {
            Ok(sequence) => {
                insert_pair(&mut b.bindings, sequence, Action::new(action));
            },
            Err(e) => {
                let ghost ev = e@;
                b.errors.push(e);
                proof {
                    assert(b.spec_errors() =~= Seq::new(
                        (b.errors@.len() - 1) as nat,
                        |i: int| b.errors@[i]@,
                    ).push(ev));
                }
            },
        }
        b
    }

    /// Binds an action to several key-combination strings within this
    /// context.
    pub fn bind_multi(self, action: &str, keys: &[&str]) -> (r: Self)
        requires
            self.wf(),
        ensures
            r.wf(),
            ({
                let keyss = Seq::new(keys@.len(), |i: int| keys@[i]@);
                let st = bind_multi_step(self.spec_map(), self.spec_errors(), action@, keyss, 0);
                r.spec_map() == st.0 && r.spec_errors() == st.1
            }),
    {
        let ghost keyss = Seq::new(keys@.len(), |i: int| keys@[i]@);
        let n = keys.len();
        let mut b = self;
        for i in 0..n
            invariant
                n == keys@.len(),
                keyss == Seq::new(keys@.len(), |k: int| keys@[k]@),
                b.wf(),
                bind_multi_step(self.spec_map(), self.spec_errors(), action@, keyss, 0)
                    == bind_multi_step(b.spec_map(), b.spec_errors(), action@, keyss, i as int),
        {
            let key_str: &str = keys[i];
            b = b.bind(action, key_str);
        }
        b
    }

    /// Binds an action to an already-constructed key sequence within this
    /// context.
    pub fn bind_sequence(self, sequence: KeySequence, action: &str) -> (r: Self)
        requires
            self.wf(),
        ensures
            r.wf(),
            r.spec_errors() == self.spec_errors(),
            r.spec_map() == self.spec_map().insert(sequence@, action@),
    {
        let mut b = self;
        insert_pair(&mut b.bindings, sequence, Action::new(action));
        b
    }

    /// Binds an action to a single key binding within this context.
    pub fn bind_key(self, binding: KeyBinding, action: &str) -> (r: Self)
        requires
            self.wf(),
        ensures
            r.wf(),
            r.spec_errors() == self.spec_errors(),
            r.spec_map() == self.spec_map().insert(seq![binding], action@),
    {
        self.bind_sequence(KeySequence::single(binding), action)
    }
}


/// Spec-level mirror of [`KeyOrKeys`].
pub enum SpecKeyOrKeys {
    Single(Seq<char>),
    Multiple(Seq<Seq<char>>),
}

/// One key-combination string, or several, bound to one action in a
/// configuration file.
#[derive(Debug, Clone)]
pub enum KeyOrKeys {
    /// A single key-combination string.
    Single(String),
    /// Several key-combination strings for the same action.
    Multiple(Vec<String>),
}

impl View for KeyOrKeys {
    type V = SpecKeyOrKeys;

    open spec fn view(&self) -> SpecKeyOrKeys {
        match self {
            KeyOrKeys::Single(s) => SpecKeyOrKeys::Single(s@),
            KeyOrKeys::Multiple(v) => SpecKeyOrKeys::Multiple(v.deep_view()),
        }
    }
}

/// Configuration form of the bindings: action names mapped to key strings,
/// in a global table and per-context tables. The surrounding application
/// deserialises a file into this shape.
#[derive(Debug)]
pub struct KeyBindingsConfig {
    /// Global bindings: (action name, keys) pairs.
    pub global: Vec<(String, KeyOrKeys)>,
    /// Context bindings: (context name, entries) pairs.
    pub contexts: Vec<(String, Vec<(String, KeyOrKeys)>)>,
}

/// The configuration entries of one scope, viewed.
pub open spec fn cfg_entries(s: Seq<(String, KeyOrKeys)>) -> Seq<(Seq<char>, SpecKeyOrKeys)> {
    Seq::new(s.len(), |i: int| (s[i].0@, s[i].1@))
}

/// One scope's entries applied to a (map, errors) state, in order.
pub open spec fn cfg_scope_step(
    g: Map<Seq<KeyBinding>, Seq<char>>,
    errs: Seq<SpecParseError>,
    entries: Seq<(Seq<char>, SpecKeyOrKeys)>,
    i: int,
) -> (Map<Seq<KeyBinding>, Seq<char>>, Seq<SpecParseError>)
    decreases entries.len() - i,
{
    if i < 0 || i >= entries.len() {
        (g, errs)
    } else {
        let st = match entries[i].1 {
            SpecKeyOrKeys::Single(k) => bind_step(g, errs, entries[i].0, k),
            SpecKeyOrKeys::Multiple(ks) => bind_multi_step(g, errs, entries[i].0, ks, 0),
        };
        cfg_scope_step(st.0, st.1, entries, i + 1)
    }
}

/// The context tables applied in order: each context's entries build its map
/// from empty, and its errors are appended.
pub open spec fn cfg_ctxs_step(
    ctxs: Map<Seq<char>, Map<Seq<KeyBinding>, Seq<char>>>,
    errs: Seq<SpecParseError>,
    centries: Seq<(Seq<char>, Seq<(Seq<char>, SpecKeyOrKeys)>)>,
    i: int,
) -> (Map<Seq<char>, Map<Seq<KeyBinding>, Seq<char>>>, Seq<SpecParseError>)
    decreases centries.len() - i,
{
    if i < 0 || i >= centries.len() {
        (ctxs, errs)
    } else {
        let st = cfg_scope_step(
            Map::empty(),
            Seq::empty(),
            centries[i].1,
            0,
        );
        cfg_ctxs_step(ctxs.insert(centries[i].0, st.0), errs + st.1, centries, i + 1)
    }
}

impl KeyBindingsConfig {
    /// The viewed context tables.
    pub open spec fn spec_centries(&self) -> Seq<(Seq<char>, Seq<(Seq<char>, SpecKeyOrKeys)>)> {
        Seq::new(self.contexts@.len(), |i: int| (
            self.contexts@[i].0@,
            cfg_entries(self.contexts@[i].1@),
        ))
    }

    /// Converts the configuration into a [`KeyBindings`]: every key string
    /// is parsed and registered; if any failed, all collected errors are
    /// returned instead.
    pub fn into_key_bindings(self) -> (r: Result<KeyBindings, Vec<ParseKeyError>>)
        ensures
            ({
                let gst = cfg_scope_step(
                    Map::empty(),
                    Seq::empty(),
                    cfg_entries(self.global@),
                    0,
                );
                let cst = cfg_ctxs_step(
                    Map::<Seq<char>, Map<Seq<KeyBinding>, Seq<char>>>::empty(),
                    gst.1,
                    self.spec_centries(),
                    0,
                );
                match r {
                    Ok(kb) => cst.1.len() == 0 && kb.wf() && kb.spec_global() == gst.0
                        && kb.spec_contexts() == cst.0,
                    Err(es) => cst.1.len() > 0 && es@.len() == cst.1.len() && forall|k: int|
                        0 <= k < es@.len() ==> es@[k]@ == cst.1[k],
                }
            }),
    {
        let ghost gentries = cfg_entries(self.global@);
        let ghost centries = self.spec_centries();
        let mut builder = KeyBindingsBuilder::new();
        let n = self.global.len();
        let global = self.global;
        let contexts = self.contexts;
        for i in 0..n
            invariant
                n == global@.len(),
                gentries == cfg_entries(global@),
                builder.wf(),
                builder.spec_contexts() == Map::<Seq<char>, Map<Seq<KeyBinding>, Seq<char>>>::empty(),
                cfg_scope_step(Map::empty(), Seq::empty(), gentries, 0) == cfg_scope_step(
                    builder.spec_global(),
                    builder.spec_errors(),
                    gentries,
                    i as int,
                ),
        {
            match &global[i].1 {
                KeyOrKeys::Single(key) => {
                    builder = builder.bind(global[i].0.as_str(), key.as_str());
                },
                KeyOrKeys::Multiple(key_list) => {
                    let ghost ks = key_list.deep_view();
                    let m = key_list.len();
                    let ghost g0 = builder.spec_global();
                    let ghost e0 = builder.spec_errors();
                    for j in 0..m
                        invariant
                            m == key_list@.len(),
                            ks == key_list.deep_view(),
                            i < global@.len(),
                            key_list@ == global@[i as int].1->Multiple_0@,
                            builder.wf(),
                            builder.spec_contexts() == Map::<Seq<char>, Map<Seq<KeyBinding>,
                                Seq<char>>>::empty(),
                            bind_multi_step(g0, e0, global@[i as int].0@, ks, 0)
                                == bind_multi_step(
                                builder.spec_global(),
                                builder.spec_errors(),
                                global@[i as int].0@,
                                ks,
                                j as int,
                            ),
                    {
                        builder = builder.bind(global[i].0.as_str(), key_list[j].as_str());
                    }
                },
            }
        }
        let ghost gst = cfg_scope_step(Map::empty(), Seq::empty(), gentries, 0);
        proof {
            assert(gst.0 == builder.spec_global() && gst.1 == builder.spec_errors());
        }
        let cn = contexts.len();
        for i in 0..cn
            invariant
                cn == contexts@.len(),
                centries == Seq::new(contexts@.len(), |k: int| (
                    contexts@[k].0@,
                    cfg_entries(contexts@[k].1@),
                )),
                builder.wf(),
                builder.spec_global() == gst.0,
                cfg_ctxs_step(
                    Map::<Seq<char>, Map<Seq<KeyBinding>, Seq<char>>>::empty(),
                    gst.1,
                    centries,
                    0,
                ) == cfg_ctxs_step(builder.spec_contexts(), builder.spec_errors(), centries,
                    i as int),
        {
            let ghost inner_entries = cfg_entries(contexts@[i as int].1@);
            let mut ctx = ContextBuilder::new();
            let m = contexts[i].1.len();
            for j in 0..m
                invariant
                    m == contexts@[i as int].1@.len(),
                    i < contexts@.len(),
                    inner_entries == cfg_entries(contexts@[i as int].1@),
                    ctx.wf(),
                    cfg_scope_step(Map::empty(), Seq::empty(), inner_entries, 0)
                        == cfg_scope_step(ctx.spec_map(), ctx.spec_errors(), inner_entries,
                        j as int),
            {
                match &contexts[i].1[j].1 {
                    KeyOrKeys::Single(key) => {
                        ctx = ctx.bind(contexts[i].1[j].0.as_str(), key.as_str());
                    },
                    KeyOrKeys::Multiple(key_list) => {
                        let ghost ks = key_list.deep_view();
                        let km = key_list.len();
                        let ghost g0 = ctx.spec_map();
                        let ghost e0 = ctx.spec_errors();
                        for k in 0..km
                            invariant
                                km == key_list@.len(),
                                ks == key_list.deep_view(),
                                i < contexts@.len(),
                                j < contexts@[i as int].1@.len(),
                                ctx.wf(),
                                bind_multi_step(g0, e0, contexts@[i as int].1@[j as int].0@, ks, 0)
                                    == bind_multi_step(
                                    ctx.spec_map(),
                                    ctx.spec_errors(),
                                    contexts@[i as int].1@[j as int].0@,
                                    ks,
                                    k as int,
                                ),
                        {
                            ctx = ctx.bind(contexts[i].1[j].0.as_str(), key_list[k].as_str());
                        }
                    },
                }
            }
            builder = builder.context(contexts[i].0.as_str(), ctx);
        }
        builder.try_build()
    }
}


/// Lookup round trip: after registering action `a` under sequence `s` in
/// context `c` — the context's map gains the pair `(s, a)`, whether or not
/// the context existed before — looking `s` up in context `c` returns `a`,
/// while looking it up with no context returns the global binding for `s`
/// if there is one and nothing otherwise.
pub proof fn lemma_lookup_round_trip(
    ctxs: Map<Seq<char>, Map<Seq<KeyBinding>, Seq<char>>>,
    global: Map<Seq<KeyBinding>, Seq<char>>,
    c: Seq<char>,
    s: Seq<KeyBinding>,
    a: Seq<char>,
)
    ensures
        ({
            let m = if ctxs.contains_key(c) {
                ctxs[c]
            } else {
                Map::empty()
            };
            let ctxs2 = ctxs.insert(c, m.insert(s, a));
            KeyBindings::lookup_spec(ctxs2, global, Some(c), s) == Some(a)
                && KeyBindings::lookup_spec(ctxs2, global, None, s) == (
            if global.contains_key(s) {
                Some(global[s])
            } else {
                None::<Seq<char>>
            })
        }),
{
}

/// Context fallback: an action registered only globally is still returned
/// by a lookup made with any context name, as long as that context does not
/// itself bind the sequence.
pub proof fn lemma_context_fallback(
    ctxs: Map<Seq<char>, Map<Seq<KeyBinding>, Seq<char>>>,
    global: Map<Seq<KeyBinding>, Seq<char>>,
    c: Seq<char>,
    s: Seq<KeyBinding>,
)
    requires
        global.contains_key(s),
        ctxs.contains_key(c) ==> !ctxs[c].contains_key(s),
    ensures
        KeyBindings::lookup_spec(ctxs, global, Some(c), s) == Some(global[s]),
{
}

} // verus!
