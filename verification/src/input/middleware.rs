//! Middleware: interceptors around action dispatch.
//!
//! An [`ActionMiddleware`] sees every action before it is dispatched and may
//! pass it through, replace it, or stop the dispatch entirely; afterwards it
//! observes the (possibly transformed) action together with the outcome.
//! A [`MiddlewareChain`] runs its middleware in registration order for
//! `before` — each sees the previous one's transformation — and in reverse
//! order for `after`. A `Stop` from any middleware aborts the dispatch
//! before any handler runs.
//!
//! Each middleware records the actions its hooks were called with, so a
//! dispatch leaves a verifiable trace.

use vstd::prelude::*;

use super::action::Action;
use super::handler::HandleResult;

verus! {

/// What a middleware's `before` hook asks for.
#[derive(Debug, Clone)]
pub enum MiddlewareResult {
    /// Continue, with the original action (`None`) or a replacement.
    Continue(Option<Action>),
    /// Abort the dispatch; no handler runs.
    Stop,
}

/// Spec-level mirror of [`MiddlewareResult`].
pub enum SpecMiddlewareResult {
    Continue(Option<Seq<char>>),
    Stop,
}

impl View for MiddlewareResult {
    type V = SpecMiddlewareResult;

    open spec fn view(&self) -> SpecMiddlewareResult {
        match self {
            MiddlewareResult::Continue(None) => SpecMiddlewareResult::Continue(None),
            MiddlewareResult::Continue(Some(a)) => SpecMiddlewareResult::Continue(Some(a@)),
            MiddlewareResult::Stop => SpecMiddlewareResult::Stop,
        }
    }
}

impl MiddlewareResult {
    /// Continue with the original action.
    pub fn pass() -> (r: Self)
        ensures
            r@ == SpecMiddlewareResult::Continue(None::<Seq<char>>),
    {
        MiddlewareResult::Continue(None)
    }

    /// Continue with a replacement action.
    pub fn transform(action: Action) -> (r: Self)
        ensures
            r@ == SpecMiddlewareResult::Continue(Some(action@)),
    {
        MiddlewareResult::Continue(Some(action))
    }

    /// Abort the dispatch.
    pub fn stop() -> (r: Self)
        ensures
            r@ == SpecMiddlewareResult::Stop,
    {
        MiddlewareResult::Stop
    }

    /// Whether the action may continue.
    pub fn should_continue(&self) -> (r: bool)
        ensures
            r == (self@ is Continue),
    {
        match self {
            MiddlewareResult::Continue(_) => true,
            MiddlewareResult::Stop => false,
        }
    }

    /// Whether the dispatch is stopped.
    pub fn is_stopped(&self) -> (r: bool)
        ensures
            r == (self@ is Stop),
    {
        match self {
            MiddlewareResult::Stop => true,
            _ => false,
        }
    }

    /// The replacement action, if one was given.
    pub fn transformed_action(&self) -> (r: Option<&Action>)
        ensures
            match r {
                Some(a) => self@ == SpecMiddlewareResult::Continue(Some(a@)),
                None => self@ == SpecMiddlewareResult::Continue(None::<Seq<char>>) || self@
                    == SpecMiddlewareResult::Stop,
            },
    {
        match self {
            MiddlewareResult::Continue(Some(action)) => Some(action),
            _ => None,
        }
    }

    /// Consumes this result, returning the replacement action if any.
    pub fn into_transformed_action(self) -> (r: Option<Action>)
        ensures
            match r {
                Some(a) => self@ == SpecMiddlewareResult::Continue(Some(a@)),
                None => self@ == SpecMiddlewareResult::Continue(None::<Seq<char>>) || self@
                    == SpecMiddlewareResult::Stop,
            },
    {
        match self {
            MiddlewareResult::Continue(action) => action,
            MiddlewareResult::Stop => None,
        }
    }
}

impl Default for MiddlewareResult {
    /// The default result: continue with the original action.
    fn default() -> (r: Self)
        ensures
            r@ == SpecMiddlewareResult::Continue(None::<Seq<char>>),
    {
        MiddlewareResult::pass()
    }
}

/// What a middleware does to every action it sees.
#[derive(Debug)]
pub enum MiddlewareKind {
    /// Pass every action through unchanged.
    Pass,
    /// Replace every action with the given one.
    Transform(Action),
    /// Stop every dispatch.
    Stop,
}

/// Spec-level mirror of [`MiddlewareKind`].
pub enum SpecMiddlewareKind {
    Pass,
    Transform(Seq<char>),
    Stop,
}

impl View for MiddlewareKind {
    type V = SpecMiddlewareKind;

    open spec fn view(&self) -> SpecMiddlewareKind {
        match self {
            MiddlewareKind::Pass => SpecMiddlewareKind::Pass,
            MiddlewareKind::Transform(a) => SpecMiddlewareKind::Transform(a@),
            MiddlewareKind::Stop => SpecMiddlewareKind::Stop,
        }
    }
}

/// An interceptor with a fixed policy — pass, transform, or stop — that
/// records the actions its hooks are called with.
#[derive(Debug)]
pub struct ActionMiddleware {
    name: String,
    kind: MiddlewareKind,
    before_log: Vec<Action>,
    after_log: Vec<(Action, HandleResult)>,
}

impl ActionMiddleware {
    /// The middleware's name.
    pub closed spec fn spec_name(&self) -> Seq<char> {
        self.name@
    }

    /// The middleware's policy.
    pub closed spec fn spec_kind(&self) -> SpecMiddlewareKind {
        self.kind@
    }

    /// The names of the actions `before` has been called with, in order.
    pub closed spec fn spec_before_log(&self) -> Seq<Seq<char>> {
        Seq::new(self.before_log@.len(), |i: int| self.before_log@[i]@)
    }

    /// The `(action name, result)` pairs `after` has been called with.
    pub closed spec fn spec_after_log(&self) -> Seq<(Seq<char>, HandleResult)> {
        Seq::new(self.after_log@.len(), |i: int| (self.after_log@[i].0@, self.after_log@[i].1))
    }

    /// Creates a middleware that passes every action through.
    pub fn new(name: &str) -> (r: Self)
        ensures
            r.spec_name() == name@,
            r.spec_kind() == SpecMiddlewareKind::Pass,
            r.spec_before_log() == Seq::<Seq<char>>::empty(),
            r.spec_after_log() == Seq::<(Seq<char>, HandleResult)>::empty(),
    {
        let r = ActionMiddleware {
            name: name.to_owned(),
            kind: MiddlewareKind::Pass,
            before_log: Vec::new(),
            after_log: Vec::new(),
        };
        proof {
            assert(r.spec_before_log() =~= Seq::<Seq<char>>::empty());
            assert(r.spec_after_log() =~= Seq::<(Seq<char>, HandleResult)>::empty());
        }
        r
    }

    /// Turns this middleware into one that replaces every action.
    pub fn transform(self, to: &str) -> (r: Self)
        ensures
            r.spec_name() == self.spec_name(),
            r.spec_kind() == SpecMiddlewareKind::Transform(to@),
            r.spec_before_log() == self.spec_before_log(),
            r.spec_after_log() == self.spec_after_log(),
    {
        let mut m = self;
        m.kind = MiddlewareKind::Transform(Action::new(to));
        m
    }

    /// Turns this middleware into one that stops every dispatch.
    pub fn stop(self) -> (r: Self)
        ensures
            r.spec_name() == self.spec_name(),
            r.spec_kind() == SpecMiddlewareKind::Stop,
            r.spec_before_log() == self.spec_before_log(),
            r.spec_after_log() == self.spec_after_log(),
    {
        let mut m = self;
        m.kind = MiddlewareKind::Stop;
        m
    }

    /// The middleware's name.
    pub fn name(&self) -> (r: &str)
        ensures
            r@ == self.spec_name(),
    {
        self.name.as_str()
    }

    /// The actions `before` has been called with, in order.
    pub fn before_log(&self) -> (r: &Vec<Action>)
        ensures
            r@.len() == self.spec_before_log().len(),
            forall|i: int| 0 <= i < r@.len() ==> r@[i]@ == self.spec_before_log()[i],
    {
        &self.before_log
    }

    /// The `(action, result)` pairs `after` has been called with, in order.
    pub fn after_log(&self) -> (r: &Vec<(Action, HandleResult)>)
        ensures
            r@.len() == self.spec_after_log().len(),
            forall|i: int|
                0 <= i < r@.len() ==> r@[i].0@ == self.spec_after_log()[i].0 && r@[i].1
                    == self.spec_after_log()[i].1,
    {
        &self.after_log
    }

    /// What the policy answers for an action.
    pub open spec fn spec_before(kind: SpecMiddlewareKind, action: Seq<char>)
        -> SpecMiddlewareResult {
        match kind {
            SpecMiddlewareKind::Pass => SpecMiddlewareResult::Continue(None),
            SpecMiddlewareKind::Transform(t) => SpecMiddlewareResult::Continue(Some(t)),
            SpecMiddlewareKind::Stop => SpecMiddlewareResult::Stop,
        }
    }

    /// Called before an action is dispatched: records the action and answers
    /// according to the policy.
    pub fn before(&mut self, action: &Action) -> (r: MiddlewareResult)
        ensures
            r@ == Self::spec_before(old(self).spec_kind(), action@),
            final(self).spec_kind() == old(self).spec_kind(),
            final(self).spec_name() == old(self).spec_name(),
            final(self).spec_before_log() == old(self).spec_before_log().push(action@),
            final(self).spec_after_log() == old(self).spec_after_log(),
    {
        self.before_log.push(action.clone());
        proof {
            assert(self.spec_before_log() =~= old(self).spec_before_log().push(action@));
            assert(self.spec_after_log() =~= old(self).spec_after_log());
        }
        match &self.kind {
            MiddlewareKind::Pass => MiddlewareResult::Continue(None),
            MiddlewareKind::Transform(t) => MiddlewareResult::Continue(Some(t.clone())),
            MiddlewareKind::Stop => MiddlewareResult::Stop,
        }
    }

    /// Called after an action was dispatched (or found unhandled): records
    /// the action and the outcome.
    pub fn after(&mut self, action: &Action, result: &HandleResult)
        ensures
            final(self).spec_kind() == old(self).spec_kind(),
            final(self).spec_name() == old(self).spec_name(),
            final(self).spec_before_log() == old(self).spec_before_log(),
            final(self).spec_after_log() == old(self).spec_after_log().push(
                (action@, *result),
            ),
    {
        self.after_log.push((action.clone(), *result));
        proof {
            assert(self.spec_before_log() =~= old(self).spec_before_log());
            assert(self.spec_after_log() =~= old(self).spec_after_log().push(
                (action@, *result),
            ));
        }
    }
}

/// The action that leaves the before-chain `kinds[i..]` when `a` enters it,
/// or `None` when some middleware stops the dispatch.
pub open spec fn chain_before_spec(kinds: Seq<SpecMiddlewareKind>, a: Seq<char>, i: int)
    -> Option<Seq<char>>
    decreases kinds.len() - i,
{
    if i < 0 || i >= kinds.len() {
        Some(a)
    } else {
        match kinds[i] {
            SpecMiddlewareKind::Pass => chain_before_spec(kinds, a, i + 1),
            SpecMiddlewareKind::Transform(t) => chain_before_spec(kinds, t, i + 1),
            SpecMiddlewareKind::Stop => None,
        }
    }
}

/// One more link of the before-chain: processing a prefix one longer
/// applies that middleware's policy to the prefix's outcome.
pub proof fn lemma_chain_snoc(kinds: Seq<SpecMiddlewareKind>, a: Seq<char>, i: int, j: int)
    requires
        0 <= i <= j < kinds.len(),
    ensures
        chain_before_spec(kinds.take(j + 1), a, i) == (
        match chain_before_spec(kinds.take(j), a, i) {
            None => None::<Seq<char>>,
            Some(x) => match kinds[j] {
                SpecMiddlewareKind::Pass => Some(x),
                SpecMiddlewareKind::Transform(t) => Some(t),
                SpecMiddlewareKind::Stop => None::<Seq<char>>,
            },
        }),
    decreases j - i,
{
    if i == j {
        assert(chain_before_spec(kinds.take(j), a, i) == Some(a));
        assert(kinds.take(j + 1)[j] == kinds[j]);
    } else {
        assert(kinds.take(j + 1)[i] == kinds[i]);
        assert(kinds.take(j)[i] == kinds[i]);
        match kinds[i] {
            SpecMiddlewareKind::Pass => {
                lemma_chain_snoc(kinds, a, i + 1, j);
            },
            SpecMiddlewareKind::Transform(t) => {
                lemma_chain_snoc(kinds, t, i + 1, j);
            },
            SpecMiddlewareKind::Stop => {},
        }
    }
}

/// If any middleware in the chain stops, the before-chain yields nothing
/// from any earlier position, whatever the action: one `Stop` aborts the
/// whole dispatch.
pub proof fn lemma_stop_aborts(kinds: Seq<SpecMiddlewareKind>, i: int)
    requires
        0 <= i < kinds.len(),
        kinds[i] is Stop,
    ensures
        forall|j: int, b: Seq<char>|
            0 <= j <= i ==> #[trigger] chain_before_spec(kinds, b, j) is None,
{
    assert forall|j: int, b: Seq<char>|
        0 <= j <= i implies #[trigger] chain_before_spec(kinds, b, j) is None by {
        lemma_stop_aborts_from(kinds, i, j, b);
    };
}

proof fn lemma_stop_aborts_from(kinds: Seq<SpecMiddlewareKind>, i: int, j: int, b: Seq<char>)
    requires
        0 <= j <= i < kinds.len(),
        kinds[i] is Stop,
    ensures
        chain_before_spec(kinds, b, j) is None,
    decreases i - j,
{
    if j < i {
        match kinds[j] {
            SpecMiddlewareKind::Pass => {
                lemma_stop_aborts_from(kinds, i, j + 1, b);
            },
            SpecMiddlewareKind::Transform(t) => {
                lemma_stop_aborts_from(kinds, i, j + 1, t);
            },
            SpecMiddlewareKind::Stop => {},
        }
    }
}

/// An ordered chain of middleware.
#[derive(Debug)]
pub struct MiddlewareChain {
    middleware: Vec<ActionMiddleware>,
}

impl MiddlewareChain {
    /// The policies of the chain's middleware, in order.
    pub closed spec fn spec_kinds(&self) -> Seq<SpecMiddlewareKind> {
        Seq::new(self.middleware@.len(), |i: int| self.middleware@[i].spec_kind())
    }

    /// The middleware list.
    pub closed spec fn spec_list(&self) -> Seq<ActionMiddleware> {
        self.middleware@
    }

    /// Creates an empty chain.
    pub fn new() -> (r: Self)
        ensures
            r.spec_list() == Seq::<ActionMiddleware>::empty(),
            r.spec_kinds() == Seq::<SpecMiddlewareKind>::empty(),
    {
        let r = MiddlewareChain { middleware: Vec::new() };
        proof {
            assert(r.spec_kinds() =~= Seq::<SpecMiddlewareKind>::empty());
        }
        r
    }

    /// Appends a middleware; it runs last in `before` and first in `after`.
    pub fn add(&mut self, middleware: ActionMiddleware)
        ensures
            final(self).spec_list() == old(self).spec_list().push(middleware),
            final(self).spec_kinds() == old(self).spec_kinds().push(middleware.spec_kind()),
    {
        self.middleware.push(middleware);
        proof {
            assert(self.spec_kinds() =~= old(self).spec_kinds().push(
                self.middleware@.last().spec_kind(),
            ));
        }
    }

    /// The middleware, in registration order.
    pub fn middlewares(&self) -> (r: &Vec<ActionMiddleware>)
        ensures
            r@ == self.spec_list(),
    {
        &self.middleware
    }

    /// The number of middleware in the chain.
    pub fn len(&self) -> (r: usize)
        ensures
            r == self.spec_list().len(),
    {
        self.middleware.len()
    }

    /// Whether the chain is empty.
    pub fn is_empty(&self) -> (r: bool)
        ensures
            r == (self.spec_list().len() == 0),
    {
        self.middleware.len() == 0
    }

    /// Removes all middleware.
    pub fn clear(&mut self)
        ensures
            final(self).spec_list() == Seq::<ActionMiddleware>::empty(),
            final(self).spec_kinds() == Seq::<SpecMiddlewareKind>::empty(),
    {
        self.middleware.clear();
        proof {
            assert(self.spec_kinds() =~= Seq::<SpecMiddlewareKind>::empty());
        }
    }

    /// Runs every `before` hook in order, each seeing the previous one's
    /// transformation. Returns the final action, or `None` as soon as one
    /// middleware stops the dispatch; the hooks after a stop never run.
    pub fn process_before(&mut self, action: Action) -> (r: Option<Action>)
        ensures
            final(self).spec_kinds() == old(self).spec_kinds(),
            final(self).spec_list().len() == old(self).spec_list().len(),
            match r {
                Some(a2) => chain_before_spec(old(self).spec_kinds(), action@, 0) == Some(a2@),
                None => chain_before_spec(old(self).spec_kinds(), action@, 0) is None,
            },
            forall|j: int|
                0 <= j < old(self).spec_list().len() ==> final_name_kind_unchanged(
                    #[trigger] final(self).spec_list()[j],
                    old(self).spec_list()[j],
                ) && final(self).spec_list()[j].spec_after_log() == old(self).spec_list()[j].spec_after_log(),
            forall|j: int|
                0 <= j < old(self).spec_list().len() ==> #[trigger] final(self).spec_list()[j].spec_before_log() == (
                if chain_before_spec(old(self).spec_kinds().take(j), action@, 0) is Some {
                    old(self).spec_list()[j].spec_before_log().push(
                        chain_before_spec(old(self).spec_kinds().take(j), action@, 0)->Some_0,
                    )
                } else {
                    old(self).spec_list()[j].spec_before_log()
                }),
    {
        let ghost kinds = self.spec_kinds();
        let ghost a0 = action@;
        let n = self.middleware.len();
        let mut current = action.clone();
        let mut i: usize = 0;
        while i < n
            invariant
                n == self.middleware@.len(),
                0 <= i <= n,
                a0 == action@,
                kinds == self.spec_kinds(),
                kinds == old(self).spec_kinds(),
                self.spec_list().len() == old(self).spec_list().len(),
                chain_before_spec(kinds, a0, 0) == chain_before_spec(kinds, current@, i as int),
                chain_before_spec(kinds.take(i as int), a0, 0) == Some(current@),
                forall|j: int|
                    0 <= j < n ==> final_name_kind_unchanged(
                        #[trigger] self.spec_list()[j],
                        old(self).spec_list()[j],
                    ) && self.spec_list()[j].spec_after_log() == old(self).spec_list()[j].spec_after_log(),
                forall|j: int|
                    i <= j < n ==> #[trigger] self.spec_list()[j].spec_before_log() == old(self).spec_list()[j].spec_before_log(),
                forall|j: int|
                    0 <= j < i ==> #[trigger] self.spec_list()[j].spec_before_log() == old(self).spec_list()[j].spec_before_log().push(
                        chain_before_spec(kinds.take(j), a0, 0)->Some_0,
                    ) && chain_before_spec(kinds.take(j), a0, 0) is Some,
            decreases n - i,
        {
            let ghost curv = current@;
            let result = self.middleware[i].before(&current);
            proof {
                assert(self.spec_kinds() =~= kinds);
                lemma_chain_snoc(kinds, a0, 0, i as int);
            }
            match result {
                MiddlewareResult::Continue(Some(transformed)) => {
                    current = transformed;
                },
                MiddlewareResult::Continue(None) => {},
                MiddlewareResult::Stop => {
                    proof {
                        assert(kinds[i as int] is Stop);
                        lemma_stop_aborts(kinds, i as int);
                        assert(chain_before_spec(kinds, a0, 0) is None);
                        assert forall|j: int|
                            0 <= j < n implies #[trigger] self.spec_list()[j].spec_before_log()
                            == (
                        if chain_before_spec(kinds.take(j), a0, 0) is Some {
                            old(self).spec_list()[j].spec_before_log().push(
                                chain_before_spec(kinds.take(j), a0, 0)->Some_0,
                            )
                        } else {
                            old(self).spec_list()[j].spec_before_log()
                        }) by {
                            if j > i {
                                assert(self.spec_list()[j].spec_before_log() == old(self).spec_list()[j].spec_before_log());
                                assert(kinds.take(j)[i as int] is Stop);
                                lemma_stop_aborts(kinds.take(j), i as int);
                                assert(chain_before_spec(kinds.take(j), a0, 0) is None);
                            } else if j == i {
                                assert(chain_before_spec(kinds.take(j), a0, 0) == Some(curv));
                                assert(self.spec_list()[j].spec_before_log() == old(self).spec_list()[j].spec_before_log().push(curv));
                            } else {
                                assert(self.spec_list()[j].spec_before_log() == old(self).spec_list()[j].spec_before_log().push(
                                    chain_before_spec(kinds.take(j), a0, 0)->Some_0,
                                ));
                            }
                        };
                    }
                    return None;
                },
            }
            proof {
                assert(self.spec_list()[i as int].spec_before_log() == old(self).spec_list()[i as int].spec_before_log().push(curv));
                assert(chain_before_spec(kinds.take(i as int), a0, 0) == Some(curv));
                assert(chain_before_spec(kinds.take(i + 1), a0, 0) == Some(current@));
            }
            i += 1;
        }
        proof {
            assert(kinds.take(n as int) =~= kinds);
        }
        Some(current)
    }

    /// Runs every `after` hook in reverse registration order, with the final
    /// action and the dispatch outcome.
    pub fn process_after(&mut self, action: &Action, result: &HandleResult)
        ensures
            final(self).spec_kinds() == old(self).spec_kinds(),
            final(self).spec_list().len() == old(self).spec_list().len(),
            forall|j: int|
                0 <= j < old(self).spec_list().len() ==> final_name_kind_unchanged(
                    final(self).spec_list()[j],
                    old(self).spec_list()[j],
                ) && final(self).spec_list()[j].spec_before_log() == old(self).spec_list()[j].spec_before_log() && #[trigger] final(self).spec_list()[j].spec_after_log() == old(self).spec_list()[j].spec_after_log().push(
                    (action@, *result),
                ),
    {
        let n = self.middleware.len();
        let mut i: usize = n;
        while i > 0
            invariant
                n == self.middleware@.len(),
                0 <= i <= n,
                self.spec_kinds() == old(self).spec_kinds(),
                self.spec_list().len() == old(self).spec_list().len(),
                forall|j: int|
                    0 <= j < n ==> final_name_kind_unchanged(
                        self.spec_list()[j],
                        old(self).spec_list()[j],
                    ) && self.spec_list()[j].spec_before_log() == old(self).spec_list()[j].spec_before_log(),
                forall|j: int|
                    0 <= j < i ==> #[trigger] self.spec_list()[j].spec_after_log() == old(self).spec_list()[j].spec_after_log(),
                forall|j: int|
                    i <= j < n ==> #[trigger] self.spec_list()[j].spec_after_log() == old(self).spec_list()[j].spec_after_log().push((action@, *result)),
            decreases i,
        {
            i -= 1;
            self.middleware[i].after(action, result);
            proof {
                assert(self.spec_kinds() =~= old(self).spec_kinds());
            }
        }
    }
}

/// Whether two middleware agree on name, policy — used to say a hook run
/// left everything but its log unchanged.
pub open spec fn final_name_kind_unchanged(a: ActionMiddleware, b: ActionMiddleware) -> bool {
    a.spec_name() == b.spec_name() && a.spec_kind() == b.spec_kind()
}

} // verus!
