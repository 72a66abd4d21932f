//! The action router: two-phase dispatch over the handler tree.
//!
//! A dispatch first runs the action through the middleware before-chain (a
//! `Stop` aborts everything), then walks the tree along the focus path in
//! two phases: capture from the root toward the target — the first node
//! that handles the action pre-empts everything below it — and, if capture
//! handled nothing, bubble from the target back toward the root, stopping at
//! the first handler. Finally the middleware after-chain observes the action
//! and the outcome. An out-of-range index in the focus path never fails; the
//! walk simply stops descending there.
//!
//! The whole pipeline is specified by [`routed_spec`], and the set and order
//! of handler visits by [`dispatch_trace`].

use vstd::prelude::*;

use super::action::Action;
use super::handler::{spec_focus_path, spec_handle, ActionHandler, HandleResult, Phase};
use super::middleware::{chain_before_spec, lemma_stop_aborts, ActionMiddleware, MiddlewareChain,
    SpecMiddlewareKind, final_name_kind_unchanged};

verus! {

/// Spec-level mirror of [`DispatchResult`].
pub struct SpecDispatch {
    pub result: HandleResult,
    pub handled_by: Option<Seq<char>>,
    pub handled_in: Option<Phase>,
    pub propagation_stopped: bool,
}

/// The outcome of dispatching an action.
#[derive(Debug, Clone, PartialEq, Eq)]
pub struct DispatchResult {
    /// The final handle result.
    pub result: HandleResult,
    /// The identifier of the handler that handled the action, if any.
    pub handled_by: Option<String>,
    /// The phase in which the action was handled, if it was.
    pub handled_in: Option<Phase>,
    /// Whether propagation was stopped.
    pub propagation_stopped: bool,
}

impl View for DispatchResult {
    type V = SpecDispatch;

    open spec fn view(&self) -> SpecDispatch {
        SpecDispatch {
            result: self.result,
            handled_by: match &self.handled_by {
                Some(s) => Some(s@),
                None => None,
            },
            handled_in: self.handled_in,
            propagation_stopped: self.propagation_stopped,
        }
    }
}

/// The result reporting that nothing handled the action.
pub open spec fn not_handled_spec() -> SpecDispatch {
    SpecDispatch {
        result: HandleResult::Ignored,
        handled_by: None,
        handled_in: None,
        propagation_stopped: false,
    }
}

/// The result reporting that `id` handled the action in `phase`.
pub open spec fn handled_spec(id: Seq<char>, phase: Phase) -> SpecDispatch {
    SpecDispatch {
        result: HandleResult::Handled,
        handled_by: Some(id),
        handled_in: Some(phase),
        propagation_stopped: true,
    }
}

impl DispatchResult {
    /// A result reporting that nothing handled the action.
    pub fn not_handled() -> (r: Self)
        ensures
            r@ == not_handled_spec(),
    {
        DispatchResult {
            result: HandleResult::Ignored,
            handled_by: None,
            handled_in: None,
            propagation_stopped: false,
        }
    }

    /// A result reporting that the named handler handled the action in the
    /// given phase.
    pub fn handled(by: &str, phase: Phase) -> (r: Self)
        ensures
            r@ == handled_spec(by@, phase),
    {
        DispatchResult {
            result: HandleResult::Handled,
            handled_by: Some(by.to_owned()),
            handled_in: Some(phase),
            propagation_stopped: true,
        }
    }

    /// Whether the action was handled.
    pub fn was_handled(&self) -> (r: bool)
        ensures
            r == (self@.result is Handled),
    {
        self.result.is_handled()
    }
}

/// The identifier of the handler that captures the action while descending
/// along `path` from depth `depth`, if any: the first node on the way down
/// whose capture table holds the action's name.
pub open spec fn capture_spec(
    h: ActionHandler,
    name: Seq<char>,
    path: Seq<usize>,
    depth: int,
) -> Option<Seq<char>>
    decreases h,
{
    if spec_handle(h, name, Phase::Capture) is Handled {
        Some(h.id@)
    } else if 0 <= depth < path.len() && (path[depth] as int) < h.children@.len() {
        capture_spec(h.children@[path[depth] as int], name, path, depth + 1)
    } else {
        None
    }
}

/// The identifier of the handler that handles the action while unwinding
/// along `path` from depth `depth`, if any: the deepest reachable node is
/// consulted first, then each ancestor on the way back up.
pub open spec fn bubble_spec(
    h: ActionHandler,
    name: Seq<char>,
    path: Seq<usize>,
    depth: int,
) -> Option<Seq<char>>
    decreases h,
{
    let deeper = if 0 <= depth < path.len() && (path[depth] as int) < h.children@.len() {
        bubble_spec(h.children@[path[depth] as int], name, path, depth + 1)
    } else {
        None
    };
    if deeper is Some {
        deeper
    } else if spec_handle(h, name, Phase::Bubble) is Handled {
        Some(h.id@)
    } else {
        None
    }
}

/// The outcome of the two-phase walk: a capture handler wins outright and
/// the bubble phase never runs; otherwise the first bubble handler on the
/// way back up wins; otherwise nothing handled the action.
pub open spec fn dispatch_spec(h: ActionHandler, name: Seq<char>, path: Seq<usize>)
    -> SpecDispatch {
    match capture_spec(h, name, path, 0) {
        Some(id) => handled_spec(id, Phase::Capture),
        None => match bubble_spec(h, name, path, 0) {
            Some(id) => handled_spec(id, Phase::Bubble),
            None => not_handled_spec(),
        },
    }
}

/// The `(handler id, phase)` visits made by the capture descent, in order.
pub open spec fn capture_trace(
    h: ActionHandler,
    name: Seq<char>,
    path: Seq<usize>,
    depth: int,
) -> Seq<(Seq<char>, Phase)>
    decreases h,
{
    if spec_handle(h, name, Phase::Capture) is Handled {
        seq![(h.id@, Phase::Capture)]
    } else if 0 <= depth < path.len() && (path[depth] as int) < h.children@.len() {
        seq![(h.id@, Phase::Capture)] + capture_trace(
            h.children@[path[depth] as int],
            name,
            path,
            depth + 1,
        )
    } else {
        seq![(h.id@, Phase::Capture)]
    }
}

/// The `(handler id, phase)` visits made by the bubble unwind, in order:
/// deepest node first, stopping at the first handler.
pub open spec fn bubble_trace(
    h: ActionHandler,
    name: Seq<char>,
    path: Seq<usize>,
    depth: int,
) -> Seq<(Seq<char>, Phase)>
    decreases h,
{
    if 0 <= depth < path.len() && (path[depth] as int) < h.children@.len() {
        let child = h.children@[path[depth] as int];
        let t = bubble_trace(child, name, path, depth + 1);
        if bubble_spec(child, name, path, depth + 1) is Some {
            t
        } else {
            t + seq![(h.id@, Phase::Bubble)]
        }
    } else {
        seq![(h.id@, Phase::Bubble)]
    }
}

/// Every handler visit of a full dispatch, in order: the capture descent,
/// then — only if capture handled nothing — the bubble unwind.
pub open spec fn dispatch_trace(h: ActionHandler, name: Seq<char>, path: Seq<usize>) -> Seq<
    (Seq<char>, Phase),
> {
    capture_trace(h, name, path, 0) + (
    if capture_spec(h, name, path, 0) is None {
        bubble_trace(h, name, path, 0)
    } else {
        Seq::empty()
    })
}

/// The focus path of the tree, or the empty path if nothing is focused.
pub open spec fn focus_or_empty(h: ActionHandler) -> Seq<usize> {
    match spec_focus_path(h) {
        Some(p) => p,
        None => Seq::empty(),
    }
}

/// The outcome of the whole pipeline: the before-chain may transform the
/// action or abort the dispatch; what leaves it is routed through the tree.
pub open spec fn routed_spec(
    kinds: Seq<SpecMiddlewareKind>,
    h: ActionHandler,
    name: Seq<char>,
    path: Seq<usize>,
) -> SpecDispatch {
    match chain_before_spec(kinds, name, 0) {
        None => not_handled_spec(),
        Some(a2) => dispatch_spec(h, a2, path),
    }
}

/// The handler visits of the whole pipeline: none at all when the
/// before-chain aborts the dispatch.
pub open spec fn routed_trace(
    kinds: Seq<SpecMiddlewareKind>,
    h: ActionHandler,
    name: Seq<char>,
    path: Seq<usize>,
) -> Seq<(Seq<char>, Phase)> {
    match chain_before_spec(kinds, name, 0) {
        None => Seq::empty(),
        Some(a2) => dispatch_trace(h, a2, path),
    }
}

/// Capture phase: consults the current node and descends along the path.
fn capture_phase(
    handler: &ActionHandler,
    action: &Action,
    focus_path: &[usize],
    depth: usize,
) -> (r: Option<DispatchResult>)
    ensures
        match r {
            Some(d) => capture_spec(*handler, action@, focus_path@, depth as int) is Some && d@
                == handled_spec(
                capture_spec(*handler, action@, focus_path@, depth as int)->Some_0,
                Phase::Capture,
            ),
            None => capture_spec(*handler, action@, focus_path@, depth as int) is None,
        },
    decreases *handler,
{
    let result = handler.handle(action, Phase::Capture);
    if result.should_stop() {
        return Some(DispatchResult::handled(handler.id(), Phase::Capture));
    }
    if depth < focus_path.len() {
        let child_idx = focus_path[depth];
        if child_idx < handler.children.len() {
            return capture_phase(&handler.children[child_idx], action, focus_path, depth + 1);
        }
    }
    None
}

/// Bubble phase: recurses to the deepest reachable node along the path,
/// then consults each node while unwinding.
fn bubble_phase(
    handler: &ActionHandler,
    action: &Action,
    focus_path: &[usize],
    depth: usize,
) -> (r: DispatchResult)
    ensures
        r@ == (match bubble_spec(*handler, action@, focus_path@, depth as int) {
            Some(id) => handled_spec(id, Phase::Bubble),
            None => not_handled_spec(),
        }),
    decreases *handler,
{
    if depth < focus_path.len() {
        let child_idx = focus_path[depth];
        if child_idx < handler.children.len() {
            let result = bubble_phase(&handler.children[child_idx], action, focus_path, depth + 1);
            if result.was_handled() {
                return result;
            }
        }
    }
    let result = handler.handle(action, Phase::Bubble);
    if result.should_stop() {
        return DispatchResult::handled(handler.id(), Phase::Bubble);
    }
    DispatchResult::not_handled()
}

/// Two-phase dispatch along a path: capture wins outright, else bubble.
fn dispatch_internal(root: &ActionHandler, action: &Action, focus_path: &[usize]) -> (r:
    DispatchResult)
    ensures
        r@ == dispatch_spec(*root, action@, focus_path@),
{
    match capture_phase(root, action, focus_path, 0) {
        Some(result) => result,
        None => bubble_phase(root, action, focus_path, 0),
    }
}

/// Routes actions through a handler tree with capture/bubble propagation
/// and a middleware chain.
#[derive(Debug)]
pub struct ActionRouter {
    middleware: MiddlewareChain,
}

impl ActionRouter {
    /// The policies of the router's middleware, in order.
    pub closed spec fn spec_kinds(&self) -> Seq<SpecMiddlewareKind> {
        self.middleware.spec_kinds()
    }

    /// The router's middleware.
    pub closed spec fn spec_middleware(&self) -> Seq<ActionMiddleware> {
        self.middleware.spec_list()
    }

    /// Creates a router with no middleware.
    pub fn new() -> (r: Self)
        ensures
            r.spec_middleware() == Seq::<ActionMiddleware>::empty(),
            r.spec_kinds() == Seq::<SpecMiddlewareKind>::empty(),
    {
        ActionRouter { middleware: MiddlewareChain::new() }
    }

    /// Appends a middleware; middleware runs in registration order before a
    /// dispatch and in reverse order after it.
    pub fn add_middleware(&mut self, middleware: ActionMiddleware)
        ensures
            final(self).spec_middleware() == old(self).spec_middleware().push(middleware),
            final(self).spec_kinds() == old(self).spec_kinds().push(middleware.spec_kind()),
    {
        self.middleware.add(middleware);
    }

    /// The middleware, in registration order.
    pub fn middlewares(&self) -> (r: &Vec<ActionMiddleware>)
        ensures
            r@ == self.spec_middleware(),
    {
        self.middleware.middlewares()
    }

    /// The number of middleware in the chain.
    pub fn middleware_count(&self) -> (r: usize)
        ensures
            r == self.spec_middleware().len(),
    {
        self.middleware.len()
    }

    /// Dispatches an action to a handler tree along its focus path: the
    /// before-chain first (a `Stop` aborts with "not handled" and skips the
    /// after-chain), then capture from the root toward the focused node,
    /// then bubble back, then the after-chain with the outcome.
    pub fn dispatch(&mut self, root: &ActionHandler, action: Action) -> (r: DispatchResult)
        ensures
            final(self).spec_kinds() == old(self).spec_kinds(),
            final(self).spec_middleware().len() == old(self).spec_middleware().len(),
            r@ == routed_spec(old(self).spec_kinds(), *root, action@, focus_or_empty(*root)),
            forall|j: int|
                0 <= j < old(self).spec_middleware().len() ==> final_name_kind_unchanged(
                    #[trigger] final(self).spec_middleware()[j],
                    old(self).spec_middleware()[j],
                ),
            forall|j: int|
                0 <= j < old(self).spec_middleware().len() ==> #[trigger] final(self).spec_middleware()[j].spec_before_log() == (
                if chain_before_spec(old(self).spec_kinds().take(j), action@, 0) is Some {
                    old(self).spec_middleware()[j].spec_before_log().push(
                        chain_before_spec(old(self).spec_kinds().take(j), action@, 0)->Some_0,
                    )
                } else {
                    old(self).spec_middleware()[j].spec_before_log()
                }),
            forall|j: int|
                0 <= j < old(self).spec_middleware().len() ==> #[trigger] final(self).spec_middleware()[j].spec_after_log() == (
                if chain_before_spec(old(self).spec_kinds(), action@, 0) is Some {
                    old(self).spec_middleware()[j].spec_after_log().push(
                        (
                            chain_before_spec(old(self).spec_kinds(), action@, 0)->Some_0,
                            routed_spec(
                                old(self).spec_kinds(),
                                *root,
                                action@,
                                focus_or_empty(*root),
                            ).result,
                        ),
                    )
                } else {
                    old(self).spec_middleware()[j].spec_after_log()
                }),
    {
        let ghost a0 = action@;
        let action2 = match self.middleware.process_before(action.clone()) {
            Some(a) => a,
            None => {
                return DispatchResult::not_handled();
            },
        };
        let ghost mid = self.spec_middleware();
        let focus_path = match root.find_focus_path() {
            Some(p) => p,
            None => Vec::new(),
        };
        let result = dispatch_internal(root, &action2, focus_path.as_slice());
        self.middleware.process_after(&action2, &result.result);
        proof {
            assert(focus_path@ == focus_or_empty(*root));
            assert forall|j: int| 0 <= j < old(self).spec_middleware().len() implies
                final_name_kind_unchanged(
                    #[trigger] self.spec_middleware()[j],
                    old(self).spec_middleware()[j],
                ) by {
                assert(self.spec_middleware()[j].spec_after_log() == mid[j].spec_after_log().push(
                    (action2@, result.result),
                ));
                assert(final_name_kind_unchanged(mid[j], old(self).spec_middleware()[j]));
                assert(final_name_kind_unchanged(self.spec_middleware()[j], mid[j]));
            };
            assert forall|j: int| 0 <= j < old(self).spec_middleware().len() implies
                #[trigger] self.spec_middleware()[j].spec_before_log() == (
            if chain_before_spec(old(self).spec_kinds().take(j), a0, 0) is Some {
                old(self).spec_middleware()[j].spec_before_log().push(
                    chain_before_spec(old(self).spec_kinds().take(j), a0, 0)->Some_0,
                )
            } else {
                old(self).spec_middleware()[j].spec_before_log()
            }) by {
                assert(self.spec_middleware()[j].spec_after_log() == mid[j].spec_after_log().push(
                    (action2@, result.result),
                ));
                assert(self.spec_middleware()[j].spec_before_log() == mid[j].spec_before_log());
            };
            assert forall|j: int| 0 <= j < old(self).spec_middleware().len() implies
                #[trigger] self.spec_middleware()[j].spec_after_log() == old(self).spec_middleware()[j].spec_after_log().push(
                (chain_before_spec(old(self).spec_kinds(), a0, 0)->Some_0, result.result),
            ) by {
                assert(mid[j].spec_after_log() == old(self).spec_middleware()[j].spec_after_log());
                assert(self.spec_middleware()[j].spec_after_log() == mid[j].spec_after_log().push(
                    (action2@, result.result),
                ));
            };
        }
        result
    }

    /// Dispatches an action along a caller-supplied path, bypassing the
    /// focus computation; the capture/bubble engine and the middleware
    /// behave exactly as in [`ActionRouter::dispatch`].
    pub fn dispatch_to_path(&mut self, root: &ActionHandler, action: Action, path: &[usize]) -> (r:
        DispatchResult)
        ensures
            final(self).spec_kinds() == old(self).spec_kinds(),
            final(self).spec_middleware().len() == old(self).spec_middleware().len(),
            r@ == routed_spec(old(self).spec_kinds(), *root, action@, path@),
            forall|j: int|
                0 <= j < old(self).spec_middleware().len() ==> final_name_kind_unchanged(
                    #[trigger] final(self).spec_middleware()[j],
                    old(self).spec_middleware()[j],
                ),
            forall|j: int|
                0 <= j < old(self).spec_middleware().len() ==> #[trigger] final(self).spec_middleware()[j].spec_before_log() == (
                if chain_before_spec(old(self).spec_kinds().take(j), action@, 0) is Some {
                    old(self).spec_middleware()[j].spec_before_log().push(
                        chain_before_spec(old(self).spec_kinds().take(j), action@, 0)->Some_0,
                    )
                } else {
                    old(self).spec_middleware()[j].spec_before_log()
                }),
            forall|j: int|
                0 <= j < old(self).spec_middleware().len() ==> #[trigger] final(self).spec_middleware()[j].spec_after_log() == (
                if chain_before_spec(old(self).spec_kinds(), action@, 0) is Some {
                    old(self).spec_middleware()[j].spec_after_log().push(
                        (
                            chain_before_spec(old(self).spec_kinds(), action@, 0)->Some_0,
                            routed_spec(old(self).spec_kinds(), *root, action@, path@).result,
                        ),
                    )
                } else {
                    old(self).spec_middleware()[j].spec_after_log()
                }),
    {
        let ghost a0 = action@;
        let action2 = match self.middleware.process_before(action.clone()) {
            Some(a) => a,
            None => {
                return DispatchResult::not_handled();
            },
        };
        let ghost mid = self.spec_middleware();
        let result = dispatch_internal(root, &action2, path);
        self.middleware.process_after(&action2, &result.result);
        proof {
            assert forall|j: int| 0 <= j < old(self).spec_middleware().len() implies
                final_name_kind_unchanged(
                    #[trigger] self.spec_middleware()[j],
                    old(self).spec_middleware()[j],
                ) by {
                assert(self.spec_middleware()[j].spec_after_log() == mid[j].spec_after_log().push(
                    (action2@, result.result),
                ));
                assert(final_name_kind_unchanged(mid[j], old(self).spec_middleware()[j]));
                assert(final_name_kind_unchanged(self.spec_middleware()[j], mid[j]));
            };
            assert forall|j: int| 0 <= j < old(self).spec_middleware().len() implies
                #[trigger] self.spec_middleware()[j].spec_before_log() == (
            if chain_before_spec(old(self).spec_kinds().take(j), a0, 0) is Some {
                old(self).spec_middleware()[j].spec_before_log().push(
                    chain_before_spec(old(self).spec_kinds().take(j), a0, 0)->Some_0,
                )
            } else {
                old(self).spec_middleware()[j].spec_before_log()
            }) by {
                assert(self.spec_middleware()[j].spec_after_log() == mid[j].spec_after_log().push(
                    (action2@, result.result),
                ));
                assert(self.spec_middleware()[j].spec_before_log() == mid[j].spec_before_log());
            };
            assert forall|j: int| 0 <= j < old(self).spec_middleware().len() implies
                #[trigger] self.spec_middleware()[j].spec_after_log() == old(self).spec_middleware()[j].spec_after_log().push(
                (chain_before_spec(old(self).spec_kinds(), a0, 0)->Some_0, result.result),
            ) by {
                assert(mid[j].spec_after_log() == old(self).spec_middleware()[j].spec_after_log());
                assert(self.spec_middleware()[j].spec_after_log() == mid[j].spec_after_log().push(
                    (action2@, result.result),
                ));
            };
        }
        result
    }
}

impl Default for ActionRouter {
    /// The default router: no middleware.
    fn default() -> (r: Self)
        ensures
            r.spec_middleware() == Seq::<ActionMiddleware>::empty(),
            r.spec_kinds() == Seq::<SpecMiddlewareKind>::empty(),
    {
        ActionRouter::new()
    }
}

/// Capture pre-emption: when the root handles the action during capture,
/// the dispatch ends at once — handled by the root in the capture phase —
/// and the root is the only handler visited; no descendant is consulted in
/// either phase.
pub proof fn lemma_capture_preemption(h: ActionHandler, name: Seq<char>, path: Seq<usize>)
    requires
        spec_handle(h, name, Phase::Capture) is Handled,
    ensures
        dispatch_spec(h, name, path) == handled_spec(h.id@, Phase::Capture),
        dispatch_trace(h, name, path) == seq![(h.id@, Phase::Capture)],
{
    assert(dispatch_trace(h, name, path) =~= seq![(h.id@, Phase::Capture)]);
}

/// Bubble order, for a three-level tree focused on a grandchild: with no
/// capture handling on the path, every node on the path is visited top-down
/// in the capture phase, and the bubble phase then consults the grandchild,
/// its parent, and the root in that order, stopping at the first of them
/// that handles the action, which is the one reported.
pub proof fn lemma_bubble_order(root: ActionHandler, i0: usize, i1: usize, name: Seq<char>)
    requires
        (i0 as int) < root.children@.len(),
        (i1 as int) < root.children@[i0 as int].children@.len(),
        !(spec_handle(root, name, Phase::Capture) is Handled),
        !(spec_handle(root.children@[i0 as int], name, Phase::Capture) is Handled),
        !(spec_handle(
            root.children@[i0 as int].children@[i1 as int],
            name,
            Phase::Capture,
        ) is Handled),
    ensures
        ({
            let c = root.children@[i0 as int];
            let g = c.children@[i1 as int];
            let path = seq![i0, i1];
            let gh = spec_handle(g, name, Phase::Bubble) is Handled;
            let ch = spec_handle(c, name, Phase::Bubble) is Handled;
            let rh = spec_handle(root, name, Phase::Bubble) is Handled;
            let cap = seq![
                (root.id@, Phase::Capture),
                (c.id@, Phase::Capture),
                (g.id@, Phase::Capture),
            ];
            &&& capture_spec(root, name, path, 0) is None
            &&& (gh ==> dispatch_spec(root, name, path) == handled_spec(g.id@, Phase::Bubble)
                && dispatch_trace(root, name, path) == cap + seq![(g.id@, Phase::Bubble)])
            &&& (!gh && ch ==> dispatch_spec(root, name, path) == handled_spec(
                c.id@,
                Phase::Bubble,
            ) && dispatch_trace(root, name, path) == cap + seq![
                (g.id@, Phase::Bubble),
                (c.id@, Phase::Bubble),
            ])
            &&& (!gh && !ch && rh ==> dispatch_spec(root, name, path) == handled_spec(
                root.id@,
                Phase::Bubble,
            ) && dispatch_trace(root, name, path) == cap + seq![
                (g.id@, Phase::Bubble),
                (c.id@, Phase::Bubble),
                (root.id@, Phase::Bubble),
            ])
            &&& (!gh && !ch && !rh ==> dispatch_spec(root, name, path) == not_handled_spec()
                && dispatch_trace(root, name, path) == cap + seq![
                (g.id@, Phase::Bubble),
                (c.id@, Phase::Bubble),
                (root.id@, Phase::Bubble),
            ])
        }),
{
    let c = root.children@[i0 as int];
    let g = c.children@[i1 as int];
    let path = seq![i0, i1];
    assert(path[0] == i0 && path[1] == i1);
    assert(capture_spec(g, name, path, 2) is None);
    assert(capture_spec(c, name, path, 1) is None);
    assert(capture_spec(root, name, path, 0) is None);
    assert(bubble_spec(g, name, path, 2) == (
    if spec_handle(g, name, Phase::Bubble) is Handled {
        Some(g.id@)
    } else {
        None::<Seq<char>>
    }));
    assert(capture_trace(g, name, path, 2) =~= seq![(g.id@, Phase::Capture)]);
    assert(capture_trace(c, name, path, 1) =~= seq![(c.id@, Phase::Capture)] + capture_trace(
        g,
        name,
        path,
        2,
    ));
    assert(capture_trace(root, name, path, 0) =~= seq![(root.id@, Phase::Capture)]
        + capture_trace(c, name, path, 1));
    assert(capture_trace(root, name, path, 0) =~= seq![
        (root.id@, Phase::Capture),
        (c.id@, Phase::Capture),
        (g.id@, Phase::Capture),
    ]);
    assert(bubble_trace(g, name, path, 2) =~= seq![(g.id@, Phase::Bubble)]);
    let gh = spec_handle(g, name, Phase::Bubble) is Handled;
    let ch = spec_handle(c, name, Phase::Bubble) is Handled;
    if gh {
        assert(bubble_spec(g, name, path, 2) is Some);
        assert(bubble_trace(c, name, path, 1) =~= seq![(g.id@, Phase::Bubble)]);
        assert(bubble_spec(c, name, path, 1) is Some);
        assert(bubble_trace(root, name, path, 0) =~= seq![(g.id@, Phase::Bubble)]);
        assert(dispatch_trace(root, name, path) =~= capture_trace(root, name, path, 0) + seq![
            (g.id@, Phase::Bubble),
        ]);
    } else if ch {
        assert(bubble_trace(c, name, path, 1) =~= seq![
            (g.id@, Phase::Bubble),
            (c.id@, Phase::Bubble),
        ]);
        assert(dispatch_trace(root, name, path) =~= capture_trace(root, name, path, 0)
            + bubble_trace(root, name, path, 0));
    } else {
        assert(bubble_trace(c, name, path, 1) =~= seq![
            (g.id@, Phase::Bubble),
            (c.id@, Phase::Bubble),
        ]);
        assert(bubble_trace(root, name, path, 0) =~= seq![
            (g.id@, Phase::Bubble),
            (c.id@, Phase::Bubble),
            (root.id@, Phase::Bubble),
        ]);
    }
}

/// Middleware `Stop` aborts the dispatch: when any middleware in the chain
/// stops, the whole pipeline reports "not handled" and visits no handler at
/// all, whatever the tree, the action, and the path.
pub proof fn lemma_middleware_stop(
    kinds: Seq<SpecMiddlewareKind>,
    h: ActionHandler,
    name: Seq<char>,
    path: Seq<usize>,
    i: int,
)
    requires
        0 <= i < kinds.len(),
        kinds[i] is Stop,
    ensures
        routed_spec(kinds, h, name, path) == not_handled_spec(),
        !(routed_spec(kinds, h, name, path).result is Handled),
        routed_trace(kinds, h, name, path) == Seq::<(Seq<char>, Phase)>::empty(),
{
    lemma_stop_aborts(kinds, i);
}

} // verus!
