use tuilib::input::{Action, ActionHandler, ActionMiddleware, ActionRouter, DispatchResult,
    HandleResult, Phase};

#[test]
fn test_dispatch_result_helpers() {
    let not_handled = DispatchResult::not_handled();
    assert!(!not_handled.was_handled());
    assert!(not_handled.handled_by.is_none());
    assert!(!not_handled.propagation_stopped);

    let handled = DispatchResult::handled("test", Phase::Bubble);
    assert!(handled.was_handled());
    assert_eq!(handled.handled_by.as_deref(), Some("test"));
    assert_eq!(handled.handled_in, Some(Phase::Bubble));
    assert!(handled.propagation_stopped);
}

#[test]
fn test_router_dispatch_to_root() {
    let mut router = ActionRouter::new();
    let handler = ActionHandler::new("root").handles_bubble("click");

    let result = router.dispatch(&handler, Action::new("click"));

    assert!(result.was_handled());
    assert_eq!(result.handled_by.as_deref(), Some("root"));
    assert_eq!(result.handled_in, Some(Phase::Bubble));
}

#[test]
fn test_router_capture_phase() {
    let mut router = ActionRouter::new();

    let child = ActionHandler::new("child").focused();
    let handler = ActionHandler::new("root").handles_capture("intercept").with_child(child);

    let result = router.dispatch(&handler, Action::new("intercept"));

    assert!(result.was_handled());
    assert_eq!(result.handled_by.as_deref(), Some("root"));
    assert_eq!(result.handled_in, Some(Phase::Capture));
}

#[test]
fn test_router_bubble_phase() {
    let mut router = ActionRouter::new();

    let child = ActionHandler::new("child").focused().handles_bubble("click");
    let handler = ActionHandler::new("root").with_child(child);

    let result = router.dispatch(&handler, Action::new("click"));

    assert!(result.was_handled());
    assert_eq!(result.handled_by.as_deref(), Some("child"));
    assert_eq!(result.handled_in, Some(Phase::Bubble));
}

#[test]
fn test_router_no_focus() {
    let mut router = ActionRouter::new();
    let handler = ActionHandler::new("root").handles_bubble("click");

    // No focus set, so the action is still dispatched to the root.
    let result = router.dispatch(&handler, Action::new("click"));

    assert!(result.was_handled());
    assert_eq!(result.handled_by.as_deref(), Some("root"));
}

#[test]
fn test_router_with_middleware() {
    let mut router = ActionRouter::new();
    router.add_middleware(ActionMiddleware::new("passthrough"));

    let handler = ActionHandler::new("root").handles_bubble("click");
    let result = router.dispatch(&handler, Action::new("click"));

    assert!(result.was_handled());
}

#[test]
fn test_dispatch_to_path() {
    let mut router = ActionRouter::new();

    let child = ActionHandler::new("child").handles_bubble("click");
    let root = ActionHandler::new("root").with_child(child);

    // Dispatch directly to the child via an explicit path.
    let result = router.dispatch_to_path(&root, Action::new("click"), &[0]);

    assert!(result.was_handled());
    assert_eq!(result.handled_by.as_deref(), Some("child"));
}

#[test]
fn test_router_default() {
    let router = ActionRouter::default();
    assert_eq!(router.middleware_count(), 0);
}

#[test]
fn test_router_debug() {
    let mut router = ActionRouter::new();
    router.add_middleware(ActionMiddleware::new("passthrough"));

    let debug_str = format!("{:?}", router);
    assert!(debug_str.contains("ActionRouter"));
}

#[test]
fn test_nested_hierarchy() {
    let mut router = ActionRouter::new();

    // A three-level hierarchy focused on the deepest node.
    let leaf = ActionHandler::new("leaf").focused().handles_bubble("leaf_action");
    let middle = ActionHandler::new("middle").handles_bubble("middle_action").with_child(leaf);
    let root = ActionHandler::new("root").handles_bubble("root_action").with_child(middle);

    // Action handled at the leaf.
    let result = router.dispatch(&root, Action::new("leaf_action"));
    assert!(result.was_handled());
    assert_eq!(result.handled_by.as_deref(), Some("leaf"));

    let leaf = ActionHandler::new("leaf").focused();
    let middle = ActionHandler::new("middle").handles_bubble("middle_action").with_child(leaf);
    let root = ActionHandler::new("root").handles_bubble("root_action").with_child(middle);

    // Action handled at the middle node (bubbles up from the leaf).
    let result = router.dispatch(&root, Action::new("middle_action"));
    assert!(result.was_handled());
    assert_eq!(result.handled_by.as_deref(), Some("middle"));

    let leaf = ActionHandler::new("leaf").focused();
    let middle = ActionHandler::new("middle").with_child(leaf);
    let root = ActionHandler::new("root").handles_bubble("root_action").with_child(middle);

    // Action handled at the root (bubbles all the way up).
    let result = router.dispatch(&root, Action::new("root_action"));
    assert!(result.was_handled());
    assert_eq!(result.handled_by.as_deref(), Some("root"));
}

#[test]
fn test_capture_intercepts_before_bubble() {
    let mut router = ActionRouter::new();

    let leaf = ActionHandler::new("leaf").focused().handles_bubble("test");
    let root = ActionHandler::new("root").handles_capture("test").with_child(leaf);

    let result = router.dispatch(&root, Action::new("test"));

    // The root captures it before the leaf can handle it in the bubble.
    assert!(result.was_handled());
    assert_eq!(result.handled_by.as_deref(), Some("root"));
    assert_eq!(result.handled_in, Some(Phase::Capture));
}

#[test]
fn test_middleware_transform_reaches_handlers() {
    let mut router = ActionRouter::new();
    router.add_middleware(ActionMiddleware::new("remap").transform("renamed"));

    let handler = ActionHandler::new("root").handles_bubble("renamed");
    let result = router.dispatch(&handler, Action::new("original"));

    assert!(result.was_handled());
    assert_eq!(result.handled_by.as_deref(), Some("root"));
}

#[test]
fn test_middleware_stop_aborts_dispatch() {
    // A Stop from any middleware means the dispatch reports "not handled"
    // and the after-chain never runs.
    let mut router = ActionRouter::new();
    router.add_middleware(ActionMiddleware::new("blocker").stop());
    router.add_middleware(ActionMiddleware::new("observer"));

    let handler = ActionHandler::new("root").handles_bubble("click").focused();
    let result = router.dispatch(&handler, Action::new("click"));

    assert!(!result.was_handled());
    assert!(result.handled_by.is_none());

    // The blocker saw the action; the observer's hooks never ran.
    let mws = router.middlewares();
    assert_eq!(mws[0].before_log().len(), 1);
    assert_eq!(mws[0].after_log().len(), 0);
    assert_eq!(mws[1].before_log().len(), 0);
    assert_eq!(mws[1].after_log().len(), 0);
}

#[test]
fn test_after_chain_runs_even_when_unhandled() {
    let mut router = ActionRouter::new();
    router.add_middleware(ActionMiddleware::new("observer"));

    let handler = ActionHandler::new("root");
    let result = router.dispatch(&handler, Action::new("nobody"));

    assert!(!result.was_handled());
    let mws = router.middlewares();
    assert_eq!(mws[0].before_log().len(), 1);
    assert_eq!(mws[0].after_log().len(), 1);
    assert_eq!(mws[0].after_log()[0].1, HandleResult::Ignored);
}

#[test]
fn test_stale_path_degrades_to_not_handled() {
    let mut router = ActionRouter::new();
    let child = ActionHandler::new("child").handles_bubble("go");
    let root = ActionHandler::new("root").with_child(child);

    // An out-of-range index simply stops the walk at the root.
    let result = router.dispatch_to_path(&root, Action::new("go"), &[5]);
    assert!(!result.was_handled());
}
