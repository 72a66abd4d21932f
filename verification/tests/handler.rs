use tuilib::input::{Action, ActionHandler, HandleResult, Phase};

#[test]
fn test_phase_helpers() {
    assert!(Phase::Capture.is_capture());
    assert!(!Phase::Capture.is_bubble());

    assert!(Phase::Bubble.is_bubble());
    assert!(!Phase::Bubble.is_capture());
}

#[test]
fn test_phase_display() {
    assert_eq!(Phase::Capture.as_str(), "Capture");
    assert_eq!(Phase::Bubble.as_str(), "Bubble");
}

#[test]
fn test_handle_result_helpers() {
    assert!(HandleResult::Handled.should_stop());
    assert!(HandleResult::Handled.is_handled());
    assert!(!HandleResult::Handled.should_continue());

    assert!(!HandleResult::Continue.should_stop());
    assert!(!HandleResult::Continue.is_handled());
    assert!(HandleResult::Continue.should_continue());

    assert!(!HandleResult::Ignored.should_stop());
    assert!(HandleResult::Ignored.is_ignored());
    assert!(HandleResult::Ignored.should_continue());
}

#[test]
fn test_handle_result_default() {
    assert_eq!(HandleResult::default(), HandleResult::Ignored);
}

#[test]
fn test_handle_result_display() {
    assert_eq!(HandleResult::Continue.as_str(), "Continue");
    assert_eq!(HandleResult::Handled.as_str(), "Handled");
    assert_eq!(HandleResult::Ignored.as_str(), "Ignored");
}

#[test]
fn test_action_handler_trait() {
    let handler = ActionHandler::new("test").handles("click");

    let click = Action::new("click");
    let other = Action::new("other");

    assert_eq!(handler.handle(&click, Phase::Bubble), HandleResult::Handled);
    assert_eq!(handler.handle(&other, Phase::Bubble), HandleResult::Continue);
}

#[test]
fn test_find_focus_path_self() {
    let handler = ActionHandler::new("root").focused();
    let path = handler.find_focus_path();
    assert_eq!(path, Some(vec![]));
}

#[test]
fn test_find_focus_path_child() {
    let child = ActionHandler::new("child").focused();
    let handler = ActionHandler::new("root").with_child(child);

    let path = handler.find_focus_path();
    assert_eq!(path, Some(vec![0]));
}

#[test]
fn test_find_focus_path_nested() {
    let grandchild = ActionHandler::new("grandchild").focused();
    let child = ActionHandler::new("child").with_child(grandchild);
    let handler = ActionHandler::new("root").with_child(child);

    let path = handler.find_focus_path();
    assert_eq!(path, Some(vec![0, 0]));
}

#[test]
fn test_find_focus_path_none() {
    let handler = ActionHandler::new("root");
    let path = handler.find_focus_path();
    assert_eq!(path, None);
}

#[test]
fn test_default_children() {
    let handler = ActionHandler::new("simple");
    assert!(handler.children().is_empty());
}

#[test]
fn test_find_focus_path_first_depth_first_match() {
    // Two children claim focus; the first in depth-first order wins.
    let first = ActionHandler::new("first").focused();
    let second = ActionHandler::new("second").focused();
    let handler = ActionHandler::new("root").with_child(first).with_child(second);

    let path = handler.find_focus_path();
    assert_eq!(path, Some(vec![0]));
}

#[test]
fn test_capture_and_bubble_tables_are_separate() {
    let handler = ActionHandler::new("h").handles_capture("close").handles_bubble("open");
    let close = Action::new("close");
    let open = Action::new("open");

    assert_eq!(handler.handle(&close, Phase::Capture), HandleResult::Handled);
    assert_eq!(handler.handle(&close, Phase::Bubble), HandleResult::Continue);
    assert_eq!(handler.handle(&open, Phase::Bubble), HandleResult::Handled);
    assert_eq!(handler.handle(&open, Phase::Capture), HandleResult::Continue);
}
