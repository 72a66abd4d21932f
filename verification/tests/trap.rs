use tuilib::focus::{FocusId, FocusTrap};

#[test]
fn trap_test_new_empty() {
    let trap = FocusTrap::new();
    assert!(trap.is_empty());
    assert!(trap.saved_focus().is_none());
}

#[test]
fn test_with_saved_focus() {
    let trap = FocusTrap::with_saved_focus(FocusId::new("original"));
    assert!(trap.is_empty());
    assert_eq!(trap.saved_focus(), Some(&FocusId::new("original")));
}

#[test]
fn trap_test_register_and_navigate() {
    let mut trap = FocusTrap::new();
    trap.register(FocusId::new("a"), 0);
    trap.register(FocusId::new("b"), 0);

    assert_eq!(trap.next(), Some(FocusId::new("a")));
    assert_eq!(trap.next(), Some(FocusId::new("b")));
    assert_eq!(trap.next(), Some(FocusId::new("a"))); // Cycles
}

#[test]
fn test_prev_navigation() {
    let mut trap = FocusTrap::new();
    trap.register(FocusId::new("a"), 0);
    trap.register(FocusId::new("b"), 0);

    assert_eq!(trap.prev(), Some(FocusId::new("b"))); // Starts at the end
    assert_eq!(trap.prev(), Some(FocusId::new("a")));
}

#[test]
fn trap_test_focus_direct() {
    let mut trap = FocusTrap::new();
    trap.register(FocusId::new("a"), 0);
    trap.register(FocusId::new("b"), 0);

    assert!(trap.focus(&FocusId::new("b")));
    assert_eq!(trap.current(), Some(&FocusId::new("b")));
}

#[test]
fn trap_test_unregister() {
    let mut trap = FocusTrap::new();
    trap.register(FocusId::new("a"), 0);
    trap.register(FocusId::new("b"), 0);

    assert!(trap.unregister(&FocusId::new("a")));
    assert_eq!(trap.len(), 1);
    assert!(!trap.contains(&FocusId::new("a")));
}

#[test]
fn test_take_saved_focus() {
    let mut trap = FocusTrap::with_saved_focus(FocusId::new("saved"));

    let taken = trap.take_saved_focus();
    assert_eq!(taken, Some(FocusId::new("saved")));
    assert!(trap.saved_focus().is_none());
}

#[test]
fn trap_test_contains() {
    let mut trap = FocusTrap::new();
    trap.register(FocusId::new("inside"), 0);

    assert!(trap.contains(&FocusId::new("inside")));
    assert!(!trap.contains(&FocusId::new("outside")));
}

#[test]
fn test_ring_access() {
    let mut trap = FocusTrap::new();
    trap.register(FocusId::new("a"), 0);

    // Read access.
    assert_eq!(trap.ring().len(), 1);

    // Write access.
    trap.ring_mut().register(FocusId::new("b"), 0);
    assert_eq!(trap.len(), 2);
}

#[test]
fn trap_test_default() {
    let trap = FocusTrap::default();
    assert!(trap.is_empty());
}
