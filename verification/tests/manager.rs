use tuilib::focus::{FocusDirection, FocusId, FocusManager, FocusResult, FocusTrap};

#[test]
fn test_new() {
    let manager = FocusManager::new();
    assert!(manager.is_empty());
    assert!(!manager.has_trap());
    assert!(manager.current().is_none());
}

#[test]
fn manager_test_register_and_navigate() {
    let mut manager = FocusManager::new();
    manager.register(FocusId::new("a"), 0);
    manager.register(FocusId::new("b"), 0);
    manager.register(FocusId::new("c"), 0);

    assert_eq!(manager.len(), 3);

    let result = manager.navigate(FocusDirection::Next);
    assert!(matches!(result, FocusResult::Moved { from: None, to } if to == FocusId::new("a")));

    let result = manager.navigate(FocusDirection::Next);
    assert!(
        matches!(result, FocusResult::Moved { from: Some(f), to } if f == FocusId::new("a") && to == FocusId::new("b"))
    );
}

#[test]
fn test_navigate_previous() {
    let mut manager = FocusManager::new();
    manager.register(FocusId::new("a"), 0);
    manager.register(FocusId::new("b"), 0);

    manager.navigate(FocusDirection::Previous);
    assert_eq!(manager.current(), Some(&FocusId::new("b")));

    manager.navigate(FocusDirection::Previous);
    assert_eq!(manager.current(), Some(&FocusId::new("a")));
}

#[test]
fn test_focus_next_prev_convenience() {
    let mut manager = FocusManager::new();
    manager.register(FocusId::new("a"), 0);
    manager.register(FocusId::new("b"), 0);

    assert_eq!(manager.focus_next(), Some(FocusId::new("a")));
    assert_eq!(manager.focus_next(), Some(FocusId::new("b")));
    assert_eq!(manager.focus_prev(), Some(FocusId::new("a")));
}

#[test]
fn manager_test_focus_direct() {
    let mut manager = FocusManager::new();
    manager.register(FocusId::new("a"), 0);
    manager.register(FocusId::new("b"), 0);

    assert!(manager.focus(&FocusId::new("b")));
    assert_eq!(manager.current(), Some(&FocusId::new("b")));

    assert!(!manager.focus(&FocusId::new("nonexistent")));
}

#[test]
fn manager_test_unregister() {
    let mut manager = FocusManager::new();
    manager.register(FocusId::new("a"), 0);
    manager.register(FocusId::new("b"), 0);

    assert!(manager.unregister(&FocusId::new("a")));
    assert_eq!(manager.len(), 1);
    assert!(!manager.contains(&FocusId::new("a")));
}

#[test]
fn test_focus_trap_basic() {
    let mut manager = FocusManager::new();
    manager.register(FocusId::new("main-1"), 0);
    manager.register(FocusId::new("main-2"), 0);
    manager.focus_next(); // Focus main-1

    let mut trap = FocusTrap::new();
    trap.register(FocusId::new("modal-1"), 0);
    trap.register(FocusId::new("modal-2"), 0);
    manager.push_trap(trap);

    assert!(manager.has_trap());
    assert_eq!(manager.trap_count(), 1);

    // Navigation stays within the trap.
    assert_eq!(manager.current(), Some(&FocusId::new("modal-1")));
    manager.focus_next();
    assert_eq!(manager.current(), Some(&FocusId::new("modal-2")));
    manager.focus_next();
    assert_eq!(manager.current(), Some(&FocusId::new("modal-1"))); // Wraps in the trap
}

#[test]
fn test_focus_trap_restoration() {
    let mut manager = FocusManager::new();
    manager.register(FocusId::new("main"), 0);
    manager.focus_next();
    assert_eq!(manager.current(), Some(&FocusId::new("main")));

    let mut trap = FocusTrap::new();
    trap.register(FocusId::new("modal"), 0);
    manager.push_trap(trap);

    manager.pop_trap();

    assert!(!manager.has_trap());
    assert_eq!(manager.current(), Some(&FocusId::new("main")));
}

#[test]
fn test_nested_traps() {
    let mut manager = FocusManager::new();
    manager.register(FocusId::new("main"), 0);
    manager.focus_next();

    let mut trap1 = FocusTrap::new();
    trap1.register(FocusId::new("modal1"), 0);
    manager.push_trap(trap1);
    manager.focus_next();

    let mut trap2 = FocusTrap::new();
    trap2.register(FocusId::new("modal2"), 0);
    manager.push_trap(trap2);

    assert_eq!(manager.trap_count(), 2);
    assert_eq!(manager.current(), Some(&FocusId::new("modal2")));

    manager.pop_trap();
    assert_eq!(manager.trap_count(), 1);
    assert_eq!(manager.current(), Some(&FocusId::new("modal1")));

    manager.pop_trap();
    assert!(!manager.has_trap());
    assert_eq!(manager.current(), Some(&FocusId::new("main")));
}

#[test]
fn test_save_restore_focus() {
    let mut manager = FocusManager::new();
    manager.register(FocusId::new("a"), 0);
    manager.register(FocusId::new("b"), 0);
    manager.focus_next(); // Focus "a"

    manager.save_focus();
    manager.focus(&FocusId::new("b"));
    assert_eq!(manager.current(), Some(&FocusId::new("b")));

    let restored = manager.restore_focus();
    assert_eq!(restored, Some(FocusId::new("a")));
    assert_eq!(manager.current(), Some(&FocusId::new("a")));
}

#[test]
fn manager_test_clear_focus() {
    let mut manager = FocusManager::new();
    manager.register(FocusId::new("a"), 0);
    manager.focus_next();

    assert!(manager.current().is_some());
    manager.clear_focus();
    assert!(manager.current().is_none());
}

#[test]
fn manager_test_clear() {
    let mut manager = FocusManager::new();
    manager.register(FocusId::new("a"), 0);
    manager.focus_next();

    let mut trap = FocusTrap::new();
    trap.register(FocusId::new("modal"), 0);
    manager.push_trap(trap);

    manager.clear();

    assert!(manager.is_empty());
    assert!(!manager.has_trap());
}

#[test]
fn manager_test_contains() {
    let mut manager = FocusManager::new();
    manager.register(FocusId::new("main"), 0);

    assert!(manager.contains(&FocusId::new("main")));
    assert!(!manager.contains(&FocusId::new("other")));

    let mut trap = FocusTrap::new();
    trap.register(FocusId::new("modal"), 0);
    manager.push_trap(trap);

    assert!(manager.contains(&FocusId::new("modal")));
    assert!(!manager.contains(&FocusId::new("main"))); // Not in the trap
}

#[test]
fn test_navigate_empty() {
    let mut manager = FocusManager::new();
    let result = manager.navigate(FocusDirection::Next);
    assert_eq!(result, FocusResult::NoFocusables);
}

#[test]
fn test_navigate_single_item() {
    let mut manager = FocusManager::new();
    manager.register(FocusId::new("only"), 0);

    manager.focus_next();
    let result = manager.navigate(FocusDirection::Next);
    assert_eq!(result, FocusResult::Unchanged(FocusId::new("only")));
}

#[test]
fn manager_test_default() {
    let manager = FocusManager::default();
    assert!(manager.is_empty());
}

#[test]
fn test_focus_in_trap_restricts_to_trap() {
    let mut manager = FocusManager::new();
    manager.register(FocusId::new("main"), 0);

    let mut trap = FocusTrap::new();
    trap.register(FocusId::new("modal"), 0);
    manager.push_trap(trap);

    assert!(!manager.focus(&FocusId::new("main")));
    assert!(manager.focus(&FocusId::new("modal")));
}
