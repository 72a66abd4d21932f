use std::collections::HashMap;

use tuilib::input::Action;

#[test]
fn test_action_creation() {
    let action = Action::new("quit");
    assert_eq!(action.name(), "quit");
}

#[test]
fn test_action_from_string() {
    let action = Action::new(String::from("save").as_str());
    assert_eq!(action.name(), "save");
}

#[test]
fn test_action_equality() {
    let a1 = Action::new("test");
    let a2 = Action::new("test");
    let a3 = Action::new("other");

    assert_eq!(a1, a2);
    assert_ne!(a1, a3);
}

#[test]
fn test_action_hash() {
    let mut map: HashMap<Action, i32> = HashMap::new();
    map.insert(Action::new("quit"), 1);
    map.insert(Action::new("save"), 2);

    assert_eq!(map.get(&Action::new("quit")), Some(&1));
    assert_eq!(map.get(&Action::new("save")), Some(&2));
    assert_eq!(map.get(&Action::new("unknown")), None);
}

#[test]
fn test_action_from_static_str() {
    let action = Action::new("quit");
    assert_eq!(action.name(), "quit");
}

#[test]
fn test_action_from_owned_string() {
    let action = Action::new(String::from("save").as_str());
    assert_eq!(action.name(), "save");
}

#[test]
fn test_action_debug() {
    let action = Action::new("test");
    let debug_str = format!("{:?}", action);
    assert!(debug_str.contains("test"));
}

#[test]
fn test_action_display() {
    let action = Action::new("quit");
    assert_eq!(action.name(), "quit");
}

#[test]
fn test_action_clone() {
    let original = Action::new("test");
    let cloned = original.clone();
    assert_eq!(original, cloned);
}

#[test]
fn test_action_as_ref() {
    let action = Action::new("test");
    let s: &str = action.name();
    assert_eq!(s, "test");
}
