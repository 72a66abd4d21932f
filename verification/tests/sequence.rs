use tuilib::input::{KeyBinding, KeyCode, KeyEvent, KeyModifiers, KeySequence, KeySequenceBuilder};

fn make_key_event(code: KeyCode, modifiers: KeyModifiers) -> KeyEvent {
    KeyEvent { code, modifiers }
}

#[test]
fn test_sequence_creation() {
    let seq = KeySequence::new(vec![
        KeyBinding::new(KeyCode::Char('x')).with_modifiers(KeyModifiers::ctrl()),
        KeyBinding::new(KeyCode::Char('s')).with_modifiers(KeyModifiers::ctrl()),
    ]);

    assert_eq!(seq.len(), 2);
    assert!(!seq.is_single());
    assert!(seq.is_multi());
}

#[test]
fn test_sequence_single() {
    let seq = KeySequence::single(KeyBinding::new(KeyCode::Char('q')));

    assert_eq!(seq.len(), 1);
    assert!(seq.is_single());
    assert!(!seq.is_multi());
}

#[test]
fn test_sequence_first() {
    let seq = KeySequence::new(vec![
        KeyBinding::new(KeyCode::Char('a')),
        KeyBinding::new(KeyCode::Char('b')),
    ]);

    assert_eq!(seq.first().key(), KeyCode::Char('a'));
}

#[test]
fn test_sequence_matches_at() {
    let seq = KeySequence::new(vec![
        KeyBinding::new(KeyCode::Char('x')).with_modifiers(KeyModifiers::ctrl()),
        KeyBinding::new(KeyCode::Char('s')).with_modifiers(KeyModifiers::ctrl()),
    ]);

    let ctrl_x = make_key_event(KeyCode::Char('x'), KeyModifiers::ctrl());
    let ctrl_s = make_key_event(KeyCode::Char('s'), KeyModifiers::ctrl());
    let just_s = make_key_event(KeyCode::Char('s'), KeyModifiers::none());

    assert!(seq.matches_at(0, &ctrl_x));
    assert!(!seq.matches_at(0, &ctrl_s));

    assert!(seq.matches_at(1, &ctrl_s));
    assert!(!seq.matches_at(1, &just_s));

    // Out of bounds
    assert!(!seq.matches_at(2, &ctrl_x));
}

#[test]
fn test_sequence_iter() {
    let seq = KeySequence::new(vec![
        KeyBinding::new(KeyCode::Char('a')),
        KeyBinding::new(KeyCode::Char('b')),
    ]);

    let keys = seq.keys();
    assert_eq!(keys.len(), 2);
    assert_eq!(keys[0].key(), KeyCode::Char('a'));
    assert_eq!(keys[1].key(), KeyCode::Char('b'));
}

#[test]
fn test_sequence_equality() {
    let seq1 = KeySequence::new(vec![
        KeyBinding::new(KeyCode::Char('a')),
        KeyBinding::new(KeyCode::Char('b')),
    ]);
    let seq2 = KeySequence::new(vec![
        KeyBinding::new(KeyCode::Char('a')),
        KeyBinding::new(KeyCode::Char('b')),
    ]);
    let seq3 = KeySequence::new(vec![
        KeyBinding::new(KeyCode::Char('a')),
        KeyBinding::new(KeyCode::Char('c')),
    ]);

    assert_eq!(seq1, seq2);
    assert_ne!(seq1, seq3);
}

#[test]
fn test_builder() {
    let seq = KeySequenceBuilder::new()
        .key(KeyCode::Char('x'), KeyModifiers::ctrl())
        .key(KeyCode::Char('s'), KeyModifiers::ctrl())
        .build();

    assert_eq!(seq.len(), 2);
    assert_eq!(seq.keys()[0].modifiers(), KeyModifiers::ctrl());
}

#[test]
fn test_builder_simple_key() {
    let seq = KeySequenceBuilder::new()
        .simple_key(KeyCode::Char('g'))
        .simple_key(KeyCode::Char('g'))
        .build();

    assert_eq!(seq.len(), 2);
    assert_eq!(seq.keys()[0].modifiers(), KeyModifiers::none());
}

#[test]
fn test_builder_char_key() {
    let seq = KeySequenceBuilder::new().char_key('g').char_key('g').build();

    assert_eq!(seq.len(), 2);
    assert_eq!(seq.keys()[0].key(), KeyCode::Char('g'));
}

#[test]
fn test_builder_binding() {
    let binding = KeyBinding::new(KeyCode::Char('q')).with_modifiers(KeyModifiers::ctrl());
    let seq = KeySequenceBuilder::new().binding(binding).build();

    assert!(seq.is_single());
    assert_eq!(seq.first().modifiers(), KeyModifiers::ctrl());
}

#[test]
fn test_sequence_display_single() {
    let seq = KeySequence::single(KeyBinding::new(KeyCode::Char('q')));
    assert_eq!(seq.display_string(), "q");
}

#[test]
fn test_sequence_display_multi() {
    let seq = KeySequence::new(vec![
        KeyBinding::new(KeyCode::Char('x')).with_modifiers(KeyModifiers::ctrl()),
        KeyBinding::new(KeyCode::Char('s')).with_modifiers(KeyModifiers::ctrl()),
    ]);
    assert_eq!(seq.display_string(), "Ctrl+x Ctrl+s");
}
