use tuilib::input::{parse_key_binding, parse_key_sequence, KeyCode, KeyModifiers,
    ParseKeyErrorKind};

#[test]
fn test_parse_single_char() {
    let binding = parse_key_binding("q").unwrap();
    assert_eq!(binding.key(), KeyCode::Char('q'));
    assert_eq!(binding.modifiers(), KeyModifiers::none());
}

#[test]
fn test_parse_ctrl_char() {
    let binding = parse_key_binding("Ctrl+s").unwrap();
    assert_eq!(binding.key(), KeyCode::Char('s'));
    assert_eq!(binding.modifiers(), KeyModifiers::ctrl());
}

#[test]
fn test_parse_ctrl_lowercase() {
    let binding = parse_key_binding("ctrl+s").unwrap();
    assert_eq!(binding.key(), KeyCode::Char('s'));
    assert_eq!(binding.modifiers(), KeyModifiers::ctrl());
}

#[test]
fn test_parse_alt_char() {
    let binding = parse_key_binding("Alt+x").unwrap();
    assert_eq!(binding.key(), KeyCode::Char('x'));
    assert_eq!(binding.modifiers(), KeyModifiers::alt());
}

#[test]
fn test_parse_shift_char() {
    let binding = parse_key_binding("Shift+a").unwrap();
    assert_eq!(binding.key(), KeyCode::Char('a'));
    assert_eq!(binding.modifiers(), KeyModifiers::shift());
}

#[test]
fn test_parse_multiple_modifiers() {
    let binding = parse_key_binding("Ctrl+Shift+x").unwrap();
    assert_eq!(binding.key(), KeyCode::Char('x'));
    assert!(binding.modifiers().contains(KeyModifiers::ctrl()));
    assert!(binding.modifiers().contains(KeyModifiers::shift()));
}

#[test]
fn test_parse_all_modifiers() {
    let binding = parse_key_binding("Ctrl+Alt+Shift+Super+x").unwrap();
    assert_eq!(binding.key(), KeyCode::Char('x'));
    assert!(binding.modifiers().contains(KeyModifiers::ctrl()));
    assert!(binding.modifiers().contains(KeyModifiers::alt()));
    assert!(binding.modifiers().contains(KeyModifiers::shift()));
    assert!(binding.modifiers().contains(KeyModifiers::superkey()));
}

#[test]
fn test_parse_function_key() {
    let binding = parse_key_binding("F1").unwrap();
    assert_eq!(binding.key(), KeyCode::F(1));
}

#[test]
fn test_parse_function_key_with_modifier() {
    let binding = parse_key_binding("Ctrl+F12").unwrap();
    assert_eq!(binding.key(), KeyCode::F(12));
    assert_eq!(binding.modifiers(), KeyModifiers::ctrl());
}

#[test]
fn test_parse_enter() {
    let binding = parse_key_binding("Enter").unwrap();
    assert_eq!(binding.key(), KeyCode::Enter);
}

#[test]
fn test_parse_escape() {
    let binding = parse_key_binding("Escape").unwrap();
    assert_eq!(binding.key(), KeyCode::Esc);

    let binding = parse_key_binding("Esc").unwrap();
    assert_eq!(binding.key(), KeyCode::Esc);
}

#[test]
fn test_parse_space() {
    let binding = parse_key_binding("Space").unwrap();
    assert_eq!(binding.key(), KeyCode::Char(' '));
}

#[test]
fn test_parse_arrow_keys() {
    assert_eq!(parse_key_binding("Up").unwrap().key(), KeyCode::Up);
    assert_eq!(parse_key_binding("Down").unwrap().key(), KeyCode::Down);
    assert_eq!(parse_key_binding("Left").unwrap().key(), KeyCode::Left);
    assert_eq!(parse_key_binding("Right").unwrap().key(), KeyCode::Right);
}

#[test]
fn test_parse_navigation_keys() {
    assert_eq!(parse_key_binding("Home").unwrap().key(), KeyCode::Home);
    assert_eq!(parse_key_binding("End").unwrap().key(), KeyCode::End);
    assert_eq!(parse_key_binding("PageUp").unwrap().key(), KeyCode::PageUp);
    assert_eq!(parse_key_binding("PageDown").unwrap().key(), KeyCode::PageDown);
    assert_eq!(parse_key_binding("Insert").unwrap().key(), KeyCode::Insert);
    assert_eq!(parse_key_binding("Delete").unwrap().key(), KeyCode::Delete);
}

#[test]
fn test_parse_hyphen_separator() {
    let binding = parse_key_binding("Ctrl-s").unwrap();
    assert_eq!(binding.key(), KeyCode::Char('s'));
    assert_eq!(binding.modifiers(), KeyModifiers::ctrl());
}

#[test]
fn test_parse_modifier_aliases() {
    assert_eq!(parse_key_binding("Control+x").unwrap().modifiers(), KeyModifiers::ctrl());

    assert_eq!(parse_key_binding("Meta+x").unwrap().modifiers(), KeyModifiers::alt());
    assert_eq!(parse_key_binding("Option+x").unwrap().modifiers(), KeyModifiers::alt());

    assert_eq!(parse_key_binding("Win+x").unwrap().modifiers(), KeyModifiers::superkey());
    assert_eq!(parse_key_binding("Cmd+x").unwrap().modifiers(), KeyModifiers::superkey());
}

#[test]
fn test_parse_whitespace_handling() {
    let binding = parse_key_binding("  Ctrl + s  ").unwrap();
    assert_eq!(binding.key(), KeyCode::Char('s'));
    assert_eq!(binding.modifiers(), KeyModifiers::ctrl());
}

#[test]
fn test_parse_sequence_single() {
    let seq = parse_key_sequence("q").unwrap();
    assert_eq!(seq.len(), 1);
    assert_eq!(seq.first().key(), KeyCode::Char('q'));
}

#[test]
fn test_parse_sequence_two_keys() {
    let seq = parse_key_sequence("Ctrl+x Ctrl+s").unwrap();
    assert_eq!(seq.len(), 2);
    assert_eq!(seq.keys()[0].key(), KeyCode::Char('x'));
    assert_eq!(seq.keys()[1].key(), KeyCode::Char('s'));
}

#[test]
fn test_parse_sequence_vim_gg() {
    let seq = parse_key_sequence("g g").unwrap();
    assert_eq!(seq.len(), 2);
    assert_eq!(seq.keys()[0].key(), KeyCode::Char('g'));
    assert_eq!(seq.keys()[1].key(), KeyCode::Char('g'));
}

#[test]
fn test_parse_error_empty() {
    let err = parse_key_binding("").unwrap_err();
    assert_eq!(err.kind(), &ParseKeyErrorKind::EmptyInput);
}

#[test]
fn test_parse_error_invalid_key() {
    let err = parse_key_binding("InvalidKeyName").unwrap_err();
    assert!(matches!(err.kind(), ParseKeyErrorKind::InvalidKey(_)));
}

#[test]
fn test_parse_error_only_modifiers() {
    let err = parse_key_binding("Ctrl+").unwrap_err();
    assert!(matches!(err.kind(), ParseKeyErrorKind::NoKeySpecified));
}

#[test]
fn test_parse_key_shorthand_abbreviations() {
    assert_eq!(parse_key_binding("bs").unwrap().key(), KeyCode::Backspace);

    assert_eq!(parse_key_binding("CR").unwrap().key(), KeyCode::Enter);

    assert_eq!(parse_key_binding("PgUp").unwrap().key(), KeyCode::PageUp);
    assert_eq!(parse_key_binding("PgDn").unwrap().key(), KeyCode::PageDown);
}

#[test]
fn test_parse_error_invalid_key_payload() {
    let err = parse_key_binding("Ctrl+NotAKey").unwrap_err();
    assert_eq!(err.input(), "Ctrl+NotAKey");
    assert_eq!(err.kind(), &ParseKeyErrorKind::InvalidKey(String::from("NotAKey")));
}

#[test]
fn test_parse_error_invalid_modifier_payload() {
    let err = parse_key_binding("Bogus+s").unwrap_err();
    assert_eq!(err.input(), "Bogus+s");
    assert_eq!(err.kind(), &ParseKeyErrorKind::InvalidModifier(String::from("Bogus")));
}

#[test]
fn test_parse_error_two_keys_in_one_binding() {
    let err = parse_key_binding("a+b").unwrap_err();
    assert_eq!(err.kind(), &ParseKeyErrorKind::InvalidModifier(String::from("b")));
}

#[test]
fn test_parse_sequence_error_empty() {
    let err = parse_key_sequence("   ").unwrap_err();
    assert_eq!(err.kind(), &ParseKeyErrorKind::EmptyInput);
}

#[test]
fn test_parse_function_key_bounds() {
    assert_eq!(parse_key_binding("F24").unwrap().key(), KeyCode::F(24));
    assert_eq!(parse_key_binding("f3").unwrap().key(), KeyCode::F(3));
    assert_eq!(parse_key_binding("F007").unwrap().key(), KeyCode::F(7));
    assert!(parse_key_binding("F25").is_err());
    assert!(parse_key_binding("F0").is_err());
    assert!(parse_key_binding("F999999999999").is_err());
}

#[test]
fn test_error_display() {
    let err = parse_key_binding("").unwrap_err();
    assert_eq!(err.message(), "empty key binding string");

    let err = parse_key_binding("InvalidKey").unwrap_err();
    assert!(err.message().contains("invalid key"));

    let err = parse_key_binding("Bogus+s").unwrap_err();
    assert_eq!(err.message(), "invalid modifier 'Bogus' in 'Bogus+s'");

    let err = parse_key_binding("Ctrl+").unwrap_err();
    assert_eq!(err.message(), "no key specified in 'Ctrl+'");
}
