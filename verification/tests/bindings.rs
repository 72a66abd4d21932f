use tuilib::input::{parse_key_sequence, ContextBuilder, KeyBinding, KeyBindings,
    KeyBindingsBuilder, KeyBindingsConfig, KeyCode, KeyModifiers, KeyOrKeys, KeySequence};

#[test]
fn test_builder_basic() {
    let bindings = KeyBindings::builder().bind("quit", "q").build();

    let q_seq = KeySequence::single(KeyBinding::new(KeyCode::Char('q')));
    let action = bindings.lookup(None, &q_seq);
    assert_eq!(action.map(|a| a.name()), Some("quit"));
}

#[test]
fn test_builder_with_modifier() {
    let bindings = KeyBindings::builder().bind("save", "Ctrl+s").build();

    let ctrl_s = KeySequence::single(KeyBinding::with_mods(KeyCode::Char('s'), KeyModifiers::ctrl()));
    let action = bindings.lookup(None, &ctrl_s);
    assert_eq!(action.map(|a| a.name()), Some("save"));
}

#[test]
fn test_builder_multi() {
    let bindings = KeyBindings::builder().bind_multi("up", &["k", "Up"]).build();

    let k_seq = KeySequence::single(KeyBinding::new(KeyCode::Char('k')));
    let up_seq = KeySequence::single(KeyBinding::new(KeyCode::Up));

    assert_eq!(bindings.lookup(None, &k_seq).map(|a| a.name()), Some("up"));
    assert_eq!(bindings.lookup(None, &up_seq).map(|a| a.name()), Some("up"));
}

#[test]
fn test_builder_context() {
    let bindings = KeyBindings::builder()
        .bind("quit", "q")
        .context("modal", ContextBuilder::new().bind("close", "Escape"))
        .build();

    let esc_seq = KeySequence::single(KeyBinding::new(KeyCode::Esc));

    // In the modal context, Escape closes.
    let action = bindings.lookup(Some("modal"), &esc_seq);
    assert_eq!(action.map(|a| a.name()), Some("close"));

    // Outside the modal, Escape is unbound.
    assert!(bindings.lookup(None, &esc_seq).is_none());
}

#[test]
fn test_context_fallback_to_global() {
    let bindings = KeyBindings::builder()
        .bind("quit", "q")
        .context("modal", ContextBuilder::new().bind("close", "Escape"))
        .build();

    let q_seq = KeySequence::single(KeyBinding::new(KeyCode::Char('q')));

    // In the modal context, 'q' still triggers the global quit.
    let action = bindings.lookup(Some("modal"), &q_seq);
    assert_eq!(action.map(|a| a.name()), Some("quit"));
}

#[test]
fn test_context_override_global() {
    let bindings = KeyBindings::builder()
        .bind("global_action", "Escape")
        .context("modal", ContextBuilder::new().bind("close", "Escape"))
        .build();

    let esc_seq = KeySequence::single(KeyBinding::new(KeyCode::Esc));

    let action = bindings.lookup(Some("modal"), &esc_seq);
    assert_eq!(action.map(|a| a.name()), Some("close"));

    let action = bindings.lookup(None, &esc_seq);
    assert_eq!(action.map(|a| a.name()), Some("global_action"));
}

#[test]
fn test_builder_sequence() {
    let bindings = KeyBindings::builder().bind("save", "Ctrl+x Ctrl+s").build();

    let save_seq = KeySequence::new(vec![
        KeyBinding::with_mods(KeyCode::Char('x'), KeyModifiers::ctrl()),
        KeyBinding::with_mods(KeyCode::Char('s'), KeyModifiers::ctrl()),
    ]);

    let action = bindings.lookup(None, &save_seq);
    assert_eq!(action.map(|a| a.name()), Some("save"));
}

#[test]
fn test_builder_bind_key() {
    let bindings = KeyBindings::builder()
        .bind_key(KeyBinding::with_mods(KeyCode::Char('s'), KeyModifiers::ctrl()), "save")
        .build();

    let ctrl_s = KeySequence::single(KeyBinding::with_mods(KeyCode::Char('s'), KeyModifiers::ctrl()));
    assert!(bindings.lookup(None, &ctrl_s).is_some());
}

#[test]
fn test_builder_errors() {
    let builder = KeyBindingsBuilder::new().bind("valid", "q").bind("invalid", "NotAValidKey");

    assert!(builder.has_errors());
    assert_eq!(builder.errors().len(), 1);
}

#[test]
fn test_try_build_with_errors() {
    let result = KeyBindingsBuilder::new().bind("invalid", "NotAValidKey").try_build();

    assert!(result.is_err());
    assert_eq!(result.unwrap_err().len(), 1);
}

#[test]
fn test_try_build_success() {
    let result = KeyBindingsBuilder::new().bind("quit", "q").try_build();

    assert!(result.is_ok());
}

#[test]
fn test_key_bindings_counts() {
    let bindings = KeyBindings::builder()
        .bind("quit", "q")
        .bind("save", "Ctrl+s")
        .context("modal", ContextBuilder::new().bind("close", "Escape"))
        .build();

    assert_eq!(bindings.global_count(), 2);
    assert_eq!(bindings.total_count(), 3);
}

#[test]
fn test_key_bindings_context_names() {
    let bindings = KeyBindings::builder()
        .context("modal", ContextBuilder::new().bind("close", "Escape"))
        .context("edit", ContextBuilder::new().bind("save", "Ctrl+s"))
        .build();

    let names = bindings.context_names();
    assert!(names.iter().any(|n| n == "modal"));
    assert!(names.iter().any(|n| n == "edit"));
}

#[test]
fn test_key_bindings_merge() {
    let mut base = KeyBindings::builder().bind("quit", "q").build();

    let overlay = KeyBindings::builder()
        .bind("save", "Ctrl+s")
        .bind("quit_alt", "Q")
        .context("modal", ContextBuilder::new().bind("close", "Escape"))
        .build();

    base.merge(overlay);

    assert!(bindings_has_action(&base, None, "q", "quit").is_some());
    assert!(bindings_has_action(&base, None, "Q", "quit_alt").is_some());
    assert!(bindings_has_action(&base, None, "Ctrl+s", "save").is_some());
    assert!(bindings_has_action(&base, Some("modal"), "Escape", "close").is_some());
}

fn bindings_has_action(
    bindings: &KeyBindings,
    context: Option<&str>,
    keys: &str,
    expected_action: &str,
) -> Option<()> {
    let seq = parse_key_sequence(keys).ok()?;
    let action = bindings.lookup(context, &seq)?;
    if action.name() == expected_action {
        Some(())
    } else {
        None
    }
}

#[test]
fn test_config_single_key() {
    let config = KeyBindingsConfig {
        global: vec![(String::from("quit"), KeyOrKeys::Single(String::from("q")))],
        contexts: vec![],
    };

    let bindings = config.into_key_bindings().unwrap();
    let q_seq = KeySequence::single(KeyBinding::new(KeyCode::Char('q')));
    assert!(bindings.lookup(None, &q_seq).is_some());
}

#[test]
fn test_config_multiple_keys() {
    let config = KeyBindingsConfig {
        global: vec![(
            String::from("up"),
            KeyOrKeys::Multiple(vec![String::from("k"), String::from("Up")]),
        )],
        contexts: vec![],
    };

    let bindings = config.into_key_bindings().unwrap();
    let k_seq = KeySequence::single(KeyBinding::new(KeyCode::Char('k')));
    let up_seq = KeySequence::single(KeyBinding::new(KeyCode::Up));

    assert!(bindings.lookup(None, &k_seq).is_some());
    assert!(bindings.lookup(None, &up_seq).is_some());
}

#[test]
fn test_config_with_contexts() {
    let config = KeyBindingsConfig {
        global: vec![(String::from("quit"), KeyOrKeys::Single(String::from("q")))],
        contexts: vec![(
            String::from("modal"),
            vec![(String::from("close"), KeyOrKeys::Single(String::from("Escape")))],
        )],
    };

    let bindings = config.into_key_bindings().unwrap();
    let esc_seq = KeySequence::single(KeyBinding::new(KeyCode::Esc));

    assert!(bindings.lookup(Some("modal"), &esc_seq).is_some());
    assert!(bindings.lookup(None, &esc_seq).is_none());
}

#[test]
fn test_config_bad_key_reports_errors() {
    let config = KeyBindingsConfig {
        global: vec![(String::from("quit"), KeyOrKeys::Single(String::from("Bogus+")))],
        contexts: vec![],
    };

    let errs = config.into_key_bindings().unwrap_err();
    assert_eq!(errs.len(), 1);
}

#[test]
fn test_lookup_key() {
    let bindings = KeyBindings::builder().bind("quit", "q").build();

    let q_binding = KeyBinding::new(KeyCode::Char('q'));
    let action = bindings.lookup_key(None, &q_binding);
    assert_eq!(action.map(|a| a.name()), Some("quit"));
}

#[test]
fn test_context_multi_bindings() {
    let bindings = KeyBindings::builder()
        .context("modal", ContextBuilder::new().bind_multi("close", &["Escape", "q"]))
        .build();

    let esc_seq = KeySequence::single(KeyBinding::new(KeyCode::Esc));
    let q_seq = KeySequence::single(KeyBinding::new(KeyCode::Char('q')));

    assert!(bindings.lookup(Some("modal"), &esc_seq).is_some());
    assert!(bindings.lookup(Some("modal"), &q_seq).is_some());
}

#[test]
fn test_empty_bindings() {
    let bindings = KeyBindings::new();

    let q_seq = KeySequence::single(KeyBinding::new(KeyCode::Char('q')));
    assert!(bindings.lookup(None, &q_seq).is_none());
    assert_eq!(bindings.global_count(), 0);
    assert_eq!(bindings.total_count(), 0);
}

#[test]
fn test_rebind_overwrites() {
    // Registering the same sequence twice in one scope keeps the last
    // action: last write wins.
    let bindings = KeyBindings::builder().bind("first", "q").bind("second", "q").build();

    let q_seq = KeySequence::single(KeyBinding::new(KeyCode::Char('q')));
    assert_eq!(bindings.lookup(None, &q_seq).map(|a| a.name()), Some("second"));
}
