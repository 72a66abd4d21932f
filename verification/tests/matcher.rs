use tuilib::input::{Action, InputMatcher, KeyBinding, KeyCode, KeyEvent, KeyModifiers,
    KeySequence, MatchResult};

fn make_key_event(code: KeyCode, modifiers: KeyModifiers) -> KeyEvent {
    KeyEvent { code, modifiers }
}

#[test]
fn test_matcher_creation() {
    let matcher = InputMatcher::new(500);
    assert_eq!(matcher.binding_count(), 0);
    assert!(!matcher.is_sequence_pending());
}

#[test]
fn test_matcher_default() {
    let matcher = InputMatcher::default();
    assert_eq!(matcher.sequence_timeout(), 1000);
}

#[test]
fn test_single_key_match() {
    let mut matcher = InputMatcher::with_default_timeout();
    matcher.register_key(KeyBinding::new(KeyCode::Char('q')), Action::new("quit"));

    let event = make_key_event(KeyCode::Char('q'), KeyModifiers::none());
    let result = matcher.process(&event, 0);

    assert!(result.is_matched());
    assert_eq!(result.action().unwrap().name(), "quit");
}

#[test]
fn test_single_key_with_modifier() {
    let mut matcher = InputMatcher::with_default_timeout();
    matcher.register_key(
        KeyBinding::new(KeyCode::Char('s')).with_modifiers(KeyModifiers::ctrl()),
        Action::new("save"),
    );

    let event = make_key_event(KeyCode::Char('s'), KeyModifiers::ctrl());
    let result = matcher.process(&event, 0);

    assert!(result.is_matched());
    assert_eq!(result.action().unwrap().name(), "save");
}

#[test]
fn test_no_match() {
    let mut matcher = InputMatcher::with_default_timeout();
    matcher.register_key(KeyBinding::new(KeyCode::Char('q')), Action::new("quit"));

    let event = make_key_event(KeyCode::Char('w'), KeyModifiers::none());
    let result = matcher.process(&event, 0);

    assert!(result.is_no_match());
}

#[test]
fn test_modifier_mismatch() {
    let mut matcher = InputMatcher::with_default_timeout();
    matcher.register_key(
        KeyBinding::new(KeyCode::Char('s')).with_modifiers(KeyModifiers::ctrl()),
        Action::new("save"),
    );

    let event = make_key_event(KeyCode::Char('s'), KeyModifiers::none());
    let result = matcher.process(&event, 0);

    assert!(result.is_no_match());
}

#[test]
fn test_sequence_match() {
    let mut matcher = InputMatcher::with_default_timeout();
    matcher.register(
        KeySequence::new(vec![
            KeyBinding::new(KeyCode::Char('x')).with_modifiers(KeyModifiers::ctrl()),
            KeyBinding::new(KeyCode::Char('s')).with_modifiers(KeyModifiers::ctrl()),
        ]),
        Action::new("save"),
    );

    let event1 = make_key_event(KeyCode::Char('x'), KeyModifiers::ctrl());
    let result1 = matcher.process(&event1, 0);
    assert!(result1.is_pending());

    let event2 = make_key_event(KeyCode::Char('s'), KeyModifiers::ctrl());
    let result2 = matcher.process(&event2, 100);
    assert!(result2.is_matched());
    assert_eq!(result2.action().unwrap().name(), "save");
}

#[test]
fn test_sequence_wrong_second_key() {
    let mut matcher = InputMatcher::with_default_timeout();
    matcher.register(
        KeySequence::new(vec![
            KeyBinding::new(KeyCode::Char('x')).with_modifiers(KeyModifiers::ctrl()),
            KeyBinding::new(KeyCode::Char('s')).with_modifiers(KeyModifiers::ctrl()),
        ]),
        Action::new("save"),
    );
    matcher.register_key(KeyBinding::new(KeyCode::Char('q')), Action::new("quit"));

    let event1 = make_key_event(KeyCode::Char('x'), KeyModifiers::ctrl());
    let result1 = matcher.process(&event1, 0);
    assert!(result1.is_pending());

    let event2 = make_key_event(KeyCode::Char('q'), KeyModifiers::none());
    let result2 = matcher.process(&event2, 100);
    assert!(result2.is_matched());
    assert_eq!(result2.action().unwrap().name(), "quit");
}

#[test]
fn test_multiple_bindings_same_action() {
    let mut matcher = InputMatcher::with_default_timeout();
    matcher.register_multiple(
        vec![
            KeySequence::single(KeyBinding::new(KeyCode::Char('k'))),
            KeySequence::single(KeyBinding::new(KeyCode::Up)),
        ],
        Action::new("move_up"),
    );

    let event1 = make_key_event(KeyCode::Char('k'), KeyModifiers::none());
    let result1 = matcher.process(&event1, 0);
    assert!(result1.is_matched());
    assert_eq!(result1.action().unwrap().name(), "move_up");

    let event2 = make_key_event(KeyCode::Up, KeyModifiers::none());
    let result2 = matcher.process(&event2, 10);
    assert!(result2.is_matched());
    assert_eq!(result2.action().unwrap().name(), "move_up");
}

#[test]
fn test_reset_sequence() {
    let mut matcher = InputMatcher::with_default_timeout();
    matcher.register(
        KeySequence::new(vec![
            KeyBinding::new(KeyCode::Char('x')).with_modifiers(KeyModifiers::ctrl()),
            KeyBinding::new(KeyCode::Char('s')).with_modifiers(KeyModifiers::ctrl()),
        ]),
        Action::new("save"),
    );

    let event = make_key_event(KeyCode::Char('x'), KeyModifiers::ctrl());
    matcher.process(&event, 0);
    assert!(matcher.is_sequence_pending());

    matcher.reset_sequence();
    assert!(!matcher.is_sequence_pending());
}

#[test]
fn test_clear_bindings() {
    let mut matcher = InputMatcher::with_default_timeout();
    matcher.register_key(KeyBinding::new(KeyCode::Char('q')), Action::new("quit"));
    assert_eq!(matcher.binding_count(), 1);

    matcher.clear_bindings();
    assert_eq!(matcher.binding_count(), 0);
}

#[test]
fn test_match_result_helpers() {
    let matched = MatchResult::Matched(Action::new("test"));
    assert!(matched.is_matched());
    assert!(!matched.is_pending());
    assert!(!matched.is_no_match());
    assert_eq!(matched.action().unwrap().name(), "test");

    let pending = MatchResult::Pending;
    assert!(!pending.is_matched());
    assert!(pending.is_pending());
    assert!(!pending.is_no_match());
    assert!(pending.action().is_none());

    let no_match = MatchResult::NoMatch;
    assert!(!no_match.is_matched());
    assert!(!no_match.is_pending());
    assert!(no_match.is_no_match());
    assert!(no_match.action().is_none());
}

#[test]
fn test_into_action() {
    let matched = MatchResult::Matched(Action::new("test"));
    let action = matched.into_action();
    assert!(action.is_some());
    assert_eq!(action.unwrap().name(), "test");

    let no_match = MatchResult::NoMatch;
    assert!(no_match.into_action().is_none());
}

#[test]
fn test_vim_gg_sequence() {
    let mut matcher = InputMatcher::with_default_timeout();
    matcher.register(
        KeySequence::new(vec![
            KeyBinding::new(KeyCode::Char('g')),
            KeyBinding::new(KeyCode::Char('g')),
        ]),
        Action::new("go_to_top"),
    );

    let event1 = make_key_event(KeyCode::Char('g'), KeyModifiers::none());
    let result1 = matcher.process(&event1, 0);
    assert!(result1.is_pending());

    let event2 = make_key_event(KeyCode::Char('g'), KeyModifiers::none());
    let result2 = matcher.process(&event2, 100);
    assert!(result2.is_matched());
    assert_eq!(result2.action().unwrap().name(), "go_to_top");
}

#[test]
fn test_pending_keys() {
    let mut matcher = InputMatcher::with_default_timeout();
    matcher.register(
        KeySequence::new(vec![
            KeyBinding::new(KeyCode::Char('a')),
            KeyBinding::new(KeyCode::Char('b')),
        ]),
        Action::new("ab"),
    );

    assert!(matcher.pending_keys().is_empty());

    let event = make_key_event(KeyCode::Char('a'), KeyModifiers::none());
    matcher.process(&event, 0);

    assert_eq!(matcher.pending_keys().len(), 1);
    assert_eq!(matcher.pending_keys()[0].key(), KeyCode::Char('a'));
}

#[test]
fn test_set_sequence_timeout() {
    let mut matcher = InputMatcher::with_default_timeout();
    assert_eq!(matcher.sequence_timeout(), 1000);

    matcher.set_sequence_timeout(500);
    assert_eq!(matcher.sequence_timeout(), 500);
}

#[test]
fn test_overlapping_sequences() {
    let mut matcher = InputMatcher::with_default_timeout();

    matcher.register_key(KeyBinding::new(KeyCode::Char('g')), Action::new("single_g"));

    matcher.register(
        KeySequence::new(vec![
            KeyBinding::new(KeyCode::Char('g')),
            KeyBinding::new(KeyCode::Char('g')),
        ]),
        Action::new("double_g"),
    );

    // First 'g' is pending because "g g" could still complete.
    let event1 = make_key_event(KeyCode::Char('g'), KeyModifiers::none());
    let result1 = matcher.process(&event1, 0);
    assert!(result1.is_pending());

    // Second 'g' matches the two-key sequence.
    let event2 = make_key_event(KeyCode::Char('g'), KeyModifiers::none());
    let result2 = matcher.process(&event2, 100);
    assert!(result2.is_matched());
    assert_eq!(result2.action().unwrap().name(), "double_g");
}

#[test]
fn test_overlapping_fallback_restart() {
    // With "g" and "g g" both bound, pressing 'g' then a bound single key
    // 'q' abandons the chord and fires the single-key binding; pressing 'g'
    // then an unbound 'x' yields no match.
    let mut matcher = InputMatcher::with_default_timeout();
    matcher.register_key(KeyBinding::new(KeyCode::Char('g')), Action::new("single_g"));
    matcher.register(
        KeySequence::new(vec![
            KeyBinding::new(KeyCode::Char('g')),
            KeyBinding::new(KeyCode::Char('g')),
        ]),
        Action::new("double_g"),
    );
    matcher.register_key(KeyBinding::new(KeyCode::Char('q')), Action::new("single_q_action"));

    let g = make_key_event(KeyCode::Char('g'), KeyModifiers::none());
    let q = make_key_event(KeyCode::Char('q'), KeyModifiers::none());
    let x = make_key_event(KeyCode::Char('x'), KeyModifiers::none());

    assert!(matcher.process(&g, 0).is_pending());
    let result = matcher.process(&q, 100);
    assert!(result.is_matched());
    assert_eq!(result.action().unwrap().name(), "single_q_action");

    assert!(matcher.process(&g, 200).is_pending());
    assert!(matcher.process(&x, 300).is_no_match());
}

#[test]
fn test_timeout_resets_pending_sequence() {
    // Bindings: quit = Ctrl+q, save = Ctrl+s, save_all = Ctrl+x Ctrl+s,
    // timeout one second. Ctrl+q fires immediately; Ctrl+x then, after two
    // seconds, Ctrl+s resets the stale chord and fires the plain save.
    let mut matcher = InputMatcher::new(1000);
    matcher.register_key(
        KeyBinding::with_mods(KeyCode::Char('q'), KeyModifiers::ctrl()),
        Action::new("quit"),
    );
    matcher.register_key(
        KeyBinding::with_mods(KeyCode::Char('s'), KeyModifiers::ctrl()),
        Action::new("save"),
    );
    matcher.register(
        KeySequence::new(vec![
            KeyBinding::with_mods(KeyCode::Char('x'), KeyModifiers::ctrl()),
            KeyBinding::with_mods(KeyCode::Char('s'), KeyModifiers::ctrl()),
        ]),
        Action::new("save_all"),
    );

    let ctrl_q = make_key_event(KeyCode::Char('q'), KeyModifiers::ctrl());
    let result = matcher.process(&ctrl_q, 0);
    assert!(result.is_matched());
    assert_eq!(result.action().unwrap().name(), "quit");

    let ctrl_x = make_key_event(KeyCode::Char('x'), KeyModifiers::ctrl());
    let result = matcher.process(&ctrl_x, 1000);
    assert!(result.is_pending());

    // The gap exceeds the one-second timeout: the chord is discarded and
    // Ctrl+s is treated as a fresh single key.
    let ctrl_s = make_key_event(KeyCode::Char('s'), KeyModifiers::ctrl());
    let result = matcher.process(&ctrl_s, 3001);
    assert!(result.is_matched());
    assert_eq!(result.action().unwrap().name(), "save");
}

#[test]
fn test_within_timeout_completes_sequence() {
    let mut matcher = InputMatcher::new(1000);
    matcher.register_key(
        KeyBinding::with_mods(KeyCode::Char('s'), KeyModifiers::ctrl()),
        Action::new("save"),
    );
    matcher.register(
        KeySequence::new(vec![
            KeyBinding::with_mods(KeyCode::Char('x'), KeyModifiers::ctrl()),
            KeyBinding::with_mods(KeyCode::Char('s'), KeyModifiers::ctrl()),
        ]),
        Action::new("save_all"),
    );

    let ctrl_x = make_key_event(KeyCode::Char('x'), KeyModifiers::ctrl());
    assert!(matcher.process(&ctrl_x, 0).is_pending());

    let ctrl_s = make_key_event(KeyCode::Char('s'), KeyModifiers::ctrl());
    let result = matcher.process(&ctrl_s, 900);
    assert!(result.is_matched());
    assert_eq!(result.action().unwrap().name(), "save_all");
}

#[test]
fn test_single_sequence_pending_then_match_then_reset() {
    // A three-key sequence with no competing prefix: each key but the last
    // is pending, the last matches, and the matcher is reset afterwards.
    let mut matcher = InputMatcher::with_default_timeout();
    matcher.register(
        KeySequence::new(vec![
            KeyBinding::new(KeyCode::Char('a')),
            KeyBinding::new(KeyCode::Char('b')),
            KeyBinding::new(KeyCode::Char('c')),
        ]),
        Action::new("abc"),
    );

    let a = make_key_event(KeyCode::Char('a'), KeyModifiers::none());
    let b = make_key_event(KeyCode::Char('b'), KeyModifiers::none());
    let c = make_key_event(KeyCode::Char('c'), KeyModifiers::none());

    assert!(matcher.process(&a, 0).is_pending());
    assert!(matcher.process(&b, 10).is_pending());
    let result = matcher.process(&c, 20);
    assert!(result.is_matched());
    assert_eq!(result.action().unwrap().name(), "abc");
    assert!(!matcher.is_sequence_pending());

    // History has no effect on the next cycle.
    assert!(matcher.process(&a, 30).is_pending());
}

#[test]
fn test_empty_registry_never_pending() {
    let mut matcher = InputMatcher::with_default_timeout();
    let event = make_key_event(KeyCode::Char('a'), KeyModifiers::none());
    assert!(matcher.process(&event, 0).is_no_match());
    assert!(!matcher.is_sequence_pending());
}
