use tuilib::components::{Modal, ModalAction};
use tuilib::focus::FocusId;
use tuilib::input::{char_key, ctrl, f_key, seq2, KeyCode, KeyModifiers, KeySequenceBuilder,
    KeySequenceBuilderExt};

struct TwoButtonDialog;

impl Modal for TwoButtonDialog {
    fn focus_ids(&self) -> Vec<FocusId> {
        vec![FocusId::new("ok"), FocusId::new("cancel")]
    }
}

#[test]
fn test_create_focus_trap_holds_all_ids() {
    let dialog = TwoButtonDialog;
    let mut trap = dialog.create_focus_trap();

    assert_eq!(trap.len(), 2);
    assert!(trap.contains(&FocusId::new("ok")));
    assert!(trap.contains(&FocusId::new("cancel")));

    // Identifiers keep the listed tab order.
    assert_eq!(trap.next(), Some(FocusId::new("ok")));
    assert_eq!(trap.next(), Some(FocusId::new("cancel")));
}

#[test]
fn test_modal_action_variants() {
    assert_eq!(ModalAction::Close, ModalAction::Close);
    assert_eq!(ModalAction::Confirm(true), ModalAction::Confirm(true));
    assert_ne!(ModalAction::Confirm(true), ModalAction::Confirm(false));
    assert_eq!(
        ModalAction::Submit(String::from("name.txt")),
        ModalAction::Submit(String::from("name.txt"))
    );
}

#[test]
fn test_helpers_build_expected_bindings() {
    let b = ctrl('s');
    assert_eq!(b.key(), KeyCode::Char('s'));
    assert_eq!(b.modifiers(), KeyModifiers::ctrl());

    let b = char_key('q');
    assert_eq!(b.modifiers(), KeyModifiers::none());

    let b = f_key(5);
    assert_eq!(b.key(), KeyCode::F(5));

    let s = seq2(ctrl('x'), ctrl('s'));
    assert_eq!(s.len(), 2);

    let s = KeySequenceBuilder::new().ctrl('x').char('g').build();
    assert_eq!(s.len(), 2);
    assert_eq!(s.keys()[0].modifiers(), KeyModifiers::ctrl());
    assert_eq!(s.keys()[1].key(), KeyCode::Char('g'));
}
