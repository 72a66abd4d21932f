//! Multi-key sequences.
//!
//! A [`KeySequence`] is a non-empty ordered list of [`KeyBinding`]s that must
//! be pressed consecutively (within a timeout) to trigger an action, as in the
//! Emacs-style chord `Ctrl+x Ctrl+s`.

use vstd::prelude::*;

use super::binding::{binding_label, push_binding_label, KeyBinding, KeyCode, KeyModifiers};
use super::text::chars_to_string;

verus! {

/// A non-empty ordered list of key bindings pressed in order.
#[derive(Debug, Eq, Hash)]
pub struct KeySequence {
    keys: Vec<KeyBinding>,
}

impl View for KeySequence {
    type V = Seq<KeyBinding>;

    closed spec fn view(&self) -> Seq<KeyBinding> {
        self.keys@
    }
}

impl Clone for KeySequence {
    fn clone(&self) -> (r: Self)
        ensures
            r@ == self@,
    {
        let keys = self.keys.clone();
        proof {
            assert(keys@ =~= self.keys@);
        }
        KeySequence { keys }
    }
}


/// The display label of the keys from position `i` on: each binding's
/// label, separated by spaces.
pub open spec fn sequence_label(keys: Seq<KeyBinding>, i: int) -> Seq<char>
    decreases keys.len() - i,
{
    if i < 0 || i >= keys.len() {
        Seq::empty()
    } else if i == keys.len() - 1 {
        binding_label(keys[i])
    } else {
        binding_label(keys[i]) + seq![' '] + sequence_label(keys, i + 1)
    }
}

/// A well-formed sequence is never empty.
pub open spec fn seq_wf(s: KeySequence) -> bool {
    s@.len() > 0
}

impl KeySequence {
    /// Creates a sequence from a vector of bindings.
    ///
    /// Constructing a sequence from an empty list is a programming error, so
    /// an empty `keys` is ruled out by precondition.
    pub fn new(keys: Vec<KeyBinding>) -> (r: Self)
        requires
            keys@.len() > 0,
        ensures
            r@ == keys@,
            seq_wf(r),
    {
        KeySequence { keys }
    }

    /// Creates a sequence of one binding.
    pub fn single(binding: KeyBinding) -> (r: Self)
        ensures
            r@ == seq![binding],
            seq_wf(r),
    {
        let mut keys: Vec<KeyBinding> = Vec::new();
        keys.push(binding);
        proof {
            assert(keys@ =~= seq![binding]);
        }
        KeySequence { keys }
    }

    /// The number of keys in this sequence.
    pub fn len(&self) -> (r: usize)
        ensures
            r == self@.len(),
    {
        self.keys.len()
    }

    /// Whether the sequence is empty. A well-formed sequence never is.
    pub fn is_empty(&self) -> (r: bool)
        ensures
            r == (self@.len() == 0),
    {
        self.keys.len() == 0
    }

    /// Whether this is a single-key sequence.
    pub fn is_single(&self) -> (r: bool)
        ensures
            r == (self@.len() == 1),
    {
        self.keys.len() == 1
    }

    /// Whether this is a multi-key sequence.
    pub fn is_multi(&self) -> (r: bool)
        ensures
            r == (self@.len() > 1),
    {
        self.keys.len() > 1
    }

    /// The key bindings of this sequence.
    pub fn keys(&self) -> (r: &Vec<KeyBinding>)
        ensures
            r@ == self@,
    {
        &self.keys
    }

    /// The first key binding of this sequence.
    pub fn first(&self) -> (r: &KeyBinding)
        requires
            seq_wf(*self),
        ensures
            *r == self@[0],
    {
        &self.keys[0]
    }


    /// The sequence's display label: each binding's label, separated by
    /// spaces, as in `Ctrl+x Ctrl+s`.
    pub fn display_string(&self) -> (r: String)
        ensures
            r@ == sequence_label(self@, 0),
    {
        let n = self.keys.len();
        let mut out: Vec<char> = Vec::new();
        let ghost keysv = self.keys@;
        for i in 0..n
            invariant
                n == keysv.len(),
                keysv == self.keys@,
                sequence_label(keysv, 0) == out@ + sequence_label(keysv, i as int),
        {
            push_binding_label(&mut out, &self.keys[i]);
            if i != n - 1 {
                out.push(' ');
                proof {
                    assert(sequence_label(keysv, 0) =~= out@ + sequence_label(keysv, i + 1));
                }
            } else {
                proof {
                    assert(sequence_label(keysv, 0) =~= out@ + sequence_label(keysv, i + 1));
                }
            }
        }
        chars_to_string(&out)
    }

    /// Whether the event matches the binding at the given position exactly;
    /// `false` when the position is out of bounds.
    pub fn matches_at(&self, position: usize, event: &super::binding::KeyEvent) -> (r: bool)
        ensures
            r == (position < self@.len() && super::binding::spec_matches(
                self@[position as int],
                *event,
            )),
    {
        if position < self.keys.len() {
            self.keys[position].matches(event)
        } else {
            false
        }
    }
}

impl PartialEq for KeySequence {
    fn eq(&self, other: &Self) -> (r: bool) {
        if self.keys.len() != other.keys.len() {
            return false;
        }
        let n = self.keys.len();
        for i in 0..n
            invariant
                n == self.keys.len(),
                n == other.keys.len(),
                forall|j: int| 0 <= j < i ==> self.keys@[j] == other.keys@[j],
        {
            if self.keys[i] != other.keys[i] {
                return false;
            }
        }
        proof {
            assert(self.keys@ =~= other.keys@);
        }
        true
    }
}

impl vstd::std_specs::cmp::PartialEqSpecImpl for KeySequence {
    open spec fn obeys_eq_spec() -> bool {
        true
    }

    open spec fn eq_spec(&self, other: &Self) -> bool {
        self@ == other@
    }
}

/// A builder for key sequences.
pub struct KeySequenceBuilder {
    keys: Vec<KeyBinding>,
}

impl View for KeySequenceBuilder {
    type V = Seq<KeyBinding>;

    closed spec fn view(&self) -> Seq<KeyBinding> {
        self.keys@
    }
}

impl Default for KeySequenceBuilder {
    /// The default builder: no keys yet.
    fn default() -> (r: Self)
        ensures
            r@ == Seq::<KeyBinding>::empty(),
    {
        KeySequenceBuilder::new()
    }
}

impl KeySequenceBuilder {
    /// Creates an empty builder.
    pub fn new() -> (r: Self)
        ensures
            r@ == Seq::<KeyBinding>::empty(),
    {
        KeySequenceBuilder { keys: Vec::new() }
    }

    /// Appends a key with modifiers.
    pub fn key(self, code: KeyCode, modifiers: KeyModifiers) -> (r: Self)
        ensures
            r@ == self@.push(KeyBinding { key: code, modifiers }),
    {
        let mut keys = self.keys;
        keys.push(KeyBinding::with_mods(code, modifiers));
        KeySequenceBuilder { keys }
    }

    /// Appends a key without modifiers.
    pub fn simple_key(self, code: KeyCode) -> (r: Self)
        ensures
            r@ == self@.push(KeyBinding { key: code, modifiers: KeyModifiers::none() }),
    {
        let mut keys = self.keys;
        keys.push(KeyBinding::new(code));
        KeySequenceBuilder { keys }
    }

    /// Appends a character key without modifiers.
    pub fn char_key(self, c: char) -> (r: Self)
        ensures
            r@ == self@.push(
                KeyBinding { key: KeyCode::Char(c), modifiers: KeyModifiers::none() },
            ),
    {
        let mut keys = self.keys;
        keys.push(KeyBinding::new(KeyCode::Char(c)));
        KeySequenceBuilder { keys }
    }

    /// Appends an existing binding.
    pub fn binding(self, binding: KeyBinding) -> (r: Self)
        ensures
            r@ == self@.push(binding),
    {
        let mut keys = self.keys;
        keys.push(binding);
        KeySequenceBuilder { keys }
    }

    /// Builds the sequence. At least one key must have been added.
    pub fn build(self) -> (r: KeySequence)
        requires
            self@.len() > 0,
        ensures
            r@ == self@,
    {
        KeySequence::new(self.keys)
    }
}

} // verus!
