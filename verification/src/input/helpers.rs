//! Shorthand constructors for bindings and sequences.
//!
//! These helpers build common key bindings — `ctrl('s')`, `f_key(5)` — and
//! short sequences without spelling out the full types, and extend
//! [`KeySequenceBuilder`] with modifier-aware steps.

use vstd::prelude::*;

use super::binding::{KeyBinding, KeyCode, KeyModifiers};
use super::sequence::{KeySequence, KeySequenceBuilder};

verus! {

/// A Ctrl+character binding.
pub fn ctrl(c: char) -> (r: KeyBinding)
    ensures
        r == (KeyBinding { key: KeyCode::Char(c), modifiers: KeyModifiers::ctrl() }),
{
    KeyBinding::with_mods(KeyCode::Char(c), KeyModifiers::ctrl())
}

/// A Ctrl+key binding.
pub fn ctrl_key(code: KeyCode) -> (r: KeyBinding)
    ensures
        r == (KeyBinding { key: code, modifiers: KeyModifiers::ctrl() }),
{
    KeyBinding::with_mods(code, KeyModifiers::ctrl())
}

/// An Alt+character binding.
pub fn alt(c: char) -> (r: KeyBinding)
    ensures
        r == (KeyBinding { key: KeyCode::Char(c), modifiers: KeyModifiers::alt() }),
{
    KeyBinding::with_mods(KeyCode::Char(c), KeyModifiers::alt())
}

/// An Alt+key binding.
pub fn alt_key(code: KeyCode) -> (r: KeyBinding)
    ensures
        r == (KeyBinding { key: code, modifiers: KeyModifiers::alt() }),
{
    KeyBinding::with_mods(code, KeyModifiers::alt())
}

/// A Shift+character binding.
pub fn shift(c: char) -> (r: KeyBinding)
    ensures
        r == (KeyBinding { key: KeyCode::Char(c), modifiers: KeyModifiers::shift() }),
{
    KeyBinding::with_mods(KeyCode::Char(c), KeyModifiers::shift())
}

/// A Shift+key binding.
pub fn shift_key(code: KeyCode) -> (r: KeyBinding)
    ensures
        r == (KeyBinding { key: code, modifiers: KeyModifiers::shift() }),
{
    KeyBinding::with_mods(code, KeyModifiers::shift())
}

/// A binding for a key with no modifiers.
pub fn key(code: KeyCode) -> (r: KeyBinding)
    ensures
        r == (KeyBinding { key: code, modifiers: KeyModifiers::none() }),
{
    KeyBinding::new(code)
}

/// A binding for a character with no modifiers.
pub fn char_key(c: char) -> (r: KeyBinding)
    ensures
        r == (KeyBinding { key: KeyCode::Char(c), modifiers: KeyModifiers::none() }),
{
    KeyBinding::new(KeyCode::Char(c))
}

/// A binding for a function key.
pub fn f_key(n: u8) -> (r: KeyBinding)
    ensures
        r == (KeyBinding { key: KeyCode::F(n), modifiers: KeyModifiers::none() }),
{
    KeyBinding::new(KeyCode::F(n))
}

/// A two-key sequence.
pub fn seq2(first: KeyBinding, second: KeyBinding) -> (r: KeySequence)
    ensures
        r@ == seq![first, second],
{
    let mut keys: Vec<KeyBinding> = Vec::new();
    keys.push(first);
    keys.push(second);
    proof {
        assert(keys@ =~= seq![first, second]);
    }
    KeySequence::new(keys)
}

/// Modifier-aware steps for [`KeySequenceBuilder`].
pub trait KeySequenceBuilderExt: Sized {
    /// Appends a Ctrl+character step.
    fn ctrl(self, c: char) -> Self;

    /// Appends an Alt+character step.
    fn alt(self, c: char) -> Self;

    /// Appends a plain character step.
    fn char(self, c: char) -> Self;
}

impl KeySequenceBuilderExt for KeySequenceBuilder {
    fn ctrl(self, c: char) -> (r: Self)
        ensures
            r@ == self@.push(
                KeyBinding { key: KeyCode::Char(c), modifiers: KeyModifiers::ctrl() },
            ),
    {
        self.key(KeyCode::Char(c), KeyModifiers::ctrl())
    }

    fn alt(self, c: char) -> (r: Self)
        ensures
            r@ == self@.push(
                KeyBinding { key: KeyCode::Char(c), modifiers: KeyModifiers::alt() },
            ),
    {
        self.key(KeyCode::Char(c), KeyModifiers::alt())
    }

    fn char(self, c: char) -> (r: Self)
        ensures
            r@ == self@.push(
                KeyBinding { key: KeyCode::Char(c), modifiers: KeyModifiers::none() },
            ),
    {
        self.char_key(c)
    }
}

} // verus!
