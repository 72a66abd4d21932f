//! Key binding types: key codes, modifier sets, events and single bindings.
//!
//! A [`KeyBinding`] is one physical key press: a [`KeyCode`] plus a
//! [`KeyModifiers`] set. It can be matched against an incoming [`KeyEvent`]
//! either exactly or with a shift-insensitive fallback for character keys.

use vstd::prelude::*;

use super::text::chars_to_string;

verus! {

/// A key on the keyboard: a printable character, a function key, or a named key.
#[derive(Clone, Copy, Debug, PartialEq, Eq, Hash, Structural)]
pub enum KeyCode {
    /// A printable character key.
    Char(char),
    /// A function key `F1` through `F24`.
    F(u8),
    Backspace,
    Enter,
    Left,
    Right,
    Up,
    Down,
    Home,
    End,
    PageUp,
    PageDown,
    Tab,
    Delete,
    Insert,
    Esc,
}

/// A set of modifier keys (Ctrl, Alt, Shift, Super) held during a key press.
#[derive(Clone, Copy, Debug, PartialEq, Eq, Hash, Structural)]
pub struct KeyModifiers {
    pub ctrl: bool,
    pub alt: bool,
    pub shift: bool,
    pub superkey: bool,
}

impl KeyModifiers {
    /// The empty modifier set.
    #[verifier::allow_in_spec]
    pub fn none() -> Self
        returns
            (KeyModifiers { ctrl: false, alt: false, shift: false, superkey: false }),
    {
        KeyModifiers { ctrl: false, alt: false, shift: false, superkey: false }
    }

    /// The set containing only Ctrl.
    #[verifier::allow_in_spec]
    pub fn ctrl() -> Self
        returns
            (KeyModifiers { ctrl: true, alt: false, shift: false, superkey: false }),
    {
        KeyModifiers { ctrl: true, alt: false, shift: false, superkey: false }
    }

    /// The set containing only Alt.
    #[verifier::allow_in_spec]
    pub fn alt() -> Self
        returns
            (KeyModifiers { ctrl: false, alt: true, shift: false, superkey: false }),
    {
        KeyModifiers { ctrl: false, alt: true, shift: false, superkey: false }
    }

    /// The set containing only Shift.
    #[verifier::allow_in_spec]
    pub fn shift() -> Self
        returns
            (KeyModifiers { ctrl: false, alt: false, shift: true, superkey: false }),
    {
        KeyModifiers { ctrl: false, alt: false, shift: true, superkey: false }
    }

    /// The set containing only Super (the Windows/Command key).
    #[verifier::allow_in_spec]
    pub fn superkey() -> Self
        returns
            (KeyModifiers { ctrl: false, alt: false, shift: false, superkey: true }),
    {
        KeyModifiers { ctrl: false, alt: false, shift: false, superkey: true }
    }

    /// The union of two modifier sets, as in `Ctrl` combined with `Shift`.
    #[verifier::allow_in_spec]
    pub fn union(self, other: Self) -> Self
        returns
            (KeyModifiers {
                ctrl: self.ctrl || other.ctrl,
                alt: self.alt || other.alt,
                shift: self.shift || other.shift,
                superkey: self.superkey || other.superkey,
            }),
    {
        KeyModifiers {
            ctrl: self.ctrl || other.ctrl,
            alt: self.alt || other.alt,
            shift: self.shift || other.shift,
            superkey: self.superkey || other.superkey,
        }
    }

    /// Whether every modifier in `other` is also in `self`.
    #[verifier::allow_in_spec]
    pub fn contains(self, other: Self) -> bool
        returns
            (other.ctrl ==> self.ctrl) && (other.alt ==> self.alt) && (other.shift
                ==> self.shift) && (other.superkey ==> self.superkey),
    {
        (!other.ctrl || self.ctrl) && (!other.alt || self.alt) && (!other.shift || self.shift)
            && (!other.superkey || self.superkey)
    }

    /// Whether no modifier is set.
    #[verifier::allow_in_spec]
    pub fn is_empty(self) -> bool
        returns
            !self.ctrl && !self.alt && !self.shift && !self.superkey,
    {
        !self.ctrl && !self.alt && !self.shift && !self.superkey
    }

    /// The same set with Shift removed.
    #[verifier::allow_in_spec]
    pub fn without_shift(self) -> Self
        returns
            (KeyModifiers { ctrl: self.ctrl, alt: self.alt, shift: false, superkey: self.superkey }),
    {
        KeyModifiers { ctrl: self.ctrl, alt: self.alt, shift: false, superkey: self.superkey }
    }
}

/// A key-press event: the pressed key and the modifiers held with it.
///
/// The surrounding application filters out release and repeat events before
/// they reach the matcher.
#[derive(Clone, Copy, Debug, PartialEq, Eq, Hash, Structural)]
pub struct KeyEvent {
    pub code: KeyCode,
    pub modifiers: KeyModifiers,
}

/// Whether two characters are equal ignoring ASCII case.
pub open spec fn spec_eq_ignore_ascii_case(a: char, b: char) -> bool {
    spec_ascii_lower(a) == spec_ascii_lower(b)
}

/// The character's code point, lower-cased if it is an ASCII upper-case letter.
pub open spec fn spec_ascii_lower(c: char) -> int {
    if 65 <= c as int && c as int <= 90 {
        c as int + 32
    } else {
        c as int
    }
}

/// Compares two characters ignoring ASCII case.
pub fn eq_ignore_ascii_case(a: char, b: char) -> (r: bool)
    ensures
        r == spec_eq_ignore_ascii_case(a, b),
{
    let a32 = a as u32;
    let b32 = b as u32;
    let la: u32 = if 65 <= a32 && a32 <= 90 {
        a32 + 32
    } else {
        a32
    };
    let lb: u32 = if 65 <= b32 && b32 <= 90 {
        b32 + 32
    } else {
        b32
    };
    la == lb
}

/// A single key binding: a key code plus the modifiers that must be held.
#[derive(Clone, Copy, Debug, PartialEq, Eq, Hash, Structural)]
pub struct KeyBinding {
    pub key: KeyCode,
    pub modifiers: KeyModifiers,
}

/// Whether a binding matches an event exactly: same key and same modifiers.
pub open spec fn spec_matches(b: KeyBinding, e: KeyEvent) -> bool {
    b.key == e.code && b.modifiers == e.modifiers
}

/// Whether a binding matches an event when, for character keys, a difference
/// in the Shift modifier is forgiven and the characters are compared
/// case-insensitively.
pub open spec fn spec_matches_ignoring_shift_case(b: KeyBinding, e: KeyEvent) -> bool {
    spec_matches(b, e) || match (b.key, e.code) {
        (KeyCode::Char(bc), KeyCode::Char(ec)) => {
            b.modifiers.without_shift() == e.modifiers.without_shift()
                && spec_eq_ignore_ascii_case(bc, ec)
        },
        _ => false,
    }
}

impl KeyBinding {
    /// Creates a binding with no modifiers.
    pub fn new(key: KeyCode) -> (r: Self)
        ensures
            r == (KeyBinding { key, modifiers: KeyModifiers::none() }),
    {
        KeyBinding { key, modifiers: KeyModifiers::none() }
    }

    /// Creates a binding with the given modifiers.
    pub fn with_mods(key: KeyCode, modifiers: KeyModifiers) -> (r: Self)
        ensures
            r == (KeyBinding { key, modifiers }),
    {
        KeyBinding { key, modifiers }
    }

    /// Returns a copy of this binding with the modifiers replaced.
    pub fn with_modifiers(self, modifiers: KeyModifiers) -> (r: Self)
        ensures
            r == (KeyBinding { key: self.key, modifiers }),
    {
        KeyBinding { key: self.key, modifiers }
    }

    /// The key code of this binding.
    pub fn key(&self) -> (r: KeyCode)
        ensures
            r == self.key,
    {
        self.key
    }

    /// The modifier set of this binding.
    pub fn modifiers(&self) -> (r: KeyModifiers)
        ensures
            r == self.modifiers,
    {
        self.modifiers
    }

    /// The binding's display label: the held modifier names and the key's
    /// label joined by `+`, as in `Ctrl+Shift+s`.
    pub fn display_string(&self) -> (r: String)
        ensures
            r@ == binding_label(*self),
    {
        let mut out: Vec<char> = Vec::new();
        push_binding_label(&mut out, self);
        chars_to_string(&out)
    }

    /// Whether this binding matches the event exactly: both the key code and
    /// the modifiers must be equal.
    pub fn matches(&self, event: &KeyEvent) -> (r: bool)
        ensures
            r == spec_matches(*self, *event),
    {
        self.key == event.code && self.modifiers == event.modifiers
    }

    /// Whether this binding matches the event, treating an upper-case
    /// character with Shift held as equal to the corresponding lower-case
    /// character binding.
    ///
    /// An exact match is tried first; if it fails and both sides are character
    /// keys, the Shift bit is stripped from both modifier sets and, when the
    /// remaining modifiers agree, the characters are compared
    /// case-insensitively.
    pub fn matches_ignoring_shift_case(&self, event: &KeyEvent) -> (r: bool)
        ensures
            r == spec_matches_ignoring_shift_case(*self, *event),
    {
        if self.matches(event) {
            return true;
        }
        match (self.key, event.code) {
            (KeyCode::Char(bc), KeyCode::Char(ec)) => {
                if self.modifiers.without_shift() == event.modifiers.without_shift() {
                    eq_ignore_ascii_case(bc, ec)
                } else {
                    false
                }
            },
            _ => false,
        }
    }
}


/// The digit character for a value below ten.
pub open spec fn digit_char(d: int) -> char {
    if d == 0 {
        '0'
    } else if d == 1 {
        '1'
    } else if d == 2 {
        '2'
    } else if d == 3 {
        '3'
    } else if d == 4 {
        '4'
    } else if d == 5 {
        '5'
    } else if d == 6 {
        '6'
    } else if d == 7 {
        '7'
    } else if d == 8 {
        '8'
    } else {
        '9'
    }
}

/// The decimal digits of a number, most significant first.
pub open spec fn dec_digits(n: int) -> Seq<char>
    decreases n,
{
    if n < 10 {
        seq![digit_char(n)]
    } else {
        dec_digits(n / 10) + seq![digit_char(n % 10)]
    }
}

/// The display label of a modifier set: each held modifier's name followed
/// by `+`, in the order Ctrl, Alt, Shift, Super.
pub open spec fn mods_label(m: KeyModifiers) -> Seq<char> {
    (if m.ctrl {
        "Ctrl+"@
    } else {
        Seq::<char>::empty()
    }) + (if m.alt {
        "Alt+"@
    } else {
        Seq::<char>::empty()
    }) + (if m.shift {
        "Shift+"@
    } else {
        Seq::<char>::empty()
    }) + (if m.superkey {
        "Super+"@
    } else {
        Seq::<char>::empty()
    })
}

/// The display label of a key code: the character itself, `F` plus the
/// number, or the key's name.
pub open spec fn key_label(k: KeyCode) -> Seq<char> {
    match k {
        KeyCode::Char(c) => seq![c],
        KeyCode::F(n) => seq!['F'] + dec_digits(n as int),
        KeyCode::Backspace => "Backspace"@,
        KeyCode::Enter => "Enter"@,
        KeyCode::Left => "Left"@,
        KeyCode::Right => "Right"@,
        KeyCode::Up => "Up"@,
        KeyCode::Down => "Down"@,
        KeyCode::Home => "Home"@,
        KeyCode::End => "End"@,
        KeyCode::PageUp => "PageUp"@,
        KeyCode::PageDown => "PageDown"@,
        KeyCode::Tab => "Tab"@,
        KeyCode::Delete => "Delete"@,
        KeyCode::Insert => "Insert"@,
        KeyCode::Esc => "Esc"@,
    }
}

/// The display label of a binding: the modifier names, then the key's
/// label, joined by `+` — `Ctrl+Shift+s`.
pub open spec fn binding_label(b: KeyBinding) -> Seq<char> {
    mods_label(b.modifiers) + key_label(b.key)
}

/// Appends the decimal digits of `n`, most significant first.
fn push_dec(out: &mut Vec<char>, n: u8)
    ensures
        final(out)@ == old(out)@ + dec_digits(n as int),
    decreases n,
{
    if n >= 10 {
        push_dec(out, n / 10);
    }
    let d: u8 = n % 10;
    let c: char = if d == 0 {
        '0'
    } else if d == 1 {
        '1'
    } else if d == 2 {
        '2'
    } else if d == 3 {
        '3'
    } else if d == 4 {
        '4'
    } else if d == 5 {
        '5'
    } else if d == 6 {
        '6'
    } else if d == 7 {
        '7'
    } else if d == 8 {
        '8'
    } else {
        '9'
    };
    out.push(c);
    proof {
        assert(out@ =~= old(out)@ + dec_digits(n as int));
    }
}


/// Appends the characters of a string slice.
fn push_str_chars(out: &mut Vec<char>, piece: &str)
    ensures
        final(out)@ == old(out)@ + piece@,
{
    let mut chars = super::text::to_chars(piece);
    out.append(&mut chars);
}

/// Appends the display label of a modifier set.
fn push_mods_label(out: &mut Vec<char>, m: KeyModifiers)
    ensures
        final(out)@ == old(out)@ + mods_label(m),
{
    if m.ctrl {
        push_str_chars(out, "Ctrl+");
    }
    if m.alt {
        push_str_chars(out, "Alt+");
    }
    if m.shift {
        push_str_chars(out, "Shift+");
    }
    if m.superkey {
        push_str_chars(out, "Super+");
    }
    proof {
        assert(out@ =~= old(out)@ + mods_label(m));
    }
}

/// Appends the display label of a key code.
fn push_key_label(out: &mut Vec<char>, k: KeyCode)
    ensures
        final(out)@ == old(out)@ + key_label(k),
{
    match k {
        KeyCode::Char(c) => {
            out.push(c);
            proof {
                assert(out@ =~= old(out)@ + seq![c]);
            }
        },
        KeyCode::F(n) => {
            out.push('F');
            push_dec(out, n);
            proof {
                assert(out@ =~= old(out)@ + (seq!['F'] + dec_digits(n as int)));
            }
        },
        KeyCode::Backspace => {
            push_str_chars(out, "Backspace");
        },
        KeyCode::Enter => {
            push_str_chars(out, "Enter");
        },
        KeyCode::Left => {
            push_str_chars(out, "Left");
        },
        KeyCode::Right => {
            push_str_chars(out, "Right");
        },
        KeyCode::Up => {
            push_str_chars(out, "Up");
        },
        KeyCode::Down => {
            push_str_chars(out, "Down");
        },
        KeyCode::Home => {
            push_str_chars(out, "Home");
        },
        KeyCode::End => {
            push_str_chars(out, "End");
        },
        KeyCode::PageUp => {
            push_str_chars(out, "PageUp");
        },
        KeyCode::PageDown => {
            push_str_chars(out, "PageDown");
        },
        KeyCode::Tab => {
            push_str_chars(out, "Tab");
        },
        KeyCode::Delete => {
            push_str_chars(out, "Delete");
        },
        KeyCode::Insert => {
            push_str_chars(out, "Insert");
        },
        KeyCode::Esc => {
            push_str_chars(out, "Esc");
        },
    }
}

/// Appends the display label of a binding.
pub(crate) fn push_binding_label(out: &mut Vec<char>, b: &KeyBinding)
    ensures
        final(out)@ == old(out)@ + binding_label(*b),
{
    push_mods_label(out, b.modifiers);
    push_key_label(out, b.key);
    proof {
        assert(out@ =~= old(out)@ + binding_label(*b));
    }
}

} // verus!
