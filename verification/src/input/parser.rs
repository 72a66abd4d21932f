//! Parsing of human-readable binding syntax into key bindings and sequences.
//!
//! A binding string such as `"Ctrl+Shift+s"` is split on `+`/`-` into tokens;
//! every token but a final key name must be a modifier name (case-insensitive,
//! with aliases such as `control`, `meta` or `cmd`), and the final token must
//! resolve to a key: a single character, `F1`..`F24`, or a named key such as
//! `Enter` or `PageUp`. A sequence string such as `"Ctrl+x Ctrl+s"` is split
//! on whitespace into one binding per word.
//!
//! Both parse functions are proved equal to spec-level parsers over character
//! sequences; parsing is pure and never panics.

use vstd::prelude::*;

use super::binding::{spec_eq_ignore_ascii_case, eq_ignore_ascii_case, KeyBinding, KeyCode,
    KeyModifiers};
use super::sequence::KeySequence;
use super::text::{chars_to_string, split_seps, split_seps_spec, split_ws, split_ws_spec,
    to_chars, trim_chars, trim_spec};

verus! {

/// The kind of a binding-syntax parse failure.
#[derive(Debug, Clone, PartialEq, Eq)]
pub enum ParseKeyErrorKind {
    /// The input was empty or all whitespace.
    EmptyInput,
    /// The final token did not resolve to a key name.
    InvalidKey(String),
    /// A non-final token was neither a modifier name nor, where one key was
    /// already seen, anything that could follow it.
    InvalidModifier(String),
    /// Only modifier names were given, with no key.
    NoKeySpecified,
}

/// Spec-level mirror of [`ParseKeyErrorKind`], over character sequences.
pub enum SpecParseErrorKind {
    EmptyInput,
    InvalidKey(Seq<char>),
    InvalidModifier(Seq<char>),
    NoKeySpecified,
}

/// Spec-level mirror of [`ParseKeyError`].
pub struct SpecParseError {
    pub input: Seq<char>,
    pub kind: SpecParseErrorKind,
}

/// A binding-syntax parse failure: the input that failed and the reason.
#[derive(Debug, Clone, PartialEq, Eq)]
pub struct ParseKeyError {
    input: String,
    kind: ParseKeyErrorKind,
}

impl View for ParseKeyErrorKind {
    type V = SpecParseErrorKind;

    open spec fn view(&self) -> SpecParseErrorKind {
        match self {
            ParseKeyErrorKind::EmptyInput => SpecParseErrorKind::EmptyInput,
            ParseKeyErrorKind::InvalidKey(t) => SpecParseErrorKind::InvalidKey(t@),
            ParseKeyErrorKind::InvalidModifier(t) => SpecParseErrorKind::InvalidModifier(t@),
            ParseKeyErrorKind::NoKeySpecified => SpecParseErrorKind::NoKeySpecified,
        }
    }
}

impl View for ParseKeyError {
    type V = SpecParseError;

    closed spec fn view(&self) -> SpecParseError {
        SpecParseError { input: self.input@, kind: self.kind@ }
    }
}

impl ParseKeyError {
    /// The input string that failed to parse.
    pub fn input(&self) -> (r: &str)
        ensures
            r@ == self@.input,
    {
        self.input.as_str()
    }

    /// The kind of failure.
    pub fn kind(&self) -> (r: &ParseKeyErrorKind)
        ensures
            r@ == self@.kind,
    {
        &self.kind
    }


    /// The human-readable description of this failure.
    pub fn message(&self) -> (r: String)
        ensures
            r@ == message_of(self@),
    {
        let mut s = String::new();
        match &self.kind {
            ParseKeyErrorKind::EmptyInput => {
                s.append("empty key binding string");
            },
            ParseKeyErrorKind::InvalidKey(k) => {
                s.append("invalid key '");
                s.append(k.as_str());
                s.append("' in '");
                s.append(self.input.as_str());
                s.append("'");
            },
            ParseKeyErrorKind::InvalidModifier(m) => {
                s.append("invalid modifier '");
                s.append(m.as_str());
                s.append("' in '");
                s.append(self.input.as_str());
                s.append("'");
            },
            ParseKeyErrorKind::NoKeySpecified => {
                s.append("no key specified in '");
                s.append(self.input.as_str());
                s.append("'");
            },
        }
        s
    }

    fn empty_input() -> (r: Self)
        ensures
            r@ == (SpecParseError {
                input: Seq::<char>::empty(),
                kind: SpecParseErrorKind::EmptyInput,
            }),
    {
        ParseKeyError { input: String::new(), kind: ParseKeyErrorKind::EmptyInput }
    }

    fn invalid_key(input: &Vec<char>, key: &Vec<char>) -> (r: Self)
        ensures
            r@ == (SpecParseError { input: input@, kind: SpecParseErrorKind::InvalidKey(key@) }),
    {
        ParseKeyError {
            input: chars_to_string(input),
            kind: ParseKeyErrorKind::InvalidKey(chars_to_string(key)),
        }
    }

    fn invalid_modifier(input: &Vec<char>, modifier: &Vec<char>) -> (r: Self)
        ensures
            r@ == (SpecParseError {
                input: input@,
                kind: SpecParseErrorKind::InvalidModifier(modifier@),
            }),
    {
        ParseKeyError {
            input: chars_to_string(input),
            kind: ParseKeyErrorKind::InvalidModifier(chars_to_string(modifier)),
        }
    }

    fn no_key_specified(input: &Vec<char>) -> (r: Self)
        ensures
            r@ == (SpecParseError { input: input@, kind: SpecParseErrorKind::NoKeySpecified }),
    {
        ParseKeyError { input: chars_to_string(input), kind: ParseKeyErrorKind::NoKeySpecified }
    }
}


/// The human-readable description of a parse failure.
pub open spec fn message_of(e: SpecParseError) -> Seq<char> {
    match e.kind {
        SpecParseErrorKind::EmptyInput => "empty key binding string"@,
        SpecParseErrorKind::InvalidKey(k) => "invalid key '"@ + k + "' in '"@ + e.input + "'"@,
        SpecParseErrorKind::InvalidModifier(m) => "invalid modifier '"@ + m + "' in '"@ + e.input
            + "'"@,
        SpecParseErrorKind::NoKeySpecified => "no key specified in '"@ + e.input + "'"@,
    }
}

/// Whether two character sequences are equal ignoring ASCII case.
pub open spec fn eq_ci(a: Seq<char>, b: Seq<char>) -> bool {
    a.len() == b.len() && forall|i: int|
        0 <= i < a.len() ==> spec_eq_ignore_ascii_case(a[i], b[i])
}

/// Compares a token against a keyword, ignoring ASCII case.
fn token_eq_ci(tok: &Vec<char>, kw: &str) -> (r: bool)
    ensures
        r == eq_ci(tok@, kw@),
{
    let n = kw.unicode_len();
    if tok.len() != n {
        return false;
    }
    for i in 0..n
        invariant
            n == kw@.len(),
            n == tok@.len(),
            forall|j: int| 0 <= j < i ==> spec_eq_ignore_ascii_case(tok@[j], kw@[j]),
    {
        if !eq_ignore_ascii_case(tok[i], kw.get_char(i)) {
            return false;
        }
    }
    true
}

/// The modifier set named by a token, if any. Aliases are case-insensitive:
/// `ctrl`/`control`, `alt`/`meta`/`option`, `shift`, `super`/`win`/`cmd`/`command`.
pub open spec fn modifier_of(p: Seq<char>) -> Option<KeyModifiers> {
    if eq_ci(p, "ctrl"@) || eq_ci(p, "control"@) {
        Some(KeyModifiers::ctrl())
    } else if eq_ci(p, "alt"@) || eq_ci(p, "meta"@) || eq_ci(p, "option"@) {
        Some(KeyModifiers::alt())
    } else if eq_ci(p, "shift"@) {
        Some(KeyModifiers::shift())
    } else if eq_ci(p, "super"@) || eq_ci(p, "win"@) || eq_ci(p, "cmd"@) || eq_ci(p, "command"@) {
        Some(KeyModifiers::superkey())
    } else {
        None
    }
}

/// Parses a modifier name. Only full names match; single characters are keys.
fn parse_modifier(p: &Vec<char>) -> (r: Option<KeyModifiers>)
    ensures
        r == modifier_of(p@),
{
    if token_eq_ci(p, "ctrl") || token_eq_ci(p, "control") {
        Some(KeyModifiers::ctrl())
    } else if token_eq_ci(p, "alt") || token_eq_ci(p, "meta") || token_eq_ci(p, "option") {
        Some(KeyModifiers::alt())
    } else if token_eq_ci(p, "shift") {
        Some(KeyModifiers::shift())
    } else if token_eq_ci(p, "super") || token_eq_ci(p, "win") || token_eq_ci(p, "cmd")
        || token_eq_ci(p, "command") {
        Some(KeyModifiers::superkey())
    } else {
        None
    }
}

/// Whether the character is an ASCII digit.
pub open spec fn is_digit(c: char) -> bool {
    48 <= c as u32 && c as u32 <= 57
}

/// The numeric value of a sequence of ASCII digits.
pub open spec fn digits_val(s: Seq<char>) -> int
    decreases s.len(),
{
    if s.len() == 0 {
        0
    } else {
        digits_val(s.drop_last()) * 10 + (s.last() as u32 - 48)
    }
}

/// Whether every character of the sequence is an ASCII digit.
pub open spec fn all_digits(s: Seq<char>) -> bool {
    s.len() > 0 && forall|i: int| 0 <= i < s.len() ==> is_digit(s[i])
}

/// Whether the token is a function-key name: `F` or `f` followed by digits
/// whose value is between 1 and 24.
pub open spec fn is_fkey(p: Seq<char>) -> bool {
    p.len() >= 2 && (p[0] == 'F' || p[0] == 'f') && all_digits(p.skip(1)) && 1 <= digits_val(
        p.skip(1),
    ) <= 24
}

/// The key code named by a token, if any: a single character, a function key,
/// or a named key (case-insensitive).
pub open spec fn keycode_of(p: Seq<char>) -> Option<KeyCode> {
    if p.len() == 1 {
        Some(KeyCode::Char(p[0]))
    } else if is_fkey(p) {
        Some(KeyCode::F(digits_val(p.skip(1)) as u8))
    } else if eq_ci(p, "enter"@) || eq_ci(p, "return"@) || eq_ci(p, "cr"@) {
        Some(KeyCode::Enter)
    } else if eq_ci(p, "escape"@) || eq_ci(p, "esc"@) {
        Some(KeyCode::Esc)
    } else if eq_ci(p, "space"@) || eq_ci(p, "spc"@) {
        Some(KeyCode::Char(' '))
    } else if eq_ci(p, "tab"@) {
        Some(KeyCode::Tab)
    } else if eq_ci(p, "backspace"@) || eq_ci(p, "bs"@) {
        Some(KeyCode::Backspace)
    } else if eq_ci(p, "delete"@) || eq_ci(p, "del"@) {
        Some(KeyCode::Delete)
    } else if eq_ci(p, "insert"@) || eq_ci(p, "ins"@) {
        Some(KeyCode::Insert)
    } else if eq_ci(p, "up"@) {
        Some(KeyCode::Up)
    } else if eq_ci(p, "down"@) {
        Some(KeyCode::Down)
    } else if eq_ci(p, "left"@) {
        Some(KeyCode::Left)
    } else if eq_ci(p, "right"@) {
        Some(KeyCode::Right)
    } else if eq_ci(p, "home"@) {
        Some(KeyCode::Home)
    } else if eq_ci(p, "end"@) {
        Some(KeyCode::End)
    } else if eq_ci(p, "pageup"@) || eq_ci(p, "pgup"@) {
        Some(KeyCode::PageUp)
    } else if eq_ci(p, "pagedown"@) || eq_ci(p, "pgdn"@) || eq_ci(p, "pgdown"@) {
        Some(KeyCode::PageDown)
    } else {
        None
    }
}

/// Recognises a function-key token `F<n>`, `1 <= n <= 24`.
fn parse_fkey(p: &Vec<char>) -> (r: Option<u8>)
    ensures
        match r {
            Some(n) => is_fkey(p@) && n == digits_val(p@.skip(1)),
            None => !is_fkey(p@),
        },
{
    if p.len() < 2 {
        return None;
    }
    let c0 = p[0];
    if c0 != 'F' && c0 != 'f' {
        return None;
    }
    let n = p.len();
    let mut acc: u32 = 0;
    for i in 1..n
        invariant
            n == p@.len(),
            n >= 2,
            forall|j: int| 1 <= j < i ==> is_digit(p@[j]),
            digits_val(p@.skip(1).take(i - 1)) <= 255 ==> acc == digits_val(
                p@.skip(1).take(i - 1),
            ),
            digits_val(p@.skip(1).take(i - 1)) > 255 ==> 256 <= acc <= 2559,
            acc <= 2559,
    {
        let c = p[i];
        let c32 = c as u32;
        if c32 < 48 || c32 > 57 {
            proof {
                assert(p@.skip(1)[i - 1] == p@[i as int]);
                assert(!all_digits(p@.skip(1)));
            }
            return None;
        }
        let ghost pre = p@.skip(1).take(i - 1);
        let ghost full = p@.skip(1).take(i as int);
        proof {
            assert(full.drop_last() =~= pre);
            assert(full.last() == p@[i as int]);
            assert(digits_val(full) == digits_val(pre) * 10 + (c32 - 48));
            if digits_val(pre) > 255 {
                lemma_digits_val_mono(pre, full);
            }
        }
        if acc >= 256 {
            acc = 256;
        } else {
            acc = acc * 10 + (c32 - 48);
        }
        proof {
            assert(p@.skip(1)[i - 1] == p@[i as int]);
        }
    }
    proof {
        assert(p@.skip(1).take(n - 1) =~= p@.skip(1));
    }
    if 1 <= acc && acc <= 24 {
        Some(acc as u8)
    } else {
        None
    }
}

proof fn lemma_digits_val_mono(pre: Seq<char>, full: Seq<char>)
    requires
        full.len() > 0,
        full.drop_last() == pre,
        is_digit(full.last()),
    ensures
        digits_val(full) >= digits_val(pre) * 10,
{
    assert(digits_val(full) == digits_val(pre) * 10 + (full.last() as u32 - 48));
}

/// Parses a key-code token.
fn parse_key_code(p: &Vec<char>) -> (r: Option<KeyCode>)
    ensures
        r == keycode_of(p@),
{
    if p.len() == 1 {
        return Some(KeyCode::Char(p[0]));
    }
    match parse_fkey(p) {
        Some(num) => {
            return Some(KeyCode::F(num));
        },
        None => {},
    }
    if token_eq_ci(p, "enter") || token_eq_ci(p, "return") || token_eq_ci(p, "cr") {
        Some(KeyCode::Enter)
    } else if token_eq_ci(p, "escape") || token_eq_ci(p, "esc") {
        Some(KeyCode::Esc)
    } else if token_eq_ci(p, "space") || token_eq_ci(p, "spc") {
        Some(KeyCode::Char(' '))
    } else if token_eq_ci(p, "tab") {
        Some(KeyCode::Tab)
    } else if token_eq_ci(p, "backspace") || token_eq_ci(p, "bs") {
        Some(KeyCode::Backspace)
    } else if token_eq_ci(p, "delete") || token_eq_ci(p, "del") {
        Some(KeyCode::Delete)
    } else if token_eq_ci(p, "insert") || token_eq_ci(p, "ins") {
        Some(KeyCode::Insert)
    } else if token_eq_ci(p, "up") {
        Some(KeyCode::Up)
    } else if token_eq_ci(p, "down") {
        Some(KeyCode::Down)
    } else if token_eq_ci(p, "left") {
        Some(KeyCode::Left)
    } else if token_eq_ci(p, "right") {
        Some(KeyCode::Right)
    } else if token_eq_ci(p, "home") {
        Some(KeyCode::Home)
    } else if token_eq_ci(p, "end") {
        Some(KeyCode::End)
    } else if token_eq_ci(p, "pageup") || token_eq_ci(p, "pgup") {
        Some(KeyCode::PageUp)
    } else if token_eq_ci(p, "pagedown") || token_eq_ci(p, "pgdn") || token_eq_ci(p, "pgdown") {
        Some(KeyCode::PageDown)
    } else {
        None
    }
}

/// The outcome of scanning the remaining tokens `parts[i..]`, starting with
/// the modifiers and optional key collected so far. Empty tokens are skipped;
/// a modifier name extends the modifier set; a key token is recorded, or
/// rejected if one was already seen; any other token fails, as an invalid key
/// when it is last and as an invalid modifier otherwise.
pub open spec fn parse_parts(
    t: Seq<char>,
    parts: Seq<Seq<char>>,
    i: int,
    mods: KeyModifiers,
    key: Option<KeyCode>,
) -> Result<KeyBinding, SpecParseError>
    decreases parts.len() - i,
{
    if i < 0 || i >= parts.len() {
        match key {
            Some(k) => Ok(KeyBinding { key: k, modifiers: mods }),
            None => Err(SpecParseError { input: t, kind: SpecParseErrorKind::NoKeySpecified }),
        }
    } else {
        let p = trim_spec(parts[i]);
        if p.len() == 0 {
            parse_parts(t, parts, i + 1, mods, key)
        } else {
            match modifier_of(p) {
                Some(m) => parse_parts(t, parts, i + 1, mods.union(m), key),
                None => match keycode_of(p) {
                    Some(k) => if key is Some {
                        Err(
                            SpecParseError {
                                input: t,
                                kind: SpecParseErrorKind::InvalidModifier(p),
                            },
                        )
                    } else {
                        parse_parts(t, parts, i + 1, mods, Some(k))
                    },
                    None => if i == parts.len() - 1 {
                        Err(SpecParseError { input: t, kind: SpecParseErrorKind::InvalidKey(p) })
                    } else {
                        Err(
                            SpecParseError {
                                input: t,
                                kind: SpecParseErrorKind::InvalidModifier(p),
                            },
                        )
                    },
                },
            }
        }
    }
}

/// The binding named by `s`: `s` is trimmed, split on `+`/`-`, and its tokens
/// scanned by [`parse_parts`]. An empty input fails with `EmptyInput`.
pub open spec fn spec_parse_binding(s: Seq<char>) -> Result<KeyBinding, SpecParseError> {
    let t = trim_spec(s);
    if t.len() == 0 {
        Err(SpecParseError { input: Seq::empty(), kind: SpecParseErrorKind::EmptyInput })
    } else {
        parse_parts(t, split_seps_spec(t), 0, KeyModifiers::none(), None)
    }
}

/// Whether an executable parse result agrees with a spec-level one.
pub open spec fn binding_result_matches(
    r: Result<KeyBinding, ParseKeyError>,
    s: Result<KeyBinding, SpecParseError>,
) -> bool {
    match (r, s) {
        (Ok(b), Ok(sb)) => b == sb,
        (Err(e), Err(se)) => e@ == se,
        _ => false,
    }
}

fn parse_binding_chars(input: &Vec<char>) -> (r: Result<KeyBinding, ParseKeyError>)
    ensures
        binding_result_matches(r, spec_parse_binding(input@)),
{
    let t = trim_chars(input);
    if t.len() == 0 {
        return Err(ParseKeyError::empty_input());
    }
    let parts = split_seps(&t);
    let ghost partsv = split_seps_spec(t@);
    let n = parts.len();
    let mut mods = KeyModifiers::none();
    let mut key: Option<KeyCode> = None;
    for i in 0..n
        invariant
            t@ == trim_spec(input@),
            t@.len() > 0,
            parts.deep_view() == partsv,
            n == partsv.len(),
            spec_parse_binding(input@) == parse_parts(t@, partsv, i as int, mods, key),
    {
        let p = trim_chars(&parts[i]);
        proof {
            assert(parts@[i as int]@ == partsv[i as int]);
        }
        if p.len() > 0 {
            match parse_modifier(&p) {
                Some(m) => {
                    mods = mods.union(m);
                },
                None => {
                    match parse_key_code(&p) {
                        Some(k) => {
                            if key.is_some() {
                                return Err(ParseKeyError::invalid_modifier(&t, &p));
                            }
                            key = Some(k);
                        },
                        None => {
                            if i == n - 1 {
                                return Err(ParseKeyError::invalid_key(&t, &p));
                            } else {
                                return Err(ParseKeyError::invalid_modifier(&t, &p));
                            }
                        },
                    }
                },
            }
        }
    }
    match key {
        Some(k) => Ok(KeyBinding::with_mods(k, mods)),
        None => Err(ParseKeyError::no_key_specified(&t)),
    }
}

/// Parses a key-binding string such as `"Ctrl+s"` into a [`KeyBinding`].
pub fn parse_key_binding(input: &str) -> (r: Result<KeyBinding, ParseKeyError>)
    ensures
        binding_result_matches(r, spec_parse_binding(input@)),
{
    let chars = to_chars(input);
    parse_binding_chars(&chars)
}

/// The outcome of parsing each whitespace-separated word of a sequence
/// string, in order; the first failure wins.
pub open spec fn parse_words(parts: Seq<Seq<char>>, i: int) -> Result<Seq<KeyBinding>,
    SpecParseError>
    decreases parts.len() - i,
{
    if i < 0 || i >= parts.len() {
        Ok(Seq::empty())
    } else {
        match spec_parse_binding(parts[i]) {
            Err(e) => Err(e),
            Ok(b) => match parse_words(parts, i + 1) {
                Err(e) => Err(e),
                Ok(rest) => Ok(seq![b] + rest),
            },
        }
    }
}

/// The sequence named by `s`: `s` is trimmed and split on whitespace, and
/// each word parsed as one binding. An input with no words fails with
/// `EmptyInput`.
pub open spec fn spec_parse_sequence(s: Seq<char>) -> Result<Seq<KeyBinding>, SpecParseError> {
    let t = trim_spec(s);
    if t.len() == 0 {
        Err(SpecParseError { input: Seq::empty(), kind: SpecParseErrorKind::EmptyInput })
    } else {
        match parse_words(split_ws_spec(t), 0) {
            Err(e) => Err(e),
            Ok(bs) => if bs.len() == 0 {
                Err(SpecParseError { input: Seq::empty(), kind: SpecParseErrorKind::EmptyInput })
            } else {
                Ok(bs)
            },
        }
    }
}

/// Whether an executable sequence parse result agrees with a spec-level one.
pub open spec fn sequence_result_matches(
    r: Result<KeySequence, ParseKeyError>,
    s: Result<Seq<KeyBinding>, SpecParseError>,
) -> bool {
    match (r, s) {
        (Ok(ks), Ok(bs)) => ks@ == bs,
        (Err(e), Err(se)) => e@ == se,
        _ => false,
    }
}

/// Parses a space-separated key-sequence string such as `"Ctrl+x Ctrl+s"`
/// into a [`KeySequence`].
pub fn parse_key_sequence(input: &str) -> (r: Result<KeySequence, ParseKeyError>)
    ensures
        sequence_result_matches(r, spec_parse_sequence(input@)),
{
    let chars = to_chars(input);
    let t = trim_chars(&chars);
    if t.len() == 0 {
        return Err(ParseKeyError::empty_input());
    }
    let parts = split_ws(&t);
    let ghost partsv = split_ws_spec(t@);
    let n = parts.len();
    let mut bindings: Vec<KeyBinding> = Vec::new();
    for i in 0..n
        invariant
            t@ == trim_spec(input@),
            t@.len() > 0,
            parts.deep_view() == partsv,
            partsv == split_ws_spec(t@),
            n == partsv.len(),
            parse_words(partsv, 0) == match parse_words(partsv, i as int) {
                Ok(rest) => Ok::<Seq<KeyBinding>, SpecParseError>(bindings@ + rest),
                Err(e) => Err::<Seq<KeyBinding>, SpecParseError>(e),
            },
    {
        proof {
            assert(parts@[i as int]@ == partsv[i as int]);
        }
        let ghost prev = bindings@;
        match parse_binding_chars(&parts[i]) {
            Ok(b) => {
                bindings.push(b);
                proof {
                    if parse_words(partsv, i + 1) is Ok {
                        let rest = parse_words(partsv, i + 1)->Ok_0;
                        assert(prev + (seq![b] + rest) =~= bindings@ + rest);
                    }
                }
            },
            Err(e) => {
                proof {
                    assert(parse_words(partsv, i as int) == Err::<Seq<KeyBinding>,
                        SpecParseError>(e@));
                }
                return Err(e);
            },
        }
    }
    if bindings.len() == 0 {
        return Err(ParseKeyError::empty_input());
    }
    proof {
        assert(bindings@ + Seq::<KeyBinding>::empty() =~= bindings@);
    }
    Ok(KeySequence::new(bindings))
}

} // verus!
