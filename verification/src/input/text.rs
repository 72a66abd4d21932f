//! Character-level text helpers for the binding-syntax parser.
//!
//! The parser works over vectors of characters. This module converts between
//! `&str` and `Vec<char>`, trims ASCII whitespace, and splits tokens on the
//! `+`/`-` separators and on whitespace. Each executable function is proved
//! equal to a spec-level definition of the same operation.

use vstd::prelude::*;

verus! {

/// ASCII whitespace: space, tab, carriage return, line feed.
pub open spec fn is_space(c: char) -> bool {
    c == ' ' || c == '\t' || c == '\r' || c == '\n'
}

/// The separators joining modifier names and key names: `+` and `-`.
pub open spec fn is_sep(c: char) -> bool {
    c == '+' || c == '-'
}

/// Whether the character is an ASCII whitespace character.
#[verifier::allow_in_spec]
pub fn is_space_char(c: char) -> bool
    returns
        is_space(c),
{
    c == ' ' || c == '\t' || c == '\r' || c == '\n'
}

/// Whether the character is a token separator.
#[verifier::allow_in_spec]
pub fn is_sep_char(c: char) -> bool
    returns
        is_sep(c),
{
    c == '+' || c == '-'
}

/// The sequence with leading whitespace removed.
pub open spec fn trim_front(s: Seq<char>) -> Seq<char>
    decreases s.len(),
{
    if s.len() > 0 && is_space(s[0]) {
        trim_front(s.drop_first())
    } else {
        s
    }
}

/// The sequence with trailing whitespace removed.
pub open spec fn trim_back(s: Seq<char>) -> Seq<char>
    decreases s.len(),
{
    if s.len() > 0 && is_space(s.last()) {
        trim_back(s.drop_last())
    } else {
        s
    }
}

/// The sequence with whitespace removed from both ends.
pub open spec fn trim_spec(s: Seq<char>) -> Seq<char> {
    trim_back(trim_front(s))
}

proof fn lemma_trim_front_skip(s: Seq<char>, k: int)
    requires
        0 <= k <= s.len(),
        forall|j: int| 0 <= j < k ==> is_space(s[j]),
        k < s.len() ==> !is_space(s[k]),
    ensures
        trim_front(s) == s.skip(k),
    decreases k,
{
    if k == 0 {
        assert(trim_front(s) =~= s.skip(0)) by {
            if s.len() > 0 && is_space(s[0]) {
                assert(false);
            }
        };
        assert(s.skip(0) =~= s);
    } else {
        assert(is_space(s[0]));
        let t = s.drop_first();
        assert(forall|j: int| 0 <= j < k - 1 ==> is_space(t[j]));
        lemma_trim_front_skip(t, k - 1);
        assert(t.skip(k - 1) =~= s.skip(k));
    }
}

proof fn lemma_trim_back_take(s: Seq<char>, m: int)
    requires
        0 <= m <= s.len(),
        forall|j: int| m <= j < s.len() ==> is_space(s[j]),
        m > 0 ==> !is_space(s[m - 1]),
    ensures
        trim_back(s) == s.take(m),
    decreases s.len() - m,
{
    if m == s.len() {
        assert(s.take(m) =~= s);
        if s.len() > 0 && is_space(s.last()) {
            assert(m > 0 && s[m - 1] == s.last());
            assert(false);
        }
    } else {
        assert(is_space(s.last()));
        let t = s.drop_last();
        assert(forall|j: int| m <= j < t.len() ==> t[j] == s[j]);
        lemma_trim_back_take(t, m);
        assert(t.take(m) =~= s.take(m));
    }
}

/// Converts a string slice into the vector of its characters.
pub fn to_chars(s: &str) -> (r: Vec<char>)
    ensures
        r@ == s@,
{
    let n = s.unicode_len();
    let mut r: Vec<char> = Vec::new();
    for i in 0..n
        invariant
            n == s@.len(),
            r@ == s@.take(i as int),
    {
        r.push(s.get_char(i));
        proof {
            assert(r@ =~= s@.take(i + 1));
        }
    }
    proof {
        assert(s@.take(n as int) =~= s@);
    }
    r
}

/// Compares two string slices character by character.
pub fn strs_equal(a: &str, b: &str) -> (r: bool)
    ensures
        r == (a@ == b@),
{
    let na = a.unicode_len();
    let nb = b.unicode_len();
    if na != nb {
        return false;
    }
    for i in 0..na
        invariant
            na == a@.len(),
            na == b@.len(),
            forall|j: int| 0 <= j < i ==> a@[j] == b@[j],
    {
        if a.get_char(i) != b.get_char(i) {
            return false;
        }
    }
    proof {
        assert(a@ =~= b@);
    }
    true
}

/// Collects a vector of characters into a `String`.
///
/// Relies on `String`'s `FromIterator<char>`: collecting characters yields
/// the string made of exactly those characters in order.
#[verifier::external_body]
pub fn chars_to_string(v: &Vec<char>) -> (r: String)
    ensures
        r@ == v@,
{
    v.iter().collect()
}

/// Removes ASCII whitespace from both ends.
pub fn trim_chars(v: &Vec<char>) -> (r: Vec<char>)
    ensures
        r@ == trim_spec(v@),
{
    let n = v.len();
    let mut start: usize = 0;
    while start < n && is_space_char(v[start])
        invariant
            n == v@.len(),
            0 <= start <= n,
            forall|j: int| 0 <= j < start ==> is_space(v@[j]),
        decreases n - start,
    {
        start += 1;
    }
    let mut end: usize = n;
    while end > start && is_space_char(v[end - 1])
        invariant
            n == v@.len(),
            start <= end <= n,
            forall|j: int| end <= j < n ==> is_space(v@[j]),
        decreases end,
    {
        end -= 1;
    }
    let mut r: Vec<char> = Vec::new();
    for i in start..end
        invariant
            n == v@.len(),
            start <= end <= n,
            r@ == v@.subrange(start as int, i as int),
    {
        r.push(v[i]);
        proof {
            assert(r@ =~= v@.subrange(start as int, i + 1));
        }
    }
    proof {
        lemma_trim_front_skip(v@, start as int);
        let t = v@.skip(start as int);
        assert(forall|j: int| end - start <= j < t.len() ==> is_space(t[j]));
        lemma_trim_back_take(t, end - start);
        assert(t.take(end - start) =~= v@.subrange(start as int, end as int));
    }
    r
}

/// The parts of `s` between separator characters, scanning from position `i`
/// with the current part beginning at `start`. Empty parts are kept, as with
/// splitting on a separator pattern.
pub open spec fn split_seps_from(s: Seq<char>, i: int, start: int) -> Seq<Seq<char>>
    decreases s.len() - i,
{
    if i < start || start < 0 || i > s.len() {
        Seq::empty()
    } else if i == s.len() {
        seq![s.subrange(start, s.len() as int)]
    } else if is_sep(s[i]) {
        seq![s.subrange(start, i)] + split_seps_from(s, i + 1, i + 1)
    } else {
        split_seps_from(s, i + 1, start)
    }
}

/// The parts of `s` between separator characters, empty parts kept.
pub open spec fn split_seps_spec(s: Seq<char>) -> Seq<Seq<char>> {
    split_seps_from(s, 0, 0)
}

/// Splits on `+`/`-`, keeping empty parts.
pub fn split_seps(v: &Vec<char>) -> (r: Vec<Vec<char>>)
    ensures
        r.deep_view() == split_seps_spec(v@),
{
    let n = v.len();
    let mut r: Vec<Vec<char>> = Vec::new();
    let mut cur: Vec<char> = Vec::new();
    let ghost mut start: int = 0;
    for i in 0..n
        invariant
            n == v@.len(),
            0 <= start <= i,
            cur@ == v@.subrange(start, i as int),
            split_seps_spec(v@) == r.deep_view() + split_seps_from(v@, i as int, start),
    {
        if is_sep_char(v[i]) {
            let ghost prev = r.deep_view();
            r.push(cur);
            cur = Vec::new();
            proof {
                assert(r.deep_view() =~~= prev.push(v@.subrange(start, i as int)));
                start = i + 1;
                assert(cur@ =~= v@.subrange(start, i + 1));
            }
        } else {
            cur.push(v[i]);
            proof {
                assert(cur@ =~= v@.subrange(start, i + 1));
            }
        }
    }
    let ghost prev = r.deep_view();
    r.push(cur);
    proof {
        assert(r.deep_view() =~~= prev.push(v@.subrange(start, n as int)));
    }
    r
}

/// The whitespace-separated parts of `s`, scanning from `i` with the current
/// part beginning at `start`. Empty parts are skipped, as with
/// `split_whitespace`.
pub open spec fn split_ws_from(s: Seq<char>, i: int, start: int) -> Seq<Seq<char>>
    decreases s.len() - i,
{
    if i < start || start < 0 || i > s.len() {
        Seq::empty()
    } else if i == s.len() {
        if start < s.len() {
            seq![s.subrange(start, s.len() as int)]
        } else {
            Seq::empty()
        }
    } else if is_space(s[i]) {
        if start < i {
            seq![s.subrange(start, i)] + split_ws_from(s, i + 1, i + 1)
        } else {
            split_ws_from(s, i + 1, i + 1)
        }
    } else {
        split_ws_from(s, i + 1, start)
    }
}

/// The whitespace-separated parts of `s`, empty parts skipped.
pub open spec fn split_ws_spec(s: Seq<char>) -> Seq<Seq<char>> {
    split_ws_from(s, 0, 0)
}

/// Splits on ASCII whitespace, skipping empty parts.
pub fn split_ws(v: &Vec<char>) -> (r: Vec<Vec<char>>)
    ensures
        r.deep_view() == split_ws_spec(v@),
{
    let n = v.len();
    let mut r: Vec<Vec<char>> = Vec::new();
    let mut cur: Vec<char> = Vec::new();
    let ghost mut start: int = 0;
    for i in 0..n
        invariant
            n == v@.len(),
            0 <= start <= i,
            cur@ == v@.subrange(start, i as int),
            split_ws_spec(v@) == r.deep_view() + split_ws_from(v@, i as int, start),
    {
        if is_space_char(v[i]) {
            if cur.len() > 0 {
                let ghost prev = r.deep_view();
                r.push(cur);
                cur = Vec::new();
                proof {
                    assert(r.deep_view() =~~= prev.push(v@.subrange(start, i as int)));
                }
            }
            proof {
                start = i + 1;
                assert(cur@ =~= v@.subrange(start, i + 1));
            }
        } else {
            cur.push(v[i]);
            proof {
                assert(cur@ =~= v@.subrange(start, i + 1));
            }
        }
    }
    if cur.len() > 0 {
        let ghost prev = r.deep_view();
        r.push(cur);
        proof {
            assert(r.deep_view() =~~= prev.push(v@.subrange(start, n as int)));
        }
    }
    r
}

} // verus!
