//! Verified text primitives over `&str` and its `Seq<char>` view: substring
//! search, prefix test, blank test, character search and equality. The log
//! scanner and the configuration parsers are built on these.

use vstd::prelude::*;

verus! {

/// `p` occurs in `s` starting at position `i`.
pub open spec fn matches_at(s: Seq<char>, p: Seq<char>, i: int) -> bool {
    0 <= i && i + p.len() <= s.len() && s.subrange(i, i + p.len() as int) == p
}

/// `p` occurs somewhere in `s`.
pub open spec fn contains_seq(s: Seq<char>, p: Seq<char>) -> bool {
    exists|i: int| matches_at(s, p, i)
}

/// `s` begins with `p`.
pub open spec fn starts_with_seq(s: Seq<char>, p: Seq<char>) -> bool {
    p.len() <= s.len() && s.subrange(0, p.len() as int) == p
}

/// The characters that `char::is_whitespace` accepts (Unicode `White_Space`).
pub open spec fn is_ws_char(c: char) -> bool {
    c == ' ' || c == '\t' || c == '\n' || c == '\u{000B}' || c == '\u{000C}' || c == '\r'
        || c == '\u{0085}' || c == '\u{00A0}' || c == '\u{1680}'
        || ('\u{2000}' <= c && c <= '\u{200A}') || c == '\u{2028}' || c == '\u{2029}'
        || c == '\u{202F}' || c == '\u{205F}' || c == '\u{3000}'
}

/// `s` trims to the empty string: every character is whitespace.
pub open spec fn is_blank(s: Seq<char>) -> bool {
    forall|i: int| 0 <= i < s.len() ==> is_ws_char(#[trigger] s[i])
}

/// Whether `c` counts as whitespace, matching `is_ws_char`.
pub fn ws_char(c: char) -> (r: bool)
    ensures
        r == is_ws_char(c),
{
    c == ' ' || c == '\t' || c == '\n' || c == '\u{000B}' || c == '\u{000C}' || c == '\r'
        || c == '\u{0085}' || c == '\u{00A0}' || c == '\u{1680}'
        || ('\u{2000}' <= c && c <= '\u{200A}') || c == '\u{2028}' || c == '\u{2029}'
        || c == '\u{202F}' || c == '\u{205F}' || c == '\u{3000}'
}

/// Whether every character of `s` is whitespace.
pub fn str_is_blank(s: &str) -> (r: bool)
    ensures
        r == is_blank(s@),
{
    let len = s.unicode_len();
    let mut i: usize = 0;
    while i < len
        invariant
            len == s@.len(),
            i <= len,
            forall|k: int| 0 <= k < i ==> is_ws_char(#[trigger] s@[k]),
        decreases len - i,
    {
        if !ws_char(s.get_char(i)) {
            return false;
        }
        i += 1;
    }
    true
}

/// Whether `p` occurs in `s` at position `i`.
pub fn str_match_at(s: &str, p: &str, i: usize, s_len: usize, p_len: usize) -> (r: bool)
    requires
        s_len == s@.len(),
        p_len == p@.len(),
        i + p_len <= s_len,
    ensures
        r == matches_at(s@, p@, i as int),
{
    let mut j: usize = 0;
    while j < p_len
        invariant
            s_len == s@.len(),
            p_len == p@.len(),
            i + p_len <= s_len,
            j <= p_len,
            forall|k: int| 0 <= k < j ==> s@[i + k] == p@[k],
        decreases p_len - j,
    {
        if s.get_char(i + j) != p.get_char(j) {
            proof {
                let sub = s@.subrange(i as int, i as int + p@.len() as int);
                assert(sub[j as int] == s@[i + j]);
            }
            return false;
        }
        j += 1;
    }
    proof {
        assert(s@.subrange(i as int, i as int + p@.len() as int) =~= p@);
    }
    true
}

/// Whether `s` begins with `p`.
pub fn str_starts_with(s: &str, p: &str) -> (r: bool)
    ensures
        r == starts_with_seq(s@, p@),
{
    let s_len = s.unicode_len();
    let p_len = p.unicode_len();
    if p_len > s_len {
        return false;
    }
    str_match_at(s, p, 0, s_len, p_len)
}

/// Whether `p` occurs anywhere in `s`.
pub fn str_contains(s: &str, p: &str) -> (r: bool)
    ensures
        r == contains_seq(s@, p@),
{
    let s_len = s.unicode_len();
    let p_len = p.unicode_len();
    if p_len > s_len {
        return false;
    }
    if p_len == 0 {
        proof {
            assert(s@.subrange(0, 0) =~= p@);
            assert(matches_at(s@, p@, 0));
        }
        return true;
    }
    let bound = s_len - p_len;
    let mut i: usize = 0;
    while i <= bound
        invariant
            s_len == s@.len(),
            p_len == p@.len(),
            1 <= p_len <= s_len,
            bound == s_len - p_len,
            i <= bound + 1,
            forall|k: int| 0 <= k < i ==> !matches_at(s@, p@, k),
        decreases bound + 1 - i,
    {
        if str_match_at(s, p, i, s_len, p_len) {
            return true;
        }
        i += 1;
    }
    false
}

/// Whether two string slices hold the same characters.
pub fn str_eq(a: &str, b: &str) -> (r: bool)
    ensures
        r == (a@ == b@),
{
    let a_len = a.unicode_len();
    let b_len = b.unicode_len();
    if a_len != b_len {
        return false;
    }
    let r = str_match_at(a, b, 0, a_len, b_len);
    proof {
        assert(a@.subrange(0, b@.len() as int) =~= a@);
    }
    r
}

/// The position of the first occurrence of `c` in `s` at or after 0.
pub open spec fn first_index_of(s: Seq<char>, c: char) -> Option<int> {
    if exists|i: int| 0 <= i < s.len() && s[i] == c {
        Some(choose|i: int| 0 <= i < s.len() && s[i] == c && forall|k: int| 0 <= k < i ==> s[k] != c)
    } else {
        None
    }
}

/// Finds the first occurrence of `c` in `s`.
pub fn str_find_char(s: &str, c: char) -> (r: Option<usize>)
    ensures
        match r {
            Some(i) => i < s@.len() && s@[i as int] == c && forall|k: int| 0 <= k < i ==> s@[k] != c,
            None => forall|k: int| 0 <= k < s@.len() ==> s@[k] != c,
        },
{
    let len = s.unicode_len();
    let mut i: usize = 0;
    while i < len
        invariant
            len == s@.len(),
            i <= len,
            forall|k: int| 0 <= k < i ==> s@[k] != c,
        decreases len - i,
    {
        if s.get_char(i) == c {
            return Some(i);
        }
        i += 1;
    }
    None
}

/// A copy of the characters `from..to` of `s` as an owned string.
pub fn substring_copy(s: &str, from: usize, to: usize) -> (r: String)
    requires
        from <= to <= s@.len(),
    ensures
        r@ == s@.subrange(from as int, to as int),
{
    s.substring_char(from, to).to_owned()
}

/// Relies on `String::push`: appends exactly one character.
#[verifier::external_body]
pub(crate) fn push_char(s: &mut String, c: char)
    ensures
        final(s)@ == old(s)@.push(c),
{
    s.push(c);
}

/// The longest prefix of `s` whose characters are all whitespace ends here:
/// index of the first non-whitespace character, or the length of `s`.
pub fn first_non_ws(s: &str) -> (r: usize)
    ensures
        r <= s@.len(),
        forall|k: int| 0 <= k < r ==> is_ws_char(#[trigger] s@[k]),
        r < s@.len() ==> !is_ws_char(s@[r as int]),
{
    let len = s.unicode_len();
    let mut i: usize = 0;
    while i < len
        invariant
            len == s@.len(),
            i <= len,
            forall|k: int| 0 <= k < i ==> is_ws_char(#[trigger] s@[k]),
        decreases len - i,
    {
        if !ws_char(s.get_char(i)) {
            return i;
        }
        i += 1;
    }
    len
}

/// One past the end of the longest whitespace suffix of `s`: index after the
/// last non-whitespace character, or 0 when `s` is blank.
pub fn last_non_ws_end(s: &str) -> (r: usize)
    ensures
        r <= s@.len(),
        forall|k: int| r <= k < s@.len() ==> is_ws_char(#[trigger] s@[k]),
        r > 0 ==> !is_ws_char(s@[r as int - 1]),
{
    let len = s.unicode_len();
    let mut i: usize = len;
    while i > 0
        invariant
            len == s@.len(),
            i <= len,
            forall|k: int| i <= k < s@.len() ==> is_ws_char(#[trigger] s@[k]),
        decreases i,
    {
        if !ws_char(s.get_char(i - 1)) {
            return i;
        }
        i -= 1;
    }
    0
}

/// The characters of `s` with leading and trailing whitespace removed,
/// as `trimmed_view` describes.
#[verifier::opaque]
pub open spec fn trimmed_view(s: Seq<char>) -> Seq<char> {
    if is_blank(s) {
        Seq::empty()
    } else {
        let lo = choose|lo: int|
            0 <= lo < s.len() && !is_ws_char(s[lo]) && forall|k: int| 0 <= k < lo ==> is_ws_char(#[trigger] s[k]);
        let hi = choose|hi: int|
            0 <= hi < s.len() && !is_ws_char(s[hi]) && forall|k: int| hi < k < s.len() ==> is_ws_char(#[trigger] s[k]);
        s.subrange(lo, hi + 1)
    }
}

/// A copy of `s` with leading and trailing whitespace removed.
pub fn str_trim(s: &str) -> (r: String)
    ensures
        r@ == trimmed_view(s@),
{
    proof {
        reveal(trimmed_view);
    }
    let lo = first_non_ws(s);
    let len = s.unicode_len();
    if lo == len {
        proof {
            assert(is_blank(s@));
        }
        return String::new();
    }
    let hi = last_non_ws_end(s);
    proof {
        assert(!is_ws_char(s@[lo as int]));
        assert(lo < hi) by {
            if hi <= lo {
                assert(is_ws_char(s@[lo as int]));
            }
        }
        assert(!is_blank(s@));
        let clo = choose|c: int|
            0 <= c < s@.len() && !is_ws_char(s@[c]) && forall|k: int| 0 <= k < c ==> is_ws_char(#[trigger] s@[k]);
        assert(clo == lo) by {
            if clo < lo {
                assert(is_ws_char(s@[clo]));
            }
            if lo < clo {
                assert(is_ws_char(s@[lo as int]));
            }
        }
        let chi = choose|c: int|
            0 <= c < s@.len() && !is_ws_char(s@[c]) && forall|k: int| c < k < s@.len() ==> is_ws_char(#[trigger] s@[k]);
        assert(chi == hi - 1) by {
            if chi < hi - 1 {
                assert(is_ws_char(s@[hi as int - 1]));
            }
            if hi - 1 < chi {
                assert(is_ws_char(s@[chi]));
            }
        }
    }
    substring_copy(s, lo, hi)
}

} // verus!
