//! Character-level string tests used to classify archive entry names.
//!
//! Entry names are compared as sequences of Unicode scalar values. Because
//! UTF-8 is self-synchronising, a character-level prefix or suffix test gives
//! the same answer as the byte-level `str::starts_with` / `str::ends_with`.
use vstd::prelude::*;
use vstd::string::StrSliceExecFns;

verus! {

/// `p` is a prefix of `s`.
pub open spec fn has_prefix(s: Seq<char>, p: Seq<char>) -> bool {
    p.len() <= s.len() && s.subrange(0, p.len() as int) == p
}

/// `p` is a suffix of `s`.
pub open spec fn has_suffix(s: Seq<char>, p: Seq<char>) -> bool {
    p.len() <= s.len() && s.subrange(s.len() - p.len(), s.len() as int) == p
}

/// ASCII lower-casing of one character; every other character is unchanged.
pub open spec fn ascii_lower(c: char) -> char {
    if 'A' <= c && c <= 'Z' {
        ((c as u32) + 32) as char
    } else {
        c
    }
}

/// What `str::to_ascii_lowercase` computes, character by character.
pub open spec fn ascii_lowercase(s: Seq<char>) -> Seq<char> {
    Seq::new(s.len(), |i: int| ascii_lower(s[i]))
}

fn lower_char(c: char) -> (r: char)
    ensures
        r == ascii_lower(c),
{
    if 'A' <= c && c <= 'Z' {
        let code: u32 = (c as u32) + 32;
        assert(code <= 0x7a);
        char_from_ascii(code)
    } else {
        c
    }
}

fn char_from_ascii(code: u32) -> (r: char)
    requires
        code < 128,
    ensures
        r == code as char,
{
    let b: u8 = code as u8;
    b as char
}

/// Whether `s` starts with `p`.
pub fn starts_with(s: &str, p: &str) -> (r: bool)
    ensures
        r == has_prefix(s@, p@),
{
    let n = s.unicode_len();
    let m = p.unicode_len();
    if m > n {
        return false;
    }
    let mut i: usize = 0;
    while i < m
        invariant
            n == s@.len(),
            m == p@.len(),
            m <= n,
            i <= m,
            forall|j: int| 0 <= j < i ==> s@[j] == p@[j],
        decreases m - i,
    {
        if s.get_char(i) != p.get_char(i) {
            assert(s@.subrange(0, m as int)[i as int] != p@[i as int]);
            return false;
        }
        i = i + 1;
    }
    assert(s@.subrange(0, m as int) =~= p@);
    true
}

/// Whether `s` ends with `p`.
pub fn ends_with(s: &str, p: &str) -> (r: bool)
    ensures
        r == has_suffix(s@, p@),
{
    let n = s.unicode_len();
    let m = p.unicode_len();
    if m > n {
        return false;
    }
    let off = n - m;
    let mut i: usize = 0;
    while i < m
        invariant
            n == s@.len(),
            m == p@.len(),
            m <= n,
            off == n - m,
            i <= m,
            forall|j: int| 0 <= j < i ==> s@[off + j] == p@[j],
        decreases m - i,
    {
        if s.get_char(off + i) != p.get_char(i) {
            assert(s@.subrange(off as int, n as int)[i as int] != p@[i as int]);
            return false;
        }
        i = i + 1;
    }
    assert(s@.subrange(off as int, n as int) =~= p@);
    true
}

/// Whether the ASCII lower-case form of `s` ends with `p`.
pub fn lowercase_ends_with(s: &str, p: &str) -> (r: bool)
    ensures
        r == has_suffix(ascii_lowercase(s@), p@),
{
    let n = s.unicode_len();
    let m = p.unicode_len();
    let ghost low = ascii_lowercase(s@);
    if m > n {
        return false;
    }
    let off = n - m;
    let mut i: usize = 0;
    while i < m
        invariant
            n == s@.len(),
            m == p@.len(),
            low == ascii_lowercase(s@),
            m <= n,
            off == n - m,
            i <= m,
            forall|j: int| 0 <= j < i ==> low[off + j] == p@[j],
        decreases m - i,
    {
        let c = lower_char(s.get_char(off + i));
        if c != p.get_char(i) {
            assert(low.subrange(off as int, n as int)[i as int] != p@[i as int]);
            return false;
        }
        i = i + 1;
    }
    assert(low.subrange(off as int, n as int) =~= p@);
    true
}

/// Whether the ASCII lower-case form of `s` equals `p`.
pub fn lowercase_equals(s: &str, p: &str) -> (r: bool)
    ensures
        r == (ascii_lowercase(s@) == p@),
{
    let n = s.unicode_len();
    let m = p.unicode_len();
    let ghost low = ascii_lowercase(s@);
    if m != n {
        assert(low.len() != p@.len());
        return false;
    }
    let mut i: usize = 0;
    while i < m
        invariant
            n == s@.len(),
            m == p@.len(),
            low == ascii_lowercase(s@),
            m == n,
            i <= m,
            forall|j: int| 0 <= j < i ==> low[j] == p@[j],
        decreases m - i,
    {
        let c = lower_char(s.get_char(i));
        if c != p.get_char(i) {
            assert(low[i as int] != p@[i as int]);
            return false;
        }
        i = i + 1;
    }
    assert(low =~= p@);
    true
}

/// Whether `s` and `p` hold the same characters.
pub fn str_equals(s: &str, p: &str) -> (r: bool)
    ensures
        r == (s@ == p@),
{
    let n = s.unicode_len();
    let m = p.unicode_len();
    if m != n {
        return false;
    }
    let mut i: usize = 0;
    while i < m
        invariant
            n == s@.len(),
            m == p@.len(),
            m == n,
            i <= m,
            forall|j: int| 0 <= j < i ==> s@[j] == p@[j],
        decreases m - i,
    {
        if s.get_char(i) != p.get_char(i) {
            return false;
        }
        i = i + 1;
    }
    assert(s@ =~= p@);
    true
}

} // verus!
