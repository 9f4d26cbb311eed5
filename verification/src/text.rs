//! Character sequences: digits, occurrences of a pattern, suffixes.

use vstd::prelude::*;
use vstd::utf8::encode_utf8;

verus! {

/// Whether `c` is one of the ten decimal digits `0` to `9`.
pub open spec fn is_digit(c: char) -> bool {
    '0' <= c <= '9'
}

/// Whether every character of `s` is a decimal digit. The empty sequence
/// qualifies.
pub open spec fn all_digits(s: Seq<char>) -> bool {
    forall|i: int| 0 <= i < s.len() ==> is_digit(#[trigger] s[i])
}

/// Whether `pattern` occurs in `doc` starting at position `at`.
pub open spec fn has_at(doc: Seq<char>, at: int, pattern: Seq<char>) -> bool {
    &&& 0 <= at
    &&& at + pattern.len() <= doc.len()
    &&& doc.subrange(at, at + pattern.len()) == pattern
}

/// Whether `s` ends with `suffix`.
pub open spec fn ends_with(s: Seq<char>, suffix: Seq<char>) -> bool {
    has_at(s, s.len() - suffix.len(), suffix)
}

/// The bytes of a text are the bytes of its parts, one after the other.
pub proof fn lemma_bytes_of_parts(a: Seq<char>, b: Seq<char>)
    ensures
        encode_utf8(a + b) == encode_utf8(a) + encode_utf8(b),
    decreases a.len(),
{
    if a.len() == 0 {
        assert(a + b =~= b);
    } else {
        lemma_bytes_of_parts(a.drop_first(), b);
        assert((a + b).drop_first() =~= a.drop_first() + b);
    }
}

/// Tests whether a character is a decimal digit.
pub fn char_is_digit(c: char) -> (b: bool)
    ensures
        b == is_digit(c),
{
    '0' <= c && c <= '9'
}

/// The characters of a string slice, in order.
pub fn to_chars(s: &str) -> (v: Vec<char>)
    ensures
        v@ == s@,
{
    let mut v: Vec<char> = Vec::new();
    for c in it: s.chars()
        invariant
            v@ == it.seq().take(it.index() as int),
    {
        v.push(c);
    }
    v
}

/// Tests whether `pattern` occurs in `doc` starting at position `at`.
pub fn occurs_at(doc: &Vec<char>, at: usize, pattern: &Vec<char>) -> (b: bool)
    ensures
        b == has_at(doc@, at as int, pattern@),
{
    if at > doc.len() || pattern.len() > doc.len() - at {
        return false;
    }
    let mut k: usize = 0;
    while k < pattern.len()
        invariant
            k <= pattern.len(),
            at + pattern.len() <= doc.len(),
            forall|j: int| 0 <= j < k ==> doc@[at + j] == pattern@[j],
        decreases pattern.len() - k,
    {
        if doc[at + k] != pattern[k] {
            return false;
        }
        k += 1;
    }
    assert(doc@.subrange(at as int, at + pattern.len()) =~= pattern@);
    true
}

/// Tests whether `s` ends with `suffix`.
pub fn chars_end_with(s: &Vec<char>, suffix: &Vec<char>) -> (b: bool)
    ensures
        b == ends_with(s@, suffix@),
{
    if suffix.len() > s.len() {
        return false;
    }
    occurs_at(s, s.len() - suffix.len(), suffix)
}

/// Tests whether every character of `s` is a decimal digit.
pub fn chars_all_digits(s: &Vec<char>) -> (b: bool)
    ensures
        b == all_digits(s@),
{
    let mut i: usize = 0;
    while i < s.len()
        invariant
            i <= s.len(),
            forall|j: int| 0 <= j < i ==> is_digit(#[trigger] s@[j]),
        decreases s.len() - i,
    {
        if !char_is_digit(s[i]) {
            return false;
        }
        i += 1;
    }
    true
}

} // verus!
