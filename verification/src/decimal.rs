//! Decimal digits and the decimal notation of non-negative integers.

use crate::text::{all_digits, char_is_digit, is_digit};
use regex::Regex;
use vstd::prelude::*;
use vstd::string::*;

verus! {

/// Whether the regular expression `pattern` matches somewhere in
/// `haystack`, as the `regex` crate decides it; `None` where the crate
/// does not accept `pattern`.
pub uninterp spec fn regex_is_match(pattern: Seq<char>, haystack: Seq<char>) -> Option<bool>;

/// Compiles `pattern` with `Regex::new` and asks `Regex::is_match` whether
/// it matches the text made of the single character `c`.
///
/// Nothing is claimed of the answer but that it depends on the pattern
/// and the character alone.
#[verifier::external_body]
fn regex_matches_char(pattern: &str, c: char) -> (answer: Option<bool>)
    ensures
        answer == regex_is_match(pattern@, seq![c]),
{
    let mut buffer = [0u8; 4];
    match Regex::new(pattern) {
        Ok(re) => Some(re.is_match(c.encode_utf8(&mut buffer))),
        Err(_) => None,
    }
}

/// The pattern of the class of decimal digits.
pub open spec fn digit_pattern() -> Seq<char> {
    "\\d"@
}

/// Whether `c` counts as a decimal digit, given the answer to the
/// question whether the class of decimal digits holds it: the digits `0`
/// to `9` always do, no other ASCII character does, and a character
/// beyond the ASCII range does where the answer is yes.
pub open spec fn is_digit_given(c: char, answer: Option<bool>) -> bool {
    is_digit(c) || (c > '\u{7f}' && answer == Some(true))
}

/// Whether `c` is a decimal digit in the wide sense: one of `0` to `9`,
/// or a character beyond the ASCII range that the class `\d` of regular
/// expressions holds. Only the digits `0` to `9` write numbers.
pub open spec fn is_decimal_digit(c: char) -> bool {
    is_digit_given(c, regex_is_match(digit_pattern(), seq![c]))
}

/// Decides whether `c` counts as a decimal digit, `answer` being what the
/// class of decimal digits said of it.
pub fn digit_given(c: char, answer: Option<bool>) -> (b: bool)
    ensures
        b == is_digit_given(c, answer),
{
    if c <= '\u{7f}' {
        char_is_digit(c)
    } else {
        match answer {
            Some(found) => found,
            None => false,
        }
    }
}

/// Tests whether a character is a decimal digit in the wide sense. The
/// class of decimal digits is asked about characters beyond the ASCII
/// range only.
pub fn char_is_decimal_digit(c: char) -> (b: bool)
    ensures
        b == is_decimal_digit(c),
{
    let answer = if c > '\u{7f}' {
        regex_matches_char("\\d", c)
    } else {
        None
    };
    digit_given(c, answer)
}

/// The number that the digit `c` stands for; zero for a character that
/// is none of `0` to `9`.
pub open spec fn digit_value(c: char) -> nat {
    if is_digit(c) {
        (c as int - '0' as int) as nat
    } else {
        0
    }
}

/// The digit that stands for `d`, for `d` below ten.
pub open spec fn digit_char(d: nat) -> char {
    ('0' as nat + d) as char
}

/// The number written by the digits `s`, most significant first. The empty
/// sequence writes zero.
pub open spec fn decimal_value(s: Seq<char>) -> nat
    decreases s.len(),
{
    if s.len() == 0 {
        0
    } else {
        10 * decimal_value(s.drop_last()) + digit_value(s.last())
    }
}

/// The digits that write `n`, most significant first, without leading
/// zeros; zero is written `0`.
pub open spec fn decimal_digits(n: nat) -> Seq<char>
    decreases n,
{
    if n < 10 {
        seq![digit_char(n)]
    } else {
        decimal_digits(n / 10).push(digit_char(n % 10))
    }
}

/// The counter that `s` writes: its value where `s` is made of the digits
/// `0` to `9` and the value fits into 32 bits, and zero otherwise.
pub open spec fn counter_value(s: Seq<char>) -> u32 {
    if all_digits(s) && decimal_value(s) <= u32::MAX {
        decimal_value(s) as u32
    } else {
        0
    }
}

/// The digits of a number are digits, there is at least one of them, and
/// they write that number.
pub proof fn lemma_decimal_round_trip(n: nat)
    ensures
        decimal_digits(n).len() >= 1,
        all_digits(decimal_digits(n)),
        decimal_value(decimal_digits(n)) == n,
    decreases n,
{
    if n < 10 {
        let s = decimal_digits(n);
        assert(decimal_value(s.drop_last()) == 0);
    } else {
        lemma_decimal_round_trip(n / 10);
        let s = decimal_digits(n);
        assert(s.drop_last() =~= decimal_digits(n / 10));
    }
}

/// A number rendered and read back as a counter is unchanged.
pub proof fn lemma_counter_round_trip(n: u32)
    ensures
        counter_value(decimal_digits(n as nat)) == n,
{
    lemma_decimal_round_trip(n as nat);
}

/// The value of a prefix of `s` is at most the value of `s`.
pub proof fn lemma_prefix_value(s: Seq<char>, k: int)
    requires
        0 <= k <= s.len(),
    ensures
        decimal_value(s.take(k)) <= decimal_value(s),
    decreases s.len(),
{
    if k < s.len() {
        assert(s.drop_last().take(k) =~= s.take(k));
        lemma_prefix_value(s.drop_last(), k);
    } else {
        assert(s.take(k) =~= s);
    }
}

fn digit_of(c: char) -> (d: u64)
    requires
        is_digit(c),
    ensures
        d == digit_value(c),
        d <= 9,
{
    (c as u32 - '0' as u32) as u64
}

fn digit_text(d: u32) -> (text: &'static str)
    requires
        d < 10,
    ensures
        text@ == seq![digit_char(d as nat)],
{
    proof {
        reveal_strlit("0");
        reveal_strlit("1");
        reveal_strlit("2");
        reveal_strlit("3");
        reveal_strlit("4");
        reveal_strlit("5");
        reveal_strlit("6");
        reveal_strlit("7");
        reveal_strlit("8");
        reveal_strlit("9");
    }
    let text = if d == 1 {
        "1"
    } else if d == 2 {
        "2"
    } else if d == 3 {
        "3"
    } else if d == 4 {
        "4"
    } else if d == 5 {
        "5"
    } else if d == 6 {
        "6"
    } else if d == 7 {
        "7"
    } else if d == 8 {
        "8"
    } else if d == 9 {
        "9"
    } else {
        "0"
    };
    text
}

/// Reads the characters of `doc` between `from` and `to` as a counter:
/// the number they write, or zero where one of them is not among `0` to
/// `9` or the number does not fit into 32 bits.
pub fn parse_counter(doc: &Vec<char>, from: usize, to: usize) -> (n: u32)
    requires
        from <= to <= doc.len(),
    ensures
        n == counter_value(doc@.subrange(from as int, to as int)),
{
    let ghost s = doc@.subrange(from as int, to as int);
    let mut value: u64 = 0;
    let mut i: usize = from;
    while i < to
        invariant
            from <= i <= to <= doc.len(),
            s == doc@.subrange(from as int, to as int),
            all_digits(s.take(i - from)),
            value == decimal_value(s.take(i - from)),
            value <= u32::MAX,
        decreases to - i,
    {
        assert(s[i - from] == doc@[i as int]);
        if !char_is_digit(doc[i]) {
            return 0;
        }
        let d = digit_of(doc[i]);
        proof {
            let next = s.take(i - from + 1);
            assert(next.drop_last() =~= s.take(i - from));
            assert forall|k: int| 0 <= k < next.len() implies is_digit(#[trigger] next[k]) by {
                if k < i - from {
                    assert(next[k] == s.take(i - from)[k]);
                }
            }
        }
        value = 10 * value + d;
        i += 1;
        if value > 0xffff_ffff {
            proof {
                lemma_prefix_value(s, i - from);
            }
            return 0;
        }
    }
    assert(s.take(to - from) =~= s);
    value as u32
}

/// Writes `n` in decimal notation.
pub fn render_counter(n: u32) -> (text: String)
    ensures
        text@ == decimal_digits(n as nat),
    decreases n,
{
    if n < 10 {
        String::from_str(digit_text(n))
    } else {
        let mut text = render_counter(n / 10);
        text.append(digit_text(n % 10));
        text
    }
}

} // verus!
