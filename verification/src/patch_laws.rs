//! What rewriting the counters of a document guarantees: the fields read
//! back afterwards, and the text that is left untouched.

use crate::decimal::{
    counter_value, decimal_digits, lemma_counter_round_trip, lemma_decimal_round_trip,
};
use crate::marker::{
    first_field, first_value, is_field_at, lemma_first_field_from, lemma_first_field_is_leftmost,
    value_end, value_start, FieldKind,
};
use crate::profile::{
    coins_tag, name_tag, replace_value, spec_counter, spec_extract, spec_name, spec_patch,
    total_tag, unknown_name, ProfileDataView,
};
use crate::splice::{
    is_plain_tag, lemma_field_respliced, lemma_field_shape, lemma_fields_disjoint,
    lemma_first_field_respliced, lemma_other_field_respliced, lemma_replace_resplices,
    lemma_same_start_same_tag, lemma_splice_twice_backward, lemma_splice_twice_forward, moved,
};
use crate::text::lemma_bytes_of_parts;
use vstd::prelude::*;
use vstd::utf8::encode_utf8;

verus! {

/// Whether `doc` holds a well-formed marker pair of the counter `tag`.
pub open spec fn has_counter(doc: Seq<char>, tag: Seq<char>) -> bool {
    first_field(doc, tag, FieldKind::Counter) is Some
}

/// The three field names are plain and differ from one another.
pub proof fn lemma_field_names()
    ensures
        is_plain_tag(name_tag()),
        is_plain_tag(coins_tag()),
        is_plain_tag(total_tag()),
        name_tag() != coins_tag(),
        name_tag() != total_tag(),
        coins_tag() != total_tag(),
{
    reveal_strlit("name");
    reveal_strlit("coins");
    reveal_strlit("totalCollectedCoins");
    assert(total_tag().len() == 19);
}

/// After a counter's value was replaced by the digits of `n`, the counter
/// reads as `n`, provided that the document holds the counter at all;
/// where it does not, the document is unchanged.
pub proof fn lemma_replaced_counter(doc: Seq<char>, tag: Seq<char>, n: u32)
    requires
        is_plain_tag(tag),
    ensures
        has_counter(replace_value(doc, tag, decimal_digits(n as nat)), tag) == has_counter(
            doc,
            tag,
        ),
        has_counter(doc, tag) ==> spec_counter(
            replace_value(doc, tag, decimal_digits(n as nat)),
            tag,
        ) == n,
        !has_counter(doc, tag) ==> replace_value(doc, tag, decimal_digits(n as nat)) == doc,
{
    let kind = FieldKind::Counter;
    let digits = decimal_digits(n as nat);
    if let Some(a) = first_field(doc, tag, kind) {
        lemma_first_field_from(doc, tag, kind, 0);
        lemma_decimal_round_trip(n as nat);
        lemma_counter_round_trip(n);
        lemma_replace_resplices(doc, tag, a, digits);
        let y = replace_value(doc, tag, digits);
        lemma_first_field_respliced(doc, y, tag, a);
    }
}

/// Replacing the value of one counter leaves every other field as it
/// was: present or absent as before, and with the same value.
pub proof fn lemma_replaced_other(
    doc: Seq<char>,
    tag: Seq<char>,
    n: u32,
    other: Seq<char>,
    kind: FieldKind,
)
    requires
        is_plain_tag(tag),
        is_plain_tag(other),
        other != tag,
    ensures
        first_value(replace_value(doc, tag, decimal_digits(n as nat)), other, kind) == first_value(
            doc,
            other,
            kind,
        ),
{
    let digits = decimal_digits(n as nat);
    if let Some(a) = first_field(doc, tag, FieldKind::Counter) {
        lemma_first_field_from(doc, tag, FieldKind::Counter, 0);
        lemma_decimal_round_trip(n as nat);
        lemma_replace_resplices(doc, tag, a, digits);
        let y = replace_value(doc, tag, digits);
        lemma_other_field_respliced(doc, y, tag, a, other, kind);
    }
}

/// What is read from a rewritten document: the display name as before,
/// and each counter as it was set, provided that the document held a
/// marker pair for it; a counter without a marker pair still reads as
/// zero.
pub proof fn lemma_extract_after_patch(doc: Seq<char>, coins: u32, total: u32)
    ensures
        spec_extract(spec_patch(doc, coins, total)) == (ProfileDataView {
            name: spec_name(doc),
            coins: if has_counter(doc, coins_tag()) {
                coins
            } else {
                0
            },
            total_collected: if has_counter(doc, total_tag()) {
                total
            } else {
                0
            },
        }),
{
    lemma_field_names();
    let first = replace_value(doc, coins_tag(), decimal_digits(coins as nat));
    lemma_replaced_counter(doc, coins_tag(), coins);
    lemma_replaced_other(doc, coins_tag(), coins, name_tag(), FieldKind::Text);
    lemma_replaced_other(doc, coins_tag(), coins, total_tag(), FieldKind::Counter);
    lemma_replaced_counter(first, total_tag(), total);
    lemma_replaced_other(first, total_tag(), total, name_tag(), FieldKind::Text);
    lemma_replaced_other(first, total_tag(), total, coins_tag(), FieldKind::Counter);
}

/// Round trip: a document that holds both counters reads back, after it
/// was rewritten with `coins` and `total`, exactly these two numbers.
pub proof fn lemma_patch_round_trip(doc: Seq<char>, coins: u32, total: u32)
    requires
        has_counter(doc, coins_tag()),
        has_counter(doc, total_tag()),
    ensures
        spec_extract(spec_patch(doc, coins, total)).coins == coins,
        spec_extract(spec_patch(doc, coins, total)).total_collected == total,
{
    lemma_extract_after_patch(doc, coins, total);
}

/// A missing counter is skipped: rewriting a document without a
/// total-collected marker pair changes its coins value and nothing else,
/// one without a coins marker pair its total-collected value and nothing
/// else, and one without either is returned as it is.
pub proof fn lemma_patch_skips_missing(doc: Seq<char>, coins: u32, total: u32)
    ensures
        !has_counter(doc, total_tag()) ==> spec_patch(doc, coins, total) == replace_value(
            doc,
            coins_tag(),
            decimal_digits(coins as nat),
        ),
        !has_counter(doc, coins_tag()) ==> spec_patch(doc, coins, total) == replace_value(
            doc,
            total_tag(),
            decimal_digits(total as nat),
        ),
        !has_counter(doc, coins_tag()) && !has_counter(doc, total_tag()) ==> spec_patch(
            doc,
            coins,
            total,
        ) == doc,
{
    lemma_field_names();
    lemma_replaced_counter(doc, coins_tag(), coins);
    lemma_replaced_other(doc, coins_tag(), coins, total_tag(), FieldKind::Counter);
}

/// The text around the two values is kept, character for character.
///
/// For a document that holds both counters, the rewritten document is
/// made of the text before the first of the two values, the new digits,
/// the text between the two values, the new digits, and the text after
/// the second value, whichever of the two counters comes first.
pub proof fn lemma_patch_keeps_the_rest(doc: Seq<char>, coins: u32, total: u32)
    requires
        has_counter(doc, coins_tag()),
        has_counter(doc, total_tag()),
    ensures
        ({
            let kind = FieldKind::Counter;
            let c = first_field(doc, coins_tag(), kind)->0;
            let t = first_field(doc, total_tag(), kind)->0;
            let c_start = value_start(coins_tag(), c);
            let c_end = value_end(doc, coins_tag(), kind, c);
            let t_start = value_start(total_tag(), t);
            let t_end = value_end(doc, total_tag(), kind, t);
            let c_digits = decimal_digits(coins as nat);
            let t_digits = decimal_digits(total as nat);
            &&& c != t
            &&& c < t ==> c_end <= t_start && spec_patch(doc, coins, total) == doc.subrange(
                0,
                c_start,
            ) + c_digits + doc.subrange(c_end, t_start) + t_digits + doc.subrange(
                t_end,
                doc.len() as int,
            )
            &&& t < c ==> t_end <= c_start && spec_patch(doc, coins, total) == doc.subrange(
                0,
                t_start,
            ) + t_digits + doc.subrange(t_end, c_start) + c_digits + doc.subrange(
                c_end,
                doc.len() as int,
            )
        }),
{
    lemma_field_names();
    let kind = FieldKind::Counter;
    let c = first_field(doc, coins_tag(), kind)->0;
    let t = first_field(doc, total_tag(), kind)->0;
    let c_start = value_start(coins_tag(), c);
    let c_end = value_end(doc, coins_tag(), kind, c);
    let t_start = value_start(total_tag(), t);
    let t_end = value_end(doc, total_tag(), kind, t);
    let c_digits = decimal_digits(coins as nat);
    let t_digits = decimal_digits(total as nat);
    lemma_first_field_from(doc, coins_tag(), kind, 0);
    lemma_first_field_from(doc, total_tag(), kind, 0);
    lemma_decimal_round_trip(coins as nat);
    lemma_field_shape(doc, coins_tag(), kind, c);
    lemma_field_shape(doc, total_tag(), kind, t);
    if c == t {
        lemma_same_start_same_tag(doc, coins_tag(), kind, total_tag(), kind, c);
    }
    let first = replace_value(doc, coins_tag(), c_digits);
    lemma_replace_resplices(doc, coins_tag(), c, c_digits);
    lemma_other_field_respliced(doc, first, coins_tag(), c, total_tag(), kind);
    lemma_field_respliced(doc, first, coins_tag(), c, total_tag(), kind, t);
    let t2 = moved(doc, first, coins_tag(), c, t);
    assert(first_field(first, total_tag(), kind) == Some(t2));
    if c < t {
        lemma_fields_disjoint(doc, coins_tag(), kind, c, total_tag(), kind, t);
        lemma_splice_twice_forward(doc, c_start, c_end, c_digits, t_start, t_end, t_digits);
    } else {
        lemma_fields_disjoint(doc, total_tag(), kind, t, coins_tag(), kind, c);
        lemma_splice_twice_backward(doc, c_start, c_end, c_digits, t_start, t_end, t_digits);
    }
}

/// The bytes around the two values are kept, byte for byte.
///
/// For a document that holds both counters, the bytes of the rewritten
/// document are the bytes before the first of the two values, the bytes
/// of the new digits, the bytes between the two values, the bytes of the
/// new digits, and the bytes after the second value.
pub proof fn lemma_patch_keeps_the_bytes(doc: Seq<char>, coins: u32, total: u32)
    requires
        has_counter(doc, coins_tag()),
        has_counter(doc, total_tag()),
    ensures
        ({
            let kind = FieldKind::Counter;
            let c = first_field(doc, coins_tag(), kind)->0;
            let t = first_field(doc, total_tag(), kind)->0;
            let c_start = value_start(coins_tag(), c);
            let c_end = value_end(doc, coins_tag(), kind, c);
            let t_start = value_start(total_tag(), t);
            let t_end = value_end(doc, total_tag(), kind, t);
            let c_bytes = encode_utf8(decimal_digits(coins as nat));
            let t_bytes = encode_utf8(decimal_digits(total as nat));
            &&& c < t ==> encode_utf8(spec_patch(doc, coins, total)) == encode_utf8(
                doc.subrange(0, c_start),
            ) + c_bytes + encode_utf8(doc.subrange(c_end, t_start)) + t_bytes + encode_utf8(
                doc.subrange(t_end, doc.len() as int),
            )
            &&& t < c ==> encode_utf8(spec_patch(doc, coins, total)) == encode_utf8(
                doc.subrange(0, t_start),
            ) + t_bytes + encode_utf8(doc.subrange(t_end, c_start)) + c_bytes + encode_utf8(
                doc.subrange(c_end, doc.len() as int),
            )
        }),
{
    let kind = FieldKind::Counter;
    let c = first_field(doc, coins_tag(), kind)->0;
    let t = first_field(doc, total_tag(), kind)->0;
    let c_start = value_start(coins_tag(), c);
    let c_end = value_end(doc, coins_tag(), kind, c);
    let t_start = value_start(total_tag(), t);
    let t_end = value_end(doc, total_tag(), kind, t);
    let c_digits = decimal_digits(coins as nat);
    let t_digits = decimal_digits(total as nat);
    lemma_patch_keeps_the_rest(doc, coins, total);
    if c < t {
        let p1 = doc.subrange(0, c_start);
        let p3 = doc.subrange(c_end, t_start);
        let p5 = doc.subrange(t_end, doc.len() as int);
        lemma_bytes_of_parts(p1, c_digits);
        lemma_bytes_of_parts(p1 + c_digits, p3);
        lemma_bytes_of_parts(p1 + c_digits + p3, t_digits);
        lemma_bytes_of_parts(p1 + c_digits + p3 + t_digits, p5);
    } else {
        let p1 = doc.subrange(0, t_start);
        let p3 = doc.subrange(t_end, c_start);
        let p5 = doc.subrange(c_end, doc.len() as int);
        lemma_bytes_of_parts(p1, t_digits);
        lemma_bytes_of_parts(p1 + t_digits, p3);
        lemma_bytes_of_parts(p1 + t_digits + p3, c_digits);
        lemma_bytes_of_parts(p1 + t_digits + p3 + c_digits, p5);
    }
}

/// Fields are read independently: a document whose first coins marker
/// pair begins at `at`, and which holds no display-name marker pair,
/// reads as the placeholder name together with the number that the
/// digits of that marker pair write.
pub proof fn lemma_extract_without_name(doc: Seq<char>, at: int)
    requires
        is_field_at(doc, coins_tag(), FieldKind::Counter, at),
        forall|j: int| 0 <= j < at ==> !is_field_at(doc, coins_tag(), FieldKind::Counter, j),
        forall|j: int| !is_field_at(doc, name_tag(), FieldKind::Text, j),
    ensures
        spec_extract(doc).name == unknown_name(),
        spec_extract(doc).coins == counter_value(
            doc.subrange(
                value_start(coins_tag(), at),
                value_end(doc, coins_tag(), FieldKind::Counter, at),
            ),
        ),
{
    lemma_first_field_is_leftmost(doc, coins_tag(), FieldKind::Counter, at);
    lemma_first_field_from(doc, name_tag(), FieldKind::Text, 0);
}

} // verus!
