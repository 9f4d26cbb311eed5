//! How marker pairs behave when part of a document is replaced: marker
//! pairs never overlap, and a marker pair outside the replaced part stays
//! what it was.

use crate::marker::{
    close_marker, first_field, first_value, in_value, is_field_at, lemma_first_field_from,
    lemma_first_field_is_leftmost, lemma_run_end, open_marker, run_end, value_end, value_start,
    FieldKind,
};
use crate::text::{all_digits, has_at};
use vstd::prelude::*;

verus! {

/// A field name that holds none of the characters `<`, `>` and `/`.
pub open spec fn is_plain_tag(tag: Seq<char>) -> bool {
    forall|i: int|
        0 <= i < tag.len() ==> (#[trigger] tag[i]) != '<' && tag[i] != '>' && tag[i] != '/'
}

/// Where the marker pair ends that begins at `at`: just behind its closing
/// marker.
pub open spec fn field_end(doc: Seq<char>, tag: Seq<char>, kind: FieldKind, at: int) -> int {
    value_end(doc, tag, kind, at) + tag.len() + 3
}

/// `x` from `i` on and `y` from `j` on hold the same `n` characters.
pub open spec fn agree(x: Seq<char>, i: int, y: Seq<char>, j: int, n: int) -> bool {
    &&& 0 <= i
    &&& 0 <= j
    &&& 0 <= n
    &&& i + n <= x.len()
    &&& j + n <= y.len()
    &&& x.subrange(i, i + n) == y.subrange(j, j + n)
}

/// Parts that agree hold the same character at the same offset.
pub proof fn lemma_agree_index(x: Seq<char>, i: int, y: Seq<char>, j: int, n: int, k: int)
    requires
        agree(x, i, y, j, n),
        0 <= k < n,
    ensures
        x[i + k] == y[j + k],
{
    assert(x.subrange(i, i + n)[k] == x[i + k]);
    assert(y.subrange(j, j + n)[k] == y[j + k]);
}

/// A pattern that occurs in `doc` at `at` gives the character at each of
/// its offsets.
pub proof fn lemma_has_at_index(doc: Seq<char>, at: int, pattern: Seq<char>, k: int)
    requires
        has_at(doc, at, pattern),
        0 <= k < pattern.len(),
    ensures
        doc[at + k] == pattern[k],
{
    assert(doc.subrange(at, at + pattern.len())[k] == doc[at + k]);
}

/// A pattern that occurs in a part of `x` occurs at the same offset of a
/// part of `y` that agrees with it.
pub proof fn lemma_has_at_transfer(
    x: Seq<char>,
    i: int,
    y: Seq<char>,
    j: int,
    n: int,
    offset: int,
    pattern: Seq<char>,
)
    requires
        agree(x, i, y, j, n),
        0 <= offset,
        offset + pattern.len() <= n,
        has_at(x, i + offset, pattern),
    ensures
        has_at(y, j + offset, pattern),
{
    assert forall|k: int| 0 <= k < pattern.len() implies y[j + offset + k] == pattern[k] by {
        lemma_agree_index(x, i, y, j, n, offset + k);
        lemma_has_at_index(x, i + offset, pattern, k);
    }
    assert(y.subrange(j + offset, j + offset + pattern.len()) =~= pattern);
}

/// A run of value characters that ends inside a part of `x` ends at the
/// same offset of a part of `y` that agrees with it.
pub proof fn lemma_run_end_transfer(
    x: Seq<char>,
    i: int,
    y: Seq<char>,
    j: int,
    n: int,
    kind: FieldKind,
    offset: int,
)
    requires
        agree(x, i, y, j, n),
        0 <= offset <= n,
        run_end(x, kind, i + offset) < i + n,
    ensures
        run_end(y, kind, j + offset) - j == run_end(x, kind, i + offset) - i,
    decreases n - offset,
{
    lemma_run_end(x, kind, i + offset);
    if offset < n {
        lemma_agree_index(x, i, y, j, n, offset);
        if in_value(kind, x[i + offset]) {
            lemma_run_end_transfer(x, i, y, j, n, kind, offset + 1);
        }
    }
}

/// A marker pair that lies inside a part of `x` stands at the same offset
/// of a part of `y` that agrees with it, with the same value.
pub proof fn lemma_field_transfer(
    x: Seq<char>,
    i: int,
    y: Seq<char>,
    j: int,
    n: int,
    tag: Seq<char>,
    kind: FieldKind,
    offset: int,
)
    requires
        agree(x, i, y, j, n),
        0 <= offset,
        is_field_at(x, tag, kind, i + offset),
        field_end(x, tag, kind, i + offset) <= i + n,
    ensures
        is_field_at(y, tag, kind, j + offset),
        value_end(y, tag, kind, j + offset) - j == value_end(x, tag, kind, i + offset) - i,
        y.subrange(value_start(tag, j + offset), value_end(y, tag, kind, j + offset))
            == x.subrange(value_start(tag, i + offset), value_end(x, tag, kind, i + offset)),
{
    let start_x = value_start(tag, i + offset);
    let start_y = value_start(tag, j + offset);
    let end_x = value_end(x, tag, kind, i + offset);
    lemma_run_end(x, kind, start_x);
    lemma_has_at_transfer(x, i, y, j, n, offset, open_marker(tag));
    lemma_run_end_transfer(x, i, y, j, n, kind, offset + tag.len() + 2);
    let end_y = value_end(y, tag, kind, j + offset);
    assert(end_y - j == end_x - i);
    lemma_has_at_transfer(x, i, y, j, n, end_x - i, close_marker(tag));
    assert forall|p: int| start_y <= p < end_y implies #[trigger] y[p] == x[p - j + i] by {
        lemma_agree_index(x, i, y, j, n, p - j);
    }
    assert(y.subrange(start_y, end_y) =~= x.subrange(start_x, end_x));
}

/// The shape of a marker pair: `<` stands at its start and at the start
/// of its closing marker, which goes on with `/`, and nowhere else in it;
/// the character after its start is not `/`.
pub proof fn lemma_field_shape(doc: Seq<char>, tag: Seq<char>, kind: FieldKind, at: int)
    requires
        is_plain_tag(tag),
        is_field_at(doc, tag, kind, at),
    ensures
        0 <= at,
        value_start(tag, at) <= value_end(doc, tag, kind, at),
        field_end(doc, tag, kind, at) <= doc.len(),
        doc[at] == '<',
        doc[at + 1] != '/',
        doc[value_end(doc, tag, kind, at)] == '<',
        doc[value_end(doc, tag, kind, at) + 1] == '/',
        forall|p: int|
            at < p < field_end(doc, tag, kind, at) && p != value_end(doc, tag, kind, at) ==> (
            #[trigger] doc[p]) != '<',
        forall|p: int|
            value_start(tag, at) <= p < value_end(doc, tag, kind, at) ==> in_value(
                kind,
                #[trigger] doc[p],
            ),
{
    let start = value_start(tag, at);
    let end = value_end(doc, tag, kind, at);
    let open = open_marker(tag);
    let close = close_marker(tag);
    lemma_run_end(doc, kind, start);
    lemma_has_at_index(doc, at, open, 0);
    lemma_has_at_index(doc, at, open, 1);
    lemma_has_at_index(doc, end, close, 0);
    lemma_has_at_index(doc, end, close, 1);
    if tag.len() > 0 {
        assert(open[1] == tag[0]);
    }
    assert forall|p: int| at < p < field_end(doc, tag, kind, at) && p != end implies (
    #[trigger] doc[p]) != '<' by {
        if p < start {
            lemma_has_at_index(doc, at, open, p - at);
            if p - at <= tag.len() {
                assert(open[p - at] == tag[p - at - 1]);
            }
        } else if p < end {
            assert(in_value(kind, doc[p]));
        } else {
            lemma_has_at_index(doc, end, close, p - end);
            if 2 <= p - end < tag.len() + 2 {
                assert(close[p - end] == tag[p - end - 2]);
            }
        }
    }
}

/// Marker pairs do not overlap: one that begins before another ends
/// before it.
pub proof fn lemma_fields_disjoint(
    doc: Seq<char>,
    tag_a: Seq<char>,
    kind_a: FieldKind,
    a: int,
    tag_b: Seq<char>,
    kind_b: FieldKind,
    b: int,
)
    requires
        is_plain_tag(tag_a),
        is_plain_tag(tag_b),
        is_field_at(doc, tag_a, kind_a, a),
        is_field_at(doc, tag_b, kind_b, b),
        a < b,
    ensures
        field_end(doc, tag_a, kind_a, a) <= b,
{
    lemma_field_shape(doc, tag_a, kind_a, a);
    lemma_field_shape(doc, tag_b, kind_b, b);
    if b < field_end(doc, tag_a, kind_a, a) {
        assert(doc[b] == '<');
        assert(b == value_end(doc, tag_a, kind_a, a));
    }
}

/// Marker pairs that begin at the same place belong to the same field.
pub proof fn lemma_same_start_same_tag(
    doc: Seq<char>,
    tag_a: Seq<char>,
    kind_a: FieldKind,
    tag_b: Seq<char>,
    kind_b: FieldKind,
    at: int,
)
    requires
        is_plain_tag(tag_a),
        is_plain_tag(tag_b),
        is_field_at(doc, tag_a, kind_a, at),
        is_field_at(doc, tag_b, kind_b, at),
    ensures
        tag_a == tag_b,
{
    let open_a = open_marker(tag_a);
    let open_b = open_marker(tag_b);
    let len_a = tag_a.len() as int;
    let len_b = tag_b.len() as int;
    if len_a < len_b {
        lemma_has_at_index(doc, at, open_a, len_a + 1);
        lemma_has_at_index(doc, at, open_b, len_a + 1);
        assert(open_b[len_a + 1] == tag_b[len_a]);
        assert(false);
    } else if len_b < len_a {
        lemma_has_at_index(doc, at, open_a, len_b + 1);
        lemma_has_at_index(doc, at, open_b, len_b + 1);
        assert(open_a[len_b + 1] == tag_a[len_b]);
        assert(false);
    } else {
        assert forall|k: int| 0 <= k < tag_a.len() implies tag_a[k] == tag_b[k] by {
            lemma_has_at_index(doc, at, open_a, k + 1);
            lemma_has_at_index(doc, at, open_b, k + 1);
            assert(open_a[k + 1] == tag_a[k]);
            assert(open_b[k + 1] == tag_b[k]);
        }
        assert(tag_a =~= tag_b);
    }
}

/// A stretch of value characters that is followed by none is a whole run.
pub proof fn lemma_run_end_is(doc: Seq<char>, kind: FieldKind, from: int, to: int)
    requires
        0 <= from <= to <= doc.len(),
        forall|p: int| from <= p < to ==> in_value(kind, #[trigger] doc[p]),
        to < doc.len() ==> !in_value(kind, doc[to]),
    ensures
        run_end(doc, kind, from) == to,
    decreases to - from,
{
    if from < to {
        lemma_run_end_is(doc, kind, from + 1, to);
    }
}

/// `y` is `x` with another value in the counter marker pair that begins at
/// `a`: both hold a marker pair of `tag` there, and they agree before its
/// value and from the end of its value on.
pub open spec fn is_respliced(x: Seq<char>, y: Seq<char>, tag: Seq<char>, a: int) -> bool {
    &&& is_plain_tag(tag)
    &&& is_field_at(x, tag, FieldKind::Counter, a)
    &&& is_field_at(y, tag, FieldKind::Counter, a)
    &&& agree(x, 0, y, 0, value_start(tag, a))
    &&& agree(
        x,
        value_end(x, tag, FieldKind::Counter, a),
        y,
        value_end(y, tag, FieldKind::Counter, a),
        x.len() - value_end(x, tag, FieldKind::Counter, a),
    )
    &&& x.len() - value_end(x, tag, FieldKind::Counter, a) == y.len() - value_end(
        y,
        tag,
        FieldKind::Counter,
        a,
    )
}

/// Where the position `j` of `x` stands in `y`, for `y` a resplicing of
/// `x` at `a`.
pub open spec fn moved(x: Seq<char>, y: Seq<char>, tag: Seq<char>, a: int, j: int) -> int {
    if j <= a {
        j
    } else {
        j + value_end(y, tag, FieldKind::Counter, a) - value_end(x, tag, FieldKind::Counter, a)
    }
}

/// Putting digits in place of a counter's value resplices the document.
pub proof fn lemma_replace_resplices(x: Seq<char>, tag: Seq<char>, a: int, digits: Seq<char>)
    requires
        is_plain_tag(tag),
        is_field_at(x, tag, FieldKind::Counter, a),
        all_digits(digits),
        digits.len() >= 1,
    ensures
        ({
            let start = value_start(tag, a);
            let end = value_end(x, tag, FieldKind::Counter, a);
            let y = x.subrange(0, start) + digits + x.subrange(end, x.len() as int);
            &&& is_respliced(x, y, tag, a)
            &&& value_end(y, tag, FieldKind::Counter, a) == start + digits.len()
            &&& y.subrange(start, start + digits.len()) == digits
        }),
{
    let kind = FieldKind::Counter;
    let start = value_start(tag, a);
    let end = value_end(x, tag, kind, a);
    let y = x.subrange(0, start) + digits + x.subrange(end, x.len() as int);
    let end_y = start + digits.len();
    lemma_field_shape(x, tag, kind, a);
    assert(x.subrange(0, start) =~= y.subrange(0, start));
    assert(x.subrange(end, end + (x.len() - end)) =~= y.subrange(end_y, end_y + (x.len() - end)));
    assert(y.subrange(start, start + digits.len()) =~= digits);
    lemma_has_at_transfer(x, 0, y, 0, start, a, open_marker(tag));
    assert forall|p: int| start <= p < end_y implies in_value(kind, #[trigger] y[p]) by {
        assert(y[p] == digits[p - start]);
    }
    assert(y[end_y] == x[end]);
    lemma_run_end_is(y, kind, start, end_y);
    lemma_has_at_transfer(x, end, y, end_y, x.len() - end, 0, close_marker(tag));
}

/// A marker pair of `x` that does not begin at `a` stands in a resplicing
/// `y` of `x` at the moved position, on the same side of `a`, with the
/// same value.
pub proof fn lemma_field_respliced(
    x: Seq<char>,
    y: Seq<char>,
    tag: Seq<char>,
    a: int,
    tag_b: Seq<char>,
    kind_b: FieldKind,
    j: int,
)
    requires
        is_respliced(x, y, tag, a),
        is_plain_tag(tag_b),
        is_field_at(x, tag_b, kind_b, j),
        j != a,
    ensures
        is_field_at(y, tag_b, kind_b, moved(x, y, tag, a, j)),
        j < a <==> moved(x, y, tag, a, j) < a,
        moved(y, x, tag, a, moved(x, y, tag, a, j)) == j,
        value_end(y, tag_b, kind_b, moved(x, y, tag, a, j)) - moved(x, y, tag, a, j) == value_end(
            x,
            tag_b,
            kind_b,
            j,
        ) - j,
        y.subrange(
            value_start(tag_b, moved(x, y, tag, a, j)),
            value_end(y, tag_b, kind_b, moved(x, y, tag, a, j)),
        ) == x.subrange(value_start(tag_b, j), value_end(x, tag_b, kind_b, j)),
{
    let kind = FieldKind::Counter;
    let start = value_start(tag, a);
    let end_x = value_end(x, tag, kind, a);
    let end_y = value_end(y, tag, kind, a);
    lemma_field_shape(x, tag, kind, a);
    lemma_field_shape(y, tag, kind, a);
    lemma_field_shape(x, tag_b, kind_b, j);
    if j < a {
        lemma_fields_disjoint(x, tag_b, kind_b, j, tag, kind, a);
        lemma_field_transfer(x, 0, y, 0, start, tag_b, kind_b, j);
    } else {
        lemma_fields_disjoint(x, tag, kind, a, tag_b, kind_b, j);
        lemma_field_transfer(x, end_x, y, end_y, x.len() - end_x, tag_b, kind_b, j - end_x);
    }
}

/// In a resplicing at the first marker pair of a counter, that marker
/// pair is still the first of its field.
pub proof fn lemma_first_field_respliced(x: Seq<char>, y: Seq<char>, tag: Seq<char>, a: int)
    requires
        is_respliced(x, y, tag, a),
        first_field(x, tag, FieldKind::Counter) == Some(a),
    ensures
        first_field(y, tag, FieldKind::Counter) == Some(a),
{
    let kind = FieldKind::Counter;
    lemma_first_field_from(x, tag, kind, 0);
    assert forall|j: int| 0 <= j < a implies !is_field_at(y, tag, kind, j) by {
        if is_field_at(y, tag, kind, j) {
            lemma_field_respliced(y, x, tag, a, tag, kind, j);
        }
    }
    lemma_first_field_is_leftmost(y, tag, kind, a);
}

/// A resplicing at a marker pair of one field leaves the first marker
/// pair of every other field what it was: it stands at the moved
/// position and has the same value, or there is none in either.
pub proof fn lemma_other_field_respliced(
    x: Seq<char>,
    y: Seq<char>,
    tag: Seq<char>,
    a: int,
    tag_b: Seq<char>,
    kind_b: FieldKind,
)
    requires
        is_respliced(x, y, tag, a),
        is_plain_tag(tag_b),
        tag_b != tag,
    ensures
        first_field(y, tag_b, kind_b) == match first_field(x, tag_b, kind_b) {
            Some(j) => Some(moved(x, y, tag, a, j)),
            None => None,
        },
        first_value(y, tag_b, kind_b) == first_value(x, tag_b, kind_b),
        first_field(x, tag_b, kind_b) != Some(a),
{
    let kind = FieldKind::Counter;
    lemma_first_field_from(x, tag_b, kind_b, 0);
    assert forall|j: int| is_field_at(y, tag_b, kind_b, j) implies j != a && is_field_at(
        x,
        tag_b,
        kind_b,
        moved(y, x, tag, a, j),
    ) && moved(x, y, tag, a, moved(y, x, tag, a, j)) == j && (j < a <==> moved(y, x, tag, a, j)
        < a) by {
        if j == a {
            lemma_same_start_same_tag(y, tag, kind, tag_b, kind_b, a);
        }
        lemma_field_respliced(y, x, tag, a, tag_b, kind_b, j);
    }
    match first_field(x, tag_b, kind_b) {
        Some(j) => {
            if j == a {
                lemma_same_start_same_tag(x, tag, kind, tag_b, kind_b, a);
            }
            lemma_field_respliced(x, y, tag, a, tag_b, kind_b, j);
            let j2 = moved(x, y, tag, a, j);
            assert forall|k: int| 0 <= k < j2 implies !is_field_at(y, tag_b, kind_b, k) by {
                if is_field_at(y, tag_b, kind_b, k) {
                    let back = moved(y, x, tag, a, k);
                    assert(is_field_at(x, tag_b, kind_b, back));
                    lemma_field_shape(x, tag_b, kind_b, back);
                    assert(back < j);
                }
            }
            lemma_first_field_is_leftmost(y, tag_b, kind_b, j2);
        },
        None => {
            lemma_first_field_from(y, tag_b, kind_b, 0);
            if first_field(y, tag_b, kind_b) is Some {
                let k = first_field(y, tag_b, kind_b)->0;
                assert(is_field_at(x, tag_b, kind_b, moved(y, x, tag, a, k)));
                lemma_field_shape(x, tag_b, kind_b, moved(y, x, tag, a, k));
            }
        },
    }
}

/// Two replacements one after the other, the second behind the first:
/// the outcome is the text before the first part, the first insertion,
/// the text between the parts, the second insertion, and the text after
/// the second part.
pub proof fn lemma_splice_twice_forward(
    doc: Seq<char>,
    s1: int,
    e1: int,
    d1: Seq<char>,
    s2: int,
    e2: int,
    d2: Seq<char>,
)
    requires
        0 <= s1 <= e1 <= s2 <= e2 <= doc.len(),
    ensures
        ({
            let first = doc.subrange(0, s1) + d1 + doc.subrange(e1, doc.len() as int);
            let shift = d1.len() - (e1 - s1);
            first.subrange(0, s2 + shift) + d2 + first.subrange(e2 + shift, first.len() as int)
                == doc.subrange(0, s1) + d1 + doc.subrange(e1, s2) + d2 + doc.subrange(
                e2,
                doc.len() as int,
            )
        }),
{
    let first = doc.subrange(0, s1) + d1 + doc.subrange(e1, doc.len() as int);
    let shift = d1.len() - (e1 - s1);
    assert(first.subrange(0, s2 + shift) =~= doc.subrange(0, s1) + d1 + doc.subrange(e1, s2));
    assert(first.subrange(e2 + shift, first.len() as int) =~= doc.subrange(
        e2,
        doc.len() as int,
    ));
}

/// Two replacements one after the other, the second before the first:
/// the outcome is the text before the second part, the second insertion,
/// the text between the parts, the first insertion, and the text after
/// the first part.
pub proof fn lemma_splice_twice_backward(
    doc: Seq<char>,
    s1: int,
    e1: int,
    d1: Seq<char>,
    s2: int,
    e2: int,
    d2: Seq<char>,
)
    requires
        0 <= s2 <= e2 <= s1 <= e1 <= doc.len(),
    ensures
        ({
            let first = doc.subrange(0, s1) + d1 + doc.subrange(e1, doc.len() as int);
            first.subrange(0, s2) + d2 + first.subrange(e2, first.len() as int) == doc.subrange(
                0,
                s2,
            ) + d2 + doc.subrange(e2, s1) + d1 + doc.subrange(e1, doc.len() as int)
        }),
{
    let first = doc.subrange(0, s1) + d1 + doc.subrange(e1, doc.len() as int);
    assert(first.subrange(0, s2) =~= doc.subrange(0, s2));
    assert(first.subrange(e2, first.len() as int) =~= doc.subrange(e2, s1) + d1 + doc.subrange(
        e1,
        doc.len() as int,
    ));
    assert(doc.subrange(0, s2) + d2 + (doc.subrange(e2, s1) + d1 + doc.subrange(
        e1,
        doc.len() as int,
    )) =~= doc.subrange(0, s2) + d2 + doc.subrange(e2, s1) + d1 + doc.subrange(
        e1,
        doc.len() as int,
    ));
}

} // verus!
