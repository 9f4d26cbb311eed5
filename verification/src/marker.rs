//! Marker pairs: where a field's opening and closing markers stand in a
//! document, found by local matching only.

use crate::decimal::{char_is_decimal_digit, is_decimal_digit};
use crate::text::{has_at, occurs_at, to_chars};
use vstd::prelude::*;

verus! {

/// What a field's value may be made of.
#[derive(Clone, Copy, Debug, PartialEq, Eq, Structural)]
pub enum FieldKind {
    /// Any characters but `<`, none at all included.
    Text,
    /// One or more decimal digits, in the wide sense.
    Counter,
}

/// Whether `c` may stand inside a value of the given kind.
pub open spec fn in_value(kind: FieldKind, c: char) -> bool {
    match kind {
        FieldKind::Text => c != '<',
        FieldKind::Counter => is_decimal_digit(c),
    }
}

/// The opening marker of the field named `tag`.
pub open spec fn open_marker(tag: Seq<char>) -> Seq<char> {
    seq!['<'] + tag + seq!['>']
}

/// The closing marker of the field named `tag`.
pub open spec fn close_marker(tag: Seq<char>) -> Seq<char> {
    seq!['<', '/'] + tag + seq!['>']
}

/// The first position at or after `from` whose character may not stand
/// inside a value of the given kind, or the end of `doc`.
pub open spec fn run_end(doc: Seq<char>, kind: FieldKind, from: int) -> int
    decreases doc.len() - from,
{
    if 0 <= from < doc.len() && in_value(kind, doc[from]) {
        run_end(doc, kind, from + 1)
    } else {
        from
    }
}

/// Where the value of a field begins whose opening marker begins at `at`.
pub open spec fn value_start(tag: Seq<char>, at: int) -> int {
    at + tag.len() + 2
}

/// Where the value of a field ends whose opening marker begins at `at`.
pub open spec fn value_end(doc: Seq<char>, tag: Seq<char>, kind: FieldKind, at: int) -> int {
    run_end(doc, kind, value_start(tag, at))
}

/// Whether a well-formed marker pair of the field `tag` begins at `at`:
/// the opening marker, then the longest run of value characters, which
/// for a counter is not empty, then the closing marker.
pub open spec fn is_field_at(doc: Seq<char>, tag: Seq<char>, kind: FieldKind, at: int) -> bool {
    &&& has_at(doc, at, open_marker(tag))
    &&& (kind == FieldKind::Counter ==> value_end(doc, tag, kind, at) > value_start(tag, at))
    &&& has_at(doc, value_end(doc, tag, kind, at), close_marker(tag))
}

/// The first position at or after `from` where a marker pair of the field
/// `tag` begins.
pub open spec fn first_field_from(doc: Seq<char>, tag: Seq<char>, kind: FieldKind, from: int) -> Option<
    int,
>
    decreases doc.len() - from,
{
    if from < 0 || from >= doc.len() {
        None
    } else if is_field_at(doc, tag, kind, from) {
        Some(from)
    } else {
        first_field_from(doc, tag, kind, from + 1)
    }
}

/// The position of the first marker pair of the field `tag` in `doc`.
pub open spec fn first_field(doc: Seq<char>, tag: Seq<char>, kind: FieldKind) -> Option<int> {
    first_field_from(doc, tag, kind, 0)
}

/// The value of the first marker pair of the field `tag` in `doc`.
pub open spec fn first_value(doc: Seq<char>, tag: Seq<char>, kind: FieldKind) -> Option<Seq<char>> {
    match first_field(doc, tag, kind) {
        Some(at) => Some(doc.subrange(value_start(tag, at), value_end(doc, tag, kind, at))),
        None => None,
    }
}

/// A run of value characters ends inside the document, holds value
/// characters only, and is followed by none.
pub proof fn lemma_run_end(doc: Seq<char>, kind: FieldKind, from: int)
    requires
        0 <= from <= doc.len(),
    ensures
        from <= run_end(doc, kind, from) <= doc.len(),
        forall|k: int| from <= k < run_end(doc, kind, from) ==> in_value(kind, #[trigger] doc[k]),
        run_end(doc, kind, from) < doc.len() ==> !in_value(kind, doc[run_end(doc, kind, from)]),
    decreases doc.len() - from,
{
    if from < doc.len() && in_value(kind, doc[from]) {
        lemma_run_end(doc, kind, from + 1);
    }
}

/// The first marker pair is a marker pair and no marker pair begins
/// before it; where there is none, no marker pair begins anywhere.
pub proof fn lemma_first_field_from(doc: Seq<char>, tag: Seq<char>, kind: FieldKind, from: int)
    requires
        0 <= from,
    ensures
        match first_field_from(doc, tag, kind, from) {
            Some(at) => {
                &&& from <= at < doc.len()
                &&& is_field_at(doc, tag, kind, at)
                &&& forall|j: int| from <= j < at ==> !is_field_at(doc, tag, kind, j)
            },
            None => forall|j: int| from <= j ==> !is_field_at(doc, tag, kind, j),
        },
    decreases doc.len() - from,
{
    if from < doc.len() && !is_field_at(doc, tag, kind, from) {
        lemma_first_field_from(doc, tag, kind, from + 1);
    }
}

/// The leftmost marker pair is the first one: if a marker pair begins at
/// `at` and none begins before it, `first_field` gives `at`.
pub proof fn lemma_first_field_is_leftmost(doc: Seq<char>, tag: Seq<char>, kind: FieldKind, at: int)
    requires
        is_field_at(doc, tag, kind, at),
        forall|j: int| 0 <= j < at ==> !is_field_at(doc, tag, kind, j),
    ensures
        first_field(doc, tag, kind) == Some(at),
{
    lemma_first_field_from(doc, tag, kind, 0);
}

fn marker(tag: &Vec<char>, closing: bool) -> (m: Vec<char>)
    ensures
        m@ == if closing {
            close_marker(tag@)
        } else {
            open_marker(tag@)
        },
{
    let mut m: Vec<char> = Vec::new();
    m.push('<');
    if closing {
        m.push('/');
    }
    let ghost head = m@;
    let mut i: usize = 0;
    while i < tag.len()
        invariant
            i <= tag.len(),
            m@ == head + tag@.take(i as int),
        decreases tag.len() - i,
    {
        m.push(tag[i]);
        i += 1;
    }
    m.push('>');
    m
}

fn holds(kind: FieldKind, c: char) -> (b: bool)
    ensures
        b == in_value(kind, c),
{
    match kind {
        FieldKind::Text => c != '<',
        FieldKind::Counter => char_is_decimal_digit(c),
    }
}

fn scan_run(doc: &Vec<char>, kind: FieldKind, from: usize) -> (end: usize)
    requires
        from <= doc.len(),
    ensures
        end == run_end(doc@, kind, from as int),
        from <= end <= doc.len(),
{
    let mut end: usize = from;
    while end < doc.len() && holds(kind, doc[end])
        invariant
            from <= end <= doc.len(),
            run_end(doc@, kind, from as int) == run_end(doc@, kind, end as int),
        decreases doc.len() - end,
    {
        end += 1;
    }
    end
}

/// Finds the first marker pair of the field `tag` in `doc` and gives the
/// range of its value: where it begins and where it ends.
pub fn find_field(doc: &Vec<char>, tag: &str, kind: FieldKind) -> (found: Option<(usize, usize)>)
    ensures
        match found {
            Some((start, end)) => {
                &&& first_field(doc@, tag@, kind) matches Some(at)
                &&& start == value_start(tag@, at)
                &&& end == value_end(doc@, tag@, kind, at)
                &&& start <= end <= doc.len()
            },
            None => first_field(doc@, tag@, kind) is None,
        },
{
    let tag_chars = to_chars(tag);
    let open = marker(&tag_chars, false);
    let close = marker(&tag_chars, true);
    let mut at: usize = 0;
    while at < doc.len()
        invariant
            at <= doc.len(),
            open@ == open_marker(tag@),
            close@ == close_marker(tag@),
            first_field(doc@, tag@, kind) == first_field_from(doc@, tag@, kind, at as int),
        decreases doc.len() - at,
    {
        if occurs_at(doc, at, &open) {
            let start = at + open.len();
            let end = scan_run(doc, kind, start);
            let filled = match kind {
                FieldKind::Text => true,
                FieldKind::Counter => end > start,
            };
            if filled && occurs_at(doc, end, &close) {
                return Some((start, end));
            }
        }
        at += 1;
    }
    None
}

} // verus!
