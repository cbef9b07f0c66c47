use vstd::prelude::*;

verus! {

/// Whether `c` has the Unicode `White_Space` property.
pub open spec fn is_white_space(c: char) -> bool {
    let v = c as u32;
    (0x09 <= v <= 0x0d) || v == 0x20 || v == 0x85 || v == 0xa0 || v == 0x1680
        || (0x2000 <= v <= 0x200a) || v == 0x2028 || v == 0x2029 || v == 0x202f
        || v == 0x205f || v == 0x3000
}

/// Relies on `char::is_whitespace`, documented as testing the Unicode
/// `White_Space` property.
#[verifier::external_body]
fn char_is_whitespace(c: char) -> (r: bool)
    ensures
        r == is_white_space(c),
{
    c.is_whitespace()
}

/// A half-open interval `[start, end)` of character positions.
#[derive(Clone, Copy, Debug, PartialEq, Eq, Structural)]
pub struct Span {
    pub start: usize,
    pub end: usize,
}

/// The position of the first non-whitespace character of `l`, or `l.len()`
/// when there is none.
pub open spec fn ink_start(l: Seq<char>) -> nat
    decreases l.len(),
{
    if l.len() == 0 {
        0
    } else {
        let s = ink_start(l.drop_last());
        if s < l.len() - 1 {
            s
        } else if !is_white_space(l.last()) {
            (l.len() - 1) as nat
        } else {
            l.len()
        }
    }
}

/// One past the position of the last non-whitespace character of `l`, or 0
/// when there is none.
pub open spec fn ink_end(l: Seq<char>) -> nat
    decreases l.len(),
{
    if l.len() == 0 {
        0
    } else if !is_white_space(l.last()) {
        l.len()
    } else {
        ink_end(l.drop_last())
    }
}

/// The span from the first to the last non-whitespace character of a line,
/// or `0..0` for a line with none.
pub open spec fn line_span(l: Seq<char>) -> Span {
    if ink_end(l) == 0 {
        Span { start: 0, end: 0 }
    } else {
        Span { start: ink_start(l) as usize, end: ink_end(l) as usize }
    }
}

/// The span of the non-whitespace content of `line`.
pub fn line_extent(line: &str) -> (r: Span)
    ensures
        r == line_span(line@),
{
    let n = line.unicode_len();
    let mut start: usize = 0;
    let mut end: usize = 0;
    let mut i: usize = 0;
    for c in it: line.chars()
        invariant
            n == line@.len(),
            i == it.index(),
            it.seq() == line@,
            start == ink_start(line@.take(i as int)),
            end == ink_end(line@.take(i as int)),
    {
        assert(line@.take(i + 1).drop_last() == line@.take(i as int));
        if char_is_whitespace(c) {
            if start == i {
                start = i + 1;
            }
        } else {
            end = i + 1;
        }
        i = i + 1;
    }
    assert(line@.take(i as int) == line@);
    if end == 0 {
        Span { start: 0, end: 0 }
    } else {
        Span { start, end }
    }
}

/// The smallest span covering the content of both `a` and `b`, where a span
/// ending at 0 has no content.
pub open spec fn merge_spec(a: Span, b: Span) -> Span {
    if a.end == 0 {
        b
    } else if b.end == 0 {
        a
    } else {
        Span {
            start: if a.start <= b.start { a.start } else { b.start },
            end: if a.end >= b.end { a.end } else { b.end },
        }
    }
}

/// Joins the spans of two parts of one row.
pub fn merge(a: Span, b: Span) -> (r: Span)
    ensures
        r == merge_spec(a, b),
{
    if a.end == 0 {
        b
    } else if b.end == 0 {
        a
    } else {
        Span {
            start: if a.start <= b.start { a.start } else { b.start },
            end: if a.end >= b.end { a.end } else { b.end },
        }
    }
}

} // verus!
