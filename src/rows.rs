use vstd::prelude::*;
use itertools::Itertools;

use crate::extent::{Span, line_extent, line_span, merge, merge_spec};

verus! {

/// Sum of a sequence of counts.
pub open spec fn total(s: Seq<usize>) -> int
    decreases s.len(),
{
    if s.len() == 0 {
        0
    } else {
        total(s.drop_last()) + s.last()
    }
}

/// Index of the first element of run `j`, when `runs` gives run lengths.
pub open spec fn run_start(runs: Seq<usize>, j: int) -> int {
    total(runs.take(j))
}

/// `runs` splits `keys` into maximal runs of equal consecutive keys, in order.
pub open spec fn is_run_split(keys: Seq<usize>, runs: Seq<usize>) -> bool {
    &&& forall|j: int| 0 <= j < runs.len() ==> #[trigger] runs[j] >= 1
    &&& total(runs) == keys.len()
    &&& forall|j: int, i: int|
        #![trigger keys[i], run_start(runs, j)]
        0 <= j < runs.len() && run_start(runs, j) < i < run_start(runs, j) + runs[j] ==> keys[i]
            == keys[i - 1]
    &&& forall|j: int|
        0 < j < runs.len() ==> keys[#[trigger] run_start(runs, j)] != keys[run_start(runs, j) - 1]
}

/// Relies on `Itertools::dedup_with_count`: for each maximal run of equal
/// consecutive keys, in order, the number of keys in it.
#[verifier::external_body]
fn key_runs(keys: &Vec<usize>) -> (r: Vec<usize>)
    ensures
        is_run_split(keys@, r@),
{
    keys.iter().dedup_with_count().map(|(n, _)| n).collect()
}

/// The spans of the row slots that `lines` fill, where line `i` falls in row
/// slot `keys[i]` and consecutive lines with equal keys share a slot.
pub open spec fn row_spans_spec(lines: Seq<Seq<char>>, keys: Seq<usize>) -> Seq<Span>
    decreases lines.len(),
{
    if lines.len() == 0 {
        seq![]
    } else {
        let n = lines.len() - 1;
        let prev = row_spans_spec(lines.take(n), keys.take(n));
        let e = line_span(lines[n]);
        if n > 0 && keys[n] == keys[n - 1] {
            prev.update(prev.len() - 1, merge_spec(prev.last(), e))
        } else {
            prev.push(e)
        }
    }
}

/// The texts of `lines`.
pub open spec fn texts(lines: Seq<String>) -> Seq<Seq<char>> {
    lines.map_values(|s: String| s@)
}

proof fn lemma_total_prefix(s: Seq<usize>, j: int)
    requires
        0 <= j <= s.len(),
    ensures
        total(s.take(j)) <= total(s),
    decreases s.len(),
{
    if j < s.len() {
        assert(s.drop_last().take(j) == s.take(j));
        lemma_total_prefix(s.drop_last(), j);
    } else {
        assert(s.take(j) == s);
    }
}

/// The span of each row slot: line `i` falls in row slot `keys[i]`, and
/// consecutive lines with equal keys share one slot, whose span covers the
/// content of all of them.
pub fn row_spans(lines: &Vec<String>, keys: &Vec<usize>) -> (r: Vec<Span>)
    requires
        lines.len() == keys.len(),
    ensures
        r@ == row_spans_spec(texts(lines@), keys@),
{
    let ghost t = texts(lines@);
    let runs = key_runs(keys);
    let mut out: Vec<Span> = Vec::new();
    let mut pos: usize = 0;
    proof {
        assert(t.take(0) == Seq::<Seq<char>>::empty());
    }
    for j in 0..runs.len()
        invariant
            lines.len() == keys.len(),
            t == texts(lines@),
            is_run_split(keys@, runs@),
            pos == run_start(runs@, j as int),
            pos <= lines.len(),
            out@ == row_spans_spec(t.take(pos as int), keys@.take(pos as int)),
    {
        let len = runs[j];
        proof {
            assert(runs@.take(j + 1).drop_last() == runs@.take(j as int));
            lemma_total_prefix(runs@, j + 1);
            assert(t.take(pos + 1).take(pos as int) == t.take(pos as int));
            assert(keys@.take(pos + 1).take(pos as int) == keys@.take(pos as int));
            if j > 0 {
                assert(keys@[run_start(runs@, j as int)] != keys@[run_start(runs@, j as int) - 1]);
            }
        }
        let mut acc = line_extent(lines[pos].as_str());
        let ghost done = out@;
        let mut i: usize = pos + 1;
        while i < pos + len
            invariant
                lines.len() == keys.len(),
                t == texts(lines@),
                is_run_split(keys@, runs@),
                j < runs.len(),
                len == runs@[j as int],
                pos == run_start(runs@, j as int),
                pos + len <= lines.len(),
                pos < i <= pos + len,
                done.push(acc) == row_spans_spec(t.take(i as int), keys@.take(i as int)),
            decreases pos + len - i,
        {
            proof {
                assert(t.take(i + 1).take(i as int) == t.take(i as int));
                assert(keys@.take(i + 1).take(i as int) == keys@.take(i as int));
                assert(keys@[i as int] == keys@[i - 1]);
            }
            acc = merge(acc, line_extent(lines[i].as_str()));
            i = i + 1;
        }
        out.push(acc);
        pos = pos + len;
    }
    proof {
        lemma_total_prefix(runs@, runs@.len() as int);
        assert(runs@.take(runs@.len() as int) == runs@);
        assert(t.take(pos as int) == t);
        assert(keys@.take(pos as int) == keys@);
    }
    out
}

/// Row `r` of frame `f`: the row slot `4 * f + r`, or `0..0` past the last slot.
pub open spec fn frame_row(rows: Seq<Span>, f: int, r: int) -> Span {
    if 4 * f + r < rows.len() {
        rows[4 * f + r]
    } else {
        Span { start: 0, end: 0 }
    }
}

/// Frame `f`: the four rows `4 * f` to `4 * f + 3`.
pub open spec fn frame_at(rows: Seq<Span>, f: int) -> Seq<Span> {
    Seq::new(4, |k: int| frame_row(rows, f, k))
}

/// Number of frames that `n` row slots fill, four slots to a frame.
pub open spec fn frame_count(n: int) -> int {
    (n + 3) / 4
}

fn row_or_empty(rows: &Vec<Span>, i: usize) -> (r: Span)
    ensures
        r == (if i < rows.len() { rows@[i as int] } else { Span { start: 0, end: 0 } }),
{
    if i < rows.len() {
        rows[i]
    } else {
        Span { start: 0, end: 0 }
    }
}

/// Batches row slots four at a time into frames; the last frame is filled up
/// with empty spans.
pub fn frames(rows: &Vec<Span>) -> (r: Vec<[Span; 4]>)
    ensures
        r.len() == frame_count(rows.len() as int),
        forall|f: int| 0 <= f < r.len() ==> #[trigger] r@[f]@ == frame_at(rows@, f),
{
    let n = rows.len() / 4 + if rows.len() % 4 == 0 { 0 } else { 1 };
    let mut out: Vec<[Span; 4]> = Vec::new();
    for f in 0..n
        invariant
            n == frame_count(rows.len() as int),
            out.len() == f,
            forall|g: int| 0 <= g < f ==> #[trigger] out@[g]@ == frame_at(rows@, g),
    {
        let b = 4 * f;
        let fr: [Span; 4] = [
            row_or_empty(rows, b),
            row_or_empty(rows, b + 1),
            row_or_empty(rows, b + 2),
            row_or_empty(rows, b + 3),
        ];
        assert(fr@ == frame_at(rows@, f as int));
        out.push(fr);
    }
    out
}

} // verus!
