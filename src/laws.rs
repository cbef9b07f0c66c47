use vstd::prelude::*;

use crate::braille::{braille_code, cell_count, cell_mask, column_mask};
use crate::extent::{Span, ink_end, ink_start, is_white_space, line_span, merge_spec};
use crate::rows::{frame_at, frame_count, row_spans_spec};

verus! {

/// Keys that never decrease from one line to the next, as scaling a line
/// index by a non-negative factor gives.
pub open spec fn non_decreasing(keys: Seq<usize>) -> bool {
    forall|i: int, j: int| 0 <= i <= j < keys.len() ==> keys[i] <= keys[j]
}

proof fn lemma_row_spans_len(lines: Seq<Seq<char>>, keys: Seq<usize>)
    requires
        lines.len() == keys.len(),
    ensures
        lines.len() > 0 ==> row_spans_spec(lines, keys).len() > 0,
    decreases lines.len(),
{
    if lines.len() > 0 {
        let n = lines.len() - 1;
        lemma_row_spans_len(lines.take(n), keys.take(n));
    }
}

/// With non-decreasing keys there is one row slot per distinct key.
pub proof fn lemma_one_row_per_key(lines: Seq<Seq<char>>, keys: Seq<usize>)
    requires
        lines.len() == keys.len(),
        non_decreasing(keys),
    ensures
        row_spans_spec(lines, keys).len() == keys.to_set().len(),
    decreases lines.len(),
{
    broadcast use vstd::seq_lib::seq_to_set_is_finite;

    if lines.len() == 0 {
        assert(keys.to_set() =~= Set::<usize>::empty());
    } else {
        let n = lines.len() - 1;
        let kt = keys.take(n);
        lemma_one_row_per_key(lines.take(n), kt);
        lemma_row_spans_len(lines.take(n), kt);
        assert(kt.push(keys[n]) == keys);
        kt.lemma_push_to_set_commute(keys[n]);
        if n > 0 && keys[n] == keys[n - 1] {
            assert(kt[n - 1] == keys[n]);
            assert(kt.to_set().contains(keys[n]));
            assert(kt.to_set().insert(keys[n]) =~= kt.to_set());
        } else {
            assert(!kt.to_set().contains(keys[n])) by {
                if kt.to_set().contains(keys[n]) {
                    let i = choose|i: int| 0 <= i < kt.len() && kt[i] == keys[n];
                    assert(keys[i] <= keys[n - 1]);
                }
            }
        }
    }
}

/// The number of output lines is the number of distinct row slots divided by
/// four, rounded up.
pub proof fn lemma_output_line_count(lines: Seq<Seq<char>>, keys: Seq<usize>)
    requires
        lines.len() == keys.len(),
        non_decreasing(keys),
    ensures
        frame_count(row_spans_spec(lines, keys).len() as int) == frame_count(
            keys.to_set().len() as int,
        ),
{
    lemma_one_row_per_key(lines, keys);
}

/// At unit vertical scale, where line `i` has key `i`, there is one output
/// line per four input lines, rounded up.
pub proof fn lemma_output_line_count_unit_scale(lines: Seq<Seq<char>>, keys: Seq<usize>)
    requires
        lines.len() == keys.len(),
        forall|i: int| 0 <= i < keys.len() ==> keys[i] == i,
    ensures
        frame_count(row_spans_spec(lines, keys).len() as int) == frame_count(lines.len() as int),
{
    assert(keys.no_duplicates());
    keys.unique_seq_to_set();
    lemma_output_line_count(lines, keys);
}

/// Empty input gives no row slot and so no output line.
pub proof fn lemma_empty_input(keys: Seq<usize>)
    requires
        keys.len() == 0,
    ensures
        row_spans_spec(Seq::<Seq<char>>::empty(), keys).len() == 0,
        frame_count(0) == 0,
{
}

/// A single non-whitespace character gives one frame whose line is one cell
/// with only the top-left dot set.
pub proof fn lemma_single_character(c: char)
    requires
        !is_white_space(c),
    ensures
        ({
            let rows = row_spans_spec(seq![seq![c]], seq![0usize]);
            &&& frame_count(rows.len() as int) == 1
            &&& cell_count(frame_at(rows, 0)) == 1
            &&& cell_mask(frame_at(rows, 0), 0) == 1
            &&& braille_code(1) == 0x2801
        }),
{
    let l = seq![c];
    assert(l.drop_last() == Seq::<char>::empty());
    assert(line_span(l) == Span { start: 0, end: 1 });
    let lines = seq![l];
    assert(lines.take(0) == Seq::<Seq<char>>::empty());
    let keys = seq![0usize];
    assert(row_spans_spec(lines.take(0), keys.take(0)) == Seq::<Span>::empty());
    assert(lines[0] == l);
    let rows = row_spans_spec(lines, keys);
    assert(rows == seq![Span { start: 0, end: 1 }]);
    let f = frame_at(rows, 0);
    assert(f[0] == Span { start: 0, end: 1 });
    assert(f[1] == Span { start: 0, end: 0 });
    assert(f[2] == Span { start: 0, end: 0 });
    assert(f[3] == Span { start: 0, end: 0 });
}

proof fn lemma_row_spans_step(lines: Seq<Seq<char>>, keys: Seq<usize>, i: int)
    requires
        0 <= i < lines.len() == keys.len(),
    ensures
        row_spans_spec(lines.take(i + 1), keys.take(i + 1)) == ({
            let prev = row_spans_spec(lines.take(i), keys.take(i));
            let e = line_span(lines[i]);
            if i > 0 && keys[i] == keys[i - 1] {
                prev.update(prev.len() - 1, merge_spec(prev.last(), e))
            } else {
                prev.push(e)
            }
        }),
{
    assert(lines.take(i + 1).take(i) == lines.take(i));
    assert(keys.take(i + 1).take(i) == keys.take(i));
}

/// A line whose characters are all non-whitespace spans the whole line.
proof fn lemma_solid_line(l: Seq<char>)
    requires
        l.len() > 0,
        forall|i: int| 0 <= i < l.len() ==> !is_white_space(#[trigger] l[i]),
    ensures
        ink_start(l) == 0,
        ink_end(l) == l.len(),
    decreases l.len(),
{
    if l.len() > 1 {
        lemma_solid_line(l.drop_last());
    } else {
        assert(l.drop_last() == Seq::<char>::empty());
    }
}

/// Four equal lines of `m` non-whitespace characters, one per row slot, fill
/// every dot of each cell that lies wholly inside the content.
pub proof fn lemma_solid_block(l: Seq<char>, keys: Seq<usize>)
    requires
        0 < l.len() <= usize::MAX,
        forall|i: int| 0 <= i < l.len() ==> !is_white_space(#[trigger] l[i]),
        keys == seq![0usize, 1, 2, 3],
    ensures
        ({
            let rows = row_spans_spec(seq![l, l, l, l], keys);
            &&& frame_count(rows.len() as int) == 1
            &&& cell_count(frame_at(rows, 0)) == (l.len() + 1) / 2
            &&& forall|k: int| 0 <= k && 2 * k + 1 < l.len() ==> cell_mask(frame_at(rows, 0), k) == 255
            &&& braille_code(255) == 0x28ff
        }),
{
    lemma_solid_line(l);
    let s = Span { start: 0, end: l.len() as usize };
    assert(line_span(l) == s);
    let lines = seq![l, l, l, l];
    lemma_row_spans_step(lines, keys, 0);
    lemma_row_spans_step(lines, keys, 1);
    lemma_row_spans_step(lines, keys, 2);
    lemma_row_spans_step(lines, keys, 3);
    assert(lines.take(0) == Seq::<Seq<char>>::empty());
    assert(lines.take(4) == lines);
    assert(keys.take(4) == keys);
    let rows = row_spans_spec(lines, keys);
    assert(rows == seq![s, s, s, s]);
    let f = frame_at(rows, 0);
    assert(f[0] == s && f[1] == s && f[2] == s && f[3] == s);
    assert forall|k: int| 0 <= k && 2 * k + 1 < l.len() implies cell_mask(f, k) == 255 by {
        assert(column_mask(f, 2 * k) == 15);
        assert(column_mask(f, 2 * k + 1) == 15);
    }
}

/// A span that ends at 0 is `0..0`.
pub open spec fn well_formed(s: Span) -> bool {
    s.end == 0 ==> s.start == 0
}

proof fn lemma_ink_end_bound(l: Seq<char>)
    ensures
        ink_end(l) <= l.len(),
    decreases l.len(),
{
    if l.len() > 0 {
        lemma_ink_end_bound(l.drop_last());
    }
}

/// Every row span is well formed, so that an empty row is `0..0`.
pub proof fn lemma_rows_well_formed(lines: Seq<Seq<char>>, keys: Seq<usize>)
    requires
        lines.len() == keys.len(),
        forall|i: int| 0 <= i < lines.len() ==> #[trigger] lines[i].len() <= usize::MAX,
    ensures
        forall|j: int|
            0 <= j < row_spans_spec(lines, keys).len() ==> well_formed(
                #[trigger] row_spans_spec(lines, keys)[j],
            ),
    decreases lines.len(),
{
    if lines.len() > 0 {
        let n = lines.len() - 1;
        lemma_rows_well_formed(lines.take(n), keys.take(n));
        lemma_row_spans_len(lines.take(n), keys.take(n));
        lemma_ink_end_bound(lines[n]);
        assert(lines[n].len() <= usize::MAX);
        let prev = row_spans_spec(lines.take(n), keys.take(n));
        let e = line_span(lines[n]);
        assert(well_formed(e));
        if n > 0 && keys[n] == keys[n - 1] {
            assert(well_formed(prev[prev.len() - 1]));
            assert(well_formed(merge_spec(prev.last(), e)));
            let rows = prev.update(prev.len() - 1, merge_spec(prev.last(), e));
            assert forall|j: int| 0 <= j < rows.len() implies well_formed(#[trigger] rows[j]) by {
                if j < prev.len() - 1 {
                    assert(rows[j] == prev[j]);
                }
            }
        } else {
            let rows = prev.push(e);
            assert forall|j: int| 0 <= j < rows.len() implies well_formed(#[trigger] rows[j]) by {
                if j < prev.len() {
                    assert(rows[j] == prev[j]);
                }
            }
        }
    }
}

/// A line with no non-whitespace character has the empty span, and joining
/// it into a row, before or after the row's other lines, leaves the row's
/// span as it was. Every row span is well formed: see
/// `lemma_rows_well_formed`.
pub proof fn lemma_blank_line_adds_nothing(l: Seq<char>, row: Span)
    requires
        well_formed(row),
        forall|i: int| 0 <= i < l.len() ==> is_white_space(#[trigger] l[i]),
    ensures
        ink_end(l) == 0,
        line_span(l) == (Span { start: 0, end: 0 }),
        merge_spec(row, line_span(l)) == row,
        merge_spec(line_span(l), row) == row,
    decreases l.len(),
{
    if l.len() > 0 {
        assert(is_white_space(l[l.len() - 1]));
        assert forall|i: int| 0 <= i < l.drop_last().len() implies is_white_space(
            #[trigger] l.drop_last()[i],
        ) by {
            assert(l.drop_last()[i] == l[i]);
        }
        lemma_blank_line_adds_nothing(l.drop_last(), row);
    }
}

} // verus!
