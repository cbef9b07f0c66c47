use vstd::prelude::*;

use crate::extent::Span;

verus! {

/// Whether position `p` lies in `s`.
pub open spec fn covers(s: Span, p: int) -> bool {
    s.start <= p < s.end
}

/// The 4-bit dot mask of horizontal position `p`: bit `r` is set when row
/// `r` of the frame covers `p`.
pub open spec fn column_mask(frame: Seq<Span>, p: int) -> int {
    (if covers(frame[0], p) { 1int } else { 0int }) + (if covers(frame[1], p) { 2int } else { 0int })
        + (if covers(frame[2], p) { 4int } else { 0int }) + (if covers(frame[3], p) { 8int } else { 0int })
}

/// The 8-bit dot mask of cell `k`, which covers positions `2k` (low nibble)
/// and `2k + 1` (high nibble).
pub open spec fn cell_mask(frame: Seq<Span>, k: int) -> int {
    column_mask(frame, 2 * k) + 16 * column_mask(frame, 2 * k + 1)
}

/// The code point of the Braille pattern for dot mask `m`. Rows 0 to 2 of
/// the left column are dots 1 to 3, its row 3 is dot 7; rows 0 to 2 of the
/// right column are dots 4 to 6, its row 3 is dot 8. Dot `d` is bit `d - 1`
/// above U+2800.
pub open spec fn braille_code(m: int) -> int {
    0x2800 + m % 8 + (m / 8) % 2 * 64 + (m / 16) % 8 * 8 + (m / 128) * 128
}

/// The largest end among the rows of a frame.
pub open spec fn frame_end(frame: Seq<Span>) -> int {
    let a = if frame[0].end >= frame[1].end { frame[0].end } else { frame[1].end };
    let b = if frame[2].end >= frame[3].end { frame[2].end } else { frame[3].end };
    if a >= b { a as int } else { b as int }
}

/// Number of Braille cells in the line of a frame: one per two positions.
pub open spec fn cell_count(frame: Seq<Span>) -> int {
    (frame_end(frame) + 1) / 2
}

/// Width of a line of `n` characters once padded to `padding`.
pub open spec fn padded_width(n: int, padding: Option<usize>) -> int {
    match padding {
        Some(w) if n < w => w as int,
        _ => n,
    }
}

/// Relies on `char::from_u32`, documented as returning the character of a
/// valid Unicode scalar value and `None` for any other value.
#[verifier::external_body]
fn char_of(v: u32) -> (r: Option<char>)
    ensures
        r is Some <==> (v < 0xd800 || 0xe000 <= v <= 0x10ffff),
        r is Some ==> r->0 as u32 == v,
{
    char::from_u32(v)
}

/// Relies on `String::push`, which appends one character.
#[verifier::external_body]
fn push_char(s: &mut String, c: char)
    ensures
        final(s)@ == old(s)@.push(c),
{
    s.push(c)
}

/// The Braille pattern character for the 8-bit dot mask `m`.
pub fn braille(m: u8) -> (c: char)
    ensures
        c as u32 == braille_code(m as int),
{
    let code: u32 = 0x2800 + (m % 8) as u32 + ((m / 8) % 2) as u32 * 64 + ((m / 16) % 8) as u32 * 8
        + (m / 128) as u32 * 128;
    match char_of(code) {
        Some(c) => c,
        None => {
            proof {
                assert(false);
            }
            ' '
        },
    }
}

fn covers_bit(s: Span, p: usize, bit: u8) -> (r: u8)
    ensures
        r == (if covers(s, p as int) { bit } else { 0 }),
{
    if s.start <= p && p < s.end {
        bit
    } else {
        0
    }
}

fn column_bits(frame: &[Span; 4], p: usize) -> (r: u8)
    ensures
        r == column_mask(frame@, p as int),
{
    covers_bit(frame[0], p, 1) + covers_bit(frame[1], p, 2) + covers_bit(frame[2], p, 4)
        + covers_bit(frame[3], p, 8)
}

/// The text of one output line for a frame: one Braille character per two
/// positions up to the frame's largest end, padded with spaces to the given
/// width when shorter, then a line break.
pub fn write_frame(frame: &[Span; 4], padding: Option<usize>) -> (r: String)
    ensures
        r@.len() == padded_width(cell_count(frame@), padding) + 1,
        forall|k: int|
            0 <= k < cell_count(frame@) ==> #[trigger] r@[k] as u32 == braille_code(
                cell_mask(frame@, k),
            ),
        forall|k: int|
            cell_count(frame@) <= k < padded_width(cell_count(frame@), padding) ==> #[trigger] r@[k]
                == ' ',
        r@.last() == '\n',
{
    let mut end: usize = frame[0].end;
    if frame[1].end > end {
        end = frame[1].end;
    }
    let mut end2: usize = frame[2].end;
    if frame[3].end > end2 {
        end2 = frame[3].end;
    }
    if end2 > end {
        end = end2;
    }
    let cells = end / 2 + end % 2;
    assert(cells == cell_count(frame@));
    let mut out = String::new();
    for k in 0..cells
        invariant
            cells == cell_count(frame@),
            end == frame_end(frame@),
            out@.len() == k,
            forall|i: int|
                0 <= i < k ==> #[trigger] out@[i] as u32 == braille_code(cell_mask(frame@, i)),
    {
        let lo = column_bits(frame, 2 * k);
        let hi = column_bits(frame, 2 * k + 1);
        let c = braille(lo + 16 * hi);
        push_char(&mut out, c);
    }
    let mut len: usize = cells;
    if let Some(w) = padding {
        while len < w
            invariant
                cells == cell_count(frame@),
                cells <= len,
                len <= w || len == cells,
                out@.len() == len,
                forall|i: int|
                    0 <= i < cells ==> #[trigger] out@[i] as u32 == braille_code(
                        cell_mask(frame@, i),
                    ),
                forall|i: int| cells <= i < len ==> #[trigger] out@[i] == ' ',
            decreases w - len,
        {
            push_char(&mut out, ' ');
            len = len + 1;
        }
    }
    push_char(&mut out, '\n');
    out
}

} // verus!
