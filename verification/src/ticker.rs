//! The ticker scroller: two independently wrapped scrolling text lines on
//! the reserved bottom rows, advanced every few ticks depending on speed.

use vstd::prelude::*;
use vstd::string::StrSliceExecFns;
use crate::palette::TermColor;
use crate::render::DrawCell;

verus! {

/// The glyph a scrolling line shows at column `x`: the line wraps at its
/// own length, whatever drives the shared offset.
pub open spec fn spec_ticker_glyph(line: Seq<char>, offset: int, x: int) -> char {
    line[(offset + x) % (line.len() as int)]
}

/// Whether a frame advances the ticker: every `11 - speed` frames.
pub open spec fn spec_ticker_advances(frame: int, speed: int) -> bool {
    frame % (11 - speed) == 0
}

/// The offset after a frame: stepped by `speed` modulo the message
/// length on advancing frames, unchanged otherwise.
pub open spec fn spec_next_offset(offset: int, frame: int, speed: int, msg_len: int) -> int {
    if spec_ticker_advances(frame, speed) {
        (offset + speed) % msg_len
    } else {
        offset
    }
}

/// The drawing operation of one ticker column: the wrapped character of
/// the line, in the fixed ticker color.
pub open spec fn spec_ticker_cell(line: Seq<char>, offset: int, row: usize, x: int) -> DrawCell {
    DrawCell {
        col: x as usize,
        row: row,
        color: Some(TermColor::White),
        glyph: spec_ticker_glyph(line, offset, x),
    }
}

/// One full scrolling line: the wrapped glyphs of every column of its row.
pub open spec fn spec_ticker_row(line: Seq<char>, width: int, offset: int, row: usize) -> Seq<
    DrawCell,
> {
    Seq::new(width as nat, |x: int| spec_ticker_cell(line, offset, row, x))
}

/// The characters of a text, in order.
pub fn str_chars(s: &str) -> (r: Vec<char>)
    ensures
        r@ == s@,
{
    let n = s.unicode_len();
    let mut r: Vec<char> = Vec::new();
    let mut i: usize = 0;
    while i < n
        invariant
            n == s@.len(),
            i <= n,
            r@ == s@.subrange(0, i as int),
        decreases n - i,
    {
        r.push(s.get_char(i));
        proof {
            assert(r@ =~= s@.subrange(0, i + 1));
        }
        i = i + 1;
    }
    proof {
        assert(r@ =~= s@);
    }
    r
}

/// Draw one scrolling line across the full width of its reserved row, in
/// the fixed ticker color: column `x` shows the line's character at
/// `(offset + x)` modulo the line's own length.
pub fn ticker_row(line: &Vec<char>, width: usize, offset: usize, row: usize) -> (ops: Vec<DrawCell>)
    requires
        1 <= line@.len(),
        offset + width <= usize::MAX,
    ensures
        ops@ == spec_ticker_row(line@, width as int, offset as int, row),
        ops@.len() == width,
        forall|x: int|
            0 <= x < width ==> #[trigger] ops@[x] == spec_ticker_cell(line@, offset as int, row, x),
{
    let mut ops: Vec<DrawCell> = Vec::new();
    let mut x: usize = 0;
    while x < width
        invariant
            1 <= line@.len(),
            offset + width <= usize::MAX,
            x <= width,
            ops@.len() == x,
            forall|xx: int|
                0 <= xx < x ==> #[trigger] ops@[xx] == spec_ticker_cell(
                    line@,
                    offset as int,
                    row,
                    xx,
                ),
        decreases width - x,
    {
        let idx = (offset + x) % line.len();
        let cell = DrawCell { col: x, row: row, color: Some(TermColor::White), glyph: line[idx] };
        ops.push(cell);
        proof {
            assert(cell == spec_ticker_cell(line@, offset as int, row, x as int));
        }
        x = x + 1;
    }
    proof {
        assert(ops@ =~= spec_ticker_row(line@, width as int, offset as int, row));
    }
    ops
}

/// Advance the shared scroll offset for one finished frame: every
/// `11 - speed` frames it steps forward by `speed`, modulo the message
/// line's length.
pub fn advance_offset(offset: usize, frame: usize, speed: u8, msg_len: usize) -> (r: usize)
    requires
        1 <= speed <= 10,
        1 <= msg_len <= usize::MAX - 10,
        offset < msg_len,
    ensures
        r == spec_next_offset(offset as int, frame as int, speed as int, msg_len as int),
        r < msg_len,
{
    if frame % (11 - speed as usize) == 0 {
        proof {
            assert(offset + speed <= usize::MAX);
        }
        (offset + speed as usize) % msg_len
    } else {
        offset
    }
}

} // verus!
