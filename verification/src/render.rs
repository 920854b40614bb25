//! The renderer: walks the grid in row-major order and turns each visible
//! cell into one glyph-plus-color drawing operation, applying the
//! mode-specific masking rules.

use vstd::prelude::*;
use crate::heat::HeatGrid;
use crate::heat::lemma_div_mod_decompose;
use crate::heat::lemma_row_major_bound;
use crate::palette::TermColor;
use crate::palette::char_idx;
use crate::palette::color_idx;
use crate::palette::spec_char_idx;
use crate::palette::spec_color_idx;

verus! {

/// Rows blanked at the top of the screen in fire mode, so that empty space
/// shows above the smoke.
pub const FIRE_BLANK_ROWS: usize = 5;

/// Rows reserved at the bottom of the screen while the ticker is active.
pub const TICKER_ROWS: usize = 2;

/// One drawing operation: move to `(col, row)`, optionally set the
/// foreground color, and print one glyph.  `color == None` prints in
/// whatever color the terminal currently has.
#[derive(Clone, Copy, Debug, PartialEq, Eq, Structural)]
pub struct DrawCell {
    pub col: usize,
    pub row: usize,
    pub color: Option<TermColor>,
    pub glyph: char,
}

/// What one grid cell contributes to a frame: nothing for rows reserved
/// for the ticker, an uncolored blank for the masked top rows in fire
/// mode, and otherwise the glyph and color buckets of its heat value.
pub open spec fn spec_cell_draw(
    v: i32,
    col: usize,
    row: usize,
    height: usize,
    contribs: bool,
    have_ticker: bool,
    chars: Seq<char>,
    colors: Seq<TermColor>,
) -> Option<DrawCell> {
    if have_ticker && row + TICKER_ROWS >= height {
        None
    } else if !contribs && row < FIRE_BLANK_ROWS {
        Some(DrawCell { col, row, color: None, glyph: ' ' })
    } else {
        let ci = spec_color_idx(v as int);
        let clamped = if ci < colors.len() - 1 {
            ci
        } else {
            colors.len() - 1
        };
        Some(
            DrawCell {
                col,
                row,
                color: Some(colors[clamped]),
                glyph: chars[spec_char_idx(v as int, chars.len() as int)],
            },
        )
    }
}

/// The drawing operations of the first `n` grid cells, in row-major order.
pub open spec fn spec_render_upto(
    cells: Seq<i32>,
    w: usize,
    h: usize,
    contribs: bool,
    have_ticker: bool,
    chars: Seq<char>,
    colors: Seq<TermColor>,
    n: nat,
) -> Seq<DrawCell>
    decreases n,
{
    if n == 0 {
        Seq::empty()
    } else {
        let i = n - 1;
        let rest = spec_render_upto(cells, w, h, contribs, have_ticker, chars, colors, (n - 1) as nat);
        match spec_cell_draw(
            cells[i],
            (i % (w as int)) as usize,
            (i / (w as int)) as usize,
            h,
            contribs,
            have_ticker,
            chars,
            colors,
        ) {
            None => rest,
            Some(d) => rest.push(d),
        }
    }
}

/// Walk every grid cell in row-major order and emit one drawing operation
/// per visible cell: ticker rows are skipped while the ticker is active,
/// the top rows are blanked in fire mode, and every other cell gets the
/// glyph and the clamped color of its heat bucket.
pub fn render_grid(
    grid: &HeatGrid,
    contribs: bool,
    have_ticker: bool,
    chars: &Vec<char>,
    colors: &Vec<TermColor>,
) -> (ops: Vec<DrawCell>)
    requires
        grid.wf(),
        1 <= chars@.len(),
        1 <= colors@.len(),
        chars@.len() <= 64,
    ensures
        ops@ == spec_render_upto(
            grid.cells@,
            grid.width,
            grid.height,
            contribs,
            have_ticker,
            chars@,
            colors@,
            (grid.width * grid.height) as nat,
        ),
{
    let w = grid.width;
    let h = grid.height;
    proof {
        assert(1 * 1 <= w * h <= usize::MAX) by (nonlinear_arith)
            requires 1 <= w && 1 <= h && w * h + w + 1 <= usize::MAX;
    }
    let size = w * h;
    let mut ops: Vec<DrawCell> = Vec::new();
    let mut i: usize = 0;
    while i < size
        invariant
            grid.wf(),
            w == grid.width,
            h == grid.height,
            size == w * h,
            i <= size,
            1 <= chars@.len() <= 64,
            1 <= colors@.len(),
            ops@ == spec_render_upto(
                grid.cells@,
                w,
                h,
                contribs,
                have_ticker,
                chars@,
                colors@,
                i as nat,
            ),
        decreases size - i,
    {
        proof {
            lemma_div_mod_decompose(i as int, w as int, h as int);
            lemma_row_major_bound(w as int, h as int, i as int % (w as int), i as int / (w as int));
        }
        let v = grid.cells[i];
        let row = i / w;
        let col = i % w;
        if have_ticker && row + TICKER_ROWS >= h {
            // reserved for the ticker lines
        } else if !contribs && row < FIRE_BLANK_ROWS {
            ops.push(DrawCell { col, row, color: None, glyph: ' ' });
        } else {
            let ci = color_idx(v);
            let clamped = if ci < colors.len() - 1 {
                ci
            } else {
                colors.len() - 1
            };
            proof {
                assert(0 <= v as int * chars@.len() as int <= usize::MAX) by (nonlinear_arith)
                    requires 0 <= v <= 1000000 && 1 <= chars@.len() <= 64;
            }
            let gi = char_idx(v, chars.len());
            ops.push(DrawCell { col, row, color: Some(colors[clamped]), glyph: chars[gi] });
        }
        i = i + 1;
    }
    ops
}

} // verus!
