//! Mapping from a heat value to a color bucket and a glyph bucket, and the
//! two fixed palettes (fire style and contribution-graph style).

use vstd::prelude::*;

verus! {

/// A terminal foreground color, held as plain values; the terminal layer
/// translates it into whatever its drawing backend expects.
#[derive(Clone, Copy, Debug, PartialEq, Eq, Structural)]
pub enum TermColor {
    Black,
    Blue,
    Yellow,
    Red,
    White,
    Rgb { r: u8, g: u8, b: u8 },
}

/// The color bucket of a heat value: 0 for no heat, then one step per five
/// units of heat, capped at 5.
pub open spec fn spec_color_idx(v: int) -> int {
    if v > 20 {
        5
    } else if v > 15 {
        4
    } else if v > 10 {
        3
    } else if v > 5 {
        2
    } else if v > 0 {
        1
    } else {
        0
    }
}

/// The glyph bucket of a heat value: a linear scale over `[0, 25)` into
/// `len` glyphs, clamped at the last glyph, and 0 at or below no heat.
pub open spec fn spec_char_idx(v: int, len: int) -> int {
    let b = if v <= 0 {
        0
    } else {
        v * len / 25
    };
    if b < len - 1 {
        b
    } else {
        len - 1
    }
}

pub fn color_idx(v: i32) -> (r: usize)
    ensures
        r == spec_color_idx(v as int),
        r <= 5,
{
    if v > 20 {
        5
    } else if v > 15 {
        4
    } else if v > 10 {
        3
    } else if v > 5 {
        2
    } else if v > 0 {
        1
    } else {
        0
    }
}

pub fn char_idx(v: i32, len: usize) -> (r: usize)
    requires
        1 <= len,
        0 <= v as int * len as int <= usize::MAX,
    ensures
        r == spec_char_idx(v as int, len as int),
        r < len,
        v == 0 ==> r == 0,
        v >= 25 ==> r == len - 1,
{
    proof {
        if v >= 25 {
            assert(v as int * len as int / 25 >= len) by (nonlinear_arith)
                requires v >= 25 && len >= 1;
        }
        if v > 0 {
            assert(0 <= v as int * len as int / 25 <= v as int * len as int) by (nonlinear_arith)
                requires v > 0 && len >= 1;
        }
    }
    let b: usize = if v <= 0 {
        0
    } else {
        (v as usize) * len / 25
    };
    if b < len - 1 {
        b
    } else {
        len - 1
    }
}

/// The glyph ramp of the contribution-graph palette.
pub open spec fn spec_contrib_chars() -> Seq<char> {
    seq![' ', ' ', '⬝', '⯀', '⯀', '◼', '◼', '■', '■', '■']
}

/// The glyph ramp of the fire palette: blank through ever denser marks.
pub open spec fn spec_fire_chars() -> Seq<char> {
    seq![' ', ' ', ' ', ':', '^', '*', 'x', 's', 'S', '#', '$']
}

/// The green-shaded color ramp of the contribution-graph palette.
pub open spec fn spec_contrib_colors() -> Seq<TermColor> {
    seq![
        TermColor::Black,
        TermColor::Rgb { r: 155, g: 233, b: 168 },
        TermColor::Rgb { r: 64, g: 196, b: 99 },
        TermColor::Rgb { r: 48, g: 161, b: 78 },
        TermColor::Rgb { r: 33, g: 110, b: 57 },
    ]
}

/// The blue-to-red color ramp of the fire palette.
pub open spec fn spec_fire_colors() -> Seq<TermColor> {
    seq![
        TermColor::Black,
        TermColor::Rgb { r: 135, g: 206, b: 235 },
        TermColor::Blue,
        TermColor::Yellow,
        TermColor::Rgb { r: 255, g: 165, b: 0 },
        TermColor::Red,
    ]
}

/// The glyph ramp selected once at start.
pub fn palette_chars(contribs: bool) -> (r: Vec<char>)
    ensures
        r@ == if contribs {
            spec_contrib_chars()
        } else {
            spec_fire_chars()
        },
        r@.len() >= 1,
{
    let mut v: Vec<char> = Vec::new();
    if contribs {
        v.push(' ');
        v.push(' ');
        v.push('⬝');
        v.push('⯀');
        v.push('⯀');
        v.push('◼');
        v.push('◼');
        v.push('■');
        v.push('■');
        v.push('■');
        proof {
            assert(v@ =~= spec_contrib_chars());
        }
    } else {
        v.push(' ');
        v.push(' ');
        v.push(' ');
        v.push(':');
        v.push('^');
        v.push('*');
        v.push('x');
        v.push('s');
        v.push('S');
        v.push('#');
        v.push('$');
        proof {
            assert(v@ =~= spec_fire_chars());
        }
    }
    v
}

/// The color ramp selected once at start.
pub fn palette_colors(contribs: bool) -> (r: Vec<TermColor>)
    ensures
        r@ == if contribs {
            spec_contrib_colors()
        } else {
            spec_fire_colors()
        },
        r@.len() >= 1,
{
    let mut v: Vec<TermColor> = Vec::new();
    if contribs {
        v.push(TermColor::Black);
        v.push(TermColor::Rgb { r: 155, g: 233, b: 168 });
        v.push(TermColor::Rgb { r: 64, g: 196, b: 99 });
        v.push(TermColor::Rgb { r: 48, g: 161, b: 78 });
        v.push(TermColor::Rgb { r: 33, g: 110, b: 57 });
        proof {
            assert(v@ =~= spec_contrib_colors());
        }
    } else {
        v.push(TermColor::Black);
        v.push(TermColor::Rgb { r: 135, g: 206, b: 235 });
        v.push(TermColor::Blue);
        v.push(TermColor::Yellow);
        v.push(TermColor::Rgb { r: 255, g: 165, b: 0 });
        v.push(TermColor::Red);
        proof {
            assert(v@ =~= spec_fire_colors());
        }
    }
    v
}

} // verus!
