//! Where and how one cell is drawn on a frame buffer of 8x16-pixel cells.
use vstd::prelude::*;

use crate::cell::{Cell, Flags};
use crate::color::{color_rgb, Rgb};

verus! {

/// Width of a character cell in pixels.
pub const CELL_WIDTH: u32 = 8;

/// Height of a character cell in pixels.
pub const CELL_HEIGHT: u32 = 16;

/// Offset of the strikeout line from the top of the cell.
pub const STRIKEOUT_OFFSET: u32 = 8;

/// Offset of the underline from the top of the cell.
pub const UNDERLINE_OFFSET: u32 = 15;

/// How one cell is drawn: its top-left pixel, the text and background colors,
/// the font weight, and the horizontal lines laid over the glyph.
#[derive(Debug, Clone, Copy, PartialEq, Eq, Structural)]
pub struct GlyphPlan {
    pub x: u32,
    pub y: u32,
    pub foreground: Rgb,
    pub background: Rgb,
    pub bold: bool,
    /// Row of pixels of the strikeout line, if any; it spans the cell's width.
    pub strikeout_y: Option<u32>,
    /// Row of pixels of the underline, if any; it spans the cell's width.
    pub underline_y: Option<u32>,
    /// Thickness of those lines.
    pub line_width: u32,
}

/// Whether the cell has every bit of `mask`.
pub open spec fn has_flag(cell: Cell, mask: u16) -> bool {
    cell.flags.bits & mask == mask
}

/// The plan for drawing `cell` at `(row, col)`.
pub open spec fn glyph_plan(row: int, col: int, cell: Cell) -> GlyphPlan {
    let fg = color_rgb(cell.fg);
    let bg = color_rgb(cell.bg);
    let inverse = has_flag(cell, Flags::INVERSE);
    let bold = has_flag(cell, Flags::BOLD);
    let y = (row * 16) as u32;
    GlyphPlan {
        x: (col * 8) as u32,
        y,
        foreground: if inverse {
            bg
        } else {
            fg
        },
        background: if inverse {
            fg
        } else {
            bg
        },
        bold,
        strikeout_y: if has_flag(cell, Flags::STRIKEOUT) {
            Some((y + 8) as u32)
        } else {
            None
        },
        underline_y: if has_flag(cell, Flags::UNDERLINE) {
            Some((y + 15) as u32)
        } else {
            None
        },
        line_width: if bold {
            5
        } else {
            1
        },
    }
}

/// The number of cells that `pixels` hold side by side.
pub fn cells_across(pixels: u32) -> (n: usize)
    ensures
        n == pixels / 8,
{
    (pixels / CELL_WIDTH) as usize
}

/// The number of cells that `pixels` hold one above the other.
pub fn cells_down(pixels: u32) -> (n: usize)
    ensures
        n == pixels / 16,
{
    (pixels / CELL_HEIGHT) as usize
}

/// Plans the drawing of `cell` at `(row, col)` on a frame buffer of
/// `width` by `height` pixels; `None` when the cell lies off the grid.
pub fn plan_glyph(width: u32, height: u32, row: usize, col: usize, cell: Cell) -> (r: Option<
    GlyphPlan,
>)
    ensures
        r is None <==> (row >= height / 16 || col >= width / 8),
        r matches Some(p) ==> p == glyph_plan(row as int, col as int, cell),
{
    if row >= cells_down(height) || col >= cells_across(width) {
        return None;
    }
    assert(row * 16 + 16 <= height) by (nonlinear_arith)
        requires
            row < height / 16,
    ;
    assert(col * 8 + 8 <= width) by (nonlinear_arith)
        requires
            col < width / 8,
    ;
    let x = col as u32 * CELL_WIDTH;
    let y = row as u32 * CELL_HEIGHT;
    let fg = cell.fg.to_rgb();
    let bg = cell.bg.to_rgb();
    let inverse = cell.flags.contains(Flags::INVERSE);
    let bold = cell.flags.contains(Flags::BOLD);
    Some(
        GlyphPlan {
            x,
            y,
            foreground: if inverse {
                bg
            } else {
                fg
            },
            background: if inverse {
                fg
            } else {
                bg
            },
            bold,
            strikeout_y: if cell.flags.contains(Flags::STRIKEOUT) {
                Some(y + STRIKEOUT_OFFSET)
            } else {
                None
            },
            underline_y: if cell.flags.contains(Flags::UNDERLINE) {
                Some(y + UNDERLINE_OFFSET)
            } else {
                None
            },
            line_width: if bold {
                5
            } else {
                1
            },
        },
    )
}

} // verus!
