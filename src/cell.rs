//! One character cell of the grid: a code point with its colors and attribute flags.
use vstd::prelude::*;

use crate::color::{Color, NamedColor};

verus! {

/// A set of attribute bits.
#[derive(Debug, Clone, Copy, PartialEq, Eq, Structural)]
pub struct Flags {
    pub bits: u16,
}

impl Flags {
    pub const INVERSE: u16 = 0b0000_0000_0000_0001;
    pub const BOLD: u16 = 0b0000_0000_0000_0010;
    pub const ITALIC: u16 = 0b0000_0000_0000_0100;
    pub const BOLD_ITALIC: u16 = 0b0000_0000_0000_0110;
    pub const UNDERLINE: u16 = 0b0000_0000_0000_1000;
    pub const WRAPLINE: u16 = 0b0000_0000_0001_0000;
    pub const WIDE_CHAR: u16 = 0b0000_0000_0010_0000;
    pub const WIDE_CHAR_SPACER: u16 = 0b0000_0000_0100_0000;
    pub const DIM: u16 = 0b0000_0000_1000_0000;
    pub const DIM_BOLD: u16 = 0b0000_0000_1000_0010;
    pub const HIDDEN: u16 = 0b0000_0001_0000_0000;
    pub const STRIKEOUT: u16 = 0b0000_0010_0000_0000;
    pub const LEADING_WIDE_CHAR_SPACER: u16 = 0b0000_0100_0000_0000;
    pub const DOUBLE_UNDERLINE: u16 = 0b0000_1000_0000_0000;
    /// Every bit that names a flag.
    pub const ALL: u16 = 0b0000_1111_1111_1111;

    /// The bits of the set.
    pub open spec fn spec_bits(self) -> u16 {
        self.bits
    }

    /// The set holds no bit outside the defined flags.
    pub open spec fn valid(self) -> bool {
        self.bits & !Flags::ALL == 0
    }

    /// The empty set.
    pub fn empty() -> (f: Flags)
        ensures
            f.spec_bits() == 0,
    {
        Flags { bits: 0 }
    }

    /// The set of the defined flags among `bits`.
    pub fn from_bits_truncate(bits: u16) -> (f: Flags)
        ensures
            f.spec_bits() == bits & Flags::ALL,
            f.valid(),
    {
        let b = bits & Flags::ALL;
        assert(b & !0b0000_1111_1111_1111u16 == 0) by (bit_vector)
            requires
                b == bits & 0b0000_1111_1111_1111u16,
        ;
        Flags { bits: b }
    }

    /// Returns the bits of the set.
    pub fn bits(&self) -> (b: u16)
        ensures
            b == self.spec_bits(),
    {
        self.bits
    }

    /// Whether every bit of `mask` is in the set.
    pub fn contains(&self, mask: u16) -> (r: bool)
        ensures
            r == (self.spec_bits() & mask == mask),
    {
        self.bits & mask == mask
    }

    /// Adds the bits of `mask`.
    pub fn insert(&mut self, mask: u16)
        ensures
            final(self).spec_bits() == old(self).spec_bits() | mask,
    {
        self.bits = self.bits | mask;
    }

    /// Removes the bits of `mask`.
    pub fn remove(&mut self, mask: u16)
        ensures
            final(self).spec_bits() == old(self).spec_bits() & !mask,
    {
        self.bits = self.bits & !mask;
    }
}

/// One glyph's worth of state.
#[derive(Debug, Clone, Copy, PartialEq, Eq, Structural)]
pub struct Cell {
    pub c: char,
    pub fg: Color,
    pub bg: Color,
    pub flags: Flags,
}

/// The default cell: a space, bright white on black, no flags.
pub open spec fn default_cell() -> Cell {
    Cell {
        c: ' ',
        fg: Color::Named(NamedColor::BrightWhite),
        bg: Color::Named(NamedColor::Black),
        flags: Flags { bits: 0 },
    }
}

/// The default cell with the background of `t`.
pub open spec fn erase_cell(t: Cell) -> Cell {
    Cell { bg: t.bg, ..default_cell() }
}

impl Cell {
    /// The cell that erasing writes under template `self`: the default cell
    /// with this cell's background.
    pub fn bg(&self) -> (e: Cell)
        ensures
            e == erase_cell(*self),
    {
        Cell { bg: self.bg, ..Cell::default() }
    }
}

impl Default for Cell {
    fn default() -> (c: Cell)
        ensures
            c == default_cell(),
    {
        Cell {
            c: ' ',
            bg: Color::Named(NamedColor::Black),
            fg: Color::Named(NamedColor::BrightWhite),
            flags: Flags::empty(),
        }
    }
}

} // verus!
