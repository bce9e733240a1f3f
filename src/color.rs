//! Colors of the terminal and the 256-entry palette they resolve through.
use vstd::prelude::*;

verus! {

/// An RGB triple with eight bits per channel.
#[derive(Debug, Clone, Copy, PartialEq, Eq, Structural)]
pub struct Rgb {
    pub r: u8,
    pub g: u8,
    pub b: u8,
}

impl Rgb {
    /// Builds a color from its three channels.
    pub fn new(r: u8, g: u8, b: u8) -> (c: Rgb)
        ensures
            c == (Rgb { r, g, b }),
    {
        Rgb { r, g, b }
    }
}

/// Standard colors, in the order of the first sixteen palette slots.
#[derive(Debug, Clone, Copy, PartialEq, Eq, Structural)]
pub enum NamedColor {
    /// Black.
    Black,
    /// Red.
    Red,
    /// Green.
    Green,
    /// Yellow.
    Yellow,
    /// Blue.
    Blue,
    /// Magenta.
    Magenta,
    /// Cyan.
    Cyan,
    /// White.
    White,
    /// Bright black.
    BrightBlack,
    /// Bright red.
    BrightRed,
    /// Bright green.
    BrightGreen,
    /// Bright yellow.
    BrightYellow,
    /// Bright blue.
    BrightBlue,
    /// Bright magenta.
    BrightMagenta,
    /// Bright cyan.
    BrightCyan,
    /// Bright white.
    BrightWhite,
}

impl NamedColor {
    /// The palette slot of a named color.
    pub open spec fn spec_index(self) -> u8 {
        match self {
            NamedColor::Black => 0,
            NamedColor::Red => 1,
            NamedColor::Green => 2,
            NamedColor::Yellow => 3,
            NamedColor::Blue => 4,
            NamedColor::Magenta => 5,
            NamedColor::Cyan => 6,
            NamedColor::White => 7,
            NamedColor::BrightBlack => 8,
            NamedColor::BrightRed => 9,
            NamedColor::BrightGreen => 10,
            NamedColor::BrightYellow => 11,
            NamedColor::BrightBlue => 12,
            NamedColor::BrightMagenta => 13,
            NamedColor::BrightCyan => 14,
            NamedColor::BrightWhite => 15,
        }
    }

    /// The named color in palette slot `i`, for `i < 16`.
    pub open spec fn spec_from_index(i: int) -> NamedColor {
        if i == 0 {
            NamedColor::Black
        } else if i == 1 {
            NamedColor::Red
        } else if i == 2 {
            NamedColor::Green
        } else if i == 3 {
            NamedColor::Yellow
        } else if i == 4 {
            NamedColor::Blue
        } else if i == 5 {
            NamedColor::Magenta
        } else if i == 6 {
            NamedColor::Cyan
        } else if i == 7 {
            NamedColor::White
        } else if i == 8 {
            NamedColor::BrightBlack
        } else if i == 9 {
            NamedColor::BrightRed
        } else if i == 10 {
            NamedColor::BrightGreen
        } else if i == 11 {
            NamedColor::BrightYellow
        } else if i == 12 {
            NamedColor::BrightBlue
        } else if i == 13 {
            NamedColor::BrightMagenta
        } else if i == 14 {
            NamedColor::BrightCyan
        } else {
            NamedColor::BrightWhite
        }
    }

    /// Returns the palette slot of this color.
    pub fn index(self) -> (i: u8)
        ensures
            i == self.spec_index(),
            i < 16,
    {
        match self {
            NamedColor::Black => 0,
            NamedColor::Red => 1,
            NamedColor::Green => 2,
            NamedColor::Yellow => 3,
            NamedColor::Blue => 4,
            NamedColor::Magenta => 5,
            NamedColor::Cyan => 6,
            NamedColor::White => 7,
            NamedColor::BrightBlack => 8,
            NamedColor::BrightRed => 9,
            NamedColor::BrightGreen => 10,
            NamedColor::BrightYellow => 11,
            NamedColor::BrightBlue => 12,
            NamedColor::BrightMagenta => 13,
            NamedColor::BrightCyan => 14,
            NamedColor::BrightWhite => 15,
        }
    }

    /// Returns the named color of palette slot `i`.
    pub fn from_index(i: u8) -> (c: NamedColor)
        requires
            i < 16,
        ensures
            c == NamedColor::spec_from_index(i as int),
            c.spec_index() == i,
    {
        match i {
            0 => NamedColor::Black,
            1 => NamedColor::Red,
            2 => NamedColor::Green,
            3 => NamedColor::Yellow,
            4 => NamedColor::Blue,
            5 => NamedColor::Magenta,
            6 => NamedColor::Cyan,
            7 => NamedColor::White,
            8 => NamedColor::BrightBlack,
            9 => NamedColor::BrightRed,
            10 => NamedColor::BrightGreen,
            11 => NamedColor::BrightYellow,
            12 => NamedColor::BrightBlue,
            13 => NamedColor::BrightMagenta,
            14 => NamedColor::BrightCyan,
            _ => NamedColor::BrightWhite,
        }
    }
}

/// A cell color: one of the named colors, an explicit RGB value, or a palette slot.
#[derive(Debug, Clone, Copy, PartialEq, Eq, Structural)]
pub enum Color {
    Named(NamedColor),
    Spec(Rgb),
    Indexed(u8),
}

/// The fixed RGB values of the sixteen named colors.
pub open spec fn named_rgb(i: int) -> Rgb {
    if i == 0 {
        Rgb { r: 0, g: 0, b: 0 }
    } else if i == 1 {
        Rgb { r: 194, g: 54, b: 33 }
    } else if i == 2 {
        Rgb { r: 37, g: 188, b: 36 }
    } else if i == 3 {
        Rgb { r: 173, g: 173, b: 39 }
    } else if i == 4 {
        Rgb { r: 73, g: 46, b: 225 }
    } else if i == 5 {
        Rgb { r: 211, g: 56, b: 211 }
    } else if i == 6 {
        Rgb { r: 51, g: 187, b: 200 }
    } else if i == 7 {
        Rgb { r: 203, g: 204, b: 205 }
    } else if i == 8 {
        Rgb { r: 129, g: 131, b: 131 }
    } else if i == 9 {
        Rgb { r: 252, g: 57, b: 31 }
    } else if i == 10 {
        Rgb { r: 49, g: 231, b: 34 }
    } else if i == 11 {
        Rgb { r: 234, g: 236, b: 35 }
    } else if i == 12 {
        Rgb { r: 88, g: 51, b: 255 }
    } else if i == 13 {
        Rgb { r: 249, g: 53, b: 248 }
    } else if i == 14 {
        Rgb { r: 20, g: 240, b: 240 }
    } else {
        Rgb { r: 233, g: 235, b: 235 }
    }
}

/// One channel of the 6x6x6 color cube: 0 for level 0, else `40 * level + 55`.
pub open spec fn cube_level(level: int) -> int {
    if level == 0 {
        0
    } else {
        40 * level + 55
    }
}

/// The palette: named colors in slots 0..16, the color cube in 16..232,
/// and a gray ramp `10 * k + 8` in 232..256.
pub open spec fn palette(i: u8) -> Rgb {
    if i < 16 {
        named_rgb(i as int)
    } else if i < 232 {
        let k = i - 16;
        Rgb {
            r: cube_level(k / 36) as u8,
            g: cube_level((k / 6) % 6) as u8,
            b: cube_level(k % 6) as u8,
        }
    } else {
        let v = (10 * (i - 232) + 8) as u8;
        Rgb { r: v, g: v, b: v }
    }
}

/// The RGB value that a color resolves to.
pub open spec fn color_rgb(c: Color) -> Rgb {
    match c {
        Color::Named(n) => palette(n.spec_index()),
        Color::Spec(rgb) => rgb,
        Color::Indexed(i) => palette(i),
    }
}

fn named_rgb_of(i: u8) -> (c: Rgb)
    requires
        i < 16,
    ensures
        c == named_rgb(i as int),
{
    match i {
        0 => Rgb::new(0, 0, 0),
        1 => Rgb::new(194, 54, 33),
        2 => Rgb::new(37, 188, 36),
        3 => Rgb::new(173, 173, 39),
        4 => Rgb::new(73, 46, 225),
        5 => Rgb::new(211, 56, 211),
        6 => Rgb::new(51, 187, 200),
        7 => Rgb::new(203, 204, 205),
        8 => Rgb::new(129, 131, 131),
        9 => Rgb::new(252, 57, 31),
        10 => Rgb::new(49, 231, 34),
        11 => Rgb::new(234, 236, 35),
        12 => Rgb::new(88, 51, 255),
        13 => Rgb::new(249, 53, 248),
        14 => Rgb::new(20, 240, 240),
        _ => Rgb::new(233, 235, 235),
    }
}

fn cube_channel(level: u8) -> (v: u8)
    requires
        level < 6,
    ensures
        v as int == cube_level(level as int),
{
    if level == 0 {
        0
    } else {
        40 * level + 55
    }
}

/// Looks up palette slot `i`.
pub fn palette_rgb(i: u8) -> (c: Rgb)
    ensures
        c == palette(i),
{
    if i < 16 {
        named_rgb_of(i)
    } else if i < 232 {
        let k = i - 16;
        Rgb::new(cube_channel(k / 36), cube_channel((k / 6) % 6), cube_channel(k % 6))
    } else {
        let v = 10 * (i - 232) + 8;
        Rgb::new(v, v, v)
    }
}

impl Color {
    /// Resolves the color to RGB through the palette.
    pub fn to_rgb(self) -> (c: Rgb)
        ensures
            c == color_rgb(self),
    {
        match self {
            Color::Spec(rgb) => rgb,
            Color::Named(name) => palette_rgb(name.index()),
            Color::Indexed(idx) => palette_rgb(idx),
        }
    }
}

} // verus!
