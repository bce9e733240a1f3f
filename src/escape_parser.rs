//! A compact reading of control sequences: a display attribute resolved to
//! RGB, and a classification of CSI sequences by their final byte.
use vstd::prelude::*;

use crate::ansi::groups_of;
use crate::color::{palette, palette_rgb, Rgb};

verus! {

/// Display attribute of characters.
///
/// The default attribute is white text on a black background.
#[derive(Debug, Clone, Copy, PartialEq, Eq, Structural)]
pub struct CharacterAttribute {
    /// Foreground color.
    pub foreground: Rgb,
    /// Background color.
    pub background: Rgb,
    /// Show underline.
    pub underline: bool,
    /// Swap foreground and background colors.
    pub reverse: bool,
    /// Text marked for deletion.
    pub strikethrough: bool,
    /// Bold font.
    pub bold: bool,
}

/// White text on a black background, no decoration.
pub open spec fn default_attribute() -> CharacterAttribute {
    CharacterAttribute {
        foreground: palette(7),
        background: palette(0),
        underline: false,
        reverse: false,
        strikethrough: false,
        bold: false,
    }
}

/// The color of an SGR color code 30..=37 (normal) or 90..=97 (bright).
pub open spec fn console_color(code: u8) -> Rgb {
    if code <= 37 {
        palette((code - 30) as u8)
    } else {
        palette((code - 90 + 8) as u8)
    }
}

/// The code of an SGR parameter list: its first value, 0 for an empty list.
pub open spec fn sgr_code(params: Seq<u16>) -> int {
    if params.len() > 0 {
        params[0] as int
    } else {
        0
    }
}

/// The color that `38` or `48` selects: one of the sixteen palette colors
/// (mode 5), or explicit channels (any other mode). `None` when the list is
/// too short, for a palette index past 15, or for a channel above 255.
pub open spec fn extended_color(params: Seq<u16>) -> Option<Rgb> {
    if params.len() < 2 {
        None
    } else if params[1] == 5 {
        if params.len() < 3 || params[2] > 15 {
            None
        } else if params[2] <= 7 {
            Some(console_color((params[2] + 30) as u8))
        } else {
            Some(console_color((params[2] + 82) as u8))
        }
    } else if params.len() < 5 || params[2] > 255 || params[3] > 255 || params[4] > 255 {
        None
    } else {
        Some(Rgb { r: params[2] as u8, g: params[3] as u8, b: params[4] as u8 })
    }
}

/// What an SGR parameter list does to an attribute.
pub open spec fn sgr_attribute(a: CharacterAttribute, params: Seq<u16>) -> CharacterAttribute {
    let code = sgr_code(params);
    if code == 0 {
        default_attribute()
    } else if code == 1 {
        CharacterAttribute { bold: true, ..a }
    } else if code == 4 {
        CharacterAttribute { underline: true, ..a }
    } else if code == 7 {
        CharacterAttribute { reverse: true, ..a }
    } else if code == 9 {
        CharacterAttribute { strikethrough: true, ..a }
    } else if code == 22 {
        CharacterAttribute { bold: false, ..a }
    } else if code == 24 {
        CharacterAttribute { underline: false, ..a }
    } else if code == 27 {
        CharacterAttribute { reverse: false, ..a }
    } else if code == 29 {
        CharacterAttribute { strikethrough: false, ..a }
    } else if (30 <= code <= 37) || (90 <= code <= 97) {
        CharacterAttribute { foreground: console_color(code as u8), ..a }
    } else if code == 38 {
        match extended_color(params) {
            Some(c) => CharacterAttribute { foreground: c, ..a },
            None => a,
        }
    } else if code == 39 {
        CharacterAttribute { foreground: default_attribute().foreground, ..a }
    } else if (40 <= code <= 47) || (100 <= code <= 107) {
        CharacterAttribute { background: console_color((code - 10) as u8), ..a }
    } else if code == 48 {
        match extended_color(params) {
            Some(c) => CharacterAttribute { background: c, ..a },
            None => a,
        }
    } else if code == 49 {
        CharacterAttribute { background: default_attribute().background, ..a }
    } else {
        a
    }
}

fn console_rgb(code: u8) -> (c: Rgb)
    requires
        (30 <= code <= 37) || (90 <= code <= 97),
    ensures
        c == console_color(code),
{
    if code <= 37 {
        palette_rgb(code - 30)
    } else {
        palette_rgb(code - 90 + 8)
    }
}

fn extended_rgb(params: &[u16]) -> (c: Option<Rgb>)
    ensures
        c == extended_color(params@),
{
    if params.len() < 2 {
        None
    } else if params[1] == 5 {
        if params.len() < 3 || params[2] > 15 {
            None
        } else if params[2] <= 7 {
            Some(console_rgb(params[2] as u8 + 30))
        } else {
            Some(console_rgb(params[2] as u8 + 82))
        }
    } else if params.len() < 5 || params[2] > 255 || params[3] > 255 || params[4] > 255 {
        None
    } else {
        Some(Rgb::new(params[2] as u8, params[3] as u8, params[4] as u8))
    }
}

impl Default for CharacterAttribute {
    fn default() -> (a: CharacterAttribute)
        ensures
            a == default_attribute(),
    {
        CharacterAttribute {
            foreground: palette_rgb(7),
            background: palette_rgb(0),
            underline: false,
            reverse: false,
            strikethrough: false,
            bold: false,
        }
    }
}

impl CharacterAttribute {
    /// Parse and apply SGR (Select Graphic Rendition) parameters. A list that
    /// selects nothing leaves the attribute as it is.
    pub fn apply_sgr(&mut self, params: &[u16])
        ensures
            *final(self) == sgr_attribute(*old(self), params@),
    {
        let code: u16 = if params.len() > 0 {
            params[0]
        } else {
            0
        };
        match code {
            0 => *self = CharacterAttribute::default(),
            1 => self.bold = true,
            4 => self.underline = true,
            7 => self.reverse = true,
            9 => self.strikethrough = true,
            22 => self.bold = false,
            24 => self.underline = false,
            27 => self.reverse = false,
            29 => self.strikethrough = false,
            30..=37 | 90..=97 => self.foreground = console_rgb(code as u8),
            38 => {
                if let Some(c) = extended_rgb(params) {
                    self.foreground = c;
                }
            },
            39 => self.foreground = palette_rgb(7),
            40..=47 | 100..=107 => self.background = console_rgb((code - 10) as u8),
            48 => {
                if let Some(c) = extended_rgb(params) {
                    self.background = c;
                }
            },
            49 => self.background = palette_rgb(0),
            _ => {},
        }
    }
}

/// Control Sequence Introducer.
#[derive(Debug, Clone, PartialEq, Eq)]
pub enum CSI {
    CursorMove(i16, i16),
    CursorMoveTo(i16, i16),
    CursorMoveRow(i16),
    CursorMoveRowTo(i16),
    CursorMoveColTo(i16),
    Sgr(Vec<u16>),
    EnableAltScreenBuffer,
    DisableAltScreenBuffer,
    EnableAutoWrap,
    DisableAutoWrap,
    SetScrollingRegion(i16, i16),
    WindowManipulation(Vec<u16>),
    HideCursor,
    ShowCursor,
    EraseDisplayBelow,
    EraseDisplayAbove,
    EraseDisplayAll,
    EraseLineRight,
    EraseLineLeft,
    EraseLineAll,
    EnableBracketedPasteMode,
    DisableBracketedPasteMode,
    StartBlinkingCursor,
    StopBlinkingCursor,
    DeviceStatusReport,
    ReportCursorPosition,
    Unknown,
}

/// The first value of parameter `i`, or `default` when it is missing.
pub open spec fn param_value(groups: Seq<Seq<u16>>, i: int, default: u16) -> u16 {
    if i < groups.len() && groups[i].len() > 0 {
        groups[i][0]
    } else {
        default
    }
}

/// The values of the first parameter; none when there is no parameter.
pub open spec fn first_group(params: Seq<Vec<u16>>) -> Seq<u16> {
    if params.len() > 0 {
        params[0]@
    } else {
        seq![]
    }
}

/// A value less one, as a 16-bit signed number that wraps.
pub open spec fn less_one(v: u16) -> i16 {
    (v as i16).wrapping_sub(1)
}

/// The classification of a sequence with final byte `final_byte` and
/// parameters `groups`; `m` and `t`, which carry values, are left out.
pub open spec fn csi_class(final_byte: u8, groups: Seq<Seq<u16>>) -> CSI {
    let n = param_value(groups, 0, 1) as i16;
    if final_byte == 0x41 {
        CSI::CursorMove(0i16.wrapping_sub(n), 0)
    } else if final_byte == 0x42 {
        CSI::CursorMove(n, 0)
    } else if final_byte == 0x43 {
        CSI::CursorMove(0, n)
    } else if final_byte == 0x44 {
        CSI::CursorMove(0, 0i16.wrapping_sub(n))
    } else if final_byte == 0x45 {
        CSI::CursorMoveRow(n)
    } else if final_byte == 0x46 {
        CSI::CursorMoveRow(0i16.wrapping_sub(n))
    } else if final_byte == 0x48 {
        CSI::CursorMoveTo(less_one(param_value(groups, 0, 1)), less_one(param_value(groups, 1, 1)))
    } else if final_byte == 0x4a {
        let m = param_value(groups, 0, 0);
        if m == 0 {
            CSI::EraseDisplayBelow
        } else if m == 1 {
            CSI::EraseDisplayAbove
        } else if m == 2 {
            CSI::EraseDisplayAll
        } else {
            CSI::Unknown
        }
    } else if final_byte == 0x4b {
        let m = param_value(groups, 0, 0);
        if m == 0 {
            CSI::EraseLineRight
        } else if m == 1 {
            CSI::EraseLineLeft
        } else if m == 2 {
            CSI::EraseLineAll
        } else {
            CSI::Unknown
        }
    } else if final_byte == 0x47 {
        CSI::CursorMoveColTo(less_one(param_value(groups, 0, 1)))
    } else if final_byte == 0x6e {
        let m = param_value(groups, 0, 0);
        if m == 5 {
            CSI::DeviceStatusReport
        } else if m == 6 {
            CSI::ReportCursorPosition
        } else {
            CSI::Unknown
        }
    } else if final_byte == 0x64 {
        CSI::CursorMoveRowTo(n.wrapping_sub(1))
    } else if final_byte == 0x68 {
        let m = param_value(groups, 0, 0);
        if m == 7 {
            CSI::EnableAutoWrap
        } else if m == 12 {
            CSI::StartBlinkingCursor
        } else if m == 25 {
            CSI::ShowCursor
        } else if m == 1049 {
            CSI::EnableAltScreenBuffer
        } else if m == 2004 {
            CSI::EnableBracketedPasteMode
        } else {
            CSI::Unknown
        }
    } else if final_byte == 0x6c {
        let m = param_value(groups, 0, 0);
        if m == 7 {
            CSI::DisableAutoWrap
        } else if m == 12 {
            CSI::StopBlinkingCursor
        } else if m == 25 {
            CSI::HideCursor
        } else if m == 1049 {
            CSI::DisableAltScreenBuffer
        } else if m == 2004 {
            CSI::DisableBracketedPasteMode
        } else {
            CSI::Unknown
        }
    } else if final_byte == 0x72 {
        CSI::SetScrollingRegion(less_one(param_value(groups, 0, 1)), less_one(param_value(groups, 1, 1)))
    } else {
        CSI::Unknown
    }
}

fn value_at(params: &Vec<Vec<u16>>, i: usize, default: u16) -> (v: u16)
    ensures
        v == param_value(groups_of(params@), i as int, default),
{
    if i < params.len() && params[i].len() > 0 {
        params[i][0]
    } else {
        default
    }
}

impl CSI {
    /// Classifies a control sequence by its final byte and its parameters
    /// (`params` holds each parameter with its sub-parameters); a missing
    /// parameter takes its default.
    pub fn new(final_byte: u8, params: &Vec<Vec<u16>>, _intermediates: &Vec<u8>) -> (r: CSI)
        ensures
            final_byte == 0x6d ==> (r matches CSI::Sgr(v) && v@ == first_group(params@)),
            final_byte == 0x74 ==> (r matches CSI::WindowManipulation(v) && v@ == first_group(
                params@,
            )),
            final_byte != 0x6d && final_byte != 0x74 ==> r == csi_class(
                final_byte,
                groups_of(params@),
            ),
    {
        let no_values: Vec<u16> = Vec::new();
        let values = if params.len() > 0 {
            &params[0]
        } else {
            &no_values
        };
        let n = value_at(params, 0, 1) as i16;
        match final_byte {
            0x41 => CSI::CursorMove(0i16.wrapping_sub(n), 0),
            0x42 => CSI::CursorMove(n, 0),
            0x43 => CSI::CursorMove(0, n),
            0x44 => CSI::CursorMove(0, 0i16.wrapping_sub(n)),
            0x45 => CSI::CursorMoveRow(n),
            0x46 => CSI::CursorMoveRow(0i16.wrapping_sub(n)),
            0x48 => CSI::CursorMoveTo(
                (value_at(params, 0, 1) as i16).wrapping_sub(1),
                (value_at(params, 1, 1) as i16).wrapping_sub(1),
            ),
            0x4a => match value_at(params, 0, 0) {
                0 => CSI::EraseDisplayBelow,
                1 => CSI::EraseDisplayAbove,
                2 => CSI::EraseDisplayAll,
                _ => CSI::Unknown,
            },
            0x4b => match value_at(params, 0, 0) {
                0 => CSI::EraseLineRight,
                1 => CSI::EraseLineLeft,
                2 => CSI::EraseLineAll,
                _ => CSI::Unknown,
            },
            0x47 => CSI::CursorMoveColTo((value_at(params, 0, 1) as i16).wrapping_sub(1)),
            0x6d => CSI::Sgr(values.clone()),
            0x6e => match value_at(params, 0, 0) {
                5 => CSI::DeviceStatusReport,
                6 => CSI::ReportCursorPosition,
                _ => CSI::Unknown,
            },
            0x64 => CSI::CursorMoveRowTo(n.wrapping_sub(1)),
            0x68 => match value_at(params, 0, 0) {
                7 => CSI::EnableAutoWrap,
                12 => CSI::StartBlinkingCursor,
                25 => CSI::ShowCursor,
                1049 => CSI::EnableAltScreenBuffer,
                2004 => CSI::EnableBracketedPasteMode,
                _ => CSI::Unknown,
            },
            0x6c => match value_at(params, 0, 0) {
                7 => CSI::DisableAutoWrap,
                12 => CSI::StopBlinkingCursor,
                25 => CSI::HideCursor,
                1049 => CSI::DisableAltScreenBuffer,
                2004 => CSI::DisableBracketedPasteMode,
                _ => CSI::Unknown,
            },
            0x72 => CSI::SetScrollingRegion(
                (value_at(params, 0, 1) as i16).wrapping_sub(1),
                (value_at(params, 1, 1) as i16).wrapping_sub(1),
            ),
            0x74 => CSI::WindowManipulation(values.clone()),
            _ => CSI::Unknown,
        }
    }
}

} // verus!
