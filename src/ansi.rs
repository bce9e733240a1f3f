//! ANSI terminal stream parsing: the callbacks of the byte parser as plain
//! values, terminal modes, and the SGR attribute reducer.
use vstd::prelude::*;

use crate::cell::default_cell;
use crate::color::{Color, NamedColor, Rgb};

verus! {

/// Terminal modes.
#[derive(Debug, Clone, Copy, PartialEq, Eq, Structural)]
pub enum Mode {
    /// ?1
    CursorKeys,
    /// ?3: select 80 or 132 columns per page (DECCOLM).
    ColumnMode,
    /// 4: insert mode (IRM).
    Insert,
    /// ?6
    Origin,
    /// ?7: automatic wrap at the right margin.
    LineWrap,
    /// ?12
    BlinkingCursor,
    /// 20
    LineFeedNewLine,
    /// ?25
    ShowCursor,
    /// ?1000
    ReportMouseClicks,
    /// ?1002
    ReportCellMouseMotion,
    /// ?1003
    ReportAllMouseMotion,
    /// ?1004
    ReportFocusInOut,
    /// ?1005
    Utf8Mouse,
    /// ?1006
    SgrMouse,
    /// ?1007
    AlternateScroll,
    /// ?1042
    UrgencyHints,
    /// ?1049
    SwapScreenAndSetRestoreCursor,
    /// ?2004
    BracketedPaste,
}

/// The private modes by number.
pub open spec fn private_mode(num: u16) -> Option<Mode> {
    if num == 1 {
        Some(Mode::CursorKeys)
    } else if num == 3 {
        Some(Mode::ColumnMode)
    } else if num == 6 {
        Some(Mode::Origin)
    } else if num == 7 {
        Some(Mode::LineWrap)
    } else if num == 12 {
        Some(Mode::BlinkingCursor)
    } else if num == 25 {
        Some(Mode::ShowCursor)
    } else if num == 1000 {
        Some(Mode::ReportMouseClicks)
    } else if num == 1002 {
        Some(Mode::ReportCellMouseMotion)
    } else if num == 1003 {
        Some(Mode::ReportAllMouseMotion)
    } else if num == 1004 {
        Some(Mode::ReportFocusInOut)
    } else if num == 1005 {
        Some(Mode::Utf8Mouse)
    } else if num == 1006 {
        Some(Mode::SgrMouse)
    } else if num == 1007 {
        Some(Mode::AlternateScroll)
    } else if num == 1042 {
        Some(Mode::UrgencyHints)
    } else if num == 1049 {
        Some(Mode::SwapScreenAndSetRestoreCursor)
    } else if num == 2004 {
        Some(Mode::BracketedPaste)
    } else {
        None
    }
}

/// The mode that `num` selects: a private mode after `?`, a public one
/// without an intermediate byte, none after any other intermediate.
pub open spec fn mode_of(intermediate: Option<u8>, num: u16) -> Option<Mode> {
    match intermediate {
        Some(b) => if b == 0x3f {
            private_mode(num)
        } else {
            None
        },
        None => if num == 4 {
            Some(Mode::Insert)
        } else if num == 20 {
            Some(Mode::LineFeedNewLine)
        } else {
            None
        },
    }
}

impl Mode {
    /// Create mode from a primitive.
    pub fn from_primitive(intermediate: Option<&u8>, num: u16) -> (r: Option<Mode>)
        ensures
            r == mode_of(
                match intermediate {
                    Some(b) => Some(*b),
                    None => None,
                },
                num,
            ),
    {
        let private = match intermediate {
            Some(b) => {
                if *b == 0x3f {
                    true
                } else {
                    return None;
                }
            },
            None => false,
        };
        if private {
            match num {
                1 => Some(Mode::CursorKeys),
                3 => Some(Mode::ColumnMode),
                6 => Some(Mode::Origin),
                7 => Some(Mode::LineWrap),
                12 => Some(Mode::BlinkingCursor),
                25 => Some(Mode::ShowCursor),
                1000 => Some(Mode::ReportMouseClicks),
                1002 => Some(Mode::ReportCellMouseMotion),
                1003 => Some(Mode::ReportAllMouseMotion),
                1004 => Some(Mode::ReportFocusInOut),
                1005 => Some(Mode::Utf8Mouse),
                1006 => Some(Mode::SgrMouse),
                1007 => Some(Mode::AlternateScroll),
                1042 => Some(Mode::UrgencyHints),
                1049 => Some(Mode::SwapScreenAndSetRestoreCursor),
                2004 => Some(Mode::BracketedPaste),
                _ => None,
            }
        } else {
            match num {
                4 => Some(Mode::Insert),
                20 => Some(Mode::LineFeedNewLine),
                _ => None,
            }
        }
    }
}

/// Mode for clearing line, relative to the cursor.
#[derive(Debug, Clone, Copy, PartialEq, Eq, Structural)]
pub enum LineClearMode {
    /// Clear right of cursor.
    Right,
    /// Clear left of cursor.
    Left,
    /// Clear entire line.
    All,
}

/// Mode for clearing the screen, relative to the cursor.
#[derive(Debug, Clone, Copy, PartialEq, Eq, Structural)]
pub enum ClearMode {
    /// Clear below cursor.
    Below,
    /// Clear above cursor.
    Above,
    /// Clear entire terminal.
    All,
    /// Clear 'saved' lines (scrollback).
    Saved,
}

/// Terminal character attributes.
#[derive(Debug, Clone, Copy, PartialEq, Eq, Structural)]
pub enum Attr {
    /// Clear all special abilities.
    Reset,
    /// Bold text.
    Bold,
    /// Dim or secondary color.
    Dim,
    /// Italic text.
    Italic,
    /// Underline text.
    Underline,
    /// Underlined twice.
    DoubleUnderline,
    /// Blink cursor slowly.
    BlinkSlow,
    /// Blink cursor fast.
    BlinkFast,
    /// Invert colors.
    Reverse,
    /// Do not display characters.
    Hidden,
    /// Strikeout text.
    Strike,
    /// Cancel bold.
    CancelBold,
    /// Cancel bold and dim.
    CancelBoldDim,
    /// Cancel italic.
    CancelItalic,
    /// Cancel all underlines.
    CancelUnderline,
    /// Cancel blink.
    CancelBlink,
    /// Cancel inversion.
    CancelReverse,
    /// Cancel text hiding.
    CancelHidden,
    /// Cancel strikeout.
    CancelStrike,
    /// Set indexed foreground color.
    Foreground(Color),
    /// Set indexed background color.
    Background(Color),
}

/// The first value of a parameter, 0 for an empty one.
pub open spec fn first_of(group: Seq<u16>) -> u16 {
    if group.len() > 0 {
        group[0]
    } else {
        0
    }
}

/// The parameters of a control sequence, each with its sub-parameters.
pub open spec fn groups_of(params: Seq<Vec<u16>>) -> Seq<Seq<u16>> {
    params.map_values(|g: Vec<u16>| g@)
}

/// A color specifier read from the front of `vals`: `2;r;g;b` or `5;n`, each
/// value at most 255. Returns the color, if any, and how many values were read.
pub open spec fn parse_color(vals: Seq<u16>) -> (Option<Color>, int) {
    if vals.len() == 0 {
        (None, 0)
    } else if vals[0] == 2 {
        if vals.len() < 2 {
            (None, 1)
        } else if vals[1] > 255 {
            (None, 2)
        } else if vals.len() < 3 {
            (None, 2)
        } else if vals[2] > 255 {
            (None, 3)
        } else if vals.len() < 4 {
            (None, 3)
        } else if vals[3] > 255 {
            (None, 4)
        } else {
            (Some(Color::Spec(Rgb { r: vals[1] as u8, g: vals[2] as u8, b: vals[3] as u8 })), 4)
        }
    } else if vals[0] == 5 {
        if vals.len() < 2 {
            (None, 1)
        } else if vals[1] > 255 {
            (None, 2)
        } else {
            (Some(Color::Indexed(vals[1] as u8)), 2)
        }
    } else {
        (None, 1)
    }
}

/// The named color of the palette slot `i < 16`.
pub open spec fn named(i: int) -> Color {
    Color::Named(NamedColor::spec_from_index(i))
}

/// The attribute of a parameter made of the single value `code`.
pub open spec fn code_attr(code: u16) -> Option<Attr> {
    if code == 0 {
        Some(Attr::Reset)
    } else if code == 1 {
        Some(Attr::Bold)
    } else if code == 2 {
        Some(Attr::Dim)
    } else if code == 3 {
        Some(Attr::Italic)
    } else if code == 4 {
        Some(Attr::Underline)
    } else if code == 5 {
        Some(Attr::BlinkSlow)
    } else if code == 6 {
        Some(Attr::BlinkFast)
    } else if code == 7 {
        Some(Attr::Reverse)
    } else if code == 8 {
        Some(Attr::Hidden)
    } else if code == 9 {
        Some(Attr::Strike)
    } else if code == 21 {
        Some(Attr::CancelBold)
    } else if code == 22 {
        Some(Attr::CancelBoldDim)
    } else if code == 23 {
        Some(Attr::CancelItalic)
    } else if code == 24 {
        Some(Attr::CancelUnderline)
    } else if code == 25 {
        Some(Attr::CancelBlink)
    } else if code == 27 {
        Some(Attr::CancelReverse)
    } else if code == 28 {
        Some(Attr::CancelHidden)
    } else if code == 29 {
        Some(Attr::CancelStrike)
    } else if 30 <= code <= 37 {
        Some(Attr::Foreground(named(code - 30)))
    } else if code == 39 {
        Some(Attr::Foreground(default_cell().fg))
    } else if 40 <= code <= 47 {
        Some(Attr::Background(named(code - 40)))
    } else if code == 49 {
        Some(Attr::Background(default_cell().bg))
    } else if 90 <= code <= 97 {
        Some(Attr::Foreground(named(code - 90 + 8)))
    } else if 100 <= code <= 107 {
        Some(Attr::Background(named(code - 100 + 8)))
    } else {
        None
    }
}

/// The values that a color given in sub-parameters (`38:5:n`, `38:2:r:g:b`,
/// `38:2::r:g:b`) is read from: `rest` holds what follows 38 or 48, and the
/// color space identifier is skipped when more than four values follow.
pub open spec fn subparam_color_values(rest: Seq<u16>) -> Seq<u16> {
    let start: int = if rest.len() > 4 {
        2
    } else {
        1
    };
    seq![rest[0]] + rest.subrange(start, rest.len() as int)
}

/// Wraps a color as a foreground (38) or background (48) attribute.
pub open spec fn color_attr(code: u16, c: Option<Color>) -> Option<Attr> {
    match c {
        Some(color) => if code == 38 {
            Some(Attr::Foreground(color))
        } else {
            Some(Attr::Background(color))
        },
        None => None,
    }
}

/// The attribute of the first parameter of `groups` and the number of
/// parameters it takes: a lone 38 or 48 reads its color from the first values
/// of the parameters that follow.
pub open spec fn sgr_step(groups: Seq<Seq<u16>>) -> (Option<Attr>, int)
    recommends
        groups.len() > 0,
{
    let g = groups[0];
    if g.len() == 1 && (g[0] == 38 || g[0] == 48) {
        let rest = groups.skip(1).map_values(|x: Seq<u16>| first_of(x));
        let (c, n) = parse_color(rest);
        (color_attr(g[0], c), 1 + n)
    } else if g.len() > 1 && (g[0] == 38 || g[0] == 48) {
        (color_attr(g[0], parse_color(subparam_color_values(g.skip(1))).0), 1)
    } else if g.len() > 0 && g[0] == 4 {
        if g.len() == 2 && g[1] == 0 {
            (Some(Attr::CancelUnderline), 1)
        } else if g.len() == 2 && g[1] == 2 {
            (Some(Attr::DoubleUnderline), 1)
        } else {
            (Some(Attr::Underline), 1)
        }
    } else if g.len() == 1 {
        (code_attr(g[0]), 1)
    } else {
        (None, 1)
    }
}

/// The attributes that an SGR parameter list selects, in order; `None` for a
/// parameter that selects none.
pub open spec fn sgr_attrs(groups: Seq<Seq<u16>>) -> Seq<Option<Attr>>
    decreases groups.len(),
{
    if groups.len() == 0 {
        seq![]
    } else {
        let (a, n) = sgr_step(groups);
        if 1 <= n <= groups.len() {
            seq![a] + sgr_attrs(groups.skip(n))
        } else {
            seq![]
        }
    }
}

/// Parse a color specifier from the front of `values`.
///
/// Returns the color, if the values form one, and how many values were read.
pub fn parse_sgr_color(values: &Vec<u16>) -> (r: (Option<Color>, usize))
    ensures
        r.0 == parse_color(values@).0,
        r.1 == parse_color(values@).1,
{
    let n = values.len();
    if n == 0 {
        return (None, 0);
    }
    if values[0] == 2 {
        if n < 2 {
            return (None, 1);
        }
        if values[1] > 255 {
            return (None, 2);
        }
        if n < 3 {
            return (None, 2);
        }
        if values[2] > 255 {
            return (None, 3);
        }
        if n < 4 {
            return (None, 3);
        }
        if values[3] > 255 {
            return (None, 4);
        }
        (Some(Color::Spec(Rgb::new(values[1] as u8, values[2] as u8, values[3] as u8))), 4)
    } else if values[0] == 5 {
        if n < 2 {
            return (None, 1);
        }
        if values[1] > 255 {
            return (None, 2);
        }
        (Some(Color::Indexed(values[1] as u8)), 2)
    } else {
        (None, 1)
    }
}

fn named_attr_color(i: u16) -> (c: Color)
    requires
        i < 16,
    ensures
        c == named(i as int),
{
    Color::Named(NamedColor::from_index(i as u8))
}

/// The attribute of a parameter made of the single value `code`.
fn attr_of_code(code: u16) -> (r: Option<Attr>)
    ensures
        r == code_attr(code),
{
    match code {
        0 => Some(Attr::Reset),
        1 => Some(Attr::Bold),
        2 => Some(Attr::Dim),
        3 => Some(Attr::Italic),
        4 => Some(Attr::Underline),
        5 => Some(Attr::BlinkSlow),
        6 => Some(Attr::BlinkFast),
        7 => Some(Attr::Reverse),
        8 => Some(Attr::Hidden),
        9 => Some(Attr::Strike),
        21 => Some(Attr::CancelBold),
        22 => Some(Attr::CancelBoldDim),
        23 => Some(Attr::CancelItalic),
        24 => Some(Attr::CancelUnderline),
        25 => Some(Attr::CancelBlink),
        27 => Some(Attr::CancelReverse),
        28 => Some(Attr::CancelHidden),
        29 => Some(Attr::CancelStrike),
        30..=37 => Some(Attr::Foreground(named_attr_color(code - 30))),
        39 => Some(Attr::Foreground(Color::Named(NamedColor::BrightWhite))),
        40..=47 => Some(Attr::Background(named_attr_color(code - 40))),
        49 => Some(Attr::Background(Color::Named(NamedColor::Black))),
        90..=97 => Some(Attr::Foreground(named_attr_color(code - 90 + 8))),
        100..=107 => Some(Attr::Background(named_attr_color(code - 100 + 8))),
        _ => None,
    }
}

fn attr_of_color(code: u16, c: Option<Color>) -> (r: Option<Attr>)
    ensures
        r == color_attr(code, c),
{
    match c {
        Some(color) => if code == 38 {
            Some(Attr::Foreground(color))
        } else {
            Some(Attr::Background(color))
        },
        None => None,
    }
}

/// The first value of each parameter from index `start` on.
fn first_values(params: &Vec<Vec<u16>>, start: usize) -> (r: Vec<u16>)
    requires
        start <= params@.len(),
    ensures
        r@ == groups_of(params@).skip(start as int).map_values(|x: Seq<u16>| first_of(x)),
{
    let mut r: Vec<u16> = Vec::new();
    let mut i = start;
    while i < params.len()
        invariant
            start <= i <= params@.len(),
            r@ == groups_of(params@).subrange(start as int, i as int).map_values(
                |x: Seq<u16>| first_of(x),
            ),
        decreases params@.len() - i,
    {
        let g = &params[i];
        let v = if g.len() > 0 {
            g[0]
        } else {
            0
        };
        r.push(v);
        proof {
            assert(groups_of(params@).subrange(start as int, i + 1).map_values(
                |x: Seq<u16>| first_of(x),
            ) =~= r@);
        }
        i = i + 1;
    }
    assert(groups_of(params@).subrange(start as int, params@.len() as int) =~= groups_of(
        params@,
    ).skip(start as int));
    r
}

/// The values that a color given in sub-parameters is read from.
fn subparam_values(group: &Vec<u16>) -> (r: Vec<u16>)
    requires
        group@.len() > 1,
    ensures
        r@ == subparam_color_values(group@.skip(1)),
{
    let n = group.len();
    let start: usize = if n - 1 > 4 {
        3
    } else {
        2
    };
    let mut r: Vec<u16> = Vec::new();
    r.push(group[1]);
    let mut i = start;
    while i < n
        invariant
            start <= i <= n,
            n == group@.len(),
            r@ == seq![group@[1]] + group@.subrange(start as int, i as int),
        decreases n - i,
    {
        r.push(group[i]);
        proof {
            assert(seq![group@[1]] + group@.subrange(start as int, i + 1) =~= r@);
        }
        i = i + 1;
    }
    assert(subparam_color_values(group@.skip(1)) =~= r@);
    r
}

/// The attribute of the parameter at `i` and the number of parameters it takes.
fn sgr_next(params: &Vec<Vec<u16>>, i: usize) -> (r: (Option<Attr>, usize))
    requires
        i < params@.len(),
    ensures
        r.0 == sgr_step(groups_of(params@).skip(i as int)).0,
        r.1 == sgr_step(groups_of(params@).skip(i as int)).1,
        1 <= r.1 <= params@.len() - i,
{
    let ghost gs = groups_of(params@).skip(i as int);
    assert(gs[0] == params@[i as int]@);
    let g = &params[i];
    if g.len() == 1 && (g[0] == 38 || g[0] == 48) {
        let count = params.len();
        assert(i < count);
        let vals = first_values(params, i + 1);
        assert(vals@ =~= gs.skip(1).map_values(|x: Seq<u16>| first_of(x)));
        let (c, n) = parse_sgr_color(&vals);
        (attr_of_color(g[0], c), 1 + n)
    } else if g.len() > 1 && (g[0] == 38 || g[0] == 48) {
        let vals = subparam_values(g);
        let (c, _) = parse_sgr_color(&vals);
        (attr_of_color(g[0], c), 1)
    } else if g.len() > 0 && g[0] == 4 {
        if g.len() == 2 && g[1] == 0 {
            (Some(Attr::CancelUnderline), 1)
        } else if g.len() == 2 && g[1] == 2 {
            (Some(Attr::DoubleUnderline), 1)
        } else {
            (Some(Attr::Underline), 1)
        }
    } else if g.len() == 1 {
        (attr_of_code(g[0]), 1)
    } else {
        (None, 1)
    }
}

/// The attributes that an SGR parameter list selects, in order; `None` for a
/// parameter that selects none.
pub fn attrs_from_sgr_parameters(params: &Vec<Vec<u16>>) -> (r: Vec<Option<Attr>>)
    ensures
        r@ == sgr_attrs(groups_of(params@)),
{
    let ghost gs = groups_of(params@);
    let mut r: Vec<Option<Attr>> = Vec::new();
    let mut i: usize = 0;
    assert(gs.skip(0) =~= gs);
    assert(r@ + sgr_attrs(gs) =~= sgr_attrs(gs));
    while i < params.len()
        invariant
            i <= params@.len(),
            gs == groups_of(params@),
            r@ + sgr_attrs(gs.skip(i as int)) == sgr_attrs(gs),
        decreases params@.len() - i,
    {
        let (a, n) = sgr_next(params, i);
        proof {
            let rest = gs.skip(i as int);
            assert(rest.skip(n as int) =~= gs.skip(i + n));
            assert(sgr_attrs(rest) == seq![a] + sgr_attrs(rest.skip(n as int)));
            assert(r@.push(a) + sgr_attrs(gs.skip(i + n)) =~= r@ + sgr_attrs(rest));
        }
        r.push(a);
        i = i + n;
    }
    assert(gs.skip(i as int) =~= Seq::<Seq<u16>>::empty());
    assert(r@ + sgr_attrs(gs.skip(i as int)) =~= r@);
    r
}

/// One callback of the byte parser, as plain values.
pub enum Action {
    /// A printable code point.
    Print(char),
    /// A C0 or C1 control byte.
    Execute(u8),
    /// A complete control sequence: parameters with their sub-parameters,
    /// intermediate bytes, whether bytes were dropped, and the final character.
    CsiDispatch { params: Vec<Vec<u16>>, intermediates: Vec<u8>, ignore: bool, action: char },
    /// A complete escape sequence.
    EscDispatch { intermediates: Vec<u8>, ignore: bool, byte: u8 },
}

/// Receives the callbacks of the byte parser and keeps them, in order.
pub struct Performer {
    actions: Vec<Action>,
}

impl Performer {
    /// The callbacks received so far.
    pub closed spec fn received(&self) -> Seq<Action> {
        self.actions@
    }

    /// A performer that has received nothing.
    pub fn new() -> (p: Performer)
        ensures
            p.received().len() == 0,
    {
        Performer { actions: Vec::new() }
    }
}

impl vte::Perform for Performer {
    fn print(&mut self, c: char)
        ensures
            final(self).received() == old(self).received().push(Action::Print(c)),
    {
        self.actions.push(Action::Print(c));
    }

    fn execute(&mut self, byte: u8)
        ensures
            final(self).received() == old(self).received().push(Action::Execute(byte)),
    {
        self.actions.push(Action::Execute(byte));
    }

    /// Keeps a control sequence; one that vte marked as having dropped bytes
    /// keeps no parameters.
    fn csi_dispatch(
        &mut self,
        params: &vte::Params,
        intermediates: &[u8],
        ignore: bool,
        action: char,
    ) {
        let groups = if ignore {
            Vec::new()
        } else {
            param_groups(params)
        };
        let intermediates = vstd::slice::slice_to_vec(intermediates);
        self.actions.push(Action::CsiDispatch { params: groups, intermediates, ignore, action });
    }

    fn esc_dispatch(&mut self, intermediates: &[u8], ignore: bool, byte: u8)
        ensures
            final(self).received().len() == old(self).received().len() + 1,
    {
        let intermediates = vstd::slice::slice_to_vec(intermediates);
        self.actions.push(Action::EscDispatch { intermediates, ignore, byte });
    }
}

/// Relies on vte's `Params::iter`: yields each parameter with its
/// sub-parameters, in order; they are copied out as they come. The iteration
/// ends for a list that vte dispatches without setting `ignore`, since every
/// parameter's length is then recorded; it is called for no other list.
#[verifier::external_body]
fn param_groups(params: &vte::Params) -> Vec<Vec<u16>> {
    params.iter().map(|p| p.to_vec()).collect()
}

/// vte's byte parser, carried opaque: its state is only ever advanced by vte.
#[verifier::external_type_specification]
#[verifier::external_body]
pub struct ExParser(vte::Parser);

/// vte's parameter list of a control sequence, read only by
/// `Performer::csi_dispatch`.
#[verifier::external_type_specification]
#[verifier::external_body]
pub struct ExParams(vte::Params);

/// Relies on vte's `Parser::new`: a parser in its ground state.
pub assume_specification[ vte::Parser::new ]() -> vte::Parser;

/// The callbacks that vte's parser makes for `byte` after it was fed the
/// bytes `fed` since it was made. vte's parser is a state machine that starts
/// in one state and whose steps depend on the byte and its state alone.
pub uninterp spec fn parsed(fed: Seq<u8>, byte: u8) -> Seq<Action>;

/// The callbacks for `bytes` fed in order after `fed`.
pub open spec fn parsed_all(fed: Seq<u8>, bytes: Seq<u8>) -> Seq<Action>
    decreases bytes.len(),
{
    if bytes.len() == 0 {
        seq![]
    } else {
        parsed_all(fed, bytes.drop_last()) + parsed(fed + bytes.drop_last(), bytes.last())
    }
}

/// vte's byte parser, with the bytes it has been fed since it was made.
pub struct ByteParser {
    parser: vte::Parser,
    fed: Ghost<Seq<u8>>,
}

impl ByteParser {
    /// The bytes fed so far.
    pub closed spec fn fed(&self) -> Seq<u8> {
        self.fed@
    }

    /// A parser that has been fed nothing.
    pub fn new() -> (p: ByteParser)
        ensures
            p.fed() == Seq::<u8>::empty(),
    {
        ByteParser { parser: vte::Parser::new(), fed: Ghost(Seq::empty()) }
    }
}

/// Relies on vte's `Parser::advance`: feeds one byte to the parser, which
/// calls back the performer for what the byte completes; the callbacks come
/// back in the order they were made. The byte joins the bytes fed.
#[verifier::external_body]
pub(crate) fn advance(parser: &mut ByteParser, byte: u8) -> (actions: Vec<Action>)
    ensures
        final(parser).fed() == old(parser).fed().push(byte),
        actions@ == parsed(old(parser).fed(), byte),
{
    let mut performer = Performer { actions: Vec::new() };
    parser.parser.advance(&mut performer, byte);
    performer.actions
}

} // verus!
