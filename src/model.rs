//! The terminal state machine as mathematics: the state, and what each
//! handler operation and each parser callback does to it.
use vstd::prelude::*;

use crate::ansi::{
    first_of, groups_of, mode_of, sgr_attrs, Action, Attr, ClearMode, LineClearMode, Mode,
};
use crate::cell::{default_cell, erase_cell, Cell, Flags};
use crate::text_buffer_cache::{blank_row, put_cell, scrolled};

verus! {

/// The most bytes that wait in the report queue; a report that would not fit
/// is dropped whole.
pub const REPORT_CAPACITY: usize = 64;

/// What the terminal holds: the grid, the cursor and the saved cursor, the
/// style template, the auto-wrap flag and the queue of outbound reports.
pub struct TermState {
    pub width: nat,
    pub height: nat,
    pub grid: Seq<Seq<Cell>>,
    pub row: int,
    pub col: int,
    pub saved_row: int,
    pub saved_col: int,
    pub temp: Cell,
    pub auto_wrap: bool,
    pub report: Seq<u8>,
}

/// The state is consistent: the grid has the stated size, the cursor and the
/// saved cursor lie on it (the column may equal the width while a wrap is
/// pending), the template's flags are defined ones, and the report queue is
/// within its capacity.
pub open spec fn state_wf(s: TermState) -> bool {
    &&& s.width > 0
    &&& s.height > 0
    &&& s.grid.len() == s.height
    &&& forall|r: int| 0 <= r < s.height ==> (#[trigger] s.grid[r]).len() == s.width
    &&& 0 <= s.row < s.height
    &&& 0 <= s.col <= s.width
    &&& 0 <= s.saved_row < s.height
    &&& 0 <= s.saved_col <= s.width
    &&& s.temp.flags.valid()
    &&& s.report.len() <= REPORT_CAPACITY
}

/// A fresh terminal of the given size.
pub open spec fn initial_state(width: nat, height: nat) -> TermState {
    TermState {
        width,
        height,
        grid: Seq::new(height, |_i: int| blank_row(width, default_cell())),
        row: 0,
        col: 0,
        saved_row: 0,
        saved_col: 0,
        temp: default_cell(),
        auto_wrap: true,
        report: seq![],
    }
}

pub open spec fn min(a: int, b: int) -> int {
    if a <= b {
        a
    } else {
        b
    }
}

pub open spec fn max(a: int, b: int) -> int {
    if a >= b {
        a
    } else {
        b
    }
}

/// Row `row` of `grid` with the columns in `from..to` set to `cell`.
pub open spec fn fill_row(grid: Seq<Seq<Cell>>, row: int, from: int, to: int, cell: Cell) -> Seq<
    Seq<Cell>,
> {
    grid.update(
        row,
        Seq::new(grid[row].len(), |j: int| if from <= j < to { cell } else { grid[row][j] }),
    )
}

/// `grid` with the rows in `from..to` set to rows of `cell`.
pub open spec fn fill_rows(grid: Seq<Seq<Cell>>, width: nat, from: int, to: int, cell: Cell) -> Seq<
    Seq<Cell>,
> {
    Seq::new(grid.len(), |r: int| if from <= r < to { blank_row(width, cell) } else { grid[r] })
}

/// The cell that erasing writes.
pub open spec fn erase_of(s: TermState) -> Cell {
    erase_cell(s.temp)
}

/// Moves the cursor to `(row, col)`, clamped to the last row and to the width.
pub open spec fn goto(s: TermState, row: int, col: int) -> TermState {
    TermState { row: min(row, s.height - 1), col: min(col, s.width as int), ..s }
}

pub open spec fn goto_line(s: TermState, row: int) -> TermState {
    goto(s, row, s.col)
}

pub open spec fn goto_col(s: TermState, col: int) -> TermState {
    goto(s, s.row, col)
}

pub open spec fn move_up(s: TermState, n: int) -> TermState {
    goto(s, max(s.row - n, 0), s.col)
}

pub open spec fn move_down(s: TermState, n: int) -> TermState {
    goto(s, min(s.row + n, s.height - 1), s.col)
}

pub open spec fn move_forward(s: TermState, n: int) -> TermState {
    TermState { col: min(s.col + n, s.width - 1), ..s }
}

pub open spec fn move_backward(s: TermState, n: int) -> TermState {
    TermState { col: max(s.col - n, 0), ..s }
}

pub open spec fn move_down_and_cr(s: TermState, n: int) -> TermState {
    goto(s, min(s.row + n, s.height - 1), 0)
}

pub open spec fn move_up_and_cr(s: TermState, n: int) -> TermState {
    goto(s, max(s.row - n, 0), 0)
}

/// The column where a tab from `col` stops: the next multiple of 8, or the width.
pub open spec fn tab_stop(col: int, width: int) -> int {
    min(col - col % 8 + 8, width)
}

/// One tab: fills the cells up to the next tab stop with the erase cell and
/// moves there; nothing at or past the right margin.
pub open spec fn tab(s: TermState) -> TermState {
    if s.col >= s.width {
        s
    } else {
        let stop = tab_stop(s.col, s.width as int);
        TermState { grid: fill_row(s.grid, s.row, s.col, stop, erase_of(s)), col: stop, ..s }
    }
}

pub open spec fn put_tab(s: TermState, count: nat) -> TermState
    decreases count,
{
    if count == 0 {
        s
    } else {
        put_tab(tab(s), (count - 1) as nat)
    }
}

pub open spec fn backspace(s: TermState) -> TermState {
    if s.col > 0 {
        TermState { col: s.col - 1, ..s }
    } else {
        s
    }
}

pub open spec fn carriage_return(s: TermState) -> TermState {
    TermState { col: 0, ..s }
}

/// Next line, first column; on the last row the grid scrolls up by one and
/// the new bottom row is the erase cell.
pub open spec fn linefeed(s: TermState) -> TermState {
    if s.row < s.height - 1 {
        TermState { row: s.row + 1, col: 0, ..s }
    } else {
        TermState { grid: scrolled(s.grid, s.width, erase_of(s)), col: 0, ..s }
    }
}

/// A printed character: the template with `c` at the cursor, which then moves
/// right. At the right margin it first wraps to the next line, or the
/// character is dropped when auto-wrap is off.
pub open spec fn input(s: TermState, c: char) -> TermState {
    if s.col >= s.width && !s.auto_wrap {
        s
    } else {
        let t = if s.col >= s.width {
            linefeed(s)
        } else {
            s
        };
        TermState {
            grid: put_cell(t.grid, t.row, t.col, Cell { c, ..t.temp }),
            col: t.col + 1,
            ..t
        }
    }
}

/// Erases `n` cells from the cursor on, within the row.
pub open spec fn erase_chars(s: TermState, n: int) -> TermState {
    TermState {
        grid: fill_row(s.grid, s.row, s.col, min(s.col + n, s.width as int), erase_of(s)),
        ..s
    }
}

/// The shift of `delete_chars`: at most the rest of the row.
pub open spec fn delete_count(s: TermState, n: int) -> int {
    min(n, s.width - s.col)
}

/// Deletes `n` cells at the cursor: the cells to their right move left and
/// the freed cells at the end of the row become the erase cell. Nothing
/// happens while the cursor is past the last column.
pub open spec fn delete_chars(s: TermState, n: int) -> TermState {
    if s.col >= s.width {
        s
    } else {
        let k = delete_count(s, n);
        let old_row = s.grid[s.row];
        TermState {
            grid: s.grid.update(
                s.row,
                Seq::new(
                    s.width,
                    |j: int|
                        if j < s.col {
                            old_row[j]
                        } else if j < s.width - k {
                            old_row[j + k]
                        } else {
                            erase_of(s)
                        },
                ),
            ),
            ..s
        }
    }
}

pub open spec fn save_cursor(s: TermState) -> TermState {
    TermState { saved_row: s.row, saved_col: s.col, ..s }
}

pub open spec fn restore_cursor(s: TermState) -> TermState {
    TermState { row: s.saved_row, col: s.saved_col, ..s }
}

/// Erases part of the cursor's row: right of the cursor, left of it up to and
/// including its column, or all of it.
pub open spec fn clear_line(s: TermState, mode: LineClearMode) -> TermState {
    let e = erase_of(s);
    let g = match mode {
        LineClearMode::Right => fill_row(s.grid, s.row, s.col, s.width as int, e),
        LineClearMode::Left => fill_row(s.grid, s.row, 0, min(s.col + 1, s.width as int), e),
        LineClearMode::All => fill_row(s.grid, s.row, 0, s.width as int, e),
    };
    TermState { grid: g, ..s }
}

/// Erases part of the screen: from the cursor to the end, from the start up
/// to and including the cursor, or all of it (which also homes the cursor).
pub open spec fn clear_screen(s: TermState, mode: ClearMode) -> TermState {
    let e = erase_of(s);
    match mode {
        ClearMode::Below => TermState {
            grid: fill_rows(
                fill_row(s.grid, s.row, s.col, s.width as int, e),
                s.width,
                s.row + 1,
                s.height as int,
                e,
            ),
            ..s
        },
        ClearMode::Above => TermState {
            grid: fill_row(
                fill_rows(s.grid, s.width, 0, s.row, e),
                s.row,
                0,
                min(s.col + 1, s.width as int),
                e,
            ),
            ..s
        },
        ClearMode::All => TermState {
            grid: Seq::new(s.height, |_i: int| blank_row(s.width, e)),
            row: 0,
            col: 0,
            ..s
        },
        ClearMode::Saved => s,
    }
}

/// The template with its flag bits set to `bits`.
pub open spec fn with_flags(t: Cell, bits: u16) -> Cell {
    Cell { flags: Flags { bits }, ..t }
}

pub open spec fn set_bits(t: Cell, mask: u16) -> Cell {
    with_flags(t, t.flags.bits | mask)
}

pub open spec fn clear_bits(t: Cell, mask: u16) -> Cell {
    with_flags(t, t.flags.bits & !mask)
}

/// What an attribute does to the style template.
pub open spec fn apply_attr(t: Cell, attr: Attr) -> Cell {
    match attr {
        Attr::Foreground(c) => Cell { fg: c, ..t },
        Attr::Background(c) => Cell { bg: c, ..t },
        Attr::Reset => default_cell(),
        Attr::Reverse => set_bits(t, Flags::INVERSE),
        Attr::CancelReverse => clear_bits(t, Flags::INVERSE),
        Attr::Bold => set_bits(t, Flags::BOLD),
        Attr::CancelBold => clear_bits(t, Flags::BOLD),
        Attr::Dim => set_bits(t, Flags::DIM),
        Attr::CancelBoldDim => clear_bits(t, Flags::DIM_BOLD),
        Attr::Italic => set_bits(t, Flags::ITALIC),
        Attr::CancelItalic => clear_bits(t, Flags::ITALIC),
        Attr::Underline => set_bits(t, Flags::UNDERLINE),
        Attr::CancelUnderline => clear_bits(t, Flags::UNDERLINE),
        Attr::Hidden => set_bits(t, Flags::HIDDEN),
        Attr::CancelHidden => clear_bits(t, Flags::HIDDEN),
        Attr::Strike => set_bits(t, Flags::STRIKEOUT),
        Attr::CancelStrike => clear_bits(t, Flags::STRIKEOUT),
        _ => t,
    }
}

/// Applies the attributes in order, skipping the parameters that selected none.
pub open spec fn apply_attrs(t: Cell, attrs: Seq<Option<Attr>>) -> Cell
    decreases attrs.len(),
{
    if attrs.len() == 0 {
        t
    } else {
        let before = apply_attrs(t, attrs.drop_last());
        match attrs.last() {
            Some(a) => apply_attr(before, a),
            None => before,
        }
    }
}

pub open spec fn terminal_attribute(s: TermState, attr: Attr) -> TermState {
    TermState { temp: apply_attr(s.temp, attr), ..s }
}

/// Set mode (`set == true`) or reset mode: only the line wrap mode has an effect.
pub open spec fn change_mode(s: TermState, mode: Mode, set: bool) -> TermState {
    if mode == Mode::LineWrap {
        TermState { auto_wrap: set, ..s }
    } else {
        s
    }
}

/// The decimal digits of `n` in ASCII, without leading zeros.
pub open spec fn decimal(n: nat) -> Seq<u8>
    decreases n,
{
    if n < 10 {
        seq![(48 + n) as u8]
    } else {
        decimal(n / 10).push((48 + n % 10) as u8)
    }
}

/// Appends `msg` to the report queue when it fits, else drops it.
pub open spec fn enqueue_report(s: TermState, msg: Seq<u8>) -> TermState {
    if s.report.len() + msg.len() <= REPORT_CAPACITY {
        TermState { report: s.report + msg, ..s }
    } else {
        s
    }
}

/// The answer to a device status report: `ESC [ 0 n` for 5, the cursor
/// position `ESC [ row ; col R` (1-based) for 6, nothing otherwise.
pub open spec fn status_report(s: TermState, arg: int) -> Seq<u8> {
    if arg == 5 {
        seq![0x1bu8, 0x5bu8, 0x30u8, 0x6eu8]
    } else if arg == 6 {
        seq![0x1bu8, 0x5bu8] + decimal((s.row + 1) as nat) + seq![0x3bu8] + decimal(
            (s.col + 1) as nat,
        ) + seq![0x52u8]
    } else {
        seq![]
    }
}

pub open spec fn device_status(s: TermState, arg: int) -> TermState {
    if arg == 5 || arg == 6 {
        enqueue_report(s, status_report(s, arg))
    } else {
        s
    }
}

/// A C0 control: HT, BS, CR, and LF, VT, FF; the others do nothing.
pub open spec fn execute(s: TermState, byte: u8) -> TermState {
    if byte == 0x09 {
        put_tab(s, 1)
    } else if byte == 0x08 {
        backspace(s)
    } else if byte == 0x0d {
        carriage_return(s)
    } else if byte == 0x0a || byte == 0x0b || byte == 0x0c {
        linefeed(s)
    } else {
        s
    }
}

/// ESC 7 saves the cursor and ESC 8 restores it; other escapes do nothing.
pub open spec fn esc_dispatch(s: TermState, intermediates: Seq<u8>, byte: u8) -> TermState {
    if intermediates.len() == 0 && byte == 0x37 {
        save_cursor(s)
    } else if intermediates.len() == 0 && byte == 0x38 {
        restore_cursor(s)
    } else {
        s
    }
}

/// Parameter `i`, or `default` when it is missing or 0.
pub open spec fn param_or(groups: Seq<Seq<u16>>, i: int, default: int) -> int {
    if i < groups.len() && first_of(groups[i]) != 0 {
        first_of(groups[i]) as int
    } else {
        default
    }
}

/// Whether one of the parameters selects the line wrap mode.
pub open spec fn selects_line_wrap(groups: Seq<Seq<u16>>, intermediate: Option<u8>) -> bool {
    exists|i: int|
        0 <= i < groups.len() && mode_of(intermediate, first_of(#[trigger] groups[i])) == Some(
            Mode::LineWrap,
        )
}

pub open spec fn first_intermediate(intermediates: Seq<u8>) -> Option<u8> {
    if intermediates.len() > 0 {
        Some(intermediates[0])
    } else {
        None
    }
}

/// A control sequence with final character `action`. Sequences that dropped
/// bytes, carry more than one intermediate byte, or an intermediate byte other
/// than the private marker `?`, do nothing.
pub open spec fn csi_dispatch(
    s: TermState,
    groups: Seq<Seq<u16>>,
    intermediates: Seq<u8>,
    ignore: bool,
    action: char,
) -> TermState {
    let plain = intermediates.len() == 0;
    let n = param_or(groups, 0, 1);
    if ignore || intermediates.len() > 1 {
        s
    } else if action == 'h' || action == 'l' {
        if selects_line_wrap(groups, first_intermediate(intermediates)) {
            change_mode(s, Mode::LineWrap, action == 'h')
        } else {
            s
        }
    } else if action == 'm' {
        if !plain && intermediates[0] != 0x3f {
            s
        } else if groups.len() == 0 {
            terminal_attribute(s, Attr::Reset)
        } else {
            TermState { temp: apply_attrs(s.temp, sgr_attrs(groups)), ..s }
        }
    } else if !plain {
        s
    } else if action == 'A' {
        move_up(s, n)
    } else if action == 'B' || action == 'e' {
        move_down(s, n)
    } else if action == 'C' || action == 'a' {
        move_forward(s, n)
    } else if action == 'D' {
        move_backward(s, n)
    } else if action == 'E' {
        move_down_and_cr(s, n)
    } else if action == 'F' {
        move_up_and_cr(s, n)
    } else if action == 'G' || action == '`' {
        goto_col(s, n - 1)
    } else if action == 'H' || action == 'f' {
        goto(s, n - 1, param_or(groups, 1, 1) - 1)
    } else if action == 'J' {
        let m = param_or(groups, 0, 0);
        if m == 0 {
            clear_screen(s, ClearMode::Below)
        } else if m == 1 {
            clear_screen(s, ClearMode::Above)
        } else if m == 2 {
            clear_screen(s, ClearMode::All)
        } else {
            s
        }
    } else if action == 'K' {
        let m = param_or(groups, 0, 0);
        if m == 0 {
            clear_line(s, LineClearMode::Right)
        } else if m == 1 {
            clear_line(s, LineClearMode::Left)
        } else if m == 2 {
            clear_line(s, LineClearMode::All)
        } else {
            s
        }
    } else if action == 'P' {
        delete_chars(s, n)
    } else if action == 'X' {
        erase_chars(s, n)
    } else if action == 'd' {
        goto_line(s, n - 1)
    } else if action == 'n' {
        device_status(s, param_or(groups, 0, 0))
    } else {
        s
    }
}

/// What one parser callback does to the terminal.
pub open spec fn perform(s: TermState, a: Action) -> TermState {
    match a {
        Action::Print(c) => input(s, c),
        Action::Execute(b) => execute(s, b),
        Action::CsiDispatch { params, intermediates, ignore, action } => csi_dispatch(
            s,
            groups_of(params@),
            intermediates@,
            ignore,
            action,
        ),
        Action::EscDispatch { intermediates, ignore, byte } => esc_dispatch(
            s,
            intermediates@,
            byte,
        ),
    }
}

/// The callbacks performed in order.
pub open spec fn perform_all(s: TermState, actions: Seq<Action>) -> TermState
    decreases actions.len(),
{
    if actions.len() == 0 {
        s
    } else {
        perform(perform_all(s, actions.drop_last()), actions.last())
    }
}

proof fn lemma_set_bits_valid(bits: u16, mask: u16)
    requires
        bits & !0x0FFFu16 == 0,
        mask <= 0x0FFF,
    ensures
        (bits | mask) & !0x0FFFu16 == 0,
{
    assert((bits | mask) & !0x0FFFu16 == 0) by (bit_vector)
        requires
            bits & !0x0FFFu16 == 0,
            mask <= 0x0FFF,
    ;
}

proof fn lemma_clear_bits_valid(bits: u16, mask: u16)
    requires
        bits & !0x0FFFu16 == 0,
    ensures
        (bits & !mask) & !0x0FFFu16 == 0,
{
    assert((bits & !mask) & !0x0FFFu16 == 0) by (bit_vector)
        requires
            bits & !0x0FFFu16 == 0,
    ;
}

/// Every attribute leaves the template's flags among the defined ones.
pub proof fn lemma_apply_attr_valid(t: Cell, attr: Attr)
    requires
        t.flags.valid(),
    ensures
        apply_attr(t, attr).flags.valid(),
{
    let b = t.flags.bits;
    match attr {
        Attr::Reset => {
            assert(0u16 & !0x0FFFu16 == 0) by (bit_vector);
        },
        Attr::Reverse => lemma_set_bits_valid(b, Flags::INVERSE),
        Attr::Bold => lemma_set_bits_valid(b, Flags::BOLD),
        Attr::Dim => lemma_set_bits_valid(b, Flags::DIM),
        Attr::Italic => lemma_set_bits_valid(b, Flags::ITALIC),
        Attr::Underline => lemma_set_bits_valid(b, Flags::UNDERLINE),
        Attr::Hidden => lemma_set_bits_valid(b, Flags::HIDDEN),
        Attr::Strike => lemma_set_bits_valid(b, Flags::STRIKEOUT),
        Attr::CancelReverse => lemma_clear_bits_valid(b, Flags::INVERSE),
        Attr::CancelBold => lemma_clear_bits_valid(b, Flags::BOLD),
        Attr::CancelBoldDim => lemma_clear_bits_valid(b, Flags::DIM_BOLD),
        Attr::CancelItalic => lemma_clear_bits_valid(b, Flags::ITALIC),
        Attr::CancelUnderline => lemma_clear_bits_valid(b, Flags::UNDERLINE),
        Attr::CancelHidden => lemma_clear_bits_valid(b, Flags::HIDDEN),
        Attr::CancelStrike => lemma_clear_bits_valid(b, Flags::STRIKEOUT),
        _ => {},
    }
}

/// A callback never changes the size of the terminal.
pub proof fn lemma_perform_keeps_size(s: TermState, a: Action)
    ensures
        perform(s, a).width == s.width,
        perform(s, a).height == s.height,
{
    reveal_with_fuel(put_tab, 2);
}

/// Callbacks performed in a row never change the size of the terminal.
pub proof fn lemma_perform_all_keeps_size(s: TermState, actions: Seq<Action>)
    ensures
        perform_all(s, actions).width == s.width,
        perform_all(s, actions).height == s.height,
    decreases actions.len(),
{
    if actions.len() > 0 {
        lemma_perform_all_keeps_size(s, actions.drop_last());
        lemma_perform_keeps_size(perform_all(s, actions.drop_last()), actions.last());
    }
}

/// Performing `a` and then `b` is performing `a + b`.
pub proof fn lemma_perform_all_concat(s: TermState, a: Seq<Action>, b: Seq<Action>)
    ensures
        perform_all(perform_all(s, a), b) == perform_all(s, a + b),
    decreases b.len(),
{
    if b.len() == 0 {
        assert(a + b =~= a);
    } else {
        lemma_perform_all_concat(s, a, b.drop_last());
        assert((a + b).drop_last() =~= a + b.drop_last());
        assert((a + b).last() == b.last());
    }
}

} // verus!
