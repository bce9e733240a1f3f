//! The terminal state machine and the console that feeds it from the byte parser.
use vstd::prelude::*;

use std::collections::VecDeque;
use vstd::string::StringSliceAdditionalSpecFns;

use crate::ansi::{
    advance, parsed, parsed_all, ByteParser, attrs_from_sgr_parameters, first_of, groups_of, mode_of, sgr_attrs, Action, Attr,
    ClearMode, LineClearMode, Mode,
};
use crate::cell::{default_cell, Cell, Flags};
use crate::model::{
    apply_attrs, backspace, carriage_return, change_mode, clear_line, clear_screen, csi_dispatch,
    decimal, delete_chars, delete_count, device_status, erase_chars, erase_of, esc_dispatch,
    execute, fill_row, fill_rows, goto, goto_col, goto_line, initial_state, input,
    lemma_apply_attr_valid, lemma_perform_all_concat, lemma_perform_all_keeps_size, linefeed,
    min, move_backward, move_down, move_down_and_cr, move_forward, move_up, move_up_and_cr, param_or, perform, perform_all, put_tab,
    restore_cursor, save_cursor, selects_line_wrap, state_wf, status_report, tab,
    terminal_attribute, TermState, REPORT_CAPACITY,
};
use crate::text_buffer::TextBuffer;
use crate::text_buffer_cache::{blank_row, filled, put_cell, TextBufferCache};

verus! {

/// A cursor position, 0-based.
#[derive(Debug, Clone, Copy, PartialEq, Eq, Structural)]
pub struct Cursor {
    pub row: usize,
    pub col: usize,
}

/// The terminal state: the handler that the parser's callbacks drive.
pub struct ConsoleInner<T: TextBuffer> {
    /// cursor
    cursor: Cursor,
    /// Saved cursor
    saved_cursor: Cursor,
    /// current attribute template
    temp: Cell,
    /// character buffer
    buf: TextBufferCache<T>,
    /// auto wrap
    auto_wrap: bool,
    /// Reported data for CSI Device Status Report
    report: VecDeque<u8>,
}

/// Appends the decimal digits of `n` to `out`.
fn push_decimal(out: &mut Vec<u8>, n: u128)
    ensures
        final(out)@ == old(out)@ + decimal(n as nat),
    decreases n,
{
    if n >= 10 {
        push_decimal(out, n / 10);
    }
    let digit = (n % 10) as u8;
    out.push(48 + digit);
    proof {
        if n >= 10 {
            assert(decimal(n as nat) == decimal((n / 10) as nat).push((48 + n % 10) as u8));
        }
    }
    assert(final(out)@ =~= old(out)@ + decimal(n as nat));
}

impl<T: TextBuffer> ConsoleInner<T> {
    /// The state as a mathematical value.
    pub closed spec fn model(&self) -> TermState {
        TermState {
            width: self.buf.spec_width(),
            height: self.buf.spec_height(),
            grid: self.buf@,
            row: self.cursor.row as int,
            col: self.cursor.col as int,
            saved_row: self.saved_cursor.row as int,
            saved_col: self.saved_cursor.col as int,
            temp: self.temp,
            auto_wrap: self.auto_wrap,
            report: self.report@,
        }
    }

    pub closed spec fn wf(&self) -> bool {
        self.buf.wf() && state_wf(self.model())
    }

    /// A well-formed state is consistent.
    pub proof fn lemma_consistent(&self)
        requires
            self.wf(),
        ensures
            state_wf(self.model()),
    {
    }

    /// A fresh state over a well-formed cache that is still blank.
    pub fn new(buf: TextBufferCache<T>) -> (s: Self)
        requires
            buf.wf(),
            buf@ == filled(buf.spec_height(), buf.spec_width(), default_cell()),
        ensures
            s.wf(),
            s.model() == initial_state(buf.spec_width(), buf.spec_height()),
    {
        let s = ConsoleInner {
            cursor: Cursor { row: 0, col: 0 },
            saved_cursor: Cursor { row: 0, col: 0 },
            temp: Cell::default(),
            buf,
            auto_wrap: true,
            report: VecDeque::new(),
        };
        proof {
            s.buf.lemma_shape();
            assert(s.temp.flags.bits == 0);
            assert(0u16 & !0x0FFFu16 == 0) by (bit_vector);
            assert(s.model() =~= initial_state(buf.spec_width(), buf.spec_height()));
        }
        s
    }

    pub fn width(&self) -> (w: usize)
        requires
            self.wf(),
        ensures
            w == self.model().width,
    {
        self.buf.width()
    }

    pub fn height(&self) -> (h: usize)
        requires
            self.wf(),
        ensures
            h == self.model().height,
    {
        self.buf.height()
    }

    /// Writes `cell` at the columns `from..to` of `row`.
    fn fill(&mut self, row: usize, from: usize, to: usize, cell: Cell)
        requires
            old(self).wf(),
            row < old(self).model().height,
            from <= to <= old(self).model().width,
        ensures
            final(self).wf(),
            final(self).model() == (TermState {
                grid: fill_row(old(self).model().grid, row as int, from as int, to as int, cell),
                ..old(self).model()
            }),
    {
        let ghost m0 = self.model();
        let mut j = from;
        proof {
            self.buf.lemma_shape();
            assert(fill_row(m0.grid, row as int, from as int, from as int, cell) =~~= m0.grid);
        }
        while j < to
            invariant
                from <= j <= to,
                to <= m0.width,
                row < m0.height,
                state_wf(m0),
                self.buf.wf(),
                self.model() == (TermState {
                    grid: fill_row(m0.grid, row as int, from as int, j as int, cell),
                    ..m0
                }),
            decreases to - j,
        {
            let ghost g = self.buf@;
            self.buf.write(row, j, cell);
            proof {
                assert(put_cell(g, row as int, j as int, cell) =~~= fill_row(
                    m0.grid,
                    row as int,
                    from as int,
                    j + 1,
                    cell,
                ));
            }
            j = j + 1;
        }
        proof {
            self.buf.lemma_shape();
        }
    }

    /// Writes rows of `cell` over the rows `from..to`.
    fn fill_lines(&mut self, from: usize, to: usize, cell: Cell)
        requires
            old(self).wf(),
            from <= to <= old(self).model().height,
        ensures
            final(self).wf(),
            final(self).model() == (TermState {
                grid: fill_rows(
                    old(self).model().grid,
                    old(self).model().width,
                    from as int,
                    to as int,
                    cell,
                ),
                ..old(self).model()
            }),
    {
        let ghost m0 = self.model();
        let w = self.buf.width();
        let mut i = from;
        assert(fill_rows(m0.grid, m0.width, from as int, from as int, cell) =~= m0.grid);
        while i < to
            invariant
                from <= i <= to,
                to <= m0.height,
                w == m0.width,
                state_wf(m0),
                self.wf(),
                self.model() == (TermState {
                    grid: fill_rows(m0.grid, m0.width, from as int, i as int, cell),
                    ..m0
                }),
            decreases to - i,
        {
            let ghost g = self.model().grid;
            self.fill(i, 0, w, cell);
            proof {
                assert(fill_row(g, i as int, 0, w as int, cell) =~~= fill_rows(
                    m0.grid,
                    m0.width,
                    from as int,
                    i + 1,
                    cell,
                ));
            }
            i = i + 1;
        }
    }

    /// Set cursor to position.
    pub fn goto(&mut self, row: usize, col: usize)
        requires
            old(self).wf(),
        ensures
            final(self).wf(),
            final(self).model() == goto(old(self).model(), row as int, col as int),
    {
        let h = self.buf.height();
        let w = self.buf.width();
        let r = if row < h - 1 {
            row
        } else {
            h - 1
        };
        let c = if col < w {
            col
        } else {
            w
        };
        self.cursor = Cursor { row: r, col: c };
    }

    /// Set cursor to specific row.
    pub fn goto_line(&mut self, row: usize)
        requires
            old(self).wf(),
        ensures
            final(self).wf(),
            final(self).model() == goto_line(old(self).model(), row as int),
    {
        let col = self.cursor.col;
        self.goto(row, col)
    }

    /// Set cursor to specific column.
    pub fn goto_col(&mut self, col: usize)
        requires
            old(self).wf(),
        ensures
            final(self).wf(),
            final(self).model() == goto_col(old(self).model(), col as int),
    {
        let row = self.cursor.row;
        self.goto(row, col)
    }

    /// Move cursor up `rows`.
    pub fn move_up(&mut self, rows: usize)
        requires
            old(self).wf(),
        ensures
            final(self).wf(),
            final(self).model() == move_up(old(self).model(), rows as int),
    {
        let row = if self.cursor.row >= rows {
            self.cursor.row - rows
        } else {
            0
        };
        let col = self.cursor.col;
        self.goto(row, col)
    }

    /// The row `rows` below the cursor, clamped to the last row.
    fn row_below(&self, rows: usize) -> (r: usize)
        requires
            self.wf(),
        ensures
            r == min(self.model().row + rows, self.model().height - 1),
    {
        let h = self.buf.height();
        if rows < h - 1 - self.cursor.row {
            self.cursor.row + rows
        } else {
            h - 1
        }
    }

    /// Move cursor down `rows`.
    pub fn move_down(&mut self, rows: usize)
        requires
            old(self).wf(),
        ensures
            final(self).wf(),
            final(self).model() == move_down(old(self).model(), rows as int),
    {
        let row = self.row_below(rows);
        let col = self.cursor.col;
        self.goto(row, col)
    }

    /// Move cursor forward `cols`.
    pub fn move_forward(&mut self, cols: usize)
        requires
            old(self).wf(),
        ensures
            final(self).wf(),
            final(self).model() == move_forward(old(self).model(), cols as int),
    {
        let w = self.buf.width();
        let col = self.cursor.col;
        self.cursor.col = if col < w - 1 && cols <= w - 1 - col {
            col + cols
        } else {
            w - 1
        };
    }

    /// Move cursor backward `cols`.
    pub fn move_backward(&mut self, cols: usize)
        requires
            old(self).wf(),
        ensures
            final(self).wf(),
            final(self).model() == move_backward(old(self).model(), cols as int),
    {
        self.cursor.col = if self.cursor.col >= cols {
            self.cursor.col - cols
        } else {
            0
        };
    }

    /// Move cursor down `rows` and set to column 1.
    pub fn move_down_and_cr(&mut self, rows: usize)
        requires
            old(self).wf(),
        ensures
            final(self).wf(),
            final(self).model() == move_down_and_cr(old(self).model(), rows as int),
    {
        let row = self.row_below(rows);
        self.goto(row, 0)
    }

    /// Move cursor up `rows` and set to column 1.
    pub fn move_up_and_cr(&mut self, rows: usize)
        requires
            old(self).wf(),
        ensures
            final(self).wf(),
            final(self).model() == move_up_and_cr(old(self).model(), rows as int),
    {
        let row = if self.cursor.row >= rows {
            self.cursor.row - rows
        } else {
            0
        };
        self.goto(row, 0)
    }

    /// One tab.
    fn tab(&mut self)
        requires
            old(self).wf(),
        ensures
            final(self).wf(),
            final(self).model() == tab(old(self).model()),
    {
        let w = self.buf.width();
        let col = self.cursor.col;
        if col < w {
            let next = col - col % 8;
            let stop = if w - next > 8 {
                next + 8
            } else {
                w
            };
            let e = self.temp.bg();
            let row = self.cursor.row;
            self.fill(row, col, stop, e);
            self.cursor.col = stop;
        }
    }

    /// Put `count` tabs.
    pub fn put_tab(&mut self, count: u16)
        requires
            old(self).wf(),
        ensures
            final(self).wf(),
            final(self).model() == put_tab(old(self).model(), count as nat),
    {
        let mut k = count;
        while k > 0
            invariant
                self.wf(),
                put_tab(self.model(), k as nat) == put_tab(old(self).model(), count as nat),
            decreases k,
        {
            self.tab();
            k = k - 1;
        }
    }

    /// Backspace.
    pub fn backspace(&mut self)
        requires
            old(self).wf(),
        ensures
            final(self).wf(),
            final(self).model() == backspace(old(self).model()),
    {
        if self.cursor.col > 0 {
            self.cursor.col = self.cursor.col - 1;
        }
    }

    /// Carriage return.
    pub fn carriage_return(&mut self)
        requires
            old(self).wf(),
        ensures
            final(self).wf(),
            final(self).model() == carriage_return(old(self).model()),
    {
        self.cursor.col = 0;
    }

    /// Linefeed.
    pub fn linefeed(&mut self)
        requires
            old(self).wf(),
        ensures
            final(self).wf(),
            final(self).model() == linefeed(old(self).model()),
    {
        self.cursor.col = 0;
        if self.cursor.row < self.buf.height() - 1 {
            self.cursor.row = self.cursor.row + 1;
        } else {
            let e = self.temp.bg();
            self.buf.new_line(e);
            proof {
                self.buf.lemma_shape();
            }
        }
    }

    /// A character to be displayed.
    pub fn input(&mut self, c: char)
        requires
            old(self).wf(),
        ensures
            final(self).wf(),
            final(self).model() == input(old(self).model(), c),
    {
        if self.cursor.col >= self.buf.width() {
            if !self.auto_wrap {
                return;
            }
            self.linefeed();
        }
        let mut cell = self.temp;
        cell.c = c;
        let row = self.cursor.row;
        let col = self.cursor.col;
        self.buf.write(row, col, cell);
        self.cursor.col = col + 1;
        proof {
            self.buf.lemma_shape();
        }
    }

    /// Scroll up `rows` rows: not supported, nothing happens.
    pub fn scroll_up(&mut self, rows: usize)
        ensures
            *final(self) == *old(self),
    {
    }

    /// Scroll down `rows` rows: not supported, nothing happens.
    pub fn scroll_down(&mut self, rows: usize)
        ensures
            *final(self) == *old(self),
    {
    }

    /// Erase `count` chars in current line following cursor.
    pub fn erase_chars(&mut self, count: usize)
        requires
            old(self).wf(),
        ensures
            final(self).wf(),
            final(self).model() == erase_chars(old(self).model(), count as int),
    {
        let w = self.buf.width();
        let start = self.cursor.col;
        let end = if count < w - start {
            start + count
        } else {
            w
        };
        let e = self.temp.bg();
        let row = self.cursor.row;
        self.fill(row, start, end, e);
    }

    /// Delete `count` chars: everything right of them moves left.
    pub fn delete_chars(&mut self, count: usize)
        requires
            old(self).wf(),
        ensures
            final(self).wf(),
            final(self).model() == delete_chars(old(self).model(), count as int),
    {
        let ghost m0 = self.model();
        let columns = self.buf.width();
        let col = self.cursor.col;
        if col >= columns {
            return;
        }
        let k = if count < columns - col {
            count
        } else {
            columns - col
        };
        let row = self.cursor.row;
        let e = self.temp.bg();
        let ghost target = delete_chars(m0, count as int);
        let mut j = col;
        proof {
            self.buf.lemma_shape();
            let unchanged = Seq::new(
                columns as nat,
                |x: int|
                    if col <= x < col {
                        target.grid[row as int][x]
                    } else {
                        m0.grid[row as int][x]
                    },
            );
            assert(unchanged =~= m0.grid[row as int]);
            assert(m0.grid.update(row as int, unchanged) =~= m0.grid);
        }
        while j < columns
            invariant
                col <= j <= columns,
                columns == m0.width,
                col < columns,
                k == delete_count(m0, count as int),
                row == m0.row,
                col == m0.col,
                e == erase_of(m0),
                state_wf(m0),
                self.buf.wf(),
                target == delete_chars(m0, count as int),
                self.model() == (TermState {
                    grid: m0.grid.update(
                        row as int,
                        Seq::new(
                            columns as nat,
                            |x: int|
                                if col <= x < j {
                                    target.grid[row as int][x]
                                } else {
                                    m0.grid[row as int][x]
                                },
                        ),
                    ),
                    ..m0
                }),
            decreases columns - j,
        {
            proof {
                self.buf.lemma_shape();
            }
            let cell = if j < columns - k {
                self.buf.read(row, j + k)
            } else {
                e
            };
            let ghost g = self.buf@;
            proof {
                if j < columns - k {
                    assert(self.buf@[row as int][j + k] == m0.grid[row as int][j + k]);
                    assert(target.grid[row as int][j as int] == m0.grid[row as int][j + k]);
                } else {
                    assert(target.grid[row as int][j as int] == e);
                }
            }
            assert(cell == target.grid[row as int][j as int]);
            self.buf.write(row, j, cell);
            proof {
                let next_row = Seq::new(
                    columns as nat,
                    |x: int|
                        if col <= x < j + 1 {
                            target.grid[row as int][x]
                        } else {
                            m0.grid[row as int][x]
                        },
                );
                assert(g[row as int].update(j as int, cell) =~= next_row);
                assert(put_cell(g, row as int, j as int, cell) =~= m0.grid.update(
                    row as int,
                    next_row,
                ));
            }
            j = j + 1;
        }
        proof {
            self.buf.lemma_shape();
            assert(self.model().grid =~~= target.grid);
        }
    }

    /// Save current cursor position.
    pub fn save_cursor_position(&mut self)
        requires
            old(self).wf(),
        ensures
            final(self).wf(),
            final(self).model() == save_cursor(old(self).model()),
    {
        self.saved_cursor = self.cursor;
    }

    /// Restore cursor position.
    pub fn restore_cursor_position(&mut self)
        requires
            old(self).wf(),
        ensures
            final(self).wf(),
            final(self).model() == restore_cursor(old(self).model()),
    {
        self.cursor = self.saved_cursor;
    }

    /// Clear current line.
    pub fn clear_line(&mut self, mode: LineClearMode)
        requires
            old(self).wf(),
        ensures
            final(self).wf(),
            final(self).model() == clear_line(old(self).model(), mode),
    {
        let e = self.temp.bg();
        let w = self.buf.width();
        let row = self.cursor.row;
        let col = self.cursor.col;
        match mode {
            LineClearMode::Right => self.fill(row, col, w, e),
            LineClearMode::Left => {
                let end = if col < w {
                    col + 1
                } else {
                    w
                };
                self.fill(row, 0, end, e)
            },
            LineClearMode::All => self.fill(row, 0, w, e),
        }
    }

    /// Clear screen.
    pub fn clear_screen(&mut self, mode: ClearMode)
        requires
            old(self).wf(),
        ensures
            final(self).wf(),
            final(self).model() == clear_screen(old(self).model(), mode),
    {
        let e = self.temp.bg();
        let w = self.buf.width();
        let h = self.buf.height();
        let row = self.cursor.row;
        let col = self.cursor.col;
        match mode {
            ClearMode::Above => {
                self.fill_lines(0, row, e);
                let end = if col < w {
                    col + 1
                } else {
                    w
                };
                self.fill(row, 0, end, e);
            },
            ClearMode::Below => {
                self.fill(row, col, w, e);
                self.fill_lines(row + 1, h, e);
            },
            ClearMode::All => {
                self.buf.clear(e);
                self.cursor = Cursor { row: 0, col: 0 };
                proof {
                    self.buf.lemma_shape();
                    assert(self.model().grid =~= Seq::new(
                        h as nat,
                        |_i: int| blank_row(w as nat, e),
                    ));
                }
            },
            ClearMode::Saved => {},
        }
    }

    /// Set a terminal attribute.
    pub fn terminal_attribute(&mut self, attr: Attr)
        requires
            old(self).wf(),
        ensures
            final(self).wf(),
            final(self).model() == terminal_attribute(old(self).model(), attr),
    {
        match attr {
            Attr::Foreground(color) => self.temp.fg = color,
            Attr::Background(color) => self.temp.bg = color,
            Attr::Reset => self.temp = Cell::default(),
            Attr::Reverse => self.temp.flags.insert(Flags::INVERSE),
            Attr::CancelReverse => self.temp.flags.remove(Flags::INVERSE),
            Attr::Bold => self.temp.flags.insert(Flags::BOLD),
            Attr::CancelBold => self.temp.flags.remove(Flags::BOLD),
            Attr::Dim => self.temp.flags.insert(Flags::DIM),
            Attr::CancelBoldDim => self.temp.flags.remove(Flags::DIM_BOLD),
            Attr::Italic => self.temp.flags.insert(Flags::ITALIC),
            Attr::CancelItalic => self.temp.flags.remove(Flags::ITALIC),
            Attr::Underline => self.temp.flags.insert(Flags::UNDERLINE),
            Attr::CancelUnderline => self.temp.flags.remove(Flags::UNDERLINE),
            Attr::Hidden => self.temp.flags.insert(Flags::HIDDEN),
            Attr::CancelHidden => self.temp.flags.remove(Flags::HIDDEN),
            Attr::Strike => self.temp.flags.insert(Flags::STRIKEOUT),
            Attr::CancelStrike => self.temp.flags.remove(Flags::STRIKEOUT),
            _ => {},
        }
        proof {
            lemma_apply_attr_valid(old(self).temp, attr);
        }
    }

    /// Set mode.
    pub fn set_mode(&mut self, mode: Mode)
        requires
            old(self).wf(),
        ensures
            final(self).wf(),
            final(self).model() == change_mode(old(self).model(), mode, true),
    {
        if matches!(mode, Mode::LineWrap) {
            self.auto_wrap = true;
        }
    }

    /// Unset mode.
    pub fn unset_mode(&mut self, mode: Mode)
        requires
            old(self).wf(),
        ensures
            final(self).wf(),
            final(self).model() == change_mode(old(self).model(), mode, false),
    {
        if matches!(mode, Mode::LineWrap) {
            self.auto_wrap = false;
        }
    }

    /// DECSTBM - Set the terminal scrolling region: not supported, nothing happens.
    pub fn set_scrolling_region(&mut self, top: usize, bottom: Option<usize>)
        ensures
            *final(self) == *old(self),
    {
    }

    /// Report device status.
    pub fn device_status(&mut self, arg: usize)
        requires
            old(self).wf(),
        ensures
            final(self).wf(),
            final(self).model() == device_status(old(self).model(), arg as int),
    {
        let ghost m0 = self.model();
        let mut msg: Vec<u8> = Vec::new();
        if arg == 5 {
            msg.push(0x1b);
            msg.push(0x5b);
            msg.push(0x30);
            msg.push(0x6e);
        } else if arg == 6 {
            msg.push(0x1b);
            msg.push(0x5b);
            push_decimal(&mut msg, self.cursor.row as u128 + 1);
            msg.push(0x3b);
            push_decimal(&mut msg, self.cursor.col as u128 + 1);
            msg.push(0x52);
        } else {
            return;
        }
        assert(msg@ =~= status_report(m0, arg as int));
        if msg.len() <= REPORT_CAPACITY - self.report.len() {
            let mut i: usize = 0;
            while i < msg.len()
                invariant
                    i <= msg@.len(),
                    m0.report.len() + msg@.len() <= REPORT_CAPACITY,
                    self.buf.wf(),
                    self.model() == (TermState {
                        report: m0.report + msg@.subrange(0, i as int),
                        ..m0
                    }),
                decreases msg@.len() - i,
            {
                self.report.push_back(msg[i]);
                proof {
                    let before = m0.report + msg@.subrange(0, i as int);
                    assert(m0.report + msg@.subrange(0, i + 1) =~= before.push(msg@[i as int]));
                }
                i = i + 1;
            }
            assert(msg@.subrange(0, msg@.len() as int) =~= msg@);
        }
    }

    /// A C0 control byte.
    pub fn execute(&mut self, byte: u8)
        requires
            old(self).wf(),
        ensures
            final(self).wf(),
            final(self).model() == execute(old(self).model(), byte),
    {
        match byte {
            0x09 => self.put_tab(1),
            0x08 => self.backspace(),
            0x0d => self.carriage_return(),
            0x0a | 0x0b | 0x0c => self.linefeed(),
            _ => {},
        }
    }

    /// An escape sequence.
    pub fn esc_dispatch(&mut self, intermediates: &Vec<u8>, ignore: bool, byte: u8)
        requires
            old(self).wf(),
        ensures
            final(self).wf(),
            final(self).model() == esc_dispatch(old(self).model(), intermediates@, byte),
    {
        if intermediates.len() == 0 && byte == 0x37 {
            self.save_cursor_position();
        } else if intermediates.len() == 0 && byte == 0x38 {
            self.restore_cursor_position();
        }
    }

    /// Applies the SGR parameters `params` to the template.
    fn select_graphic_rendition(&mut self, params: &Vec<Vec<u16>>)
        requires
            old(self).wf(),
        ensures
            final(self).wf(),
            final(self).model() == (TermState {
                temp: apply_attrs(old(self).model().temp, sgr_attrs(groups_of(params@))),
                ..old(self).model()
            }),
    {
        let ghost m0 = self.model();
        let attrs = attrs_from_sgr_parameters(params);
        let mut i: usize = 0;
        assert(attrs@.take(0) =~= Seq::<Option<Attr>>::empty());
        while i < attrs.len()
            invariant
                i <= attrs@.len(),
                attrs@ == sgr_attrs(groups_of(params@)),
                self.wf(),
                self.model() == (TermState {
                    temp: apply_attrs(m0.temp, attrs@.take(i as int)),
                    ..m0
                }),
            decreases attrs@.len() - i,
        {
            proof {
                assert(attrs@.take(i + 1).drop_last() =~= attrs@.take(i as int));
            }
            match attrs[i] {
                Some(a) => self.terminal_attribute(a),
                None => {},
            }
            i = i + 1;
        }
        assert(attrs@.take(attrs@.len() as int) =~= attrs@);
    }

    /// A control sequence.
    pub fn csi_dispatch(
        &mut self,
        params: &Vec<Vec<u16>>,
        intermediates: &Vec<u8>,
        ignore: bool,
        action: char,
    )
        requires
            old(self).wf(),
        ensures
            final(self).wf(),
            final(self).model() == csi_dispatch(
                old(self).model(),
                groups_of(params@),
                intermediates@,
                ignore,
                action,
            ),
    {
        let ghost gs = groups_of(params@);
        if ignore || intermediates.len() > 1 {
            return;
        }
        let plain = intermediates.len() == 0;
        let n = param_or_default(params, 0, 1) as usize;
        if action == 'h' || action == 'l' {
            let first = if intermediates.len() > 0 {
                Some(&intermediates[0])
            } else {
                None
            };
            let found = selects_wrap(params, first);
            if found {
                if action == 'h' {
                    self.set_mode(Mode::LineWrap);
                } else {
                    self.unset_mode(Mode::LineWrap);
                }
            }
        } else if action == 'm' {
            if !plain && intermediates[0] != 0x3f {
            } else if params.len() == 0 {
                self.terminal_attribute(Attr::Reset);
            } else {
                self.select_graphic_rendition(params);
            }
        } else if !plain {
        } else if action == 'A' {
            self.move_up(n);
        } else if action == 'B' || action == 'e' {
            self.move_down(n);
        } else if action == 'C' || action == 'a' {
            self.move_forward(n);
        } else if action == 'D' {
            self.move_backward(n);
        } else if action == 'E' {
            self.move_down_and_cr(n);
        } else if action == 'F' {
            self.move_up_and_cr(n);
        } else if action == 'G' || action == '`' {
            self.goto_col(n - 1);
        } else if action == 'H' || action == 'f' {
            let x = param_or_default(params, 1, 1) as usize;
            self.goto(n - 1, x - 1);
        } else if action == 'J' {
            let m = param_or_default(params, 0, 0);
            if m == 0 {
                self.clear_screen(ClearMode::Below);
            } else if m == 1 {
                self.clear_screen(ClearMode::Above);
            } else if m == 2 {
                self.clear_screen(ClearMode::All);
            }
        } else if action == 'K' {
            let m = param_or_default(params, 0, 0);
            if m == 0 {
                self.clear_line(LineClearMode::Right);
            } else if m == 1 {
                self.clear_line(LineClearMode::Left);
            } else if m == 2 {
                self.clear_line(LineClearMode::All);
            }
        } else if action == 'P' {
            self.delete_chars(n);
        } else if action == 'X' {
            self.erase_chars(n);
        } else if action == 'd' {
            self.goto_line(n - 1);
        } else if action == 'n' {
            let m = param_or_default(params, 0, 0) as usize;
            self.device_status(m);
        }
    }

    /// One callback of the byte parser.
    pub fn perform(&mut self, action: &Action)
        requires
            old(self).wf(),
        ensures
            final(self).wf(),
            final(self).model() == perform(old(self).model(), *action),
    {
        match action {
            Action::Print(c) => self.input(*c),
            Action::Execute(b) => self.execute(*b),
            Action::CsiDispatch { params, intermediates, ignore, action } => {
                self.csi_dispatch(params, intermediates, *ignore, *action)
            },
            Action::EscDispatch { intermediates, ignore, byte } => {
                self.esc_dispatch(intermediates, *ignore, *byte)
            },
        }
    }
}

/// Parameter `i`, or `default` when it is missing or 0.
fn param_or_default(params: &Vec<Vec<u16>>, i: usize, default: u16) -> (r: u16)
    ensures
        r == param_or(groups_of(params@), i as int, default as int),
{
    if i < params.len() {
        let g = &params[i];
        let v = if g.len() > 0 {
            g[0]
        } else {
            0
        };
        if v != 0 {
            return v;
        }
    }
    default
}

/// Whether one of the parameters selects the line wrap mode.
fn selects_wrap(params: &Vec<Vec<u16>>, first: Option<&u8>) -> (r: bool)
    ensures
        r == selects_line_wrap(
            groups_of(params@),
            match first {
                Some(b) => Some(*b),
                None => None,
            },
        ),
{
    let ghost gs = groups_of(params@);
    let ghost im = match first {
        Some(b) => Some(*b),
        None => None,
    };
    let mut i: usize = 0;
    while i < params.len()
        invariant
            i <= params@.len(),
            gs == groups_of(params@),
            im == match first {
                Some(b) => Some(*b),
                None => None,
            },
            forall|k: int|
                0 <= k < i ==> mode_of(im, first_of(#[trigger] gs[k])) != Some(Mode::LineWrap),
        decreases params@.len() - i,
    {
        let g = &params[i];
        let v = if g.len() > 0 {
            g[0]
        } else {
            0
        };
        assert(v == first_of(gs[i as int]));
        let m = Mode::from_primitive(first, v);
        assert(m == mode_of(im, first_of(gs[i as int])));
        if matches!(m, Some(Mode::LineWrap)) {
            return true;
        }
        i = i + 1;
    }
    false
}

/// Console: bytes with control sequences in, cells on a [`TextBuffer`] out.
///
/// The console keeps the grid in a [`TextBufferCache`] over the buffer.
pub struct Console<T: TextBuffer> {
    /// ANSI escape sequence parser
    parser: ByteParser,
    /// Inner state
    inner: ConsoleInner<T>,
}

impl<T: TextBuffer> Console<T> {
    /// The console is well formed; every constructor makes it so and every
    /// method keeps it so.
    pub closed spec fn wf(&self) -> bool {
        self.inner.wf()
    }

    /// A well-formed console is in a consistent state.
    pub proof fn lemma_consistent(&self)
        requires
            self.wf(),
        ensures
            state_wf(self.model()),
    {
    }

    /// The terminal state as a mathematical value.
    pub closed spec fn model(&self) -> TermState {
        self.inner.model()
    }

    /// The bytes written to the console since it was made.
    pub closed spec fn fed(&self) -> Seq<u8> {
        self.parser.fed()
    }

    fn on_cache(cache: TextBufferCache<T>) -> (c: Self)
        requires
            cache.wf(),
            cache@ == filled(cache.spec_height(), cache.spec_width(), default_cell()),
        ensures
            c.wf(),
            c.fed() == Seq::<u8>::empty(),
            c.model() == initial_state(cache.spec_width(), cache.spec_height()),
            state_wf(c.model()),
    {
        Console { parser: ByteParser::new(), inner: ConsoleInner::new(cache) }
    }

    /// Create a console on top of a [`TextBuffer`], with the size it reports.
    ///
    /// Returns `None` when the buffer reports no rows or no columns.
    pub fn on_text_buffer(buffer: T) -> (r: Option<Self>)
        ensures
            r matches Some(c) ==> {
                &&& c.wf()
                &&& c.model() == initial_state(c.model().width, c.model().height)
                &&& state_wf(c.model())
            },
    {
        match TextBufferCache::new(buffer) {
            Some(cache) => Some(Self::on_cache(cache)),
            None => None,
        }
    }

    /// Create a console on top of a [`TextBuffer`] with a cache layer; the same
    /// as [`Console::on_text_buffer`], as every console keeps its grid in a cache.
    pub fn on_cached_text_buffer(buffer: T) -> (r: Option<Self>)
        ensures
            r matches Some(c) ==> {
                &&& c.wf()
                &&& c.model() == initial_state(c.model().width, c.model().height)
                &&& state_wf(c.model())
            },
    {
        Self::on_text_buffer(buffer)
    }

    /// Create a console of `height` rows and `width` columns on top of a
    /// [`TextBuffer`].
    ///
    /// Returns `None` exactly when `width` or `height` is zero.
    pub fn with_size(buffer: T, width: usize, height: usize) -> (r: Option<Self>)
        ensures
            r is None <==> (width == 0 || height == 0),
            r matches Some(c) ==> c.wf() && c.model() == initial_state(width as nat, height as nat),
    {
        match TextBufferCache::with_size(buffer, width, height) {
            Some(cache) => Some(Self::on_cache(cache)),
            None => None,
        }
    }

    /// Performs one callback of the byte parser.
    pub fn perform(&mut self, action: &Action)
        requires
            old(self).wf(),
        ensures
            final(self).wf(),
            state_wf(final(self).model()),
            final(self).model() == perform(old(self).model(), *action),
    {
        self.inner.perform(action);
    }

    /// Write a single `byte` to console.
    ///
    /// The byte parser turns the byte into callbacks, which are performed in
    /// order; which callbacks a byte completes depends on the bytes before it.
    pub fn write_byte(&mut self, byte: u8)
        requires
            old(self).wf(),
        ensures
            final(self).wf(),
            state_wf(final(self).model()),
            final(self).model().width == old(self).model().width,
            final(self).model().height == old(self).model().height,
            final(self).fed() == old(self).fed().push(byte),
            final(self).model() == perform_all(old(self).model(), parsed(old(self).fed(), byte)),
    {
        let ghost m0 = self.inner.model();
        let actions = advance(&mut self.parser, byte);
        let mut i: usize = 0;
        assert(actions@.take(0) =~= Seq::<Action>::empty());
        while i < actions.len()
            invariant
                i <= actions@.len(),
                self.inner.wf(),
                self.inner.model() == perform_all(m0, actions@.take(i as int)),
                self.fed() == old(self).fed().push(byte),
            decreases actions@.len() - i,
        {
            self.inner.perform(&actions[i]);
            proof {
                assert(actions@.take(i + 1).drop_last() =~= actions@.take(i as int));
            }
            i = i + 1;
        }
        proof {
            assert(actions@.take(actions@.len() as int) =~= actions@);
            lemma_perform_all_keeps_size(m0, actions@);
        }
    }

    /// Write every byte of `s` to console, in order.
    pub fn write_str(&mut self, s: &str)
        requires
            old(self).wf(),
        ensures
            final(self).wf(),
            state_wf(final(self).model()),
            final(self).model().width == old(self).model().width,
            final(self).model().height == old(self).model().height,
            final(self).fed() == old(self).fed() + s.spec_bytes(),
            final(self).model() == perform_all(
                old(self).model(),
                parsed_all(old(self).fed(), s.spec_bytes()),
            ),
    {
        let ghost m0 = self.model();
        let ghost f0 = self.fed();
        let bytes = s.as_bytes();
        let mut i: usize = 0;
        proof {
            assert(bytes@.take(0) =~= Seq::<u8>::empty());
            assert(f0 + bytes@.take(0) =~= f0);
        }
        while i < bytes.len()
            invariant
                i <= bytes@.len(),
                self.wf(),
                state_wf(self.model()),
                self.model().width == m0.width,
                self.model().height == m0.height,
                self.fed() == f0 + bytes@.take(i as int),
                self.model() == perform_all(m0, parsed_all(f0, bytes@.take(i as int))),
            decreases bytes@.len() - i,
        {
            let ghost before = self.model();
            self.write_byte(bytes[i]);
            proof {
                let t = bytes@.take(i + 1);
                assert(t.drop_last() =~= bytes@.take(i as int));
                assert(t.last() == bytes@[i as int]);
                lemma_perform_all_concat(
                    m0,
                    parsed_all(f0, bytes@.take(i as int)),
                    parsed(f0 + bytes@.take(i as int), bytes@[i as int]),
                );
                assert(f0 + t =~= (f0 + bytes@.take(i as int)).push(bytes@[i as int]));
            }
            i = i + 1;
        }
        proof {
            assert(bytes@.take(i as int) =~= bytes@);
        }
    }

    /// Read result for some commands: the oldest byte of the report queue.
    pub fn pop_report(&mut self) -> (r: Option<u8>)
        requires
            old(self).wf(),
        ensures
            final(self).wf(),
            state_wf(final(self).model()),
            old(self).model().report.len() == 0 ==> r is None && final(self).model() == old(
                self,
            ).model(),
            old(self).model().report.len() > 0 ==> {
                &&& r == Some(old(self).model().report[0])
                &&& final(self).model() == (TermState {
                    report: old(self).model().report.drop_first(),
                    ..old(self).model()
                })
            },
    {
        let r = self.inner.report.pop_front();
        proof {
            assert(self.inner.report@ =~= old(self).inner.report@.drop_first() || r is None);
        }
        r
    }

    /// Number of rows.
    pub fn rows(&self) -> (r: usize)
        requires
            self.wf(),
        ensures
            r == self.model().height,
    {
        self.inner.height()
    }

    /// Number of columns.
    pub fn columns(&self) -> (c: usize)
        requires
            self.wf(),
        ensures
            c == self.model().width,
    {
        self.inner.width()
    }

    /// The cursor position as `(row, column)`.
    pub fn cursor(&self) -> (r: (usize, usize))
        requires
            self.wf(),
        ensures
            r.0 == self.model().row,
            r.1 == self.model().col,
    {
        (self.inner.cursor.row, self.inner.cursor.col)
    }

    /// The cell at `(row, col)`, or `None` off the grid.
    pub fn cell(&self, row: usize, col: usize) -> (r: Option<Cell>)
        requires
            self.wf(),
        ensures
            r is None <==> (row >= self.model().height || col >= self.model().width),
            r matches Some(c) ==> c == self.model().grid[row as int][col as int],
    {
        if row < self.inner.buf.height() && col < self.inner.buf.width() {
            Some(self.inner.buf.read(row, col))
        } else {
            None
        }
    }
}

} // verus!
