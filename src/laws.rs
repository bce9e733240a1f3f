//! Properties that hold of the terminal across operations.
use vstd::prelude::*;

use crate::ansi::{groups_of, parsed, parsed_all, sgr_attrs, sgr_step, Action, Attr};
use crate::cell::{default_cell, Cell};
use crate::model::{
    apply_attrs, erase_of, initial_state, input, lemma_apply_attr_valid,
    lemma_perform_all_concat, linefeed, max,
    move_down, move_up, perform, perform_all, put_tab, state_wf, tab_stop, TermState,
};
use crate::text_buffer_cache::{blank_row, put_cell};

verus! {

/// After a write at `(row, col)`, reading `(r, c)` gives the written cell if
/// it is the same position and what was there before otherwise.
pub proof fn lemma_read_after_write(
    grid: Seq<Seq<Cell>>,
    row: int,
    col: int,
    cell: Cell,
    r: int,
    c: int,
)
    requires
        0 <= row < grid.len(),
        0 <= col < grid[row].len(),
        0 <= r < grid.len(),
        0 <= c < grid[r].len(),
    ensures
        put_cell(grid, row, col, cell)[r][c] == if r == row && c == col {
            cell
        } else {
            grid[r][c]
        },
{
}

/// A linefeed on the last row scrolls: the bottom row becomes the erase cell,
/// every other row takes the content of the row below it, and the cursor goes
/// to the first column of the last row.
pub proof fn lemma_linefeed_at_bottom(s: TermState)
    requires
        state_wf(s),
        s.row == s.height - 1,
    ensures
        linefeed(s).grid.len() == s.height,
        linefeed(s).grid[s.height - 1] == blank_row(s.width, erase_of(s)),
        forall|r: int| 0 <= r < s.height - 1 ==> #[trigger] linefeed(s).grid[r] == s.grid[r + 1],
        linefeed(s).row == s.height - 1,
        linefeed(s).col == 0,
{
}

/// `ESC [ 0 m`: the SGR sequence whose single parameter is 0.
pub open spec fn is_sgr_reset(a: Action) -> bool {
    &&& a matches Action::CsiDispatch { params, intermediates, ignore, action }
    &&& groups_of(params@) == seq![seq![0u16]]
    &&& intermediates@.len() == 0
    &&& !ignore
    &&& action == 'm'
}

/// Selecting the default rendition twice in a row is the same as once.
pub proof fn lemma_sgr_reset_idempotent(s: TermState, a: Action)
    requires
        is_sgr_reset(a),
    ensures
        perform(perform(s, a), a) == perform(s, a),
        perform(s, a) == (TermState { temp: default_cell(), ..s }),
{
    let gs = seq![seq![0u16]];
    assert(gs[0] =~= seq![0u16]);
    assert(gs[0][0] == 0);
    assert(sgr_step(gs) == (Some(Attr::Reset), 1int));
    assert(gs.skip(1) =~= Seq::<Seq<u16>>::empty());
    assert(sgr_attrs(gs.skip(1)) =~= Seq::<Option<Attr>>::empty());
    assert(sgr_attrs(gs) =~= seq![Some(Attr::Reset)]);
    assert(seq![Some(Attr::Reset)].drop_last() =~= Seq::<Option<Attr>>::empty());
}

/// `ESC 7`: save the cursor.
pub open spec fn is_save(a: Action) -> bool {
    a matches Action::EscDispatch { intermediates, byte, .. } && intermediates@.len() == 0 && byte
        == 0x37
}

/// `ESC 8`: restore the cursor.
pub open spec fn is_restore(a: Action) -> bool {
    a matches Action::EscDispatch { intermediates, byte, .. } && intermediates@.len() == 0 && byte
        == 0x38
}

/// Only a save changes the saved cursor.
pub proof fn lemma_saved_cursor_kept(s: TermState, a: Action)
    requires
        !is_save(a),
    ensures
        perform(s, a).saved_row == s.saved_row,
        perform(s, a).saved_col == s.saved_col,
{
    reveal_with_fuel(put_tab, 2);
}

proof fn lemma_saved_cursor_kept_all(s: TermState, actions: Seq<Action>)
    requires
        forall|i: int| 0 <= i < actions.len() ==> !is_save(#[trigger] actions[i]),
    ensures
        perform_all(s, actions).saved_row == s.saved_row,
        perform_all(s, actions).saved_col == s.saved_col,
    decreases actions.len(),
{
    if actions.len() > 0 {
        let init = actions.drop_last();
        assert forall|i: int| 0 <= i < init.len() implies !is_save(#[trigger] init[i]) by {
            assert(init[i] == actions[i]);
        }
        lemma_saved_cursor_kept_all(s, init);
        assert(!is_save(actions[actions.len() - 1]));
        lemma_saved_cursor_kept(perform_all(s, init), actions.last());
    }
}

/// `ESC 7`, then any callbacks but another save, then `ESC 8` puts the cursor
/// back where it was at the save.
pub proof fn lemma_save_restore(s: TermState, save: Action, between: Seq<Action>, restore: Action)
    requires
        is_save(save),
        is_restore(restore),
        forall|i: int| 0 <= i < between.len() ==> !is_save(#[trigger] between[i]),
    ensures
        perform(perform_all(perform(s, save), between), restore).row == s.row,
        perform(perform_all(perform(s, save), between), restore).col == s.col,
{
    lemma_saved_cursor_kept_all(perform(s, save), between);
}

/// Moving down `n` rows and then up `n` rows never ends below the start, and
/// returns to the starting row when the move down was not cut short by the
/// last row. The column does not change.
pub proof fn lemma_down_then_up(s: TermState, n: int)
    requires
        state_wf(s),
        n >= 0,
    ensures
        move_up(move_down(s, n), n).row <= s.row,
        s.row + n <= s.height - 1 ==> move_up(move_down(s, n), n).row == s.row,
        move_up(move_down(s, n), n).col == s.col,
{
}

/// Applying attributes keeps the template's flags among the defined ones.
pub proof fn lemma_attrs_keep_template_valid(t: Cell, attrs: Seq<Option<Attr>>)
    requires
        t.flags.valid(),
    ensures
        apply_attrs(t, attrs).flags.valid(),
    decreases attrs.len(),
{
    if attrs.len() > 0 {
        lemma_attrs_keep_template_valid(t, attrs.drop_last());
        if let Some(a) = attrs.last() {
            lemma_apply_attr_valid(apply_attrs(t, attrs.drop_last()), a);
        }
    }
}

/// Whatever the parameter list, SGR leaves the template valid: its colors are
/// colors by construction and its flags stay among the defined ones.
pub proof fn lemma_sgr_keeps_template_valid(t: Cell, groups: Seq<Seq<u16>>)
    requires
        t.flags.valid(),
    ensures
        apply_attrs(t, sgr_attrs(groups)).flags.valid(),
{
    lemma_attrs_keep_template_valid(t, sgr_attrs(groups));
}

/// `actions` prints `text`: one print per character, in order.
pub open spec fn prints(actions: Seq<Action>, text: Seq<char>) -> bool {
    &&& actions.len() == text.len()
    &&& forall|i: int| 0 <= i < text.len() ==> #[trigger] actions[i] == Action::Print(text[i])
}

/// The number of lines that `n` characters fill at `width` per line; at least one.
pub open spec fn text_lines(n: int, width: int) -> int {
    if n == 0 {
        1
    } else {
        (n + width - 1) / width
    }
}

/// The first line still on screen when `n` characters fill `text_lines` lines
/// of a screen `height` rows high.
pub open spec fn text_top(n: int, width: int, height: int) -> int {
    max(0, text_lines(n, width) - height)
}

/// Character `k` of the laid-out text in the default style, or a blank past its end.
pub open spec fn naive_cell(text: Seq<char>, k: int) -> Cell {
    if 0 <= k < text.len() {
        Cell { c: text[k], ..default_cell() }
    } else {
        default_cell()
    }
}

/// A fresh terminal after `text`, computed directly: the text cut into lines
/// of `width` characters, the last `height` lines on screen, the cursor just
/// after the last character.
pub open spec fn naive_state(width: nat, height: nat, text: Seq<char>) -> TermState {
    let n = text.len() as int;
    let lines = text_lines(n, width as int);
    let top = text_top(n, width as int, height as int);
    TermState {
        grid: Seq::new(
            height,
            |r: int| Seq::new(width, |c: int| naive_cell(text, (top + r) * width + c)),
        ),
        row: lines - 1 - top,
        col: n - (lines - 1) * width,
        ..initial_state(width, height)
    }
}

proof fn lemma_lines_unique(m: int, w: int, q: int)
    requires
        m > 0,
        w > 0,
        (q - 1) * w < m <= q * w,
    ensures
        text_lines(m, w) == q,
{
    let d = (m + w - 1) / w;
    vstd::arithmetic::div_mod::lemma_fundamental_div_mod(m + w - 1, w);
    let r = (m + w - 1) % w;
    vstd::arithmetic::div_mod::lemma_mod_pos_bound(m + w - 1, w);
    assert(m + w - 1 == w * d + r);
    assert(d < q + 1) by (nonlinear_arith)
        requires
            m + w - 1 == w * d + r,
            0 <= r,
            m <= q * w,
            w > 0,
    ;
    assert(d > q - 1) by (nonlinear_arith)
        requires
            m + w - 1 == w * d + r,
            r < w,
            (q - 1) * w < m,
            w > 0,
    ;
}

proof fn lemma_lines_bounds(n: int, w: int)
    requires
        n > 0,
        w > 0,
    ensures
        text_lines(n, w) >= 1,
        (text_lines(n, w) - 1) * w < n <= text_lines(n, w) * w,
{
    let d = (n + w - 1) / w;
    vstd::arithmetic::div_mod::lemma_fundamental_div_mod(n + w - 1, w);
    let r = (n + w - 1) % w;
    vstd::arithmetic::div_mod::lemma_mod_pos_bound(n + w - 1, w);
    assert(n + w - 1 == w * d + r);
    assert(d >= 1) by (nonlinear_arith)
        requires
            n + w - 1 == w * d + r,
            r < w,
            n > 0,
            w > 0,
    ;
    assert((d - 1) * w < n <= d * w) by (nonlinear_arith)
        requires
            n + w - 1 == w * d + r,
            0 <= r < w,
    ;
}

/// Printing one more character moves the naive layout on by one character.
proof fn lemma_print_step(w: nat, h: nat, t: Seq<char>, ch: char)
    requires
        w > 0,
        h > 0,
    ensures
        input(naive_state(w, h, t), ch) == naive_state(w, h, t.push(ch)),
{
    let wi = w as int;
    let hi = h as int;
    let s = naive_state(w, h, t);
    let t2 = t.push(ch);
    let s2 = naive_state(w, h, t2);
    let n = t.len() as int;
    let lines = text_lines(n, wi);
    let top = text_top(n, wi, hi);
    let lines2 = text_lines(n + 1, wi);
    let top2 = text_top(n + 1, wi, hi);
    let next = input(s, ch);
    assert forall|k: int| k != n implies #[trigger] naive_cell(t2, k) == naive_cell(t, k) by {
        if 0 <= k < n {
            assert(t2[k] == t[k]);
        }
    }
    assert(naive_cell(t2, n) == Cell { c: ch, ..default_cell() });
    if n == 0 {
        assert((1 - 1) * wi < 1 <= 1 * wi) by (nonlinear_arith)
            requires
                wi > 0,
        ;
        lemma_lines_unique(1, wi, 1);
        assert(top == 0 && top2 == 0);
        assert(s.row == 0 && s.col == 0);
        assert(next.grid =~~= s2.grid) by {
            assert forall|r: int, c: int| 0 <= r < hi && 0 <= c < wi implies next.grid[r][c]
                == s2.grid[r][c] by {
                assert((top2 + r) * wi + c == r * wi + c);
                if r > 0 {
                    assert(r * wi + c > 0) by (nonlinear_arith)
                        requires
                            r > 0,
                            wi > 0,
                            c >= 0,
                    ;
                }
            }
        }
    } else {
        lemma_lines_bounds(n, wi);
        assert(0 < s.col <= wi) by (nonlinear_arith)
            requires
                (lines - 1) * wi < n <= lines * wi,
                s.col == n - (lines - 1) * wi,
        ;
        assert(s.row == lines - 1 - top);
        if s.col < wi {
            assert(n + 1 <= lines * wi) by (nonlinear_arith)
                requires
                    s.col == n - (lines - 1) * wi,
                    s.col < wi,
            ;
            lemma_lines_unique(n + 1, wi, lines);
            assert(top2 == top);
            assert((top + s.row) * wi + s.col == n) by (nonlinear_arith)
                requires
                    s.row == lines - 1 - top,
                    s.col == n - (lines - 1) * wi,
            ;
            assert(next.grid =~~= s2.grid) by {
                assert forall|r: int, c: int| 0 <= r < hi && 0 <= c < wi implies next.grid[r][c]
                    == s2.grid[r][c] by {
                    if r == s.row && c == s.col {
                    } else {
                        assert((top + r) * wi + c != n) by (nonlinear_arith)
                            requires
                                (top + s.row) * wi + s.col == n,
                                r != s.row || c != s.col,
                                0 <= c < wi,
                                0 <= s.col < wi,
                        ;
                    }
                }
            }
        } else {
            assert(n == lines * wi) by (nonlinear_arith)
                requires
                    s.col == n - (lines - 1) * wi,
                    s.col == wi,
            ;
            assert((lines + 1 - 1) * wi < n + 1 <= (lines + 1) * wi) by (nonlinear_arith)
                requires
                    n == lines * wi,
                    wi > 0,
            ;
            lemma_lines_unique(n + 1, wi, lines + 1);
            assert(n + 1 - lines * wi == 1);
            if lines < hi {
                assert(top == 0 && top2 == 0);
                assert(lines * wi + 0 == n);
                assert(next.grid =~~= s2.grid) by {
                    assert forall|r: int, c: int| 0 <= r < hi && 0 <= c < wi implies next.grid[r][c]
                        == s2.grid[r][c] by {
                        if r == lines && c == 0 {
                        } else {
                            assert(r * wi + c != n) by (nonlinear_arith)
                                requires
                                    n == lines * wi,
                                    r != lines || c != 0,
                                    0 <= c < wi,
                            ;
                        }
                    }
                }
            } else {
                assert(top == lines - hi && top2 == top + 1);
                assert(s.row == hi - 1);
                assert(next.grid =~~= s2.grid) by {
                    assert forall|r: int, c: int| 0 <= r < hi && 0 <= c < wi implies next.grid[r][c]
                        == s2.grid[r][c] by {
                        assert((top2 + r) * wi + c == (top + (r + 1)) * wi + c);
                        if r < hi - 1 {
                            assert((top + (r + 1)) * wi + c < n) by (nonlinear_arith)
                                requires
                                    n == lines * wi,
                                    top == lines - hi,
                                    r < hi - 1,
                                    c < wi,
                                    wi > 0,
                            ;
                        } else if c > 0 {
                            assert((top + (r + 1)) * wi + c > n) by (nonlinear_arith)
                                requires
                                    n == lines * wi,
                                    top == lines - hi,
                                    r == hi - 1,
                                    c > 0,
                                    wi > 0,
                            ;
                        } else {
                            assert((top + (r + 1)) * wi + c == n) by (nonlinear_arith)
                                requires
                                    n == lines * wi,
                                    top == lines - hi,
                                    r == hi - 1,
                                    c == 0,
                            ;
                        }
                    }
                }
            }
        }
    }
}

/// Printable text on a fresh terminal, with auto-wrap on, leaves the grid and
/// the cursor that laying the text out in lines of the terminal's width gives.
pub proof fn lemma_printable_text_layout(
    width: nat,
    height: nat,
    text: Seq<char>,
    actions: Seq<Action>,
)
    requires
        width > 0,
        height > 0,
        prints(actions, text),
    ensures
        perform_all(initial_state(width, height), actions) == naive_state(width, height, text),
    decreases text.len(),
{
    if text.len() == 0 {
        let s0 = initial_state(width, height);
        let s = naive_state(width, height, text);
        assert(s.grid =~~= s0.grid);
        assert(s.row == 0);
        assert(s.col == 0) by (nonlinear_arith)
            requires
                s.col == 0 - (1 - 1) * width,
        ;
        assert(s == s0);
    } else {
        let t = text.drop_last();
        let a = actions.drop_last();
        assert forall|i: int| 0 <= i < t.len() implies #[trigger] a[i] == Action::Print(t[i]) by {
            assert(a[i] == actions[i]);
            assert(t[i] == text[i]);
        }
        lemma_printable_text_layout(width, height, t, a);
        assert(actions.last() == Action::Print(text.last()));
        lemma_print_step(width, height, t, text.last());
        assert(t.push(text.last()) =~= text);
    }
}

/// Plain text as a list of lines that only grows: every line ever started
/// is kept, and the cursor is always on the last one.
pub struct PlainText {
    pub lines: Seq<Seq<Cell>>,
    pub col: int,
}

/// A default-style blank line.
pub open spec fn blank_line(width: nat) -> Seq<Cell> {
    blank_row(width, default_cell())
}

pub open spec fn plain_start(width: nat) -> PlainText {
    PlainText { lines: seq![blank_line(width)], col: 0 }
}

/// Starts a new line and moves to its first column.
pub open spec fn plain_newline(p: PlainText, width: nat) -> PlainText {
    PlainText { lines: p.lines.push(blank_line(width)), col: 0 }
}

/// Puts `c` at the cursor on the last line and moves right.
pub open spec fn plain_put(p: PlainText, c: char) -> PlainText {
    let last = p.lines.len() - 1;
    PlainText {
        lines: p.lines.update(last, p.lines[last].update(p.col, Cell { c, ..default_cell() })),
        col: p.col + 1,
    }
}

/// One step of plain text: a character, wrapping first at the right margin;
/// a line feed (LF, VT, FF); a carriage return; a backspace; a tab, which
/// blanks the cells up to the next tab stop. Other bytes do nothing.
pub open spec fn plain_step(p: PlainText, width: nat, a: Action) -> PlainText {
    let last = p.lines.len() - 1;
    match a {
        Action::Print(c) => if p.col >= width {
            plain_put(plain_newline(p, width), c)
        } else {
            plain_put(p, c)
        },
        Action::Execute(b) => if b == 0x0a || b == 0x0b || b == 0x0c {
            plain_newline(p, width)
        } else if b == 0x0d {
            PlainText { col: 0, ..p }
        } else if b == 0x08 {
            if p.col > 0 {
                PlainText { col: p.col - 1, ..p }
            } else {
                p
            }
        } else if b == 0x09 && p.col < width {
            let stop = tab_stop(p.col, width as int);
            PlainText {
                lines: p.lines.update(
                    last,
                    Seq::new(
                        width,
                        |j: int| if p.col <= j < stop { default_cell() } else { p.lines[last][j] },
                    ),
                ),
                col: stop,
            }
        } else {
            p
        },
        _ => p,
    }
}

pub open spec fn plain_run(width: nat, actions: Seq<Action>) -> PlainText
    decreases actions.len(),
{
    if actions.len() == 0 {
        plain_start(width)
    } else {
        plain_step(plain_run(width, actions.drop_last()), width, actions.last())
    }
}

/// The first line of plain text that a screen `height` rows high shows.
pub open spec fn plain_top(p: PlainText, height: nat) -> int {
    max(0, p.lines.len() - height)
}

/// What a fresh terminal shows of plain text: its last `height` lines, blank
/// rows under them while there are fewer, the cursor on the last line.
pub open spec fn plain_screen(p: PlainText, width: nat, height: nat) -> TermState {
    let top = plain_top(p, height);
    TermState {
        grid: Seq::new(
            height,
            |r: int|
                if top + r < p.lines.len() {
                    p.lines[top + r]
                } else {
                    blank_line(width)
                },
        ),
        row: p.lines.len() - 1 - top,
        col: p.col,
        ..initial_state(width, height)
    }
}

pub open spec fn plain_wf(p: PlainText, width: nat) -> bool {
    &&& p.lines.len() >= 1
    &&& forall|i: int| 0 <= i < p.lines.len() ==> (#[trigger] p.lines[i]).len() == width
    &&& 0 <= p.col <= width
}

/// A callback that plain text makes: a print or a control byte.
pub open spec fn is_plain(a: Action) -> bool {
    a is Print || a is Execute
}

proof fn lemma_plain_newline(p: PlainText, width: nat, height: nat)
    requires
        width > 0,
        height > 0,
        plain_wf(p, width),
    ensures
        linefeed(plain_screen(p, width, height)) == plain_screen(
            plain_newline(p, width),
            width,
            height,
        ),
        plain_wf(plain_newline(p, width), width),
{
    let s = plain_screen(p, width, height);
    let q = plain_newline(p, width);
    let s2 = plain_screen(q, width, height);
    let len = p.lines.len() as int;
    let top = plain_top(p, height);
    assert(erase_of(s) == default_cell());
    assert forall|i: int| 0 <= i < q.lines.len() implies (#[trigger] q.lines[i]).len() == width by {
        if i < len {
            assert(q.lines[i] == p.lines[i]);
        }
    }
    if len < height {
        assert(linefeed(s).grid =~= s2.grid) by {
            assert forall|r: int| 0 <= r < height implies #[trigger] linefeed(s).grid[r] == s2.grid[r] by {
                if r < len {
                    assert(q.lines[r] == p.lines[r]);
                }
            }
        }
    } else {
        assert(linefeed(s).grid =~= s2.grid) by {
            assert forall|r: int| 0 <= r < height implies #[trigger] linefeed(s).grid[r] == s2.grid[r] by {
                if r < height - 1 {
                    assert(q.lines[top + 1 + r] == p.lines[top + 1 + r]);
                }
            }
        }
    }
}

proof fn lemma_plain_put(p: PlainText, width: nat, height: nat, c: char)
    requires
        width > 0,
        height > 0,
        plain_wf(p, width),
        p.col < width,
    ensures
        input(plain_screen(p, width, height), c) == plain_screen(plain_put(p, c), width, height),
        plain_wf(plain_put(p, c), width),
{
    let s = plain_screen(p, width, height);
    let q = plain_put(p, c);
    let s2 = plain_screen(q, width, height);
    let len = p.lines.len() as int;
    let top = plain_top(p, height);
    assert forall|i: int| 0 <= i < q.lines.len() implies (#[trigger] q.lines[i]).len() == width by {}
    assert(input(s, c).grid =~= s2.grid) by {
        assert forall|r: int| 0 <= r < height implies #[trigger] input(s, c).grid[r] == s2.grid[r] by {}
    }
}

proof fn lemma_plain_step(p: PlainText, width: nat, height: nat, a: Action)
    requires
        width > 0,
        height > 0,
        plain_wf(p, width),
        is_plain(a),
    ensures
        perform(plain_screen(p, width, height), a) == plain_screen(
            plain_step(p, width, a),
            width,
            height,
        ),
        plain_wf(plain_step(p, width, a), width),
{
    let s = plain_screen(p, width, height);
    let len = p.lines.len() as int;
    let top = plain_top(p, height);
    let last = len - 1;
    match a {
        Action::Print(c) => {
            if p.col >= width {
                lemma_plain_newline(p, width, height);
                lemma_plain_put(plain_newline(p, width), width, height, c);
            } else {
                lemma_plain_put(p, width, height, c);
            }
        },
        Action::Execute(b) => {
            reveal_with_fuel(put_tab, 2);
            if b == 0x0a || b == 0x0b || b == 0x0c {
                lemma_plain_newline(p, width, height);
            } else if b == 0x09 && p.col < width {
                let q = plain_step(p, width, a);
                let s2 = plain_screen(q, width, height);
                assert(erase_of(s) == default_cell());
                assert forall|i: int| 0 <= i < q.lines.len() implies (#[trigger] q.lines[i]).len()
                    == width by {}
                assert(perform(s, a).grid =~= s2.grid) by {
                    assert forall|r: int| 0 <= r < height implies #[trigger] perform(s, a).grid[r]
                        =~= s2.grid[r] by {}
                }
            }
        },
        _ => {},
    }
}

/// Text without escape sequences on a fresh terminal, with auto-wrap on,
/// shows what a list of lines that only grows holds: printed characters wrap
/// at the right margin, line feeds start a new line, carriage returns,
/// backspaces and tabs move along the last line; the screen shows the last
/// lines and the cursor stays on the last one.
pub proof fn lemma_plain_text_shown(width: nat, height: nat, actions: Seq<Action>)
    requires
        width > 0,
        height > 0,
        forall|i: int| 0 <= i < actions.len() ==> is_plain(#[trigger] actions[i]),
    ensures
        perform_all(initial_state(width, height), actions) == plain_screen(
            plain_run(width, actions),
            width,
            height,
        ),
        plain_wf(plain_run(width, actions), width),
    decreases actions.len(),
{
    if actions.len() == 0 {
        let s = plain_screen(plain_start(width), width, height);
        assert(s.grid =~= initial_state(width, height).grid);
    } else {
        let init = actions.drop_last();
        assert forall|i: int| 0 <= i < init.len() implies is_plain(#[trigger] init[i]) by {
            assert(init[i] == actions[i]);
        }
        lemma_plain_text_shown(width, height, init);
        assert(is_plain(actions[actions.len() - 1]));
        lemma_plain_step(plain_run(width, init), width, height, actions.last());
    }
}

/// `grid` after the writes `writes`, each a row, a column and a cell, in order.
pub open spec fn put_all(grid: Seq<Seq<Cell>>, writes: Seq<(int, int, Cell)>) -> Seq<Seq<Cell>>
    decreases writes.len(),
{
    if writes.len() == 0 {
        grid
    } else {
        let w = writes.last();
        put_cell(put_all(grid, writes.drop_last()), w.0, w.1, w.2)
    }
}

/// Every write lies on a grid of `height` rows of `width` cells.
pub open spec fn writes_within(writes: Seq<(int, int, Cell)>, width: nat, height: nat) -> bool {
    forall|i: int|
        0 <= i < writes.len() ==> 0 <= (#[trigger] writes[i]).0 < height && 0 <= writes[i].1 < width
}

pub open spec fn grid_shape(grid: Seq<Seq<Cell>>, width: nat, height: nat) -> bool {
    grid.len() == height && forall|r: int| 0 <= r < height ==> (#[trigger] grid[r]).len() == width
}

proof fn lemma_put_all_shape(grid: Seq<Seq<Cell>>, writes: Seq<(int, int, Cell)>, width: nat, height: nat)
    requires
        grid_shape(grid, width, height),
        writes_within(writes, width, height),
    ensures
        grid_shape(put_all(grid, writes), width, height),
    decreases writes.len(),
{
    if writes.len() > 0 {
        let init = writes.drop_last();
        assert(writes_within(init, width, height)) by {
            assert forall|i: int| 0 <= i < init.len() implies 0 <= (#[trigger] init[i]).0 < height
                && 0 <= init[i].1 < width by {
                assert(init[i] == writes[i]);
            }
        }
        lemma_put_all_shape(grid, init, width, height);
        assert(writes[writes.len() - 1] == writes.last());
    }
}

/// A read after any history of writes gives the cell of the most recent
/// write at that position: write `i` is at `(row, col)` and no later one is.
pub proof fn lemma_read_latest_write(
    grid: Seq<Seq<Cell>>,
    writes: Seq<(int, int, Cell)>,
    width: nat,
    height: nat,
    i: int,
)
    requires
        grid_shape(grid, width, height),
        writes_within(writes, width, height),
        0 <= i < writes.len(),
        forall|j: int|
            i < j < writes.len() ==> (#[trigger] writes[j]).0 != writes[i].0 || writes[j].1
                != writes[i].1,
    ensures
        put_all(grid, writes)[writes[i].0][writes[i].1] == writes[i].2,
    decreases writes.len(),
{
    let init = writes.drop_last();
    assert(writes_within(init, width, height)) by {
        assert forall|k: int| 0 <= k < init.len() implies 0 <= (#[trigger] init[k]).0 < height
            && 0 <= init[k].1 < width by {
            assert(init[k] == writes[k]);
        }
    }
    lemma_put_all_shape(grid, init, width, height);
    let last = writes.len() - 1;
    assert(writes[last] == writes.last());
    if i < last {
        assert forall|j: int| i < j < init.len() implies (#[trigger] init[j]).0 != init[i].0
            || init[j].1 != init[i].1 by {
            assert(init[j] == writes[j]);
        }
        assert(init[i] == writes[i]);
        lemma_read_latest_write(grid, init, width, height, i);
    }
}

/// Writing `a` and then `b` to a console is writing `a + b`: the callbacks
/// for the bytes of `b` are those that follow the bytes of `a`.
pub proof fn lemma_write_concat(s: TermState, fed: Seq<u8>, a: Seq<u8>, b: Seq<u8>)
    ensures
        perform_all(perform_all(s, parsed_all(fed, a)), parsed_all(fed + a, b)) == perform_all(
            s,
            parsed_all(fed, a + b),
        ),
    decreases b.len(),
{
    if b.len() == 0 {
        assert(a + b =~= a);
        assert(parsed_all(fed + a, b) =~= Seq::<Action>::empty());
    } else {
        let b0 = b.drop_last();
        lemma_write_concat(s, fed, a, b0);
        assert((a + b).drop_last() =~= a + b0);
        assert((a + b).last() == b.last());
        assert(fed + (a + b0) =~= (fed + a) + b0);
        lemma_perform_all_concat(
            perform_all(s, parsed_all(fed, a)),
            parsed_all(fed + a, b0),
            parsed((fed + a) + b0, b.last()),
        );
        lemma_perform_all_concat(s, parsed_all(fed, a + b0), parsed(fed + (a + b0), b.last()));
    }
}

} // verus!
