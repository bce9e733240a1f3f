use embedded_term::cell::{Cell, Flags};
use embedded_term::color::{Color, NamedColor};
use embedded_term::{Console, TextBuffer};

/// A plain grid of cells in memory.
struct Screen {
    width: usize,
    height: usize,
    cells: Vec<Vec<Cell>>,
}

impl Screen {
    fn new(width: usize, height: usize) -> Screen {
        Screen { width, height, cells: vec![vec![Cell::default(); width]; height] }
    }
}

impl TextBuffer for Screen {
    fn width(&self) -> usize {
        self.width
    }

    fn height(&self) -> usize {
        self.height
    }

    fn read(&self, row: usize, col: usize) -> Cell {
        self.cells[row][col]
    }

    fn write(&mut self, row: usize, col: usize, cell: Cell) {
        if row < self.height && col < self.width {
            self.cells[row][col] = cell;
        }
    }
}

fn console(width: usize, height: usize) -> Console<Screen> {
    Console::on_text_buffer(Screen::new(width, height)).unwrap()
}

fn row_text(c: &Console<Screen>, row: usize) -> String {
    (0..c.columns()).map(|col| c.cell(row, col).unwrap().c).collect()
}

fn drain(c: &mut Console<Screen>) -> Vec<u8> {
    let mut out = Vec::new();
    while let Some(b) = c.pop_report() {
        out.push(b);
    }
    out
}

#[test]
fn newline_moves_to_next_row() {
    let mut c = console(8, 2);
    c.write_str("ab\ncd");
    assert_eq!(row_text(&c, 0), "ab      ");
    assert_eq!(row_text(&c, 1), "cd      ");
    assert_eq!(c.cursor(), (1, 2));
}

#[test]
fn cursor_home_keeps_text() {
    let mut c = console(8, 2);
    c.write_str("AB\x1b[H");
    assert_eq!(c.cursor(), (0, 0));
    assert_eq!(row_text(&c, 0), "AB      ");
}

#[test]
fn erase_display_all_blanks_and_homes() {
    let mut c = console(8, 2);
    c.write_str("AB\x1b[2J");
    assert_eq!(row_text(&c, 0), "        ");
    assert_eq!(row_text(&c, 1), "        ");
    assert_eq!(c.cursor(), (0, 0));
}

#[test]
fn cursor_back_then_overwrite() {
    let mut c = console(8, 2);
    c.write_str("ABC\x1b[2D*");
    assert_eq!(row_text(&c, 0), "A*C     ");
    assert_eq!(c.cursor(), (0, 2));
}

#[test]
fn cursor_position_report_on_fresh_console() {
    let mut c = console(8, 2);
    c.write_str("\x1b[6n");
    assert_eq!(drain(&mut c), vec![0x1b, 0x5b, 0x31, 0x3b, 0x31, 0x52]);
    assert_eq!(c.pop_report(), None);
}

#[test]
fn sgr_color_then_reset() {
    let mut c = console(8, 2);
    c.write_str("\x1b[31mX\x1b[0mY");
    let x = c.cell(0, 0).unwrap();
    let y = c.cell(0, 1).unwrap();
    assert_eq!(x.c, 'X');
    assert_eq!(x.fg, Color::Named(NamedColor::Red));
    assert_eq!(y.c, 'Y');
    assert_eq!(y.fg, Color::Named(NamedColor::BrightWhite));
}

#[test]
fn auto_wrap_on_fills_two_rows() {
    let mut c = console(8, 2);
    c.write_str("0123456789ABCDEF");
    assert_eq!(row_text(&c, 0), "01234567");
    assert_eq!(row_text(&c, 1), "89ABCDEF");
    assert_eq!(c.cursor(), (1, 8));
}

#[test]
fn auto_wrap_off_discards_overflow() {
    let mut c = console(8, 2);
    c.write_str("\x1b[?7l0123456789ABCDEF");
    assert_eq!(row_text(&c, 0), "01234567");
    assert_eq!(row_text(&c, 1), "        ");
    assert_eq!(c.cursor(), (0, 8));
}

#[test]
fn auto_wrap_back_on() {
    let mut c = console(4, 2);
    c.write_str("\x1b[?7lABCDE\x1b[?7hF");
    assert_eq!(row_text(&c, 0), "ABCD");
    assert_eq!(row_text(&c, 1), "F   ");
    assert_eq!(c.cursor(), (1, 1));
}

#[test]
fn linefeed_on_last_row_scrolls() {
    let mut c = console(4, 2);
    c.write_str("a\nb\nc");
    assert_eq!(row_text(&c, 0), "b   ");
    assert_eq!(row_text(&c, 1), "c   ");
    assert_eq!(c.cursor(), (1, 1));
}

#[test]
fn scroll_fills_bottom_with_current_background() {
    let mut c = console(4, 2);
    c.write_str("\x1b[44ma\n\n");
    let bottom = c.cell(1, 2).unwrap();
    assert_eq!(bottom.c, ' ');
    assert_eq!(bottom.bg, Color::Named(NamedColor::Blue));
    assert_eq!(bottom.fg, Color::Named(NamedColor::BrightWhite));
    assert_eq!(row_text(&c, 0), "    ");
}

#[test]
fn wrap_on_last_row_scrolls() {
    let mut c = console(4, 2);
    c.write_str("abcdefghij");
    assert_eq!(row_text(&c, 0), "efgh");
    assert_eq!(row_text(&c, 1), "ij  ");
    assert_eq!(c.cursor(), (1, 2));
}

#[test]
fn cursor_stays_within_bounds() {
    let mut c = console(5, 3);
    let inputs = [
        "\x1b[99;99H", "\x1b[99B", "\x1b[99C", "\x1b[99A", "\x1b[99D", "xxxxxxxxxxxxxxx",
        "\x1b[50d", "\x1b[50G", "\x1b[7E", "\x1b[7F", "\t\t\t", "\x08\x08\x08", "\r\n\n\n\n",
    ];
    for s in inputs.iter() {
        c.write_str(s);
        let (row, col) = c.cursor();
        assert!(row < c.rows());
        assert!(col <= c.columns());
    }
}

#[test]
fn goto_clamps_to_last_row_and_width() {
    let mut c = console(8, 2);
    c.write_str("\x1b[9;20H");
    assert_eq!(c.cursor(), (1, 8));
    c.write_str("\x1b[2;3f");
    assert_eq!(c.cursor(), (1, 2));
}

#[test]
fn reset_twice_is_reset_once() {
    let mut once = console(8, 2);
    let mut twice = console(8, 2);
    once.write_str("\x1b[1;4;7;31;42m\x1b[0mX");
    twice.write_str("\x1b[1;4;7;31;42m\x1b[0m\x1b[0mX");
    assert_eq!(once.cell(0, 0), twice.cell(0, 0));
    assert_eq!(once.cell(0, 0).unwrap(), Cell { c: 'X', ..Cell::default() });
}

#[test]
fn save_restore_cursor() {
    let mut c = console(8, 4);
    c.write_str("\x1b[2;3H\x1b7\x1b[H\x1b[5C\x1b[2Babc\x1b8");
    assert_eq!(c.cursor(), (1, 2));
}

#[test]
fn restore_without_save_goes_home() {
    let mut c = console(8, 4);
    c.write_str("\x1b[3;4H\x1b8");
    assert_eq!(c.cursor(), (0, 0));
}

#[test]
fn printable_text_matches_naive_layout() {
    let (w, h) = (5usize, 3usize);
    let text = "The quick brown fox jumps";
    let mut c = console(w, h);
    c.write_str(text);
    let chars: Vec<char> = text.chars().collect();
    let n = chars.len();
    let lines = (n + w - 1) / w;
    let top = lines.saturating_sub(h);
    for r in 0..h {
        for col in 0..w {
            let k = (top + r) * w + col;
            let expect = if k < n { chars[k] } else { ' ' };
            assert_eq!(c.cell(r, col).unwrap().c, expect);
        }
    }
    assert_eq!(c.cursor(), (lines - 1 - top, n - (lines - 1) * w));
}

#[test]
fn down_then_up_returns() {
    let mut c = console(8, 6);
    c.write_str("\x1b[2;1H\x1b[3B\x1b[3A");
    assert_eq!(c.cursor(), (1, 0));
    c.write_str("\x1b[4;1H\x1b[0B\x1b[0A");
    assert_eq!(c.cursor(), (3, 0));
}

#[test]
fn down_then_up_clamped_at_bottom() {
    let mut c = console(8, 6);
    c.write_str("\x1b[5;1H\x1b[4B\x1b[4A");
    assert_eq!(c.cursor(), (1, 0));
}

#[test]
fn sgr_keeps_flags_defined() {
    let mut c = console(8, 2);
    c.write_str("\x1b[1;2;3;4;5;7;8;9;38;2;300;1;1;48;5;999;4:2;21;22mX");
    let x = c.cell(0, 0).unwrap();
    assert_eq!(x.flags.bits() & !Flags::ALL, 0);
    assert!(x.flags.contains(Flags::ITALIC));
    assert!(x.flags.contains(Flags::UNDERLINE));
    assert!(x.flags.contains(Flags::INVERSE));
    assert!(!x.flags.contains(Flags::BOLD));
    assert!(!x.flags.contains(Flags::DIM));
}

#[test]
fn sgr_flags_set_and_cancel() {
    let mut c = console(8, 2);
    c.write_str("\x1b[1;3;4;7;8;9mA\x1b[22;23;24;27;28;29mB");
    let a = c.cell(0, 0).unwrap();
    let b = c.cell(0, 1).unwrap();
    let all = Flags::BOLD | Flags::ITALIC | Flags::UNDERLINE | Flags::INVERSE | Flags::HIDDEN | Flags::STRIKEOUT;
    assert_eq!(a.flags.bits(), all);
    assert_eq!(b.flags.bits(), 0);
}

#[test]
fn sgr_extended_colors() {
    let mut c = console(8, 2);
    c.write_str("\x1b[38;5;196;48;2;1;2;3mA\x1b[38:2::10:20:30;48:5:7mB\x1b[39;49mC");
    let a = c.cell(0, 0).unwrap();
    let b = c.cell(0, 1).unwrap();
    let d = c.cell(0, 2).unwrap();
    assert_eq!(a.fg, Color::Indexed(196));
    assert_eq!(a.bg, Color::Spec(embedded_term::color::Rgb::new(1, 2, 3)));
    assert_eq!(b.fg, Color::Spec(embedded_term::color::Rgb::new(10, 20, 30)));
    assert_eq!(b.bg, Color::Indexed(7));
    assert_eq!(d.fg, Color::Named(NamedColor::BrightWhite));
    assert_eq!(d.bg, Color::Named(NamedColor::Black));
}

#[test]
fn sgr_bright_colors() {
    let mut c = console(8, 2);
    c.write_str("\x1b[91;104mA");
    let a = c.cell(0, 0).unwrap();
    assert_eq!(a.fg, Color::Named(NamedColor::BrightRed));
    assert_eq!(a.bg, Color::Named(NamedColor::BrightBlue));
}

#[test]
fn sgr_underline_subparameters() {
    let mut c = console(8, 2);
    c.write_str("\x1b[4mA\x1b[4:0mB\x1b[4:2mC");
    assert!(c.cell(0, 0).unwrap().flags.contains(Flags::UNDERLINE));
    assert!(!c.cell(0, 1).unwrap().flags.contains(Flags::UNDERLINE));
    assert!(!c.cell(0, 2).unwrap().flags.contains(Flags::UNDERLINE));
}

#[test]
fn device_status_ok_report() {
    let mut c = console(8, 2);
    c.write_str("\x1b[5n");
    assert_eq!(drain(&mut c), b"\x1b[0n".to_vec());
}

#[test]
fn cursor_report_uses_decimal_position() {
    let mut c = console(40, 12);
    c.write_str("\x1b[11;23H\x1b[6n");
    assert_eq!(drain(&mut c), b"\x1b[11;23R".to_vec());
}

#[test]
fn report_queue_is_capped() {
    let mut c = console(8, 2);
    for _ in 0..20 {
        c.write_str("\x1b[5n");
    }
    let out = drain(&mut c);
    assert_eq!(out.len(), 64);
    assert_eq!(&out[0..4], b"\x1b[0n");
}

#[test]
fn tab_fills_to_next_stop() {
    let mut c = console(16, 2);
    c.write_str("\x1b[41ma\tb");
    assert_eq!(c.cursor(), (0, 9));
    assert_eq!(c.cell(0, 8).unwrap().c, 'b');
    let gap = c.cell(0, 4).unwrap();
    assert_eq!(gap.c, ' ');
    assert_eq!(gap.bg, Color::Named(NamedColor::Red));
}

#[test]
fn tab_stops_at_width() {
    let mut c = console(12, 2);
    c.write_str("123456789\t");
    assert_eq!(c.cursor(), (0, 12));
}

#[test]
fn backspace_and_carriage_return() {
    let mut c = console(8, 2);
    c.write_str("abc\x08\x08X");
    assert_eq!(row_text(&c, 0), "aXc     ");
    c.write_str("\rZ");
    assert_eq!(row_text(&c, 0), "ZXc     ");
    c.write_str("\x08\x08\x08");
    assert_eq!(c.cursor(), (0, 0));
}

#[test]
fn erase_chars_from_cursor() {
    let mut c = console(8, 2);
    c.write_str("ABCDEF\x1b[1;2H\x1b[2X");
    assert_eq!(row_text(&c, 0), "A  DEF  ");
    c.write_str("\x1b[1;5H\x1b[99X");
    assert_eq!(row_text(&c, 0), "A  D    ");
}

#[test]
fn delete_chars_shifts_left() {
    let mut c = console(8, 2);
    c.write_str("ABCDEFGH\x1b[1;2H\x1b[2P");
    assert_eq!(row_text(&c, 0), "ADEFGH  ");
    assert_eq!(c.cursor(), (0, 1));
}

#[test]
fn delete_chars_past_row_end_erases_rest() {
    let mut c = console(8, 2);
    c.write_str("ABCDEFGH\x1b[1;3H\x1b[99P");
    assert_eq!(row_text(&c, 0), "AB      ");
    c.write_str("\x1b[1;1HABCDEFGH\x1b[1;2H\x1b[5P");
    assert_eq!(row_text(&c, 0), "AGH     ");
}

#[test]
fn erase_line_modes() {
    let mut c = console(8, 2);
    c.write_str("ABCDEFGH\x1b[1;3H\x1b[K");
    assert_eq!(row_text(&c, 0), "AB      ");
    c.write_str("\x1b[1;1HABCDEFGH\x1b[1;3H\x1b[1K");
    assert_eq!(row_text(&c, 0), "   DEFGH");
    c.write_str("\x1b[2K");
    assert_eq!(row_text(&c, 0), "        ");
}

#[test]
fn erase_display_below_and_above() {
    let mut c = console(4, 3);
    c.write_str("abcdefghijkl\x1b[2;2H\x1b[J");
    assert_eq!(row_text(&c, 0), "abcd");
    assert_eq!(row_text(&c, 1), "e   ");
    assert_eq!(row_text(&c, 2), "    ");
    let mut d = console(4, 3);
    d.write_str("abcdefgh\x1b[2;2H\x1b[1J");
    assert_eq!(row_text(&d, 0), "    ");
    assert_eq!(row_text(&d, 1), "  gh");
    assert_eq!(row_text(&d, 2), "    ");
}

#[test]
fn unknown_and_ignored_sequences_change_nothing() {
    let mut c = console(8, 2);
    c.write_str("AB\x1b[2S\x1b[1T\x1b[1;2r\x1b]0;title\x07\x1b[5J\x1b[?25l\x1bPq#0\x1b\\");
    assert_eq!(row_text(&c, 0), "AB      ");
    assert_eq!(c.cursor(), (0, 2));
}

#[test]
fn multibyte_character_is_one_cell() {
    let mut c = console(8, 2);
    c.write_str("é€x");
    assert_eq!(c.cell(0, 0).unwrap().c, 'é');
    assert_eq!(c.cell(0, 1).unwrap().c, '€');
    assert_eq!(c.cell(0, 2).unwrap().c, 'x');
    assert_eq!(c.cursor(), (0, 3));
}

#[test]
fn write_byte_feeds_one_byte() {
    let mut c = console(8, 2);
    for b in b"\x1b[2;4Hz".iter() {
        c.write_byte(*b);
    }
    assert_eq!(c.cell(1, 3).unwrap().c, 'z');
}

#[test]
fn empty_buffer_gives_no_console() {
    assert!(Console::on_text_buffer(Screen::new(0, 2)).is_none());
    assert!(Console::on_cached_text_buffer(Screen::new(3, 0)).is_none());
    assert!(Console::with_size(Screen::new(3, 3), 0, 3).is_none());
    let c = Console::with_size(Screen::new(3, 3), 10, 4).unwrap();
    assert_eq!((c.columns(), c.rows()), (10, 4));
}

#[test]
fn rows_and_columns() {
    let c = console(80, 25);
    assert_eq!(c.rows(), 25);
    assert_eq!(c.columns(), 80);
    assert_eq!(c.cell(25, 0), None);
    assert_eq!(c.cell(0, 80), None);
}

#[test]
fn sgr_with_foreign_intermediate_is_discarded() {
    let mut c = console(8, 2);
    c.write_str("\x1b[>4;1mA\x1b[?1mB");
    let a = c.cell(0, 0).unwrap();
    let b = c.cell(0, 1).unwrap();
    assert_eq!(a.flags.bits(), 0);
    assert_eq!(b.flags.bits(), Flags::BOLD);
}

#[test]
fn plain_text_with_controls() {
    let mut c = console(5, 2);
    c.write_str("ab\rc\n\tx\x08y");
    assert_eq!(row_text(&c, 0), "     ");
    assert_eq!(row_text(&c, 1), "y    ");
    assert_eq!(c.cursor(), (1, 1));
}

#[test]
fn overlong_subparameter_list_is_dropped() {
    let mut c = console(8, 2);
    let mut s = String::from("\x1b[1");
    for _ in 0..40 {
        s.push(':');
    }
    s.push_str("mA");
    c.write_str(&s);
    let a = c.cell(0, 0).unwrap();
    assert_eq!(a.c, 'A');
    assert_eq!(a.flags.bits(), 0);
    assert_eq!(c.cursor(), (0, 1));
}

#[test]
fn write_str_matches_byte_writes() {
    let text = "ab\x1b[31mc\x1b[2;2Hd\x1b[1K\te";
    let mut by_str = console(8, 3);
    let mut by_byte = console(8, 3);
    by_str.write_str(text);
    for b in text.bytes() {
        by_byte.write_byte(b);
    }
    for r in 0..3 {
        for col in 0..8 {
            assert_eq!(by_str.cell(r, col), by_byte.cell(r, col));
        }
    }
    assert_eq!(by_str.cursor(), by_byte.cursor());
}

#[test]
fn delete_chars_at_margin_does_nothing() {
    let mut c = console(4, 2);
    c.write_str("ABCD\x1b[P\x1b[1K");
    assert_eq!(row_text(&c, 0), "    ");
    assert_eq!(c.cursor(), (0, 4));
}
