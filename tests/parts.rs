use embedded_term::ansi::{attrs_from_sgr_parameters, parse_sgr_color, Action, Attr, Mode};
use embedded_term::cell::{Cell, Flags};
use embedded_term::color::{palette_rgb, Color, NamedColor, Rgb};
use embedded_term::escape_parser::{CharacterAttribute, CSI};
use embedded_term::graphic::{cells_across, cells_down, plan_glyph};
use embedded_term::{Console, TextBuffer, TextBufferCache};

/// A text buffer that keeps nothing.
struct Sink {
    width: usize,
    height: usize,
}

impl TextBuffer for Sink {
    fn width(&self) -> usize {
        self.width
    }

    fn height(&self) -> usize {
        self.height
    }

    fn read(&self, _row: usize, _col: usize) -> Cell {
        Cell::default()
    }

    fn write(&mut self, _row: usize, _col: usize, _cell: Cell) {}
}

fn marked(c: char) -> Cell {
    Cell { c, ..Cell::default() }
}

#[test]
fn cache_starts_blank() {
    let cache = TextBufferCache::new(Sink { width: 3, height: 2 }).unwrap();
    assert_eq!((cache.width(), cache.height(), cache.row_offset()), (3, 2, 0));
    for r in 0..2 {
        for c in 0..3 {
            assert_eq!(cache.read(r, c), Cell::default());
        }
    }
    assert!(TextBufferCache::new(Sink { width: 0, height: 2 }).is_none());
}

#[test]
fn cache_read_returns_last_write() {
    let mut cache = TextBufferCache::with_size(Sink { width: 0, height: 0 }, 4, 3).unwrap();
    cache.write(1, 2, marked('a'));
    cache.write(1, 2, marked('b'));
    cache.write(2, 3, marked('c'));
    assert_eq!(cache.read(1, 2), marked('b'));
    assert_eq!(cache.read(2, 3), marked('c'));
    assert_eq!(cache.read(0, 0), Cell::default());
}

#[test]
fn cache_new_line_rotates_rows() {
    let mut cache = TextBufferCache::with_size(Sink { width: 4, height: 3 }, 4, 3).unwrap();
    cache.write(0, 0, marked('a'));
    cache.write(1, 0, marked('b'));
    cache.write(2, 0, marked('c'));
    let erase = Cell { bg: Color::Named(NamedColor::Green), ..Cell::default() };
    cache.new_line(erase);
    assert_eq!(cache.row_offset(), 1);
    assert_eq!(cache.read(0, 0), marked('b'));
    assert_eq!(cache.read(1, 0), marked('c'));
    for c in 0..4 {
        assert_eq!(cache.read(2, c), erase);
    }
    cache.write(2, 1, marked('d'));
    assert_eq!(cache.read(2, 1), marked('d'));
    cache.new_line(erase);
    cache.new_line(erase);
    assert_eq!(cache.row_offset(), 0);
    assert_eq!(cache.read(0, 1), marked('d'));
}

#[test]
fn cache_clear_fills_and_resets_rotation() {
    let mut cache = TextBufferCache::with_size(Sink { width: 2, height: 2 }, 2, 2).unwrap();
    cache.write(0, 0, marked('a'));
    cache.new_line(Cell::default());
    cache.clear(marked('z'));
    assert_eq!(cache.row_offset(), 0);
    for r in 0..2 {
        for c in 0..2 {
            assert_eq!(cache.read(r, c), marked('z'));
        }
    }
}

#[test]
fn flags_set_operations() {
    let mut f = Flags::empty();
    assert_eq!(f.bits(), 0);
    f.insert(Flags::BOLD | Flags::UNDERLINE);
    assert!(f.contains(Flags::BOLD));
    assert!(f.contains(Flags::UNDERLINE));
    assert!(!f.contains(Flags::DIM_BOLD));
    f.remove(Flags::BOLD);
    assert_eq!(f.bits(), Flags::UNDERLINE);
    assert_eq!(Flags::from_bits_truncate(0xffff).bits(), Flags::ALL);
}

#[test]
fn erase_cell_keeps_background_only() {
    let t = Cell {
        c: 'x',
        fg: Color::Named(NamedColor::Red),
        bg: Color::Indexed(17),
        flags: Flags::from_bits_truncate(Flags::BOLD),
    };
    let e = t.bg();
    assert_eq!(e, Cell { bg: Color::Indexed(17), ..Cell::default() });
}

#[test]
fn palette_entries() {
    assert_eq!(palette_rgb(1), Rgb::new(194, 54, 33));
    assert_eq!(palette_rgb(15), Rgb::new(233, 235, 235));
    assert_eq!(palette_rgb(16), Rgb::new(0, 0, 0));
    assert_eq!(palette_rgb(21), Rgb::new(0, 0, 255));
    assert_eq!(palette_rgb(196), Rgb::new(255, 0, 0));
    assert_eq!(palette_rgb(110), Rgb::new(135, 175, 215));
    assert_eq!(palette_rgb(231), Rgb::new(255, 255, 255));
    assert_eq!(palette_rgb(232), Rgb::new(8, 8, 8));
    assert_eq!(palette_rgb(255), Rgb::new(238, 238, 238));
}

#[test]
fn color_resolution() {
    assert_eq!(Color::Named(NamedColor::Cyan).to_rgb(), Rgb::new(51, 187, 200));
    assert_eq!(Color::Indexed(9).to_rgb(), Rgb::new(252, 57, 31));
    assert_eq!(Color::Spec(Rgb::new(1, 2, 3)).to_rgb(), Rgb::new(1, 2, 3));
    assert_eq!(NamedColor::BrightBlue.index(), 12);
    assert_eq!(NamedColor::from_index(13), NamedColor::BrightMagenta);
}

#[test]
fn mode_from_primitive() {
    assert_eq!(Mode::from_primitive(Some(&b'?'), 7), Some(Mode::LineWrap));
    assert_eq!(Mode::from_primitive(Some(&b'?'), 2004), Some(Mode::BracketedPaste));
    assert_eq!(Mode::from_primitive(None, 4), Some(Mode::Insert));
    assert_eq!(Mode::from_primitive(None, 20), Some(Mode::LineFeedNewLine));
    assert_eq!(Mode::from_primitive(None, 7), None);
    assert_eq!(Mode::from_primitive(Some(&b'?'), 4), None);
    assert_eq!(Mode::from_primitive(Some(&b'>'), 7), None);
}

#[test]
fn sgr_parameters_to_attributes() {
    let params = vec![vec![38], vec![5], vec![196], vec![1], vec![4, 0], vec![99], vec![48, 2, 9, 8, 7]];
    assert_eq!(
        attrs_from_sgr_parameters(&params),
        vec![
            Some(Attr::Foreground(Color::Indexed(196))),
            Some(Attr::Bold),
            Some(Attr::CancelUnderline),
            None,
            Some(Attr::Background(Color::Spec(Rgb::new(9, 8, 7)))),
        ]
    );
    assert_eq!(attrs_from_sgr_parameters(&vec![vec![38], vec![7], vec![1]]), vec![None, Some(Attr::Bold)]);
    assert_eq!(attrs_from_sgr_parameters(&vec![]), vec![]);
}

#[test]
fn sgr_color_specifiers() {
    assert_eq!(parse_sgr_color(&vec![2, 1, 2, 3, 9]), (Some(Color::Spec(Rgb::new(1, 2, 3))), 4));
    assert_eq!(parse_sgr_color(&vec![2, 1, 2]), (None, 3));
    assert_eq!(parse_sgr_color(&vec![2, 256, 2, 3]), (None, 2));
    assert_eq!(parse_sgr_color(&vec![5, 255]), (Some(Color::Indexed(255)), 2));
    assert_eq!(parse_sgr_color(&vec![5, 300]), (None, 2));
    assert_eq!(parse_sgr_color(&vec![7]), (None, 1));
    assert_eq!(parse_sgr_color(&vec![]), (None, 0));
}

#[test]
fn character_attribute_sgr() {
    let mut a = CharacterAttribute::default();
    assert_eq!(a.foreground, palette_rgb(7));
    assert_eq!(a.background, palette_rgb(0));
    a.apply_sgr(&[1]);
    a.apply_sgr(&[4]);
    assert!(a.bold && a.underline);
    a.apply_sgr(&[31]);
    assert_eq!(a.foreground, palette_rgb(1));
    a.apply_sgr(&[97]);
    assert_eq!(a.foreground, palette_rgb(15));
    a.apply_sgr(&[100]);
    assert_eq!(a.background, palette_rgb(8));
    a.apply_sgr(&[38, 5, 9]);
    assert_eq!(a.foreground, palette_rgb(9));
    a.apply_sgr(&[38, 5, 200]);
    assert_eq!(a.foreground, palette_rgb(9));
    a.apply_sgr(&[48, 2, 1, 2, 3]);
    assert_eq!(a.background, Rgb::new(1, 2, 3));
    a.apply_sgr(&[22, 24]);
    assert!(!a.bold && a.underline);
    a.apply_sgr(&[0]);
    assert_eq!(a, CharacterAttribute::default());
}

#[test]
fn character_attribute_sgr_is_total() {
    let start = CharacterAttribute { bold: true, ..CharacterAttribute::default() };
    for params in [&[257][..], &[38], &[38, 2], &[48, 5], &[38, 5, 300], &[38, 2, 1, 256, 3], &[1000]] {
        let mut a = start;
        a.apply_sgr(params);
        assert_eq!(a, start);
    }
    let mut b = start;
    b.apply_sgr(&[]);
    assert_eq!(b, CharacterAttribute::default());
}

#[test]
fn csi_classification() {
    let none: Vec<u8> = vec![];
    assert_eq!(CSI::new(b'A', &vec![vec![3]], &none), CSI::CursorMove(-3, 0));
    assert_eq!(CSI::new(b'C', &vec![vec![2]], &none), CSI::CursorMove(0, 2));
    assert_eq!(CSI::new(b'H', &vec![vec![5], vec![7]], &none), CSI::CursorMoveTo(4, 6));
    assert_eq!(CSI::new(b'H', &vec![vec![5]], &none), CSI::CursorMoveTo(4, 0));
    assert_eq!(CSI::new(b'J', &vec![vec![2]], &none), CSI::EraseDisplayAll);
    assert_eq!(CSI::new(b'J', &vec![vec![1]], &none), CSI::EraseDisplayAbove);
    assert_eq!(CSI::new(b'K', &vec![vec![2]], &none), CSI::EraseLineAll);
    assert_eq!(CSI::new(b'G', &vec![vec![3]], &none), CSI::CursorMoveColTo(2));
    assert_eq!(CSI::new(b'A', &vec![], &none), CSI::CursorMove(-1, 0));
    assert_eq!(CSI::new(b'J', &vec![], &none), CSI::EraseDisplayBelow);
    assert_eq!(CSI::new(b'm', &vec![], &none), CSI::Sgr(vec![]));
    assert_eq!(CSI::new(b'K', &vec![vec![0]], &none), CSI::EraseLineRight);
    assert_eq!(CSI::new(b'm', &vec![vec![1, 2], vec![3]], &none), CSI::Sgr(vec![1, 2]));
    assert_eq!(CSI::new(b'n', &vec![vec![6]], &none), CSI::ReportCursorPosition);
    assert_eq!(CSI::new(b'h', &vec![vec![1049]], &none), CSI::EnableAltScreenBuffer);
    assert_eq!(CSI::new(b'l', &vec![vec![25]], &none), CSI::HideCursor);
    assert_eq!(CSI::new(b'r', &vec![vec![2], vec![9]], &none), CSI::SetScrollingRegion(1, 8));
    assert_eq!(CSI::new(b'z', &vec![vec![1]], &none), CSI::Unknown);
}

#[test]
fn glyph_placement() {
    let cell = Cell {
        c: 'g',
        fg: Color::Named(NamedColor::Red),
        bg: Color::Named(NamedColor::Blue),
        flags: Flags::from_bits_truncate(Flags::INVERSE | Flags::UNDERLINE),
    };
    let p = plan_glyph(64, 32, 1, 2, cell).unwrap();
    assert_eq!((p.x, p.y), (16, 16));
    assert_eq!(p.foreground, palette_rgb(4));
    assert_eq!(p.background, palette_rgb(1));
    assert_eq!(p.underline_y, Some(31));
    assert_eq!(p.strikeout_y, None);
    assert!(!p.bold);
    assert_eq!(p.line_width, 1);
    assert!(plan_glyph(64, 32, 2, 0, cell).is_none());
    assert!(plan_glyph(64, 32, 0, 8, cell).is_none());
    let bold = Cell { flags: Flags::from_bits_truncate(Flags::BOLD | Flags::STRIKEOUT), ..Cell::default() };
    let q = plan_glyph(64, 32, 0, 0, bold).unwrap();
    assert!(q.bold);
    assert_eq!(q.strikeout_y, Some(8));
    assert_eq!(q.line_width, 5);
    assert_eq!(q.foreground, palette_rgb(15));
    assert_eq!((cells_across(100), cells_down(100)), (12, 6));
}

#[test]
fn perform_callbacks_directly() {
    let mut c = Console::with_size(Sink { width: 0, height: 0 }, 6, 2).unwrap();
    c.perform(&Action::Print('q'));
    c.perform(&Action::Execute(0x0a));
    c.perform(&Action::Print('r'));
    assert_eq!(c.cell(0, 0).unwrap().c, 'q');
    assert_eq!(c.cell(1, 0).unwrap().c, 'r');
    c.perform(&Action::CsiDispatch { params: vec![vec![1], vec![4]], intermediates: vec![], ignore: false, action: 'H' });
    assert_eq!(c.cursor(), (0, 3));
    c.perform(&Action::CsiDispatch { params: vec![vec![2]], intermediates: vec![], ignore: true, action: 'B' });
    assert_eq!(c.cursor(), (0, 3));
    c.perform(&Action::EscDispatch { intermediates: vec![], ignore: false, byte: b'7' });
    c.perform(&Action::CsiDispatch { params: vec![vec![2]], intermediates: vec![b'?', b'!'], ignore: false, action: 'B' });
    assert_eq!(c.cursor(), (0, 3));
    c.perform(&Action::CsiDispatch { params: vec![vec![2]], intermediates: vec![], ignore: false, action: 'B' });
    assert_eq!(c.cursor(), (1, 3));
    c.perform(&Action::EscDispatch { intermediates: vec![], ignore: false, byte: b'8' });
    assert_eq!(c.cursor(), (0, 3));
}
