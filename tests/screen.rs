use void_term::parser::{TerminalAction, TerminalParser};
use void_term::screen::{Cell, CellAttributes, VirtualTerminal};

fn feed(vt: &mut VirtualTerminal, bytes: &[u8]) {
    let mut p = TerminalParser::new();
    for a in p.parse(bytes) {
        vt.process_action(&a);
    }
}

fn ch(vt: &VirtualTerminal, r: usize, c: usize) -> char {
    vt.get_cell(r, c).unwrap().character
}

#[test]
fn new_screen_is_blank() {
    let vt = VirtualTerminal::new(80, 24);
    assert_eq!(vt.get_cursor_position(), (0, 0));
    assert_eq!(*vt.get_cell(23, 79).unwrap(), Cell::default());
    assert!(vt.get_cell(24, 0).is_none());
    assert!(vt.get_cell(0, 80).is_none());
    assert_eq!(vt.title(), "Terminal");
}

#[test]
fn print_advances_and_wraps() {
    let mut vt = VirtualTerminal::new(3, 2);
    feed(&mut vt, b"abcd");
    assert_eq!(ch(&vt, 0, 0), 'a');
    assert_eq!(ch(&vt, 0, 2), 'c');
    assert_eq!(ch(&vt, 1, 0), 'd');
    assert_eq!(vt.get_cursor_position(), (1, 1));
}

#[test]
fn wrap_at_bottom_scrolls() {
    let mut vt = VirtualTerminal::new(2, 2);
    feed(&mut vt, b"abcde");
    assert_eq!(ch(&vt, 0, 0), 'c');
    assert_eq!(ch(&vt, 0, 1), 'd');
    assert_eq!(ch(&vt, 1, 0), 'e');
    assert_eq!(vt.get_cursor_position(), (1, 1));
}

#[test]
fn scroll_up_one_on_full_region() {
    let mut vt = VirtualTerminal::new(10, 24);
    for r in 0..24u32 {
        vt.process_action(&TerminalAction::CursorPosition(r + 1, 1));
        vt.process_action(&TerminalAction::Print(b'A' + r as u8));
    }
    vt.process_action(&TerminalAction::SetGraphicsRendition(vec![1]));
    vt.process_action(&TerminalAction::ScrollUp(1));
    for r in 0..23usize {
        assert_eq!(ch(&vt, r, 0), (b'A' + r as u8 + 1) as char);
    }
    let mut bold = CellAttributes::default();
    bold.bold = true;
    for c in 0..10 {
        let cell = vt.get_cell(23, c).unwrap();
        assert_eq!(cell.character, ' ');
        assert_eq!(cell.attributes, bold);
    }
}

#[test]
fn erase_whole_line_keeps_cursor() {
    let mut vt = VirtualTerminal::new(5, 3);
    feed(&mut vt, b"xxxx\r\nyyyy\r\nzz");
    vt.process_action(&TerminalAction::CursorPosition(2, 3));
    vt.process_action(&TerminalAction::SetGraphicsRendition(vec![4]));
    vt.process_action(&TerminalAction::EraseInLine(2));
    assert_eq!(vt.get_cursor_position(), (1, 2));
    for c in 0..5 {
        let cell = vt.get_cell(1, c).unwrap();
        assert_eq!(cell.character, ' ');
        assert!(cell.attributes.underline);
    }
    assert_eq!(ch(&vt, 0, 3), 'x');
    assert_eq!(ch(&vt, 2, 1), 'z');
}

#[test]
fn erase_modes() {
    let mut vt = VirtualTerminal::new(4, 3);
    feed(&mut vt, b"abc\r\nefg\r\nijk");
    vt.process_action(&TerminalAction::CursorPosition(2, 2));
    vt.process_action(&TerminalAction::EraseInDisplay(0));
    assert_eq!(ch(&vt, 1, 0), 'e');
    assert_eq!(ch(&vt, 1, 1), ' ');
    assert_eq!(ch(&vt, 2, 2), ' ');
    assert_eq!(ch(&vt, 0, 2), 'c');
    vt.process_action(&TerminalAction::EraseInDisplay(1));
    assert_eq!(ch(&vt, 0, 0), ' ');
    assert_eq!(ch(&vt, 1, 0), ' ');
    vt.process_action(&TerminalAction::EraseInDisplay(7));
    assert_eq!(vt.get_cursor_position(), (1, 1));
}

#[test]
fn palette_set_then_lookup() {
    let mut vt = VirtualTerminal::new(80, 24);
    vt.process_action(&TerminalAction::SetColorPalette(5, "#112233".to_string()));
    assert_eq!(vt.get_color(5), "#112233");
}

#[test]
fn palette_defaults() {
    let vt = VirtualTerminal::new(80, 24);
    assert_eq!(vt.get_color(1), "#CC0000");
    assert_eq!(vt.get_color(15), "#EEEEEC");
    assert_eq!(vt.get_color(16), "#000000");
    assert_eq!(vt.get_color(196), "#FF0000");
    assert_eq!(vt.get_color(231), "#FFFFFF");
    assert_eq!(vt.get_color(232), "#080808");
    assert_eq!(vt.get_color(255), "#EEEEEE");
    assert_eq!(vt.get_color(300), "#FFFFFF");
    assert_eq!(vt.get_color(0x1000000 | 0x12ab34), "#12AB34");
}

#[test]
fn reset_restores_everything() {
    let mut vt = VirtualTerminal::new(6, 4);
    feed(&mut vt, b"\x1b[1;31;44mhello\r\nworld\x1b[3;4H");
    vt.process_action(&TerminalAction::Reset);
    assert_eq!(vt.get_cursor_position(), (0, 0));
    for r in 0..4 {
        for c in 0..6 {
            assert_eq!(*vt.get_cell(r, c).unwrap(), Cell::default());
        }
    }
    feed(&mut vt, b"x");
    assert_eq!(vt.get_cell(0, 0).unwrap().attributes, CellAttributes::default());
}

#[test]
fn resize_clamps_and_keeps() {
    let mut vt = VirtualTerminal::new(10, 10);
    feed(&mut vt, b"ab\r\ncd");
    vt.process_action(&TerminalAction::CursorPosition(9, 9));
    vt.resize(4, 3);
    assert_eq!(vt.get_cursor_position(), (2, 3));
    assert_eq!(ch(&vt, 0, 1), 'b');
    vt.resize(20, 30);
    assert_eq!(vt.get_cursor_position(), (2, 3));
    assert_eq!(ch(&vt, 0, 0), 'a');
    assert_eq!(ch(&vt, 1, 1), 'd');
    assert_eq!(*vt.get_cell(29, 19).unwrap(), Cell::default());
    assert_eq!(vt.cols(), 20);
    assert_eq!(vt.rows(), 30);
}

#[test]
fn sgr_attributes() {
    let mut vt = VirtualTerminal::new(10, 2);
    feed(&mut vt, b"\x1b[1;3;4;5;7;8;9;32;41mx");
    let a = vt.get_cell(0, 0).unwrap().attributes;
    assert!(a.bold && a.italic && a.underline && a.blink && a.reverse && a.hidden && a.strikethrough);
    assert_eq!(a.fg_color, Some(2));
    assert_eq!(a.bg_color, Some(1));
    feed(&mut vt, b"\x1b[22;23;24;25;27;28;29;39;49;93;104mx");
    let a = vt.get_cell(0, 1).unwrap().attributes;
    assert!(!a.bold && !a.italic && !a.underline && !a.blink && !a.reverse && !a.hidden);
    assert_eq!(a.fg_color, Some(11));
    assert_eq!(a.bg_color, Some(12));
    feed(&mut vt, b"\x1b[38;5;196;1;48;2;1;2;3mx");
    let a = vt.get_cell(0, 2).unwrap().attributes;
    assert_eq!(a.fg_color, Some(196));
    assert!(a.bold);
    assert_eq!(a.bg_color, Some(0x1000000 | 0x010203));
    feed(&mut vt, b"\x1b[mx");
    assert_eq!(vt.get_cell(0, 3).unwrap().attributes, CellAttributes::default());
}

#[test]
fn cursor_moves_clamp() {
    let mut vt = VirtualTerminal::new(10, 5);
    vt.process_action(&TerminalAction::CursorDown(100));
    vt.process_action(&TerminalAction::CursorForward(100));
    assert_eq!(vt.get_cursor_position(), (4, 9));
    vt.process_action(&TerminalAction::CursorUp(2));
    vt.process_action(&TerminalAction::CursorBackward(100));
    assert_eq!(vt.get_cursor_position(), (2, 0));
    vt.process_action(&TerminalAction::Tab);
    assert_eq!(vt.get_cursor_position(), (2, 8));
    vt.process_action(&TerminalAction::Tab);
    assert_eq!(vt.get_cursor_position(), (2, 9));
    vt.process_action(&TerminalAction::Backspace);
    assert_eq!(vt.get_cursor_position(), (2, 8));
    vt.process_action(&TerminalAction::CursorNextLine(1));
    assert_eq!(vt.get_cursor_position(), (3, 0));
    vt.process_action(&TerminalAction::CursorPreviousLine(9));
    assert_eq!(vt.get_cursor_position(), (0, 0));
    vt.process_action(&TerminalAction::CursorPosition(0, 0));
    assert_eq!(vt.get_cursor_position(), (0, 0));
}

#[test]
fn title_and_alternate_buffer() {
    let mut vt = VirtualTerminal::new(4, 2);
    feed(&mut vt, b"\x1b]2;shell\x07ab");
    assert_eq!(vt.title(), "shell");
    vt.use_alternate_buffer(true);
    assert_eq!(*vt.get_cell(0, 0).unwrap(), Cell::default());
    feed(&mut vt, b"zz");
    vt.use_alternate_buffer(false);
    assert_eq!(ch(&vt, 0, 0), 'a');
    assert_eq!(ch(&vt, 0, 1), 'b');
}

#[test]
fn alternate_buffer_survives_resize() {
    let mut vt = VirtualTerminal::new(4, 2);
    feed(&mut vt, b"ab\r\ncd");
    vt.use_alternate_buffer(true);
    vt.use_alternate_buffer(true);
    vt.resize(1, 1);
    feed(&mut vt, b"z");
    vt.resize(6, 3);
    vt.use_alternate_buffer(false);
    assert_eq!(ch(&vt, 0, 1), 'b');
    assert_eq!(ch(&vt, 1, 1), 'd');
    assert_eq!(*vt.get_cell(2, 5).unwrap(), Cell::default());
    vt.use_alternate_buffer(false);
    assert_eq!(ch(&vt, 0, 0), 'a');
}
