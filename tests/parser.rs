use void_term::parser::{TerminalAction, TerminalParser};

#[test]
fn test_basic_character_parsing() {
    let mut parser = TerminalParser::new();
    let actions = parser.parse(b"Hello");

    assert_eq!(actions.len(), 5);
    if let TerminalAction::Print(b'H') = actions[0] {
        // Good
    } else {
        panic!("Expected Print('H') action");
    }
}

#[test]
fn test_csi_sequence() {
    let mut parser = TerminalParser::new();
    // ESC[1;31m - Set text color to red
    let actions = parser.parse(b"\x1b[1;31m");

    assert_eq!(actions.len(), 1);
    if let TerminalAction::SetGraphicsRendition(params) = &actions[0] {
        assert_eq!(params, &[1, 31]);
    } else {
        panic!("Expected SetGraphicsRendition action");
    }
}

#[test]
fn hello_prints_each_byte() {
    let mut parser = TerminalParser::new();
    let actions = parser.parse(b"Hello");
    let expected: Vec<TerminalAction> =
        b"Hello".iter().map(|b| TerminalAction::Print(*b)).collect();
    assert_eq!(actions, expected);
}

#[test]
fn split_sequence_parses_like_whole() {
    let input: &[u8] = b"ab\x1b[2;5Hc\x1b]0;title\x07\x1b[31md\x1b]4;5;#112233\x1b\\e";
    let mut whole = TerminalParser::new();
    let expected = whole.parse(input);
    for cut in 0..=input.len() {
        let mut p = TerminalParser::new();
        let mut got = p.parse(&input[..cut]);
        got.extend(p.parse(&input[cut..]));
        assert_eq!(got, expected, "split at {}", cut);
    }
}

#[test]
fn control_bytes_map_to_actions() {
    let mut p = TerminalParser::new();
    let actions = p.parse(b"\x07\x08\x09\x0a\x0d\x00");
    assert_eq!(
        actions,
        vec![
            TerminalAction::Bell,
            TerminalAction::Backspace,
            TerminalAction::Tab,
            TerminalAction::LineFeed,
            TerminalAction::CarriageReturn,
            TerminalAction::Print(0),
        ]
    );
}

#[test]
fn simple_escapes() {
    let mut p = TerminalParser::new();
    let actions = p.parse(b"\x1bA\x1bH\x1bM\x1bc\x1bZx");
    assert_eq!(
        actions,
        vec![
            TerminalAction::CursorUp(1),
            TerminalAction::CursorPosition(1, 1),
            TerminalAction::ScrollUp(1),
            TerminalAction::Reset,
            TerminalAction::Print(b'x'),
        ]
    );
}

#[test]
fn csi_defaults_and_fields() {
    let mut p = TerminalParser::new();
    assert_eq!(p.parse(b"\x1b[H"), vec![TerminalAction::CursorPosition(1, 1)]);
    assert_eq!(p.parse(b"\x1b[;5H"), vec![TerminalAction::CursorPosition(1, 5)]);
    assert_eq!(p.parse(b"\x1b[7;9f"), vec![TerminalAction::CursorPosition(7, 9)]);
    assert_eq!(p.parse(b"\x1b[J"), vec![TerminalAction::EraseInDisplay(0)]);
    assert_eq!(p.parse(b"\x1b[2K"), vec![TerminalAction::EraseInLine(2)]);
    assert_eq!(p.parse(b"\x1b[3A"), vec![TerminalAction::CursorUp(3)]);
    assert_eq!(p.parse(b"\x1b[:B"), vec![TerminalAction::CursorDown(1)]);
    assert_eq!(p.parse(b"\x1b[4C"), vec![TerminalAction::CursorForward(4)]);
    assert_eq!(p.parse(b"\x1b[D"), vec![TerminalAction::CursorBackward(1)]);
    assert_eq!(p.parse(b"\x1b[m"), vec![TerminalAction::SetGraphicsRendition(vec![])]);
    assert_eq!(
        p.parse(b"\x1b[1;;4m"),
        vec![TerminalAction::SetGraphicsRendition(vec![1, 0, 4])]
    );
    assert_eq!(p.parse(b"\x1b[+2A"), vec![TerminalAction::CursorUp(2)]);
    assert_eq!(p.parse(b"\x1b[99999999999A"), vec![TerminalAction::CursorUp(1)]);
    assert_eq!(p.parse(b"\x1b[?1049h"), vec![]);
}

#[test]
fn osc_title_and_palette() {
    let mut p = TerminalParser::new();
    assert_eq!(
        p.parse(b"\x1b]0;hello\x07"),
        vec![TerminalAction::SetWindowTitle("hello".to_string())]
    );
    assert_eq!(
        p.parse(b"\x1b]2;a;b\x1b\\"),
        vec![TerminalAction::SetWindowTitle("a;b".to_string())]
    );
    assert_eq!(
        p.parse(b"\x1b]4;5;#112233\x07"),
        vec![TerminalAction::SetColorPalette(5, "#112233".to_string())]
    );
    assert_eq!(p.parse(b"\x1b]4;300;#112233\x07"), vec![]);
    assert_eq!(p.parse(b"\x1b]9;x\x07"), vec![]);
    assert_eq!(p.parse(b"\x1b]0title\x07"), vec![]);
}

#[test]
fn overlong_sequence_recovers() {
    let mut p = TerminalParser::new();
    let mut input = b"\x1b[".to_vec();
    input.extend(std::iter::repeat(b'1').take(1100));
    input.extend(b"mZ");
    let actions = p.parse(&input);
    assert_eq!(actions.last(), Some(&TerminalAction::Print(b'Z')));
    assert!(!actions
        .iter()
        .any(|a| matches!(a, TerminalAction::SetGraphicsRendition(_))));
}
