use dualpane::style::{Color, Style};
use dualpane::terminal::{parse_ansi_output, TerminalBuffer, TermLine};

fn line_text(line: &TermLine) -> String {
    let mut s = String::new();
    for span in line.spans.iter() {
        s.push_str(&span.text);
    }
    s
}

fn texts(lines: &Vec<TermLine>) -> Vec<String> {
    lines.iter().map(line_text).collect()
}

fn default_style() -> Style {
    Style { fg: Color::White, bg: Color::Default, bold: false, underline: false, reversed: false }
}

#[test]
fn test_plain_text_lines() {
    let lines = parse_ansi_output("hello\nworld");
    assert_eq!(texts(&lines), vec!["hello".to_string(), "world".to_string()]);
}

#[test]
fn test_crlf_and_bare_cr() {
    let lines = parse_ansi_output("a\r\nb");
    assert_eq!(texts(&lines), vec!["a".to_string(), "b".to_string()]);

    let lines = parse_ansi_output("ab\rc");
    assert_eq!(texts(&lines), vec!["cb".to_string()]);
}

#[test]
fn test_empty_input_changes_nothing() {
    let mut buffer = TerminalBuffer::new(200, 1000);
    buffer.process("");
    assert_eq!(buffer.cursor(), (0, 0));
    assert_eq!(buffer.row_count(), 0);
    assert!(buffer.to_lines().is_empty());

    let mut buffer = TerminalBuffer::new(200, 1000);
    buffer.process("hi");
    let before = buffer.cursor();
    buffer.process("");
    assert_eq!(buffer.cursor(), before);
    assert_eq!(texts(&buffer.to_lines()), vec!["hi".to_string()]);
}

#[test]
fn test_sgr_red_then_reset() {
    let lines = parse_ansi_output("\x1b[31mHi\x1b[0m");
    assert_eq!(lines.len(), 1);
    assert_eq!(lines[0].spans.len(), 1);
    assert_eq!(lines[0].spans[0].text, "Hi");
    assert_eq!(lines[0].spans[0].style.fg, Color::Red);

    let lines = parse_ansi_output("\x1b[31mHi\x1b[0mok");
    assert_eq!(lines.len(), 1);
    assert_eq!(lines[0].spans.len(), 2);
    assert_eq!(lines[0].spans[0].text, "Hi");
    assert_eq!(lines[0].spans[0].style.fg, Color::Red);
    assert_eq!(lines[0].spans[1].text, "ok");
    assert_eq!(lines[0].spans[1].style, default_style());
}

#[test]
fn test_sgr_accumulates() {
    let lines = parse_ansi_output("\x1b[1;4;32mok");
    let st = &lines[0].spans[0].style;
    assert!(st.bold);
    assert!(st.underline);
    assert!(!st.reversed);
    assert_eq!(st.fg, Color::Green);
}

#[test]
fn test_sgr_indexed_color() {
    let lines = parse_ansi_output("\x1b[38;5;196mX");
    assert_eq!(lines[0].spans[0].style.fg, Color::Indexed(196));

    let lines = parse_ansi_output("\x1b[48;5;17mX");
    assert_eq!(lines[0].spans[0].style.bg, Color::Indexed(17));
}

#[test]
fn test_sgr_malformed_extended_color() {
    // a missing index leaves the style unchanged for that code
    let lines = parse_ansi_output("\x1b[38;5mX");
    assert_eq!(lines[0].spans[0].style, default_style());
}

#[test]
fn test_cursor_position_sequence() {
    let mut buffer = TerminalBuffer::new(200, 1000);
    buffer.process("\x1b[5;10HX");
    assert_eq!(buffer.cursor(), (4, 10));
    let cell = buffer.cell(4, 9).unwrap();
    assert_eq!(cell.ch, 'X');
    // everything before the written cell on that row is blank padding
    for col in 0..9 {
        assert_eq!(buffer.cell(4, col).unwrap().ch, ' ');
    }
    assert_eq!(buffer.cell(4, 10), None);
    // rows above were never written, so only one line renders
    let lines = buffer.to_lines();
    assert_eq!(texts(&lines), vec!["         X".to_string()]);
}

#[test]
fn test_erase_display_then_write() {
    let mut buffer = TerminalBuffer::new(200, 1000);
    buffer.process("one\ntwo\nthree");
    assert_eq!(buffer.to_lines().len(), 3);
    buffer.process("\x1b[2J");
    buffer.process("A");
    let lines = buffer.to_lines();
    assert_eq!(lines.len(), 1);
    assert_eq!(line_text(&lines[0]), "A");
    assert_eq!(buffer.cell(0, 0).unwrap().ch, 'A');
}

#[test]
fn test_unknown_csi_is_consumed() {
    let mut buffer = TerminalBuffer::new(200, 1000);
    buffer.process("\x1b[99zX");
    assert_eq!(buffer.cursor(), (0, 1));
    assert_eq!(buffer.cell(0, 0).unwrap().ch, 'X');
    assert_eq!(texts(&buffer.to_lines()), vec!["X".to_string()]);
}

#[test]
fn test_tab_fills_with_spaces() {
    let mut buffer = TerminalBuffer::new(200, 1000);
    buffer.process("abc\tX");
    assert_eq!(buffer.cursor(), (0, 9));
    for col in 3..8 {
        assert_eq!(buffer.cell(0, col).unwrap().ch, ' ');
    }
    assert_eq!(buffer.cell(0, 8).unwrap().ch, 'X');
    assert_eq!(texts(&buffer.to_lines()), vec!["abc     X".to_string()]);
}

#[test]
fn test_tab_keeps_current_style() {
    let mut buffer = TerminalBuffer::new(200, 1000);
    buffer.process("\x1b[31mabc\tX");
    let red = Style { fg: Color::Red, ..default_style() };
    for col in 3..8 {
        let cell = buffer.cell(0, col).unwrap();
        assert_eq!(cell.ch, ' ');
        assert_eq!(cell.style, red);
    }
}

#[test]
fn test_backspace_floors_at_zero() {
    let mut buffer = TerminalBuffer::new(200, 1000);
    buffer.process("ab\x08\x08\x08c");
    assert_eq!(texts(&buffer.to_lines()), vec!["cb".to_string()]);
}

#[test]
fn test_osc_sequence_discarded() {
    let lines = parse_ansi_output("\x1b]0;window title\x07hello");
    assert_eq!(texts(&lines), vec!["hello".to_string()]);

    let lines = parse_ansi_output("\x1b]0;window title\x1b\\hello");
    assert_eq!(texts(&lines), vec!["hello".to_string()]);
}

#[test]
fn test_charset_and_keypad_escapes() {
    let lines = parse_ansi_output("\x1b(Bok\x1b=ay");
    assert_eq!(texts(&lines), vec!["okay".to_string()]);
}

#[test]
fn test_erase_line_modes() {
    // mode 0: truncate at the cursor
    let mut buffer = TerminalBuffer::new(200, 1000);
    buffer.process("abc\x1b[1;2H\x1b[K");
    assert_eq!(texts(&buffer.to_lines()), vec!["a".to_string()]);

    // mode 1: blank through the cursor, keeping the length
    let mut buffer = TerminalBuffer::new(200, 1000);
    buffer.process("abcd\x1b[1;2H\x1b[1K");
    assert_eq!(texts(&buffer.to_lines()), vec!["  cd".to_string()]);

    // mode 2: clear the row
    let mut buffer = TerminalBuffer::new(200, 1000);
    buffer.process("abcd\x1b[2K");
    assert!(buffer.to_lines().is_empty());
}

#[test]
fn test_relative_cursor_moves() {
    let mut buffer = TerminalBuffer::new(200, 1000);
    buffer.process("ab\x1b[D\x1b[DX");
    assert_eq!(texts(&buffer.to_lines()), vec!["Xb".to_string()]);

    let mut buffer = TerminalBuffer::new(200, 1000);
    buffer.process("a\x1b[BX");
    let lines = buffer.to_lines();
    assert_eq!(texts(&lines), vec!["a".to_string(), " X".to_string()]);

    let mut buffer = TerminalBuffer::new(200, 1000);
    buffer.process("a\nb\x1b[A\x1b[CX");
    assert_eq!(buffer.cell(0, 2).unwrap().ch, 'X');
}

#[test]
fn test_column_and_row_absolute() {
    let mut buffer = TerminalBuffer::new(200, 1000);
    buffer.process("abcdef\x1b[3GX");
    assert_eq!(texts(&buffer.to_lines()), vec!["abXdef".to_string()]);

    let mut buffer = TerminalBuffer::new(200, 1000);
    buffer.process("a\x1b[3dX");
    assert_eq!(buffer.cell(2, 1).unwrap().ch, 'X');
}

#[test]
fn test_mode_set_sequences_leave_no_text() {
    let lines = parse_ansi_output("\x1b[?2004hok\x1b[?2004l");
    assert_eq!(texts(&lines), vec!["ok".to_string()]);
}
