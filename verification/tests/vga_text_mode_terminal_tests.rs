use kernel::vga_text_mode::{VGAChar, VGAColorCode, VGATextMode};
use kernel::vga_text_mode_terminal::VGATextModeTerminal;

const BLANK: VGAChar = VGAChar { char: b' ', color_code: VGAColorCode::Black };

fn white(byte: u8) -> VGAChar {
    VGAChar { char: byte, color_code: VGAColorCode::White }
}

fn row_text(screen: &VGATextMode, row: usize, len: usize) -> String {
    (0..len).map(|col| screen.read(col, row).char as char).collect()
}

#[test]
fn new_terminal_starts_top_left() {
    let terminal = VGATextModeTerminal::new();
    assert_eq!((terminal.col, terminal.row), (0, 0));
}

#[test]
fn write_byte_advances_cursor() {
    let mut screen = VGATextMode::new();
    let mut terminal = VGATextModeTerminal::new();
    terminal.write_byte(&mut screen, b'h', VGAColorCode::White);
    terminal.write_byte(&mut screen, b'i', VGAColorCode::Red);
    assert_eq!((terminal.col, terminal.row), (2, 0));
    assert_eq!(screen.read(0, 0), white(b'h'));
    assert_eq!(screen.read(1, 0), VGAChar { char: b'i', color_code: VGAColorCode::Red });
    assert_eq!(screen.read(2, 0), BLANK);
}

#[test]
fn write_byte_breaks_line_past_right_edge() {
    let mut screen = VGATextMode::new();
    let mut terminal = VGATextModeTerminal::new();
    for _ in 0..80 {
        terminal.write_byte(&mut screen, b'x', VGAColorCode::White);
    }
    assert_eq!((terminal.col, terminal.row), (80, 0));
    terminal.write_byte(&mut screen, b'y', VGAColorCode::White);
    assert_eq!((terminal.col, terminal.row), (1, 1));
    assert_eq!(screen.read(79, 0), white(b'x'));
    assert_eq!(screen.read(0, 1), white(b'y'));
}

#[test]
fn write_str_handles_line_breaks() {
    let mut screen = VGATextMode::new();
    let mut terminal = VGATextModeTerminal::new();
    terminal.write_str(&mut screen, "ab\ncd\refg", VGAColorCode::White);
    assert_eq!((terminal.col, terminal.row), (3, 2));
    assert_eq!(row_text(&screen, 0, 3), "ab ");
    assert_eq!(row_text(&screen, 1, 3), "cd ");
    assert_eq!(row_text(&screen, 2, 4), "efg ");
}

#[test]
fn write_str_backspace_blanks_under_cursor_and_steps_back() {
    let mut screen = VGATextMode::new();
    let mut terminal = VGATextModeTerminal::new();
    terminal.write_str(&mut screen, "abc", VGAColorCode::White);
    terminal.col = 1;
    terminal.write_str(&mut screen, "\x08", VGAColorCode::Cyan);
    assert_eq!((terminal.col, terminal.row), (0, 0));
    assert_eq!(screen.read(0, 0), white(b'a'));
    assert_eq!(screen.read(1, 0), VGAChar { char: b' ', color_code: VGAColorCode::Cyan });
    assert_eq!(screen.read(2, 0), white(b'c'));
    terminal.write_str(&mut screen, "\x08", VGAColorCode::Cyan);
    assert_eq!((terminal.col, terminal.row), (0, 0));
    assert_eq!(screen.read(0, 0), VGAChar { char: b' ', color_code: VGAColorCode::Cyan });
}

#[test]
fn write_str_backspace_past_right_edge_only_steps_back() {
    let mut screen = VGATextMode::new();
    let mut terminal = VGATextModeTerminal::new();
    terminal.write_str(&mut screen, &"x".repeat(80), VGAColorCode::White);
    assert_eq!((terminal.col, terminal.row), (80, 0));
    terminal.write_str(&mut screen, "\x08", VGAColorCode::White);
    assert_eq!((terminal.col, terminal.row), (79, 0));
    assert_eq!(row_text(&screen, 0, 80), "x".repeat(80));
}

#[test]
fn write_str_writes_bytes_of_multibyte_text() {
    let mut screen = VGATextMode::new();
    let mut terminal = VGATextModeTerminal::new();
    terminal.write_str(&mut screen, "é", VGAColorCode::White);
    assert_eq!((terminal.col, terminal.row), (2, 0));
    assert_eq!(screen.read(0, 0), white(0xC3));
    assert_eq!(screen.read(1, 0), white(0xA9));
}

#[test]
fn new_line_scrolls_at_bottom() {
    let mut screen = VGATextMode::new();
    let mut terminal = VGATextModeTerminal::new();
    for row in 0..25u8 {
        terminal.write_byte(&mut screen, b'a' + row, VGAColorCode::White);
        if row < 24 {
            terminal.new_line(&mut screen);
        }
    }
    assert_eq!((terminal.col, terminal.row), (1, 24));
    terminal.new_line(&mut screen);
    assert_eq!((terminal.col, terminal.row), (0, 24));
    for row in 0..24u8 {
        assert_eq!(screen.read(0, row as usize), white(b'b' + row));
    }
    assert_eq!(screen.read(0, 24), BLANK);
}

#[test]
fn shift_rows_up_and_clear_row_leave_cursor() {
    let mut screen = VGATextMode::new();
    let mut terminal = VGATextModeTerminal::new();
    terminal.write_str(&mut screen, "top\nnext", VGAColorCode::White);
    terminal.shift_rows_up(&mut screen);
    assert_eq!((terminal.col, terminal.row), (4, 1));
    assert_eq!(row_text(&screen, 0, 5), "next ");
    assert_eq!(row_text(&screen, 1, 5), "     ");
    terminal.clear_row(&mut screen, 0);
    assert_eq!(row_text(&screen, 0, 5), "     ");
    assert_eq!(screen.read(0, 0), BLANK);
    assert_eq!((terminal.col, terminal.row), (4, 1));
}

#[test]
fn clear_screen_resets_cursor() {
    let mut screen = VGATextMode::new();
    let mut terminal = VGATextModeTerminal::new();
    terminal.write_str(&mut screen, "some\ntext", VGAColorCode::White);
    terminal.clear_screen(&mut screen);
    assert_eq!((terminal.col, terminal.row), (0, 0));
    for row in 0..25 {
        for col in 0..80 {
            assert_eq!(screen.read(col, row), BLANK);
        }
    }
}

#[test]
fn toggle_cursor_draws_glyph_or_space() {
    let mut screen = VGATextMode::new();
    let mut terminal = VGATextModeTerminal::new();
    terminal.write_str(&mut screen, "ab", VGAColorCode::Green);
    terminal.toggle_cursor(&mut screen, true);
    assert_eq!(screen.read(2, 0), white(b'_'));
    assert_eq!((terminal.col, terminal.row), (2, 0));
    terminal.toggle_cursor(&mut screen, false);
    assert_eq!(screen.read(2, 0), white(b' '));
    terminal.col = 80;
    terminal.toggle_cursor(&mut screen, true);
    assert_eq!(screen.read(79, 0), BLANK);
}

#[test]
fn write_text_breaks_lines_on_line_feed_only() {
    let mut screen = VGATextMode::new();
    let mut terminal = VGATextModeTerminal::new();
    terminal.write_text(&mut screen, "ab\nc\r\x08d");
    assert_eq!((terminal.col, terminal.row), (4, 1));
    assert_eq!(screen.read(0, 0), white(b'a'));
    assert_eq!(screen.read(1, 0), white(b'b'));
    assert_eq!(screen.read(2, 0), BLANK);
    assert_eq!(screen.read(0, 1), white(b'c'));
    assert_eq!(screen.read(1, 1), white(b'\r'));
    assert_eq!(screen.read(2, 1), white(0x08));
    assert_eq!(screen.read(3, 1), white(b'd'));
}
