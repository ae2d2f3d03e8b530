use kernel::vga_writer::{Color, VGAWriter, BUFFER_HEIGHT, BUFFER_WIDTH, SCREEN_BYTES};

#[test]
fn new_writer_is_zeroed() {
    let writer = VGAWriter::new();
    assert_eq!((writer.col, writer.row), (0, 0));
    assert_eq!(writer.buffer, vec![0u8; 4000]);
    assert_eq!(SCREEN_BYTES, (BUFFER_HEIGHT * BUFFER_WIDTH * 2) as usize);
}

#[test]
fn color_numbers() {
    assert_eq!(Color::Black.as_u8(), 0);
    assert_eq!(Color::Red.as_u8(), 4);
    assert_eq!(Color::White.as_u8(), 15);
}

#[test]
fn write_byte_stores_character_then_color() {
    let mut writer = VGAWriter::new();
    writer.write_byte(b'A', Color::Red);
    writer.write_byte(b'B', Color::Yellow);
    assert_eq!(&writer.buffer[..6], &[b'A', 4, b'B', 14, 0, 0]);
    assert_eq!((writer.col, writer.row), (2, 0));
}

#[test]
fn write_str_writes_every_byte_as_a_cell() {
    let mut writer = VGAWriter::new();
    writer.write_str("a\nb", Color::Green);
    assert_eq!(&writer.buffer[..8], &[b'a', 2, b'\n', 2, b'b', 2, 0, 0]);
    assert_eq!((writer.col, writer.row), (3, 0));
}

#[test]
fn write_str_wraps_past_right_edge() {
    let mut writer = VGAWriter::new();
    writer.write_str(&"x".repeat(81), Color::White);
    assert_eq!((writer.col, writer.row), (1, 1));
    assert_eq!(&writer.buffer[158..164], &[b'x', 15, b'x', 15, 0, 0]);
}

#[test]
fn write_text_breaks_lines_in_white() {
    let mut writer = VGAWriter::new();
    writer.write_text("a\nb\r");
    assert_eq!(&writer.buffer[..4], &[b'a', 15, 0, 0]);
    assert_eq!(&writer.buffer[160..166], &[b'b', 15, b'\r', 15, 0, 0]);
    assert_eq!((writer.col, writer.row), (2, 1));
}

#[test]
fn new_line_scrolls_and_zeroes_last_row() {
    let mut writer = VGAWriter::new();
    for row in 0..25u8 {
        writer.write_byte(b'a' + row, Color::White);
        if row < 24 {
            writer.new_line();
        }
    }
    assert_eq!((writer.col, writer.row), (1, 24));
    writer.new_line();
    assert_eq!((writer.col, writer.row), (0, 24));
    for row in 0..24usize {
        assert_eq!(&writer.buffer[row * 160..row * 160 + 2], &[b'b' + row as u8, 15]);
    }
    assert_eq!(&writer.buffer[24 * 160..], &[0u8; 160]);
}

#[test]
fn shift_rows_up_keeps_last_row() {
    let mut writer = VGAWriter::new();
    for i in 0..4000 {
        writer.buffer[i] = (i / 160) as u8;
    }
    writer.shift_rows_up();
    for i in 0..4000 {
        let row = i / 160;
        assert_eq!(writer.buffer[i], if row < 24 { row as u8 + 1 } else { 24 });
    }
}

#[test]
fn clear_row_and_clear_screen_zero_bytes() {
    let mut writer = VGAWriter::new();
    for i in 0..4000 {
        writer.buffer[i] = 7;
    }
    writer.col = 5;
    writer.row = 6;
    writer.clear_row(2);
    for i in 0..4000 {
        assert_eq!(writer.buffer[i], if i / 160 == 2 { 0 } else { 7 });
    }
    writer.clear_screen();
    assert_eq!(writer.buffer, vec![0u8; 4000]);
    assert_eq!((writer.col, writer.row), (5, 6));
}
