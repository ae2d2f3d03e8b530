use kernel::vga_text_mode::{
    ColorData, VGAChar, VGAColorCode, VGATextMode, BUFFER_HEIGHT, BUFFER_WIDTH,
};

const BLANK: VGAChar = VGAChar { char: b' ', color_code: VGAColorCode::Black };

fn cell(byte: u8) -> VGAChar {
    VGAChar { char: byte, color_code: VGAColorCode::Green }
}

/// A screen whose cell at `(row, col)` holds the byte `row * 10 + col % 10`.
fn patterned() -> VGATextMode {
    let mut screen = VGATextMode::new();
    for row in 0..BUFFER_HEIGHT {
        for col in 0..BUFFER_WIDTH {
            screen.write((row * 10 + col % 10) as u8, VGAColorCode::Green, col, row);
        }
    }
    screen
}

fn pattern(row: usize, col: usize) -> VGAChar {
    cell((row * 10 + col % 10) as u8)
}

fn check(screen: &VGATextMode, expected: impl Fn(usize, usize) -> VGAChar) {
    for row in 0..BUFFER_HEIGHT {
        for col in 0..BUFFER_WIDTH {
            assert_eq!(screen.read(col, row), expected(row, col), "row {row} col {col}");
        }
    }
}

#[test]
fn color_codes() {
    assert_eq!(VGAColorCode::Black.as_u8(), 0);
    assert_eq!(VGAColorCode::LightGray.as_u8(), 7);
    assert_eq!(VGAColorCode::DarkGray.as_u8(), 8);
    assert_eq!(VGAColorCode::White.as_u8(), 15);
}

#[test]
fn color_data_packs_attribute_byte() {
    assert_eq!(ColorData::new(VGAColorCode::White, VGAColorCode::Blue, false), ColorData(0x1F));
    assert_eq!(ColorData::new(VGAColorCode::Yellow, VGAColorCode::Black, true), ColorData(0x8E));
    assert_eq!(ColorData::new(VGAColorCode::Red, VGAColorCode::LightGray, true), ColorData(0xF4));
    assert_eq!(ColorData::new(VGAColorCode::Black, VGAColorCode::White, false), ColorData(0xF0));
}

#[test]
fn new_screen_is_blank() {
    let screen = VGATextMode::new();
    check(&screen, |_, _| BLANK);
}

#[test]
fn write_changes_one_cell() {
    let mut screen = VGATextMode::new();
    screen.write(b'A', VGAColorCode::Red, 79, 24);
    screen.write(b'B', VGAColorCode::Blue, 0, 0);
    check(&screen, |row, col| match (row, col) {
        (24, 79) => VGAChar { char: b'A', color_code: VGAColorCode::Red },
        (0, 0) => VGAChar { char: b'B', color_code: VGAColorCode::Blue },
        _ => BLANK,
    });
}

#[test]
fn clears() {
    let mut screen = patterned();
    screen.clear_row(3);
    check(&screen, |row, col| if row == 3 { BLANK } else { pattern(row, col) });

    let mut screen = patterned();
    screen.clear_column(79);
    check(&screen, |row, col| if col == 79 { BLANK } else { pattern(row, col) });

    let mut screen = patterned();
    screen.clear_row_range(23, 25);
    check(&screen, |row, col| if row >= 23 { BLANK } else { pattern(row, col) });

    let mut screen = patterned();
    screen.clear_column_range(0, 2);
    check(&screen, |row, col| if col < 2 { BLANK } else { pattern(row, col) });

    let mut screen = patterned();
    screen.clear_subrow(10, 20, 5);
    check(&screen, |row, col| {
        if row == 5 && (10..20).contains(&col) { BLANK } else { pattern(row, col) }
    });

    let mut screen = patterned();
    screen.clear_subcolumn(10, 20, 5);
    check(&screen, |row, col| {
        if col == 5 && (10..20).contains(&row) { BLANK } else { pattern(row, col) }
    });

    let mut screen = patterned();
    screen.clear_rect(1, 3, 70, 500);
    check(&screen, |row, col| {
        if (1..3).contains(&row) && col >= 70 { BLANK } else { pattern(row, col) }
    });

    let mut screen = patterned();
    screen.clear_row(25);
    screen.clear_column(80);
    screen.clear_rect(5, 5, 0, 80);
    check(&screen, pattern);

    screen.clear_screen();
    check(&screen, |_, _| BLANK);
}

#[test]
fn shifts_without_wrap() {
    let mut screen = patterned();
    screen.shift_left_by_x(3);
    check(&screen, |row, col| if col + 3 < 80 { pattern(row, col + 3) } else { BLANK });

    let mut screen = patterned();
    screen.shift_right_by_x(3);
    check(&screen, |row, col| if col >= 3 { pattern(row, col - 3) } else { BLANK });

    let mut screen = patterned();
    screen.shift_up_by_x(1);
    check(&screen, |row, col| if row + 1 < 25 { pattern(row + 1, col) } else { BLANK });

    let mut screen = patterned();
    screen.shift_down_by_x(24);
    check(&screen, |row, col| if row == 24 { pattern(0, col) } else { BLANK });

    let mut screen = patterned();
    screen.shift_left_by_x(0);
    screen.shift_right_by_x(0);
    screen.shift_up_by_x(0);
    screen.shift_down_by_x(0);
    check(&screen, pattern);

    screen.shift_left_by_x(80);
    check(&screen, |_, _| BLANK);
    let mut screen = patterned();
    screen.shift_up_by_x(25);
    check(&screen, |_, _| BLANK);
}

#[test]
fn shifts_with_wrap() {
    let mut screen = patterned();
    screen.shift_left_by_x_with_wrap(3);
    check(&screen, |row, col| pattern(row, (col + 3) % 80));

    let mut screen = patterned();
    screen.shift_right_by_x_with_wrap(3);
    check(&screen, |row, col| pattern(row, (col + 77) % 80));

    let mut screen = patterned();
    screen.shift_up_by_x_with_wrap(2);
    check(&screen, |row, col| pattern((row + 2) % 25, col));

    let mut screen = patterned();
    screen.shift_down_by_x_with_wrap(2);
    check(&screen, |row, col| pattern((row + 23) % 25, col));

    let mut screen = patterned();
    screen.shift_left_by_x_with_wrap(80);
    screen.shift_right_by_x_with_wrap(80);
    screen.shift_up_by_x_with_wrap(25);
    screen.shift_down_by_x_with_wrap(25);
    screen.shift_left_by_x_with_wrap(0);
    screen.shift_down_by_x_with_wrap(0);
    check(&screen, pattern);

    screen.shift_left_by_x_with_wrap(7);
    screen.shift_right_by_x_with_wrap(7);
    screen.shift_up_by_x_with_wrap(9);
    screen.shift_down_by_x_with_wrap(9);
    check(&screen, pattern);
}
