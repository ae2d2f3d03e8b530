//! A writer on the raw bytes of the text screen: two bytes for each cell,
//! the character and then its color, row by row.
use vstd::prelude::*;
use vstd::string::StringSliceAdditionalSpecFns;

verus! {

/// Rows of the text screen.
pub const BUFFER_HEIGHT: isize = 25;

/// Columns of the text screen.
pub const BUFFER_WIDTH: isize = 80;

/// Bytes of one row: two for each cell.
pub const ROW_BYTES: usize = 160;

/// Bytes of the whole screen.
pub const SCREEN_BYTES: usize = 4000;

/// The sixteen colors of the text screen.
#[derive(Debug, Clone, Copy, PartialEq, Eq, Structural)]
pub enum Color {
    Black,
    Blue,
    Green,
    Cyan,
    Red,
    Magenta,
    Brown,
    LightGray,
    DarkGray,
    LightBlue,
    LightGreen,
    LightCyan,
    LightRed,
    Pink,
    Yellow,
    White,
}

impl Color {
    /// The number that the hardware knows this color by.
    pub open spec fn code(self) -> u8 {
        match self {
            Color::Black => 0,
            Color::Blue => 1,
            Color::Green => 2,
            Color::Cyan => 3,
            Color::Red => 4,
            Color::Magenta => 5,
            Color::Brown => 6,
            Color::LightGray => 7,
            Color::DarkGray => 8,
            Color::LightBlue => 9,
            Color::LightGreen => 10,
            Color::LightCyan => 11,
            Color::LightRed => 12,
            Color::Pink => 13,
            Color::Yellow => 14,
            Color::White => 15,
        }
    }

    /// Returns the number that the hardware knows this color by.
    pub fn as_u8(self) -> (code: u8)
        ensures
            code == self.code(),
    {
        match self {
            Color::Black => 0,
            Color::Blue => 1,
            Color::Green => 2,
            Color::Cyan => 3,
            Color::Red => 4,
            Color::Magenta => 5,
            Color::Brown => 6,
            Color::LightGray => 7,
            Color::DarkGray => 8,
            Color::LightBlue => 9,
            Color::LightGreen => 10,
            Color::LightCyan => 11,
            Color::LightRed => 12,
            Color::Pink => 13,
            Color::Yellow => 14,
            Color::White => 15,
        }
    }
}

/// The bytes of the screen together with the place of the cursor.
pub ghost struct Page {
    pub bytes: Seq<u8>,
    pub col: int,
    pub row: int,
}

/// The bytes of the screen with every row but the first moved one row up.
/// The last row stays as it was.
pub open spec fn rows_shifted_up(bytes: Seq<u8>) -> Seq<u8> {
    Seq::new(
        bytes.len(),
        |i: int|
            if i < SCREEN_BYTES - ROW_BYTES {
                bytes[i + ROW_BYTES]
            } else {
                bytes[i]
            },
    )
}

/// The bytes of the screen with those of row `row` zero.
pub open spec fn row_zeroed(bytes: Seq<u8>, row: int) -> Seq<u8> {
    Seq::new(
        bytes.len(),
        |i: int|
            if row * ROW_BYTES <= i < (row + 1) * ROW_BYTES {
                0u8
            } else {
                bytes[i]
            },
    )
}

/// The page after a line break: the cursor at the start of the next row,
/// or, from the last row, every row moved up by one and the last row zero.
pub open spec fn line_fed(page: Page) -> Page {
    if page.row < BUFFER_HEIGHT - 1 {
        Page { bytes: page.bytes, col: 0, row: page.row + 1 }
    } else {
        Page { bytes: row_zeroed(rows_shifted_up(page.bytes), BUFFER_HEIGHT - 1), col: 0, row: page.row }
    }
}

/// The page after `byte` was put under the cursor with color code `code`:
/// the line is broken first where the cursor is past the right edge, and the
/// cursor ends one column further.
pub open spec fn byte_written(page: Page, byte: u8, code: u8) -> Page {
    let at = if page.col >= BUFFER_WIDTH {
        line_fed(page)
    } else {
        page
    };
    let place = (at.row * BUFFER_WIDTH + at.col) * 2;
    Page { bytes: at.bytes.update(place, byte).update(place + 1, code), col: at.col + 1, row: at.row }
}

/// The page after each of `text` was written, one after the other.
pub open spec fn bytes_written(page: Page, text: Seq<u8>, code: u8) -> Page
    decreases text.len(),
{
    if text.len() == 0 {
        page
    } else {
        byte_written(bytes_written(page, text.drop_last(), code), text.last(), code)
    }
}

/// The page after the bytes of a text in white, where a line feed breaks
/// the line and every other byte is written.
pub open spec fn text_written(page: Page, text: Seq<u8>) -> Page
    decreases text.len(),
{
    if text.len() == 0 {
        page
    } else {
        let before = text_written(page, text.drop_last());
        if text.last() == 0x0a {
            line_fed(before)
        } else {
            byte_written(before, text.last(), Color::White.code())
        }
    }
}

/// The writer: the bytes of the screen and the cursor.
pub struct VGAWriter {
    pub buffer: Vec<u8>,
    pub col: isize,
    pub row: isize,
}

impl VGAWriter {
    /// Whether the buffer has the size of the screen and the cursor is in
    /// one of its rows, at or right of the first column.
    pub open spec fn wf(self) -> bool {
        &&& self.buffer@.len() == SCREEN_BYTES
        &&& 0 <= self.row < BUFFER_HEIGHT
        &&& 0 <= self.col <= BUFFER_WIDTH
    }

    /// The writer's page.
    pub open spec fn view(&self) -> Page {
        Page { bytes: self.buffer@, col: self.col as int, row: self.row as int }
    }

    /// A writer on a zeroed screen, with the cursor in the top left corner.
    pub fn new() -> (writer: VGAWriter)
        ensures
            writer.wf(),
            writer@ == (Page { bytes: Seq::new(SCREEN_BYTES as nat, |i: int| 0u8), col: 0, row: 0 }),
    {
        let buffer: Vec<u8> = vec![0u8; SCREEN_BYTES];
        assert(buffer@ =~= Seq::new(SCREEN_BYTES as nat, |i: int| 0u8));
        VGAWriter { buffer, col: 0, row: 0 }
    }

    /// Writes `byte` in `color` under the cursor and advances the cursor.
    pub fn write_byte(&mut self, byte: u8, color: Color)
        requires
            old(self).wf(),
        ensures
            final(self).wf(),
            final(self)@ == byte_written(old(self)@, byte, color.code()),
    {
        if self.col >= BUFFER_WIDTH {
            self.new_line();
        }
        let place: usize = ((self.row * BUFFER_WIDTH + self.col) * 2) as usize;
        self.buffer[place] = byte;
        self.buffer[place + 1] = color.as_u8();
        self.col += 1;
        assert(self.buffer@ =~= byte_written(old(self)@, byte, color.code()).bytes);
    }

    /// Writes the bytes of `s` in `color`, one cell for each byte.
    pub fn write_str(&mut self, s: &str, color: Color)
        requires
            old(self).wf(),
        ensures
            final(self).wf(),
            final(self)@ == bytes_written(old(self)@, s.spec_bytes(), color.code()),
    {
        let bytes = s.as_bytes();
        let ghost start = self@;
        let mut i: usize = 0;
        while i < bytes.len()
            invariant
                bytes@ == s.spec_bytes(),
                i <= bytes@.len(),
                self.wf(),
                self@ == bytes_written(start, bytes@.take(i as int), color.code()),
            decreases bytes@.len() - i,
        {
            assert(bytes@.take(i + 1).drop_last() == bytes@.take(i as int));
            self.write_byte(bytes[i], color);
            i = i + 1;
        }
        assert(bytes@.take(i as int) == bytes@);
    }

    /// Writes the bytes of `s` in white. A line feed breaks the line.
    pub fn write_text(&mut self, s: &str)
        requires
            old(self).wf(),
        ensures
            final(self).wf(),
            final(self)@ == text_written(old(self)@, s.spec_bytes()),
    {
        let bytes = s.as_bytes();
        let ghost start = self@;
        let mut i: usize = 0;
        while i < bytes.len()
            invariant
                bytes@ == s.spec_bytes(),
                i <= bytes@.len(),
                self.wf(),
                self@ == text_written(start, bytes@.take(i as int)),
            decreases bytes@.len() - i,
        {
            assert(bytes@.take(i + 1).drop_last() == bytes@.take(i as int));
            let byte: u8 = bytes[i];
            if byte == 0x0a {
                self.new_line();
            } else {
                self.write_byte(byte, Color::White);
            }
            i = i + 1;
        }
        assert(bytes@.take(i as int) == bytes@);
    }

    /// Moves every row but the first one row up. The last row stays as it was.
    pub fn shift_rows_up(&mut self)
        requires
            old(self).wf(),
        ensures
            final(self).wf(),
            final(self)@ == (Page { bytes: rows_shifted_up(old(self)@.bytes), ..old(self)@ }),
    {
        let ghost before = self.buffer@;
        let moved: usize = SCREEN_BYTES - ROW_BYTES;
        let mut i: usize = 0;
        while i < moved
            invariant
                moved == SCREEN_BYTES - ROW_BYTES,
                i <= moved,
                self.buffer@.len() == SCREEN_BYTES == before.len(),
                self.col == old(self).col,
                self.row == old(self).row,
                forall|j: int|
                    0 <= j < SCREEN_BYTES ==> self.buffer@[j] == if j < i {
                        before[j + ROW_BYTES]
                    } else {
                        before[j]
                    },
            decreases moved - i,
        {
            let byte: u8 = self.buffer[i + ROW_BYTES];
            self.buffer[i] = byte;
            i = i + 1;
        }
        assert(self.buffer@ =~= rows_shifted_up(before));
    }

    /// Zeroes the bytes of row `row`.
    pub fn clear_row(&mut self, row: isize)
        requires
            old(self).wf(),
            0 <= row < BUFFER_HEIGHT,
        ensures
            final(self).wf(),
            final(self)@ == (Page { bytes: row_zeroed(old(self)@.bytes, row as int), ..old(self)@ }),
    {
        let ghost before = self.buffer@;
        let first: usize = row as usize * ROW_BYTES;
        let mut i: usize = 0;
        while i < ROW_BYTES
            invariant
                first == row * ROW_BYTES,
                0 <= row < BUFFER_HEIGHT,
                i <= ROW_BYTES,
                self.buffer@.len() == SCREEN_BYTES == before.len(),
                self.col == old(self).col,
                self.row == old(self).row,
                forall|j: int|
                    0 <= j < SCREEN_BYTES ==> self.buffer@[j] == if first <= j < first + i {
                        0u8
                    } else {
                        before[j]
                    },
            decreases ROW_BYTES - i,
        {
            self.buffer[first + i] = 0;
            i = i + 1;
        }
        assert(self.buffer@ =~= row_zeroed(before, row as int));
    }

    /// Breaks the line: moves the cursor to the start of the next row, and
    /// from the last row moves every row up by one and zeroes the last.
    pub fn new_line(&mut self)
        requires
            old(self).wf(),
        ensures
            final(self).wf(),
            final(self)@ == line_fed(old(self)@),
    {
        if self.row < BUFFER_HEIGHT - 1 {
            self.row += 1;
            self.col = 0;
        } else {
            self.shift_rows_up();
            self.clear_row(BUFFER_HEIGHT - 1);
            self.col = 0;
        }
    }

    /// Zeroes the bytes of every row.
    pub fn clear_screen(&mut self)
        requires
            old(self).wf(),
        ensures
            final(self).wf(),
            final(self)@ == (Page {
                bytes: Seq::new(SCREEN_BYTES as nat, |i: int| 0u8),
                ..old(self)@
            }),
    {
        let mut row: isize = 0;
        while row < BUFFER_HEIGHT
            invariant
                0 <= row <= BUFFER_HEIGHT,
                self.wf(),
                self.col == old(self).col,
                self.row == old(self).row,
                forall|j: int| 0 <= j < row * ROW_BYTES ==> self.buffer@[j] == 0u8,
            decreases BUFFER_HEIGHT - row,
        {
            self.clear_row(row);
            row = row + 1;
        }
        assert(self.buffer@ =~= Seq::new(SCREEN_BYTES as nat, |i: int| 0u8));
    }
}

} // verus!
