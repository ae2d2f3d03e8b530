//! A terminal on the text screen: a cursor that advances with each byte
//! written, breaks lines at the right edge and scrolls at the bottom.
use crate::vga_text_mode::{
    cleared, shifted, written, Screen, VGAChar, VGAColorCode, VGATextMode, BUFFER_HEIGHT,
    BUFFER_WIDTH,
};
use vstd::prelude::*;
use vstd::string::StringSliceAdditionalSpecFns;

verus! {

/// The byte that the cursor shows as while it is visible.
pub const CURSOR_GLYPH: u8 = 0x5f;

/// The byte of a blank cell.
pub const SPACE: u8 = 0x20;

/// The screen together with the place of the cursor.
pub ghost struct Console {
    pub screen: Screen,
    pub col: int,
    pub row: int,
}

/// The console after a line break: the cursor at the start of the next
/// row, or, from the last row, the screen scrolled up by one row with a
/// blank last row.
pub open spec fn line_fed(console: Console) -> Console {
    if console.row < BUFFER_HEIGHT - 1 {
        Console { screen: console.screen, col: 0, row: console.row + 1 }
    } else {
        Console {
            screen: cleared(
                shifted(console.screen, 0, 1),
                BUFFER_HEIGHT - 1,
                BUFFER_HEIGHT as int,
                0,
                BUFFER_WIDTH as int,
            ),
            col: 0,
            row: console.row,
        }
    }
}

/// The console after `byte` was put under the cursor in `color`: the line
/// is broken first where the cursor is past the right edge, and the cursor
/// ends one column further.
pub open spec fn byte_written(console: Console, byte: u8, color: VGAColorCode) -> Console {
    let at = if console.col >= BUFFER_WIDTH {
        line_fed(console)
    } else {
        console
    };
    Console {
        screen: written(at.screen, at.row, at.col, VGAChar { char: byte, color_code: color }),
        col: at.col + 1,
        row: at.row,
    }
}

/// The console after a backspace: the cell under the cursor blank in
/// `color`, if the cursor stands on a cell, and the cursor one column back,
/// if it was not in the first.
pub open spec fn erased(console: Console, color: VGAColorCode) -> Console {
    Console {
        screen: if console.col < BUFFER_WIDTH {
            written(
                console.screen,
                console.row,
                console.col,
                VGAChar { char: SPACE, color_code: color },
            )
        } else {
            console.screen
        },
        col: if console.col > 0 {
            console.col - 1
        } else {
            0
        },
        row: console.row,
    }
}

/// The console after one byte of text: a line feed or a carriage return
/// breaks the line, a backspace erases, any other byte is written.
pub open spec fn byte_fed(console: Console, byte: u8, color: VGAColorCode) -> Console {
    if byte == 0x0a || byte == 0x0d {
        line_fed(console)
    } else if byte == 0x08 {
        erased(console, color)
    } else {
        byte_written(console, byte, color)
    }
}

/// The console after the bytes of a text, one after the other.
pub open spec fn bytes_fed(console: Console, bytes: Seq<u8>, color: VGAColorCode) -> Console
    decreases bytes.len(),
{
    if bytes.len() == 0 {
        console
    } else {
        byte_fed(bytes_fed(console, bytes.drop_last(), color), bytes.last(), color)
    }
}

/// The console after the bytes of a text in white, where a line feed
/// breaks the line and every other byte is written.
pub open spec fn text_fed(console: Console, text: Seq<u8>) -> Console
    decreases text.len(),
{
    if text.len() == 0 {
        console
    } else {
        let before = text_fed(console, text.drop_last());
        if text.last() == 0x0a {
            line_fed(before)
        } else {
            byte_written(before, text.last(), VGAColorCode::White)
        }
    }
}

/// The cursor of the terminal.
pub struct VGATextModeTerminal {
    pub col: usize,
    pub row: usize,
}

impl VGATextModeTerminal {
    /// Whether the cursor is in a row of the screen.
    pub open spec fn wf(self) -> bool {
        self.row < BUFFER_HEIGHT
    }

    /// This cursor on `screen`.
    pub open spec fn on(self, screen: Screen) -> Console {
        Console { screen, col: self.col as int, row: self.row as int }
    }

    /// A cursor in the top left corner.
    pub fn new() -> (terminal: VGATextModeTerminal)
        ensures
            terminal.col == 0,
            terminal.row == 0,
    {
        VGATextModeTerminal { col: 0, row: 0 }
    }

    /// Draws the cursor in white under its place: its glyph while
    /// `cursor_visible`, a space otherwise. Nothing is drawn while the cursor
    /// is past the right edge.
    pub fn toggle_cursor(&mut self, screen: &mut VGATextMode, cursor_visible: bool)
        requires
            old(self).wf(),
        ensures
            *final(self) == *old(self),
            final(screen)@ == if old(self).col < BUFFER_WIDTH {
                written(
                    old(screen)@,
                    old(self).row as int,
                    old(self).col as int,
                    VGAChar {
                        char: if cursor_visible {
                            CURSOR_GLYPH
                        } else {
                            SPACE
                        },
                        color_code: VGAColorCode::White,
                    },
                )
            } else {
                old(screen)@
            },
    {
        let character: u8 = if cursor_visible {
            CURSOR_GLYPH
        } else {
            SPACE
        };
        if self.col < BUFFER_WIDTH {
            screen.write(character, VGAColorCode::White, self.col, self.row);
        }
    }

    /// Writes `byte` in `color` under the cursor and advances the cursor.
    pub fn write_byte(&mut self, screen: &mut VGATextMode, byte: u8, color: VGAColorCode)
        requires
            old(self).wf(),
        ensures
            final(self).wf(),
            final(self).col <= BUFFER_WIDTH,
            final(self).on(final(screen)@) == byte_written(old(self).on(old(screen)@), byte, color),
    {
        if self.col >= BUFFER_WIDTH {
            self.new_line(screen);
        }
        screen.write(byte, color, self.col, self.row);
        self.col += 1;
    }

    /// Writes the bytes of `s` in `color`. A line feed or a carriage return
    /// breaks the line; a backspace blanks the cell under the cursor and
    /// moves the cursor one column back.
    pub fn write_str(&mut self, screen: &mut VGATextMode, s: &str, color: VGAColorCode)
        requires
            old(self).wf(),
        ensures
            final(self).wf(),
            final(self).on(final(screen)@) == bytes_fed(
                old(self).on(old(screen)@),
                s.spec_bytes(),
                color,
            ),
    {
        let bytes = s.as_bytes();
        let ghost start = self.on(screen@);
        let mut i: usize = 0;
        while i < bytes.len()
            invariant
                bytes@ == s.spec_bytes(),
                i <= bytes@.len(),
                self.wf(),
                self.on(screen@) == bytes_fed(start, bytes@.take(i as int), color),
            decreases bytes@.len() - i,
        {
            assert(bytes@.take(i + 1).drop_last() == bytes@.take(i as int));
            let byte: u8 = bytes[i];
            if byte == 0x0a || byte == 0x0d {
                self.new_line(screen);
            } else if byte == 0x08 {
                if self.col < BUFFER_WIDTH {
                    screen.write(SPACE, color, self.col, self.row);
                }
                if self.col > 0 {
                    self.col -= 1;
                }
            } else {
                self.write_byte(screen, byte, color);
            }
            i = i + 1;
        }
        assert(bytes@.take(i as int) == bytes@);
    }

    /// Writes the bytes of `s` in white. A line feed breaks the line; every
    /// other byte is written as it is.
    pub fn write_text(&mut self, screen: &mut VGATextMode, s: &str)
        requires
            old(self).wf(),
        ensures
            final(self).wf(),
            final(self).on(final(screen)@) == text_fed(old(self).on(old(screen)@), s.spec_bytes()),
    {
        let bytes = s.as_bytes();
        let ghost start = self.on(screen@);
        let mut i: usize = 0;
        while i < bytes.len()
            invariant
                bytes@ == s.spec_bytes(),
                i <= bytes@.len(),
                self.wf(),
                self.on(screen@) == text_fed(start, bytes@.take(i as int)),
            decreases bytes@.len() - i,
        {
            assert(bytes@.take(i + 1).drop_last() == bytes@.take(i as int));
            let byte: u8 = bytes[i];
            if byte == 0x0a {
                self.new_line(screen);
            } else {
                self.write_byte(screen, byte, VGAColorCode::White);
            }
            i = i + 1;
        }
        assert(bytes@.take(i as int) == bytes@);
    }

    /// Scrolls the screen up by one row. The last row is left blank.
    pub fn shift_rows_up(&mut self, screen: &mut VGATextMode)
        ensures
            *final(self) == *old(self),
            final(screen)@ == shifted(old(screen)@, 0, 1),
    {
        screen.shift_up_by_x(1);
    }

    /// Blanks row `row` of the screen.
    pub fn clear_row(&mut self, screen: &mut VGATextMode, row: usize)
        ensures
            *final(self) == *old(self),
            final(screen)@ == cleared(old(screen)@, row as int, row + 1, 0, BUFFER_WIDTH as int),
    {
        screen.clear_row(row);
    }

    /// Breaks the line: moves the cursor to the start of the next row, and
    /// scrolls the screen where the cursor is in the last row.
    pub fn new_line(&mut self, screen: &mut VGATextMode)
        ensures
            final(self).on(final(screen)@) == line_fed(old(self).on(old(screen)@)),
    {
        if self.row < BUFFER_HEIGHT - 1 {
            self.row += 1;
            self.col = 0;
        } else {
            self.shift_rows_up(screen);
            self.clear_row(screen, BUFFER_HEIGHT - 1);
            self.col = 0;
        }
    }

    /// Blanks the screen and moves the cursor to the top left corner.
    pub fn clear_screen(&mut self, screen: &mut VGATextMode)
        ensures
            final(self).col == 0,
            final(self).row == 0,
            final(screen)@ == cleared(
                old(screen)@,
                0,
                BUFFER_HEIGHT as int,
                0,
                BUFFER_WIDTH as int,
            ),
    {
        screen.clear_screen();
        self.col = 0;
        self.row = 0;
    }
}

impl Default for VGATextModeTerminal {
    fn default() -> (terminal: VGATextModeTerminal)
        ensures
            terminal.col == 0,
            terminal.row == 0,
    {
        VGATextModeTerminal::new()
    }
}

} // verus!
