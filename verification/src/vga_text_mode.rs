//! The text screen: a grid of character cells, with writes, clears and
//! shifts of its contents.
use vstd::prelude::*;

verus! {

/// Rows of the text screen.
pub const BUFFER_HEIGHT: usize = 25;

/// Columns of the text screen.
pub const BUFFER_WIDTH: usize = 80;

/// The sixteen colors of the text screen.
#[derive(Debug, Clone, Copy, PartialEq, Eq, Structural)]
pub enum VGAColorCode {
    Black,
    Blue,
    Green,
    Cyan,
    Red,
    Magenta,
    Brown,
    LightGray,
    DarkGray,
    LightBlue,
    LightGreen,
    LightCyan,
    LightRed,
    Pink,
    Yellow,
    White,
}

impl VGAColorCode {
    /// The number that the hardware knows this color by.
    pub open spec fn code(self) -> u8 {
        match self {
            VGAColorCode::Black => 0,
            VGAColorCode::Blue => 1,
            VGAColorCode::Green => 2,
            VGAColorCode::Cyan => 3,
            VGAColorCode::Red => 4,
            VGAColorCode::Magenta => 5,
            VGAColorCode::Brown => 6,
            VGAColorCode::LightGray => 7,
            VGAColorCode::DarkGray => 8,
            VGAColorCode::LightBlue => 9,
            VGAColorCode::LightGreen => 10,
            VGAColorCode::LightCyan => 11,
            VGAColorCode::LightRed => 12,
            VGAColorCode::Pink => 13,
            VGAColorCode::Yellow => 14,
            VGAColorCode::White => 15,
        }
    }

    /// Returns the number that the hardware knows this color by.
    pub fn as_u8(self) -> (code: u8)
        ensures
            code == self.code(),
            code < 16,
    {
        match self {
            VGAColorCode::Black => 0,
            VGAColorCode::Blue => 1,
            VGAColorCode::Green => 2,
            VGAColorCode::Cyan => 3,
            VGAColorCode::Red => 4,
            VGAColorCode::Magenta => 5,
            VGAColorCode::Brown => 6,
            VGAColorCode::LightGray => 7,
            VGAColorCode::DarkGray => 8,
            VGAColorCode::LightBlue => 9,
            VGAColorCode::LightGreen => 10,
            VGAColorCode::LightCyan => 11,
            VGAColorCode::LightRed => 12,
            VGAColorCode::Pink => 13,
            VGAColorCode::Yellow => 14,
            VGAColorCode::White => 15,
        }
    }
}

/// One cell of the text screen.
#[derive(Debug, Clone, Copy, PartialEq, Eq, Structural)]
pub struct VGAChar {
    pub char: u8,
    pub color_code: VGAColorCode,
}

/// The attribute byte of a cell: blink flag, background and foreground.
#[derive(Debug, Clone, Copy, PartialEq, Eq, Structural)]
pub struct ColorData(pub u8);

impl ColorData {
    /// Packs the foreground into the low four bits and the background into
    /// the four above them. The top bit is the blink flag; a background from
    /// the bright half of the colors sets it too.
    pub fn new(foreground: VGAColorCode, background: VGAColorCode, blink: bool) -> (data: ColorData)
        ensures
            data.0 as int == (if blink || background.code() >= 8 {
                128int
            } else {
                0int
            }) + (background.code() % 8) * 16 + foreground.code(),
    {
        let flag: u8 = if blink {
            1
        } else {
            0
        };
        let back: u8 = background.as_u8();
        let fore: u8 = foreground.as_u8();
        let packed: u8 = (flag << 7) | (back << 4) | fore;
        assert(((flag << 7) | (back << 4) | fore) == (if flag == 1 || back >= 8 {
            128u8
        } else {
            0u8
        }) + (back % 8) * 16 + fore) by (bit_vector)
            requires
                flag <= 1,
                back < 16,
                fore < 16,
        ;
        ColorData(packed)
    }
}

/// The contents of every cell, row by row.
pub type Screen = Seq<Seq<VGAChar>>;

/// The cell that a cleared place holds: a space on black.
pub open spec fn blank() -> VGAChar {
    VGAChar { char: 0x20, color_code: VGAColorCode::Black }
}

/// Whether `(row, col)` is a cell of the screen.
pub open spec fn on_grid(row: int, col: int) -> bool {
    0 <= row < BUFFER_HEIGHT && 0 <= col < BUFFER_WIDTH
}

/// Whether `screen` has the rows and columns of the text screen.
pub open spec fn is_screen(screen: Screen) -> bool {
    &&& screen.len() == BUFFER_HEIGHT
    &&& forall|row: int| 0 <= row < BUFFER_HEIGHT ==> (#[trigger] screen[row]).len() == BUFFER_WIDTH
}

/// The screen with `cell` at `(row, col)`.
pub open spec fn written(screen: Screen, row: int, col: int, cell: VGAChar) -> Screen {
    screen.update(row, screen[row].update(col, cell))
}

/// The screen with every cell of the rows from `row0` up to `row1` and the
/// columns from `col0` up to `col1` blank.
pub open spec fn cleared(screen: Screen, row0: int, row1: int, col0: int, col1: int) -> Screen {
    Seq::new(
        BUFFER_HEIGHT as nat,
        |row: int|
            Seq::new(
                BUFFER_WIDTH as nat,
                |col: int|
                    if row0 <= row < row1 && col0 <= col < col1 {
                        blank()
                    } else {
                        screen[row][col]
                    },
            ),
    )
}

/// The screen with every cell taken from the cell `dx` columns to its right
/// and `dy` rows below it, and blank where that place is off the screen.
pub open spec fn shifted(screen: Screen, dx: int, dy: int) -> Screen {
    Seq::new(
        BUFFER_HEIGHT as nat,
        |row: int|
            Seq::new(
                BUFFER_WIDTH as nat,
                |col: int|
                    if on_grid(row + dy, col + dx) {
                        screen[row + dy][col + dx]
                    } else {
                        blank()
                    },
            ),
    )
}

/// The screen with every cell taken from the cell `dx` columns to its right
/// and `dy` rows below it, counted round the edges of the screen.
pub open spec fn rotated(screen: Screen, dx: int, dy: int) -> Screen {
    Seq::new(
        BUFFER_HEIGHT as nat,
        |row: int|
            Seq::new(
                BUFFER_WIDTH as nat,
                |col: int|
                    screen[(row + dy) % (BUFFER_HEIGHT as int)][(col + dx) % (BUFFER_WIDTH as int)],
            ),
    )
}

/// A change of the whole screen, cell by cell.
#[allow(inconsistent_fields)]
enum Remap {
    Clear { row0: usize, row1: usize, col0: usize, col1: usize },
    Shift { dx: i32, dy: i32 },
    Rotate { dx: usize, dy: usize },
}

impl Remap {
    spec fn applied(self, screen: Screen) -> Screen {
        match self {
            Remap::Clear { row0, row1, col0, col1 } => cleared(
                screen,
                row0 as int,
                row1 as int,
                col0 as int,
                col1 as int,
            ),
            Remap::Shift { dx, dy } => shifted(screen, dx as int, dy as int),
            Remap::Rotate { dx, dy } => rotated(screen, dx as int, dy as int),
        }
    }

    spec fn wf(self) -> bool {
        match self {
            Remap::Clear { .. } => true,
            Remap::Shift { dx, dy } => -(BUFFER_WIDTH as int) <= dx <= BUFFER_WIDTH && -(BUFFER_HEIGHT as int)
                <= dy <= BUFFER_HEIGHT,
            Remap::Rotate { dx, dy } => dx <= BUFFER_WIDTH && dy <= BUFFER_HEIGHT,
        }
    }
}

/// The text screen.
pub struct VGATextMode {
    cells: Vec<VGAChar>,
}

impl VGATextMode {
    #[verifier::type_invariant]
    spec fn full(self) -> bool {
        self.cells@.len() == BUFFER_HEIGHT * BUFFER_WIDTH
    }

    /// The contents of the screen: `self@[row][col]` is the cell in column
    /// `col` of row `row`.
    pub closed spec fn view(&self) -> Screen {
        Seq::new(
            BUFFER_HEIGHT as nat,
            |row: int| Seq::new(BUFFER_WIDTH as nat, |col: int| self.cells@[row * BUFFER_WIDTH + col]),
        )
    }

    /// A blank screen.
    pub fn new() -> (screen: VGATextMode)
        ensures
            is_screen(screen@),
            forall|row: int, col: int| on_grid(row, col) ==> #[trigger] screen@[row][col] == blank(),
    {
        let cells: Vec<VGAChar> = vec![
            VGAChar { char: 0x20, color_code: VGAColorCode::Black };
            BUFFER_HEIGHT * BUFFER_WIDTH
        ];
        VGATextMode { cells }
    }

    /// The screen always has its rows and columns.
    pub proof fn lemma_is_screen(&self)
        ensures
            is_screen(self@),
    {
    }

    /// Returns the cell in column `col` of row `row`.
    pub fn read(&self, col: usize, row: usize) -> (cell: VGAChar)
        requires
            on_grid(row as int, col as int),
        ensures
            cell == self@[row as int][col as int],
    {
        proof {
            use_type_invariant(self);
        }
        self.cells[row * BUFFER_WIDTH + col]
    }

    /// Puts `byte` in `color` into column `col` of row `row`.
    pub fn write(&mut self, byte: u8, color: VGAColorCode, col: usize, row: usize)
        requires
            on_grid(row as int, col as int),
        ensures
            final(self)@ == written(
                old(self)@,
                row as int,
                col as int,
                VGAChar { char: byte, color_code: color },
            ),
    {
        proof {
            use_type_invariant(&*self);
        }
        self.cells[row * BUFFER_WIDTH + col] = VGAChar { char: byte, color_code: color };
        assert(self@ =~~= written(
            old(self)@,
            row as int,
            col as int,
            VGAChar { char: byte, color_code: color },
        ));
    }

    /// Computes the cell that `op` puts at `(row, col)`.
    fn remapped(&self, op: &Remap, row: usize, col: usize) -> (cell: VGAChar)
        requires
            op.wf(),
            on_grid(row as int, col as int),
        ensures
            cell == op.applied(self@)[row as int][col as int],
    {
        proof {
            use_type_invariant(self);
        }
        let empty = VGAChar { char: 0x20, color_code: VGAColorCode::Black };
        match op {
            Remap::Clear { row0, row1, col0, col1 } => {
                if *row0 <= row && row < *row1 && *col0 <= col && col < *col1 {
                    empty
                } else {
                    self.cells[row * BUFFER_WIDTH + col]
                }
            },
            Remap::Shift { dx, dy } => {
                let from_row: i32 = row as i32 + *dy;
                let from_col: i32 = col as i32 + *dx;
                if 0 <= from_row && from_row < BUFFER_HEIGHT as i32 && 0 <= from_col && from_col
                    < BUFFER_WIDTH as i32 {
                    self.cells[from_row as usize * BUFFER_WIDTH + from_col as usize]
                } else {
                    empty
                }
            },
            Remap::Rotate { dx, dy } => {
                let from_row: usize = (row + *dy) % BUFFER_HEIGHT;
                let from_col: usize = (col + *dx) % BUFFER_WIDTH;
                self.cells[from_row * BUFFER_WIDTH + from_col]
            },
        }
    }

    /// Replaces the contents of the screen by what `op` makes of them.
    fn apply(&mut self, op: Remap)
        requires
            op.wf(),
        ensures
            final(self)@ == op.applied(old(self)@),
    {
        proof {
            use_type_invariant(&*self);
        }
        let total: usize = BUFFER_HEIGHT * BUFFER_WIDTH;
        let mut next: Vec<VGAChar> = Vec::with_capacity(total);
        let mut at: usize = 0;
        while at < total
            invariant
                total == BUFFER_HEIGHT * BUFFER_WIDTH,
                op.wf(),
                at <= total,
                next@.len() == at,
                forall|k: int|
                    0 <= k < at ==> next@[k] == op.applied(self@)[k / (BUFFER_WIDTH as int)][k % (
                    BUFFER_WIDTH as int)],
            decreases total - at,
        {
            let cell = self.remapped(&op, at / BUFFER_WIDTH, at % BUFFER_WIDTH);
            next.push(cell);
            at = at + 1;
        }
        let ghost before = self@;
        self.cells = next;
        assert(self@ =~~= op.applied(before));
    }

    /// Blanks the rows from `start_row` up to `end_row`, in the columns
    /// from `start_col` up to `end_col`.
    pub fn clear_rect(&mut self, start_row: usize, end_row: usize, start_col: usize, end_col: usize)
        ensures
            final(self)@ == cleared(
                old(self)@,
                start_row as int,
                end_row as int,
                start_col as int,
                end_col as int,
            ),
    {
        self.apply(Remap::Clear { row0: start_row, row1: end_row, col0: start_col, col1: end_col });
    }

    /// Blanks row `row`.
    pub fn clear_row(&mut self, row: usize)
        ensures
            final(self)@ == cleared(old(self)@, row as int, row + 1, 0, BUFFER_WIDTH as int),
    {
        if row < BUFFER_HEIGHT {
            self.clear_rect(row, row + 1, 0, BUFFER_WIDTH);
        } else {
            assert(self@ =~~= cleared(self@, row as int, row + 1, 0, BUFFER_WIDTH as int));
        }
    }

    /// Blanks column `col`.
    pub fn clear_column(&mut self, col: usize)
        ensures
            final(self)@ == cleared(old(self)@, 0, BUFFER_HEIGHT as int, col as int, col + 1),
    {
        if col < BUFFER_WIDTH {
            self.clear_rect(0, BUFFER_HEIGHT, col, col + 1);
        } else {
            assert(self@ =~~= cleared(self@, 0, BUFFER_HEIGHT as int, col as int, col + 1));
        }
    }

    /// Blanks the whole screen.
    pub fn clear_screen(&mut self)
        ensures
            final(self)@ == cleared(old(self)@, 0, BUFFER_HEIGHT as int, 0, BUFFER_WIDTH as int),
    {
        self.clear_rect(0, BUFFER_HEIGHT, 0, BUFFER_WIDTH);
    }

    /// Blanks the rows from `start_row` up to `end_row`.
    pub fn clear_row_range(&mut self, start_row: usize, end_row: usize)
        ensures
            final(self)@ == cleared(
                old(self)@,
                start_row as int,
                end_row as int,
                0,
                BUFFER_WIDTH as int,
            ),
    {
        self.clear_rect(start_row, end_row, 0, BUFFER_WIDTH);
    }

    /// Blanks the columns from `start_col` up to `end_col`.
    pub fn clear_column_range(&mut self, start_col: usize, end_col: usize)
        ensures
            final(self)@ == cleared(
                old(self)@,
                0,
                BUFFER_HEIGHT as int,
                start_col as int,
                end_col as int,
            ),
    {
        self.clear_rect(0, BUFFER_HEIGHT, start_col, end_col);
    }

    /// Blanks the columns from `start_col` up to `end_col` of row `row`.
    pub fn clear_subrow(&mut self, start_col: usize, end_col: usize, row: usize)
        ensures
            final(self)@ == cleared(
                old(self)@,
                row as int,
                row + 1,
                start_col as int,
                end_col as int,
            ),
    {
        if row < BUFFER_HEIGHT {
            self.clear_rect(row, row + 1, start_col, end_col);
        } else {
            assert(self@ =~~= cleared(self@, row as int, row + 1, start_col as int, end_col as int));
        }
    }

    /// Blanks the rows from `start_row` up to `end_row` of column `col`.
    pub fn clear_subcolumn(&mut self, start_row: usize, end_row: usize, col: usize)
        ensures
            final(self)@ == cleared(
                old(self)@,
                start_row as int,
                end_row as int,
                col as int,
                col + 1,
            ),
    {
        if col < BUFFER_WIDTH {
            self.clear_rect(start_row, end_row, col, col + 1);
        } else {
            assert(self@ =~~= cleared(self@, start_row as int, end_row as int, col as int, col + 1));
        }
    }

    /// Shifts the screen to the left by `x` columns, dropping the leftmost
    /// `x` columns. The rightmost `x` columns are left blank.
    pub fn shift_left_by_x(&mut self, x: usize)
        requires
            x <= BUFFER_WIDTH,
        ensures
            final(self)@ == shifted(old(self)@, x as int, 0),
    {
        self.apply(Remap::Shift { dx: x as i32, dy: 0 });
    }

    /// Shifts the screen to the right by `x` columns, dropping the
    /// rightmost `x` columns. The leftmost `x` columns are left blank.
    pub fn shift_right_by_x(&mut self, x: usize)
        requires
            x <= BUFFER_WIDTH,
        ensures
            final(self)@ == shifted(old(self)@, -(x as int), 0),
    {
        self.apply(Remap::Shift { dx: -(x as i32), dy: 0 });
    }

    /// Shifts all rows up by `x`, dropping the top `x` rows. The bottom `x`
    /// rows are left blank.
    pub fn shift_up_by_x(&mut self, x: usize)
        requires
            x <= BUFFER_HEIGHT,
        ensures
            final(self)@ == shifted(old(self)@, 0, x as int),
    {
        self.apply(Remap::Shift { dx: 0, dy: x as i32 });
    }

    /// Shifts all rows down by `x`, dropping the bottom `x` rows. The top
    /// `x` rows are left blank.
    pub fn shift_down_by_x(&mut self, x: usize)
        requires
            x <= BUFFER_HEIGHT,
        ensures
            final(self)@ == shifted(old(self)@, 0, -(x as int)),
    {
        self.apply(Remap::Shift { dx: 0, dy: -(x as i32) });
    }

    /// Shifts the screen to the left by `x` columns, wrapping the leftmost
    /// `x` columns to the right.
    pub fn shift_left_by_x_with_wrap(&mut self, x: usize)
        requires
            x <= BUFFER_WIDTH,
        ensures
            final(self)@ == rotated(old(self)@, x as int, 0),
    {
        self.apply(Remap::Rotate { dx: x, dy: 0 });
    }

    /// Shifts the screen to the right by `x` columns, wrapping the
    /// rightmost `x` columns to the left.
    pub fn shift_right_by_x_with_wrap(&mut self, x: usize)
        requires
            x <= BUFFER_WIDTH,
        ensures
            final(self)@ == rotated(old(self)@, BUFFER_WIDTH - x, 0),
    {
        self.apply(Remap::Rotate { dx: BUFFER_WIDTH - x, dy: 0 });
    }

    /// Shifts all rows up by `x`, wrapping the top `x` rows to the bottom.
    pub fn shift_up_by_x_with_wrap(&mut self, x: usize)
        requires
            x <= BUFFER_HEIGHT,
        ensures
            final(self)@ == rotated(old(self)@, 0, x as int),
    {
        self.apply(Remap::Rotate { dx: 0, dy: x });
    }

    /// Shifts all rows down by `x`, wrapping the bottom `x` rows to the top.
    pub fn shift_down_by_x_with_wrap(&mut self, x: usize)
        requires
            x <= BUFFER_HEIGHT,
        ensures
            final(self)@ == rotated(old(self)@, 0, BUFFER_HEIGHT - x),
    {
        self.apply(Remap::Rotate { dx: 0, dy: BUFFER_HEIGHT - x });
    }
}

impl Default for VGATextMode {
    fn default() -> (screen: VGATextMode)
        ensures
            is_screen(screen@),
            forall|row: int, col: int| on_grid(row, col) ==> #[trigger] screen@[row][col] == blank(),
    {
        VGATextMode::new()
    }
}

} // verus!
