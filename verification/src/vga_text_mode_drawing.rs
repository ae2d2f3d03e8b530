//! Points, lines and circles on the text screen.
use crate::vga_text_mode::{
    is_screen, on_grid, written, Screen, VGAChar, VGAColorCode, VGATextMode, BUFFER_HEIGHT,
    BUFFER_WIDTH,
};
use vstd::prelude::*;

verus! {

/// The byte of the full block glyph.
pub const BLOCK: u8 = 0xDB;

/// The distance between `a` and `b`.
pub open spec fn span(a: int, b: int) -> int {
    if a > b {
        a - b
    } else {
        b - a
    }
}

/// The direction from `a` to `b`: one step back or one step on.
pub open spec fn heading(a: int, b: int) -> int {
    if a > b {
        -1
    } else {
        1
    }
}

/// How far a line has come along its short side after `i` steps along its
/// long side: `i * minor / major`, rounded to the nearest whole, halves up.
pub open spec fn rounded_share(i: int, minor: int, major: int) -> int {
    if major == 0 {
        0
    } else {
        (2 * minor * i + major) / (2 * major)
    }
}

/// Whether the line from `(x1, y1)` to `(x2, y2)` is at least as wide as it is high.
pub open spec fn is_shallow(x1: int, y1: int, x2: int, y2: int) -> bool {
    span(y1, y2) <= span(x1, x2)
}

/// How many points the line from `(x1, y1)` to `(x2, y2)` has: one for each
/// step along its long side, and none where that side runs backward.
pub open spec fn line_len(x1: int, y1: int, x2: int, y2: int) -> int {
    if is_shallow(x1, y1, x2, y2) {
        if x1 <= x2 {
            x2 - x1 + 1
        } else {
            0
        }
    } else {
        if y1 <= y2 {
            y2 - y1 + 1
        } else {
            0
        }
    }
}

/// Point `i` of the line from `(x1, y1)` to `(x2, y2)`, as column and row.
pub open spec fn line_point(x1: int, y1: int, x2: int, y2: int, i: int) -> (int, int) {
    if is_shallow(x1, y1, x2, y2) {
        (x1 + i, y1 + heading(y1, y2) * rounded_share(i, span(y1, y2), span(x1, x2)))
    } else {
        (x1 + heading(x1, x2) * rounded_share(i, span(x1, x2), span(y1, y2)), y1 + i)
    }
}

/// Whether one of the first `n` points of the line lies at `(col, row)`.
pub open spec fn line_covers(x1: int, y1: int, x2: int, y2: int, n: int, col: int, row: int) -> bool {
    exists|i: int| 0 <= i < n && #[trigger] line_point(x1, y1, x2, y2, i) == (col, row)
}

/// The screen with `cell` at every point of the line from `(x1, y1)` to `(x2, y2)`.
pub open spec fn line_drawn(screen: Screen, x1: int, y1: int, x2: int, y2: int, cell: VGAChar) -> Screen {
    Seq::new(
        BUFFER_HEIGHT as nat,
        |row: int|
            Seq::new(
                BUFFER_WIDTH as nat,
                |col: int|
                    if line_covers(x1, y1, x2, y2, line_len(x1, y1, x2, y2), col, row) {
                        cell
                    } else {
                        screen[row][col]
                    },
            ),
    )
}

/// The share of the short side is never negative and never more than the
/// short side.
proof fn lemma_share_bounds(i: int, minor: int, major: int)
    requires
        0 <= i <= major,
        0 <= minor <= major,
    ensures
        0 <= rounded_share(i, minor, major) <= minor,
{
    if major > 0 {
        let n = 2 * minor * i + major;
        let d = 2 * major;
        let q = n / d;
        vstd::arithmetic::div_mod::lemma_fundamental_div_mod(n, d);
        assert(0 <= n < d * (minor + 1)) by (nonlinear_arith)
            requires
                n == 2 * minor * i + major,
                d == 2 * major,
                0 <= i <= major,
                0 <= minor <= major,
                0 < major,
        ;
        assert(0 <= q <= minor) by (nonlinear_arith)
            requires
                n == d * q + n % d,
                0 <= n % d < d,
                0 <= n < d * (minor + 1),
                d > 0,
        ;
    }
}

/// One step along the long side: the share grows by one exactly when the
/// running error is not negative.
proof fn lemma_share_step(i: int, minor: int, major: int, share: int, error: int)
    requires
        0 <= i,
        0 <= minor <= major,
        0 < major,
        share == rounded_share(i, minor, major),
        error == 2 * minor * (i + 1) - 2 * major * share - major,
    ensures
        rounded_share(i + 1, minor, major) == if error >= 0 {
            share + 1
        } else {
            share
        },
        -2 * major <= error < 2 * minor,
{
    let d = 2 * major;
    let n0 = 2 * minor * i + major;
    let n1 = 2 * minor * (i + 1) + major;
    vstd::arithmetic::div_mod::lemma_fundamental_div_mod(n0, d);
    let r0 = n0 % d;
    assert(n1 == n0 + 2 * minor) by (nonlinear_arith)
        requires
            n0 == 2 * minor * i + major,
            n1 == 2 * minor * (i + 1) + major,
    ;
    assert(d * share == share * d) by (nonlinear_arith);
    assert(2 * major * share == d * share) by (nonlinear_arith)
        requires
            d == 2 * major,
    ;
    if error >= 0 {
        assert(n1 == (share + 1) * d + error) by (nonlinear_arith)
            requires
                n1 == n0 + 2 * minor,
                n0 == d * share + r0,
                error == r0 + 2 * minor - d,
        ;
        vstd::arithmetic::div_mod::lemma_fundamental_div_mod_converse(n1, d, share + 1, error);
    } else {
        assert(n1 == share * d + (r0 + 2 * minor)) by (nonlinear_arith)
            requires
                n1 == n0 + 2 * minor,
                n0 == d * share + r0,
        ;
        vstd::arithmetic::div_mod::lemma_fundamental_div_mod_converse(
            n1,
            d,
            share,
            r0 + 2 * minor,
        );
    }
}

/// Adding point `n` to the first `n` points of a line.
proof fn lemma_line_covers_step(x1: int, y1: int, x2: int, y2: int, n: int, col: int, row: int)
    requires
        0 <= n,
    ensures
        line_covers(x1, y1, x2, y2, n + 1, col, row) == (line_covers(x1, y1, x2, y2, n, col, row)
            || line_point(x1, y1, x2, y2, n) == (col, row)),
{
}

/// Draws a line of `byte` in `color` from `(x1, y1)` to `(x2, y2)`, one
/// cell for each step along the longer side of the line. A line whose longer
/// side runs from a higher coordinate to a lower one has no cells.
pub fn draw_line(
    screen: &mut VGATextMode,
    x1: usize,
    y1: usize,
    x2: usize,
    y2: usize,
    byte: u8,
    color: VGAColorCode,
)
    requires
        line_len(x1 as int, y1 as int, x2 as int, y2 as int) > 0 ==> on_grid(y1 as int, x1 as int)
            && on_grid(y2 as int, x2 as int),
    ensures
        final(screen)@ == line_drawn(
            old(screen)@,
            x1 as int,
            y1 as int,
            x2 as int,
            y2 as int,
            VGAChar { char: byte, color_code: color },
        ),
{
    let ghost before = screen@;
    let ghost cell = VGAChar { char: byte, color_code: color };
    proof {
        screen.lemma_is_screen();
    }
    let dx: usize = if x1 > x2 {
        x1 - x2
    } else {
        x2 - x1
    };
    let dy: usize = if y1 > y2 {
        y1 - y2
    } else {
        y2 - y1
    };
    let shallow: bool = dy <= dx;
    let runs: bool = if shallow {
        x1 <= x2
    } else {
        y1 <= y2
    };
    if !runs {
        assert(screen@ =~~= line_drawn(before, x1 as int, y1 as int, x2 as int, y2 as int, cell));
        return ;
    }
    let major: usize = if shallow {
        dx
    } else {
        dy
    };
    let minor: usize = if shallow {
        dy
    } else {
        dx
    };
    let backward: bool = if shallow {
        y1 > y2
    } else {
        x1 > x2
    };
    let mut error: i32 = 2 * (minor as i32) - (major as i32);
    let mut share: usize = 0;
    let mut i: usize = 0;
    proof {
        if major > 0 {
            vstd::arithmetic::div_mod::lemma_fundamental_div_mod_converse(
                2 * minor * 0 + major,
                2 * major,
                0,
                major as int,
            );
        }
        assert(error == 2 * minor * (0 + 1) - 2 * major * 0 - major) by (nonlinear_arith)
            requires
                error == 2 * minor - major,
        ;
    }
    while i <= major
        invariant
            is_screen(before),
            is_screen(screen@),
            cell == (VGAChar { char: byte, color_code: color }),
            on_grid(y1 as int, x1 as int),
            on_grid(y2 as int, x2 as int),
            dx == span(x1 as int, x2 as int),
            dy == span(y1 as int, y2 as int),
            shallow == is_shallow(x1 as int, y1 as int, x2 as int, y2 as int),
            shallow ==> major == dx && minor == dy && x1 <= x2 && backward == (y1 > y2),
            !shallow ==> major == dy && minor == dx && y1 <= y2 && backward == (x1 > x2),
            minor <= major,
            i <= major + 1,
            i <= major ==> share == rounded_share(i as int, minor as int, major as int),
            i <= major ==> error == 2 * minor * (i + 1) - 2 * major * share - major,
            forall|row: int, col: int|
                on_grid(row, col) ==> #[trigger] screen@[row][col] == if line_covers(
                    x1 as int,
                    y1 as int,
                    x2 as int,
                    y2 as int,
                    i as int,
                    col,
                    row,
                ) {
                    cell
                } else {
                    before[row][col]
                },
        decreases major + 1 - i,
    {
        proof {
            lemma_share_bounds(i as int, minor as int, major as int);
            if major > 0 {
                lemma_share_step(i as int, minor as int, major as int, share as int, error as int);
            }
        }
        let along: usize = if backward {
            (if shallow {
                y1
            } else {
                x1
            }) - share
        } else {
            (if shallow {
                y1
            } else {
                x1
            }) + share
        };
        let col: usize = if shallow {
            x1 + i
        } else {
            along
        };
        let row: usize = if shallow {
            along
        } else {
            y1 + i
        };
        assert((col as int, row as int) == line_point(
            x1 as int,
            y1 as int,
            x2 as int,
            y2 as int,
            i as int,
        )) by {
            assert(heading(y1 as int, y2 as int) * (share as int) == if y1 > y2 {
                -(share as int)
            } else {
                share as int
            }) by (nonlinear_arith);
            assert(heading(x1 as int, x2 as int) * (share as int) == if x1 > x2 {
                -(share as int)
            } else {
                share as int
            }) by (nonlinear_arith);
        }
        screen.write(byte, color, col, row);
        assert forall|r: int, c: int| on_grid(r, c) implies #[trigger] screen@[r][c]
            == if line_covers(x1 as int, y1 as int, x2 as int, y2 as int, i + 1, c, r) {
            cell
        } else {
            before[r][c]
        } by {
            lemma_line_covers_step(x1 as int, y1 as int, x2 as int, y2 as int, i as int, c, r);
        }
        let ghost last_error = error as int;
        let ghost last_share = share as int;
        if major > 0 {
            if error >= 0 {
                share = share + 1;
                error = error - 2 * (major as i32);
            }
            error = error + 2 * (minor as i32);
        }
        assert(major > 0 ==> error == 2 * minor * (i + 1 + 1) - 2 * major * share - major)
            by (nonlinear_arith)
            requires
                last_error == 2 * minor * (i + 1) - 2 * major * last_share - major,
                major > 0 ==> error == if last_error >= 0 {
                    last_error - 2 * major + 2 * minor
                } else {
                    last_error + 2 * minor
                },
                share == if major > 0 && last_error >= 0 {
                    last_share + 1
                } else {
                    last_share
                },
        ;
        i = i + 1;
    }
    assert(screen@ =~~= line_drawn(before, x1 as int, y1 as int, x2 as int, y2 as int, cell));
}

/// Draws a block in `color` at column `x` of row `y`. A point off the screen
/// is skipped.
pub fn draw_point(screen: &mut VGATextMode, x: usize, y: usize, color: VGAColorCode)
    ensures
        final(screen)@ == if on_grid(y as int, x as int) {
            written(
                old(screen)@,
                y as int,
                x as int,
                VGAChar { char: BLOCK, color_code: color },
            )
        } else {
            old(screen)@
        },
{
    if x >= BUFFER_WIDTH || y >= BUFFER_HEIGHT {
        return ;
    }
    screen.write(BLOCK, color, x, y);
}

/// The half width of a circle of radius `r` at height `k` above its
/// center, for the eighth of the circle that starts at its rightmost point:
/// from one height to the next it stays while the middle between it and the
/// column left of it lies within the circle, and shrinks by one otherwise.
pub open spec fn octant_x(r: int, k: int) -> int
    decreases k,
{
    if k <= 0 {
        r
    } else {
        let x = octant_x(r, k - 1);
        if k * k + x * x - x <= r * r {
            x
        } else {
            x - 1
        }
    }
}

/// Whether `(col, row)` lies `a` columns and `b` rows from `(cx, cy)`, or
/// `b` columns and `a` rows.
pub open spec fn mirrored(cx: int, cy: int, a: int, b: int, col: int, row: int) -> bool {
    (span(col, cx) == a && span(row, cy) == b) || (span(col, cx) == b && span(row, cy) == a)
}

/// Whether `(col, row)` is a point of the circle round `(cx, cy)` with
/// radius `r` at one of its first `n` heights. The eighth of the circle ends
/// where its height overtakes its half width.
pub open spec fn circle_covers(cx: int, cy: int, r: int, n: int, col: int, row: int) -> bool {
    exists|k: int|
        0 <= k < n && octant_x(r, k) >= k && #[trigger] mirrored(
            cx,
            cy,
            octant_x(r, k),
            k,
            col,
            row,
        )
}

/// The screen with `cell` at every point of the circle round `(cx, cy)`
/// with radius `r` that lies on the screen.
pub open spec fn circle_drawn(screen: Screen, cx: int, cy: int, r: int, cell: VGAChar) -> Screen {
    Seq::new(
        BUFFER_HEIGHT as nat,
        |row: int|
            Seq::new(
                BUFFER_WIDTH as nat,
                |col: int|
                    if circle_covers(cx, cy, r, r + 1, col, row) {
                        cell
                    } else {
                        screen[row][col]
                    },
            ),
    )
}

/// The half width never grows with the height.
proof fn lemma_octant_shrinks(r: int, k: int, m: int)
    requires
        0 <= k <= m,
    ensures
        octant_x(r, m) <= octant_x(r, k),
    decreases m - k,
{
    if k < m {
        lemma_octant_shrinks(r, k, m - 1);
    }
}

/// Adding height `n` to the first `n` heights of a circle.
proof fn lemma_circle_covers_step(cx: int, cy: int, r: int, n: int, col: int, row: int)
    requires
        0 <= n,
    ensures
        circle_covers(cx, cy, r, n + 1, col, row) == (circle_covers(cx, cy, r, n, col, row) || (
        octant_x(r, n) >= n && mirrored(cx, cy, octant_x(r, n), n, col, row))),
{
}

/// Once the height has caught up with the half width, no later height adds
/// a point.
proof fn lemma_circle_covers_rest(cx: int, cy: int, r: int, n: int, m: int, col: int, row: int)
    requires
        1 <= n <= m,
        octant_x(r, n - 1) <= n - 1,
    ensures
        circle_covers(cx, cy, r, m, col, row) == circle_covers(cx, cy, r, n, col, row),
{
    if circle_covers(cx, cy, r, m, col, row) {
        let k = choose|k: int|
            0 <= k < m && octant_x(r, k) >= k && #[trigger] mirrored(
                cx,
                cy,
                octant_x(r, k),
                k,
                col,
                row,
            );
        if k >= n {
            lemma_octant_shrinks(r, n - 1, k);
        }
    }
}

/// Writes `byte` in `color` at `(col, row)`, if that is a cell of the screen.
fn safe_write(screen: &mut VGATextMode, col: i128, row: i128, byte: u8, color: VGAColorCode)
    ensures
        final(screen)@ == if on_grid(row as int, col as int) {
            written(
                old(screen)@,
                row as int,
                col as int,
                VGAChar { char: byte, color_code: color },
            )
        } else {
            old(screen)@
        },
{
    if col >= 0 && row >= 0 && col < BUFFER_WIDTH as i128 && row < BUFFER_HEIGHT as i128 {
        screen.write(byte, color, col as usize, row as usize);
    }
}

/// Writes `byte` in `color` at the cells that lie `a` columns and `b` rows
/// from `(cx, cy)`.
fn plot_four(
    screen: &mut VGATextMode,
    cx: i128,
    cy: i128,
    a: i128,
    b: i128,
    byte: u8,
    color: VGAColorCode,
)
    requires
        0 <= cx <= usize::MAX,
        0 <= cy <= usize::MAX,
        0 <= a <= usize::MAX,
        0 <= b <= usize::MAX,
    ensures
        is_screen(final(screen)@),
        forall|row: int, col: int|
            on_grid(row, col) ==> #[trigger] final(screen)@[row][col] == if span(col, cx as int) == a
                && span(row, cy as int) == b {
                VGAChar { char: byte, color_code: color }
            } else {
                old(screen)@[row][col]
            },
{
    proof {
        screen.lemma_is_screen();
    }
    safe_write(screen, cx + a, cy - b, byte, color);
    safe_write(screen, cx - a, cy + b, byte, color);
    safe_write(screen, cx + a, cy + b, byte, color);
    safe_write(screen, cx - a, cy - b, byte, color);
    proof {
        screen.lemma_is_screen();
    }
}

/// Draws a circle of `byte` in `color` round `(cx, cy)` with radius `r`.
/// Points of the circle that lie off the screen are skipped. The center and
/// the radius are taken as signed machine words, so none of them may exceed
/// `isize::MAX`.
pub fn draw_circle(
    screen: &mut VGATextMode,
    cx: usize,
    cy: usize,
    r: usize,
    byte: u8,
    color: VGAColorCode,
)
    requires
        cx <= isize::MAX,
        cy <= isize::MAX,
        r <= isize::MAX,
    ensures
        final(screen)@ == circle_drawn(
            old(screen)@,
            cx as int,
            cy as int,
            r as int,
            VGAChar { char: byte, color_code: color },
        ),
{
    let ghost before = screen@;
    let ghost cell = VGAChar { char: byte, color_code: color };
    proof {
        screen.lemma_is_screen();
    }
    let center_x: i128 = cx as i128;
    let center_y: i128 = cy as i128;
    let radius: i128 = r as i128;
    let mut x: i128 = radius;
    let mut y: i128 = 0;
    let mut p: i128 = 1 - radius;
    assert(p == (y + 1) * (y + 1) + x * x - x - radius * radius) by (nonlinear_arith)
        requires
            y == 0,
            x == radius,
            p == 1 - radius,
    ;
    plot_four(screen, center_x, center_y, x, y, byte, color);
    plot_four(screen, center_x, center_y, y, x, byte, color);
    assert forall|row: int, col: int| on_grid(row, col) implies #[trigger] screen@[row][col]
        == if circle_covers(cx as int, cy as int, r as int, 1, col, row) {
        cell
    } else {
        before[row][col]
    } by {
        lemma_circle_covers_step(cx as int, cy as int, r as int, 0, col, row);
    }
    while x > y
        invariant
            is_screen(before),
            is_screen(screen@),
            cell == (VGAChar { char: byte, color_code: color }),
            center_x == cx,
            center_y == cy,
            radius == r,
            0 <= y <= radius,
            0 <= x <= radius,
            x == octant_x(r as int, y as int),
            p == (y + 1) * (y + 1) + x * x - x - radius * radius,
            x > y ==> -2 * radius <= p - 2 * y - 1 <= 0,
            forall|row: int, col: int|
                on_grid(row, col) ==> #[trigger] screen@[row][col] == if circle_covers(
                    cx as int,
                    cy as int,
                    r as int,
                    y + 1,
                    col,
                    row,
                ) {
                    cell
                } else {
                    before[row][col]
                },
        ensures
            is_screen(screen@),
            0 <= y <= radius,
            octant_x(r as int, y as int) <= y,
            forall|row: int, col: int|
                on_grid(row, col) ==> #[trigger] screen@[row][col] == if circle_covers(
                    cx as int,
                    cy as int,
                    r as int,
                    y + 1,
                    col,
                    row,
                ) {
                    cell
                } else {
                    before[row][col]
                },
        decreases x - y,
    {
        let ghost last_x = x as int;
        let ghost last_y = y as int;
        let ghost last_p = p as int;
        y = y + 1;
        if p <= 0 {
            p = p + 2 * y + 1;
        } else {
            x = x - 1;
            p = p + 2 * y - 2 * x + 1;
        }
        assert(x == octant_x(r as int, y as int)) by {
            assert(last_p == y * y + last_x * last_x - last_x - radius * radius) by (nonlinear_arith)
                requires
                    last_p == (last_y + 1) * (last_y + 1) + last_x * last_x - last_x - radius
                        * radius,
                    y == last_y + 1,
            ;
        }
        assert(p == (y + 1) * (y + 1) + x * x - x - radius * radius) by (nonlinear_arith)
            requires
                last_p == (last_y + 1) * (last_y + 1) + last_x * last_x - last_x - radius * radius,
                y == last_y + 1,
                (x == last_x && p == last_p + 2 * y + 1) || (x == last_x - 1 && p == last_p + 2 * y
                    - 2 * x + 1),
        ;
        if x < y {
            assert forall|row: int, col: int| on_grid(row, col) implies #[trigger] screen@[row][col]
                == if circle_covers(cx as int, cy as int, r as int, y + 1, col, row) {
                cell
            } else {
                before[row][col]
            } by {
                lemma_circle_covers_step(cx as int, cy as int, r as int, y as int, col, row);
            }
            break ;
        }
        plot_four(screen, center_x, center_y, x, y, byte, color);
        if x != y {
            plot_four(screen, center_x, center_y, y, x, byte, color);
        }
        assert forall|row: int, col: int| on_grid(row, col) implies #[trigger] screen@[row][col]
            == if circle_covers(cx as int, cy as int, r as int, y + 1, col, row) {
            cell
        } else {
            before[row][col]
        } by {
            lemma_circle_covers_step(cx as int, cy as int, r as int, y as int, col, row);
        }
    }
    assert forall|row: int, col: int| on_grid(row, col) implies #[trigger] screen@[row][col]
        == circle_drawn(before, cx as int, cy as int, r as int, cell)[row][col] by {
        lemma_circle_covers_rest(cx as int, cy as int, r as int, y + 1, r + 1, col, row);
    }
    assert(screen@ =~~= circle_drawn(before, cx as int, cy as int, r as int, cell));
}

} // verus!
