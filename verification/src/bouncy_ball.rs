//! A ball that bounces between the edges of the text screen: where it is,
//! where it goes next, and how it is drawn.
use crate::vga_text_mode::{cleared, written, Screen, VGAChar, VGAColorCode, VGATextMode};
use crate::vga_text_mode_drawing::{
    circle_drawn, draw_circle, draw_line, draw_point, line_drawn, BLOCK,
};
use vstd::prelude::*;

verus! {

/// Radius of the ball in cells.
pub const BALL_RADIUS: i32 = 3;

/// Columns of the field that the ball bounces in.
pub const FIELD_WIDTH: i32 = 80;

/// Rows of the field that the ball bounces in.
pub const FIELD_HEIGHT: i32 = 25;

/// Calls of the delay between two frames of the ball.
pub const FRAME_DELAYS: u32 = 60;

/// The center of the ball and its velocity, in cells and cells per frame.
#[derive(Debug, Clone, Copy, PartialEq, Eq, Structural)]
pub struct Ball {
    pub x: i32,
    pub y: i32,
    pub dx: i32,
    pub dy: i32,
}

/// The velocity along one side of the field after the ball has come to
/// `place`: turned round where the ball touches an edge of a field of
/// `extent` cells, and as before elsewhere.
pub open spec fn bounced(place: int, velocity: int, extent: int) -> int {
    if place - BALL_RADIUS <= 0 || place + BALL_RADIUS >= extent {
        -velocity
    } else {
        velocity
    }
}

/// Whether a ball at `place` with `velocity` along a side of `extent` cells
/// is on the path of the ball that started in the middle: on an even cell
/// between the edges, two cells per frame, and heading inward at either end.
pub open spec fn on_path(place: int, velocity: int, last: int) -> bool {
    &&& 2 <= place <= last
    &&& place % 2 == 0
    &&& velocity == 2 || velocity == -2
    &&& place == 2 ==> velocity == 2
    &&& place == last ==> velocity == -2
}

impl Ball {
    /// The ball one frame later: moved by its velocity, which turns round
    /// along each side on which the ball then touches an edge.
    pub open spec fn advanced(self) -> Ball {
        Ball {
            x: (self.x + self.dx) as i32,
            y: (self.y + self.dy) as i32,
            dx: bounced(self.x + self.dx, self.dx as int, FIELD_WIDTH as int) as i32,
            dy: bounced(self.y + self.dy, self.dy as int, FIELD_HEIGHT as int) as i32,
        }
    }

    /// Whether the ball can move one frame on without leaving the numbers
    /// of its coordinates.
    pub open spec fn can_advance(self) -> bool {
        &&& i32::MIN + BALL_RADIUS <= self.x + self.dx <= i32::MAX - BALL_RADIUS
        &&& i32::MIN + BALL_RADIUS <= self.y + self.dy <= i32::MAX - BALL_RADIUS
        &&& self.dx > i32::MIN
        &&& self.dy > i32::MIN
    }

    /// Whether the ball is on the path of the ball that started in the
    /// middle of the field.
    pub open spec fn in_play(self) -> bool {
        &&& on_path(self.x as int, self.dx as int, 78)
        &&& on_path(self.y as int, self.dy as int, 22)
    }

    /// A ball in the middle of the field, moving right and down.
    pub fn new() -> (ball: Ball)
        ensures
            ball == (Ball { x: 40, y: 12, dx: 2, dy: 2 }),
            ball.in_play(),
    {
        Ball { x: FIELD_WIDTH / 2, y: FIELD_HEIGHT / 2, dx: 2, dy: 2 }
    }

    /// Moves the ball one frame on.
    pub fn advance(&mut self)
        requires
            old(self).can_advance(),
        ensures
            *final(self) == old(self).advanced(),
            old(self).in_play() ==> final(self).in_play(),
    {
        self.x += self.dx;
        self.y += self.dy;
        if self.x - BALL_RADIUS <= 0 || self.x + BALL_RADIUS >= FIELD_WIDTH {
            self.dx = -self.dx;
        }
        if self.y - BALL_RADIUS <= 0 || self.y + BALL_RADIUS >= FIELD_HEIGHT {
            self.dy = -self.dy;
        }
    }
}

/// A ball in play can always move on.
pub proof fn lemma_ball_in_play_can_advance(ball: Ball)
    requires
        ball.in_play(),
    ensures
        ball.can_advance(),
        ball.advanced().in_play(),
{
}

/// The screen with the ball on it and nothing else: a dark gray circle
/// round its center, and a white block right above the center.
pub open spec fn ball_drawn(screen: Screen, ball: Ball) -> Screen {
    let circle = circle_drawn(
        cleared(screen, 0, FIELD_HEIGHT as int, 0, FIELD_WIDTH as int),
        ball.x as int,
        ball.y as int,
        BALL_RADIUS as int,
        VGAChar { char: BLOCK, color_code: VGAColorCode::DarkGray },
    );
    if 0 <= ball.y - 1 < FIELD_HEIGHT && 0 <= ball.x + 2 < FIELD_WIDTH {
        written(
            circle,
            ball.y - 1,
            ball.x + 2,
            VGAChar { char: BLOCK, color_code: VGAColorCode::White },
        )
    } else {
        circle
    }
}

/// Clears the screen and draws the ball.
pub fn draw_ball(screen: &mut VGATextMode, ball: &Ball)
    requires
        0 <= ball.x,
        0 <= ball.y,
    ensures
        final(screen)@ == ball_drawn(old(screen)@, *ball),
{
    screen.clear_screen();
    draw_circle(
        screen,
        ball.x as usize,
        ball.y as usize,
        BALL_RADIUS as usize,
        BLOCK,
        VGAColorCode::DarkGray,
    );
    if ball.y >= 1 && ball.x <= i32::MAX - 2 {
        draw_point(screen, (ball.x + 2) as usize, (ball.y - 1) as usize, VGAColorCode::White);
    }
}

/// The screen with the shapes that are shown before the ball starts: three
/// circles in a row, and the line from the top left to the bottom right of a
/// square. The other diagonal of the square runs backward and has no cells.
pub open spec fn backdrop_drawn(screen: Screen) -> Screen {
    let block = |color: VGAColorCode| VGAChar { char: BLOCK, color_code: color };
    let red = circle_drawn(screen, 40, 12, 10, block(VGAColorCode::Red));
    let green = circle_drawn(red, 60, 12, 8, block(VGAColorCode::Green));
    let blue = circle_drawn(green, 80, 12, 6, block(VGAColorCode::Blue));
    let falling = line_drawn(blue, 5, 5, 20, 20, block(VGAColorCode::Cyan));
    line_drawn(falling, 20, 5, 5, 20, block(VGAColorCode::Cyan))
}

/// Draws the shapes that are shown before the ball starts.
pub fn draw_backdrop(screen: &mut VGATextMode)
    ensures
        final(screen)@ == backdrop_drawn(old(screen)@),
{
    draw_circle(screen, 40, 12, 10, BLOCK, VGAColorCode::Red);
    draw_circle(screen, 60, 12, 8, BLOCK, VGAColorCode::Green);
    draw_circle(screen, 80, 12, 6, BLOCK, VGAColorCode::Blue);
    draw_line(screen, 5, 5, 20, 20, BLOCK, VGAColorCode::Cyan);
    draw_line(screen, 20, 5, 5, 20, BLOCK, VGAColorCode::Cyan);
}

} // verus!
