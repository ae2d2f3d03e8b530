//! Execution core of a small bare-metal kernel: the tick clock that paces the
//! render loop, the renderer that draws into a linear framebuffer, and the
//! text screen with its terminal and its drawing routines.
//!
//! The library decides and computes; it touches no hardware. Whoever runs it
//! reads the ports and the framebuffer memory, hands the library what was
//! read, and carries out what the library returns.

pub mod bouncy_ball;
pub mod frame;
pub mod framebuffer;
pub mod interupts;
pub mod random;
pub mod util;
pub mod vga_text_mode;
pub mod vga_text_mode_drawing;
pub mod vga_text_mode_terminal;
pub mod vga_writer;
