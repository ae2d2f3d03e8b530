//! Pixel-format renderer: a byte backbuffer described by the geometry of the
//! real framebuffer, with bounds-checked pixel writes, fills and block fills
//! that adapt to the channel order, and a byte-for-byte present.
use vstd::prelude::*;

verus! {

/// Capacity of the backbuffer: the largest geometry the renderer supports.
pub const MAX_BACKBUFFER_BYTES: usize = 1280 * 720 * 4;

/// Three 8-bit channel intensities.
#[derive(Debug, Clone, Copy, PartialEq, Eq, Structural)]
pub struct Color {
    pub r: u8,
    pub g: u8,
    pub b: u8,
}

impl Color {
    /// The integer average of the three channels.
    pub open spec fn gray(self) -> u8 {
        ((self.r as int + self.g as int + self.b as int) / 3) as u8
    }

    /// The color with the given red, green and blue intensities.
    pub fn rgb(r: u8, g: u8, b: u8) -> (color: Color)
        ensures
            color == (Color { r, g, b }),
    {
        Color { r, g, b }
    }

    /// Returns the intensity written for this color into a single-channel pixel.
    pub fn to_gray(self) -> (level: u8)
        ensures
            level == self.gray(),
    {
        let sum: u16 = self.r as u16 + self.g as u16 + self.b as u16;
        (sum / 3) as u8
    }
}

/// The byte sequence that encodes one pixel.
#[derive(Debug, Clone, Copy, PartialEq, Eq, Structural)]
pub enum ChannelOrder {
    /// Red, then green, then blue.
    Rgb,
    /// Blue, then green, then red.
    Bgr,
    /// One byte of intensity.
    Gray,
    /// An order the firmware did not name. It is written as red, green, blue;
    /// no hardware has confirmed that guess.
    Unknown,
}

impl ChannelOrder {
    /// How many bytes a full pixel of this order has.
    pub open spec fn channel_count(self) -> int {
        match self {
            ChannelOrder::Gray => 1,
            _ => 3,
        }
    }

    /// Byte `j` of a full pixel of `color` in this order.
    pub open spec fn channel(self, color: Color, j: int) -> u8 {
        match self {
            ChannelOrder::Rgb | ChannelOrder::Unknown => if j == 0 {
                color.r
            } else if j == 1 {
                color.g
            } else {
                color.b
            },
            ChannelOrder::Bgr => if j == 0 {
                color.b
            } else if j == 1 {
                color.g
            } else {
                color.r
            },
            ChannelOrder::Gray => color.gray(),
        }
    }
}

/// Geometry of the framebuffer, supplied once at boot.
#[derive(Debug, Clone, Copy, PartialEq, Eq, Structural)]
pub struct FramebufferDescriptor {
    /// Total size in bytes.
    pub byte_len: usize,
    /// Width in pixels.
    pub width: usize,
    /// Height in pixels.
    pub height: usize,
    /// Channel order of each pixel.
    pub pixel_format: ChannelOrder,
    /// Bytes from the start of one pixel to the start of the next.
    pub bytes_per_pixel: usize,
    /// Pixels from the start of one scanline to the start of the next.
    pub stride: usize,
}

impl FramebufferDescriptor {
    /// How many bytes one pixel write touches: the channels of the order,
    /// cut off at the pixel's width.
    pub open spec fn pixel_bytes(self) -> int {
        if self.bytes_per_pixel < self.pixel_format.channel_count() {
            self.bytes_per_pixel as int
        } else {
            self.pixel_format.channel_count()
        }
    }

    /// The bytes that one pixel write stores for `color`.
    pub open spec fn encode(self, color: Color) -> Seq<u8> {
        Seq::new(self.pixel_bytes() as nat, |j: int| self.pixel_format.channel(color, j))
    }

    /// Byte offset of pixel `(x, y)`.
    pub open spec fn pixel_offset(self, x: int, y: int) -> int {
        (y * self.stride + x) * self.bytes_per_pixel
    }

    /// Whether `(x, y)` lies on the screen.
    pub open spec fn on_screen(self, x: int, y: int) -> bool {
        0 <= x < self.width && 0 <= y < self.height
    }

    /// Whether pixel `(x, y)` lies on the screen and wholly inside a buffer of `len` bytes.
    pub open spec fn addressable(self, len: int, x: int, y: int) -> bool {
        self.on_screen(x, y) && self.pixel_offset(x, y) + self.bytes_per_pixel <= len
    }

    /// Byte `j` of the pixel at `offset`, or 0 where the pixel is too narrow to hold it.
    pub open spec fn stored(self, buffer: Seq<u8>, offset: int, j: int) -> u8 {
        if j < self.pixel_bytes() {
            buffer[offset + j]
        } else {
            0
        }
    }

    /// The color that the bytes at `offset` stand for.
    pub open spec fn decode(self, buffer: Seq<u8>, offset: int) -> Color {
        match self.pixel_format {
            ChannelOrder::Rgb | ChannelOrder::Unknown => Color {
                r: self.stored(buffer, offset, 0),
                g: self.stored(buffer, offset, 1),
                b: self.stored(buffer, offset, 2),
            },
            ChannelOrder::Bgr => Color {
                r: self.stored(buffer, offset, 2),
                g: self.stored(buffer, offset, 1),
                b: self.stored(buffer, offset, 0),
            },
            ChannelOrder::Gray => Color {
                r: self.stored(buffer, offset, 0),
                g: self.stored(buffer, offset, 0),
                b: self.stored(buffer, offset, 0),
            },
        }
    }

    /// What a pixel of this geometry keeps of `color`: the color itself where
    /// three channels fit, the gray level in a single channel, and 0 in each
    /// channel that the pixel is too narrow to hold.
    pub open spec fn representable(self, color: Color) -> Color {
        self.decode(self.encode(color), 0)
    }

    /// Whether a pixel of this geometry keeps every color exactly.
    pub open spec fn full_color(self) -> bool {
        self.pixel_format != ChannelOrder::Gray && self.bytes_per_pixel >= 3
    }
}

/// The buffer after a write of `color` to pixel `(x, y)`: unchanged unless the
/// pixel is addressable.
pub open spec fn set_pixel_spec(
    buffer: Seq<u8>,
    info: FramebufferDescriptor,
    x: int,
    y: int,
    color: Color,
) -> Seq<u8> {
    if info.addressable(buffer.len() as int, x, y) {
        buffer.update_subrange_with(info.pixel_offset(x, y), info.encode(color))
    } else {
        buffer
    }
}

/// The color read back from pixel `(x, y)`, if the pixel is addressable.
pub open spec fn get_pixel_spec(buffer: Seq<u8>, info: FramebufferDescriptor, x: int, y: int) -> Option<
    Color,
> {
    if info.addressable(buffer.len() as int, x, y) {
        Some(info.decode(buffer, info.pixel_offset(x, y)))
    } else {
        None
    }
}

/// Writing a pixel and reading the same coordinate back through the same
/// geometry returns what the geometry keeps of the color: the color itself in
/// every three-channel layout, and the gray level thrice in a single channel.
pub proof fn lemma_set_pixel_round_trip(
    buffer: Seq<u8>,
    info: FramebufferDescriptor,
    x: int,
    y: int,
    color: Color,
)
    requires
        info.addressable(buffer.len() as int, x, y),
    ensures
        get_pixel_spec(set_pixel_spec(buffer, info, x, y, color), info, x, y) == Some(
            info.representable(color),
        ),
        info.full_color() ==> info.representable(color) == color,
        info.pixel_format == ChannelOrder::Gray && info.bytes_per_pixel >= 1
            ==> info.representable(color) == (Color {
            r: color.gray(),
            g: color.gray(),
            b: color.gray(),
        }),
{
    let offset = info.pixel_offset(x, y);
    let after = set_pixel_spec(buffer, info, x, y, color);
    assert(0 <= offset) by (nonlinear_arith)
        requires
            offset == (y * info.stride + x) * info.bytes_per_pixel,
            0 <= x,
            0 <= y,
    ;
    assert forall|j: int| 0 <= j < info.pixel_bytes() implies #[trigger] after[offset + j]
        == info.encode(color)[j] by {}
}

/// A write to a pixel that is off the screen, or that does not fit into the
/// buffer, leaves every byte as it was.
pub proof fn lemma_set_pixel_outside_unchanged(
    buffer: Seq<u8>,
    info: FramebufferDescriptor,
    x: int,
    y: int,
    color: Color,
)
    requires
        !info.addressable(buffer.len() as int, x, y),
    ensures
        set_pixel_spec(buffer, info, x, y, color) == buffer,
{
}

/// Whether byte `i` of a buffer of `len` bytes lies in a pixel slot that the
/// buffer holds whole, and among the bytes of the slot that a write touches.
pub open spec fn fill_touches(info: FramebufferDescriptor, len: int, i: int) -> bool {
    &&& info.bytes_per_pixel > 0
    &&& (i / (info.bytes_per_pixel as int) + 1) * info.bytes_per_pixel <= len
    &&& i % (info.bytes_per_pixel as int) < info.pixel_bytes()
}

/// The buffer after a fill with `color`: every pixel slot that the buffer
/// holds whole carries the bytes of `color`; the bytes of a slot beyond the
/// channels, and those behind the last whole slot, are as before.
pub open spec fn fill_spec(buffer: Seq<u8>, info: FramebufferDescriptor, color: Color) -> Seq<u8> {
    Seq::new(
        buffer.len(),
        |i: int|
            if fill_touches(info, buffer.len() as int, i) {
                info.pixel_format.channel(color, i % (info.bytes_per_pixel as int))
            } else {
                buffer[i]
            },
    )
}

/// Whether a write to pixel `(x, y)` stores byte `i` of a buffer of `len` bytes.
pub open spec fn pixel_touches(info: FramebufferDescriptor, len: int, x: int, y: int, i: int) -> bool {
    &&& info.addressable(len, x, y)
    &&& info.pixel_offset(x, y) <= i < info.pixel_offset(x, y) + info.pixel_bytes()
}

/// Whether a write to some pixel of the rectangle from `(x0, y0)` up to, not
/// including, `(x1, y1)` stores byte `i`.
pub open spec fn block_touches(
    info: FramebufferDescriptor,
    len: int,
    x0: int,
    y0: int,
    x1: int,
    y1: int,
    i: int,
) -> bool {
    exists|x: int, y: int|
        x0 <= x < x1 && y0 <= y < y1 && #[trigger] pixel_touches(info, len, x, y, i)
}

/// The buffer after `color` was written to every pixel of the rectangle of
/// width `w` and height `h` at `(x0, y0)`: each byte that a write to one of
/// its addressable pixels stores carries its channel of `color`, every other
/// byte is as before.
pub open spec fn fill_block_spec(
    buffer: Seq<u8>,
    info: FramebufferDescriptor,
    x0: int,
    y0: int,
    w: int,
    h: int,
    color: Color,
) -> Seq<u8> {
    Seq::new(
        buffer.len(),
        |i: int|
            if block_touches(info, buffer.len() as int, x0, y0, x0 + w, y0 + h, i) {
                info.pixel_format.channel(color, i % (info.bytes_per_pixel as int))
            } else {
                buffer[i]
            },
    )
}

/// Whether byte `i` is stored by a write to a pixel that a row-by-row walk of
/// the columns from `xa` up to `xb`, begun in line `ya`, has passed when it
/// stands before column `cx` of line `cy`.
spec fn painted(
    info: FramebufferDescriptor,
    len: int,
    xa: int,
    xb: int,
    ya: int,
    cx: int,
    cy: int,
    i: int,
) -> bool {
    exists|x: int, y: int|
        xa <= x < xb && (ya <= y < cy || (y == cy && x < cx)) && #[trigger] pixel_touches(
            info,
            len,
            x,
            y,
            i,
        )
}

/// One step of the walk adds the pixel it stands on.
proof fn lemma_painted_step(
    info: FramebufferDescriptor,
    len: int,
    xa: int,
    xb: int,
    ya: int,
    cx: int,
    cy: int,
    i: int,
)
    requires
        xa <= cx < xb,
        ya <= cy,
    ensures
        painted(info, len, xa, xb, ya, cx + 1, cy, i) == (painted(info, len, xa, xb, ya, cx, cy, i)
            || pixel_touches(info, len, cx, cy, i)),
{
}

/// The end of one line is the start of the next.
proof fn lemma_painted_line_done(
    info: FramebufferDescriptor,
    len: int,
    xa: int,
    xb: int,
    ya: int,
    cx: int,
    cy: int,
    i: int,
)
    requires
        ya <= cy,
        xb <= cx,
    ensures
        painted(info, len, xa, xb, ya, cx, cy, i) == painted(info, len, xa, xb, ya, xa, cy + 1, i),
{
}

/// A walk over the part of a rectangle that lies on the screen has passed,
/// at its end, every pixel of the rectangle that a write can reach.
proof fn lemma_painted_all(
    info: FramebufferDescriptor,
    len: int,
    x0: int,
    y0: int,
    x1: int,
    y1: int,
    xa: int,
    xb: int,
    ya: int,
    yb: int,
    i: int,
)
    requires
        xa == if x0 < 0 { 0 } else { x0 },
        ya == if y0 < 0 { 0 } else { y0 },
        xb == if x1 < 0 { 0 } else if x1 < info.width { x1 } else { info.width as int },
        yb == if y1 < 0 { 0 } else if y1 < info.height { y1 } else { info.height as int },
    ensures
        painted(info, len, xa, xb, ya, xa, if ya <= yb { yb } else { ya }, i) == block_touches(
            info,
            len,
            x0,
            y0,
            x1,
            y1,
            i,
        ),
{
}

/// A write to one pixel stores, at each byte it touches, the channel that the
/// byte's place in its pixel slot names.
proof fn lemma_put_bytes(
    buffer: Seq<u8>,
    info: FramebufferDescriptor,
    x: int,
    y: int,
    color: Color,
    i: int,
)
    requires
        0 <= i < buffer.len(),
    ensures
        set_pixel_spec(buffer, info, x, y, color)[i] == if pixel_touches(
            info,
            buffer.len() as int,
            x,
            y,
            i,
        ) {
            info.pixel_format.channel(color, i % (info.bytes_per_pixel as int))
        } else {
            buffer[i]
        },
{
    if pixel_touches(info, buffer.len() as int, x, y, i) {
        let offset = info.pixel_offset(x, y);
        lemma_slot_position(info.bytes_per_pixel as int, y * info.stride + x, i - offset);
    }
}

/// The renderer: sole owner of the backbuffer, which it draws into and
/// presents to the framebuffer once per frame.
pub struct Renderer {
    buffer: Vec<u8>,
    info: FramebufferDescriptor,
}

impl Renderer {
    #[verifier::type_invariant]
    spec fn attached(self) -> bool {
        0 < self.buffer@.len() == self.info.byte_len <= MAX_BACKBUFFER_BYTES
    }

    /// The bytes of the backbuffer.
    pub closed spec fn view(&self) -> Seq<u8> {
        self.buffer@
    }

    /// The geometry that the renderer was attached with.
    pub closed spec fn info(&self) -> FramebufferDescriptor {
        self.info
    }

    /// Attaches a zeroed backbuffer of `info.byte_len` bytes to the geometry.
    /// Refuses an empty framebuffer and one that exceeds the backbuffer's capacity.
    pub fn attach(info: FramebufferDescriptor) -> (attached: Option<Renderer>)
        ensures
            attached.is_none() <==> info.byte_len == 0 || info.byte_len > MAX_BACKBUFFER_BYTES,
            attached matches Some(renderer) ==> renderer.info() == info && renderer@ == Seq::new(
                info.byte_len as nat,
                |i: int| 0u8,
            ),
    {
        if info.byte_len == 0 || info.byte_len > MAX_BACKBUFFER_BYTES {
            return None;
        }
        let buffer: Vec<u8> = vec![0u8; info.byte_len];
        assert(buffer@ =~= Seq::new(info.byte_len as nat, |i: int| 0u8));
        Some(Renderer { buffer, info })
    }

    /// Returns the geometry that the renderer was attached with.
    pub fn descriptor(&self) -> (info: FramebufferDescriptor)
        ensures
            info == self.info(),
            info.byte_len == self@.len(),
            0 < info.byte_len <= MAX_BACKBUFFER_BYTES,
    {
        proof {
            use_type_invariant(self);
        }
        self.info
    }

    /// Returns the bytes of the backbuffer.
    pub fn backbuffer(&self) -> (bytes: &[u8])
        ensures
            bytes@ == self@,
    {
        self.buffer.as_slice()
    }

    /// Returns the width in pixels in the signed coordinate type of the
    /// drawing calls: the width itself where it fits, and its low 32 bits
    /// otherwise.
    pub fn width(&self) -> (width: i32)
        ensures
            width == self.info().width as i32,
            self.info().width <= i32::MAX ==> width == self.info().width,
    {
        #[verifier::truncate]
        (self.info.width as i32)
    }

    /// Returns the height in pixels in the signed coordinate type of the
    /// drawing calls: the height itself where it fits, and its low 32 bits
    /// otherwise.
    pub fn height(&self) -> (height: i32)
        ensures
            height == self.info().height as i32,
            self.info().height <= i32::MAX ==> height == self.info().height,
    {
        #[verifier::truncate]
        (self.info.height as i32)
    }

    /// Finds the byte offset of the pixel in column `x` of line `y`, if the
    /// pixel is addressable.
    fn locate(&self, x: usize, y: usize) -> (offset: Option<usize>)
        ensures
            offset.is_some() <==> self.info().addressable(self@.len() as int, x as int, y as int),
            offset matches Some(at) ==> at == self.info().pixel_offset(x as int, y as int),
    {
        let info = self.info;
        if x >= info.width || y >= info.height {
            return None;
        }
        let bytes_per_pixel: usize = info.bytes_per_pixel;
        let len: usize = self.buffer.len();
        if bytes_per_pixel == 0 {
            assert(info.pixel_offset(x as int, y as int) == 0) by (nonlinear_arith)
                requires
                    info.bytes_per_pixel == 0,
            ;
            return Some(0);
        }
        proof {
            lemma_offset_bounds(info, x as int, y as int);
        }
        let row_start: usize = match y.checked_mul(info.stride) {
            Some(v) => v,
            None => { return None; },
        };
        let pixel_index: usize = match row_start.checked_add(x) {
            Some(v) => v,
            None => { return None; },
        };
        let byte_index: usize = match pixel_index.checked_mul(bytes_per_pixel) {
            Some(v) => v,
            None => { return None; },
        };
        let end: usize = match byte_index.checked_add(bytes_per_pixel) {
            Some(v) => v,
            None => { return None; },
        };
        if end > len {
            return None;
        }
        Some(byte_index)
    }

    /// Writes `color` to the pixel in column `x` of line `y`, if the pixel is
    /// addressable.
    fn put(&mut self, x: usize, y: usize, color: Color)
        ensures
            final(self).info() == old(self).info(),
            final(self)@ == set_pixel_spec(old(self)@, old(self).info(), x as int, y as int, color),
    {
        match self.locate(x, y) {
            Some(at) => self.write_at(at, color),
            None => {},
        }
    }

    /// Writes `color` to pixel `(x, y)`. A pixel that is off the screen, or
    /// whose bytes would not lie wholly inside the backbuffer, is skipped
    /// silently.
    pub fn set_pixel(&mut self, x: i32, y: i32, color: Color)
        ensures
            final(self).info() == old(self).info(),
            final(self)@ == set_pixel_spec(old(self)@, old(self).info(), x as int, y as int, color),
    {
        if x >= 0 && y >= 0 {
            self.put(x as usize, y as usize, color);
        }
    }

    /// Stores the bytes of one pixel of `color` at byte offset `at`.
    fn write_at(&mut self, at: usize, color: Color)
        requires
            at + old(self).info().bytes_per_pixel <= old(self)@.len(),
        ensures
            final(self).info() == old(self).info(),
            final(self)@ == old(self)@.update_subrange_with(
                at as int,
                old(self).info().encode(color),
            ),
    {
        proof {
            use_type_invariant(&*self);
        }
        let info = self.info;
        let (first, second, third): (u8, u8, u8) = match info.pixel_format {
            ChannelOrder::Rgb | ChannelOrder::Unknown => (color.r, color.g, color.b),
            ChannelOrder::Bgr => (color.b, color.g, color.r),
            ChannelOrder::Gray => { let level = color.to_gray(); (level, level, level) },
        };
        let channels: usize = match info.pixel_format {
            ChannelOrder::Gray => 1,
            _ => 3,
        };
        if info.bytes_per_pixel > 0 {
            self.buffer[at] = first;
        }
        if info.bytes_per_pixel > 1 && channels > 1 {
            self.buffer[at + 1] = second;
        }
        if info.bytes_per_pixel > 2 && channels > 2 {
            self.buffer[at + 2] = third;
        }
        assert(self.buffer@ =~= old(self)@.update_subrange_with(
            at as int,
            old(self).info().encode(color),
        ));
    }

    /// Reads pixel `(x, y)` back through the channel order that `set_pixel`
    /// writes it in. Returns `None` exactly where `set_pixel` writes nothing.
    pub fn get_pixel(&self, x: i32, y: i32) -> (color: Option<Color>)
        ensures
            color == get_pixel_spec(self@, self.info(), x as int, y as int),
    {
        if x < 0 || y < 0 {
            return None;
        }
        let at: usize = match self.locate(x as usize, y as usize) {
            Some(at) => at,
            None => { return None; },
        };
        proof {
            use_type_invariant(self);
        }
        let info = self.info;
        let channels: usize = match info.pixel_format {
            ChannelOrder::Gray => 1,
            _ => 3,
        };
        let first: u8 = if info.bytes_per_pixel > 0 { self.buffer[at] } else { 0 };
        let second: u8 = if info.bytes_per_pixel > 1 && channels > 1 { self.buffer[at + 1] } else { 0 };
        let third: u8 = if info.bytes_per_pixel > 2 && channels > 2 { self.buffer[at + 2] } else { 0 };
        let color = match info.pixel_format {
            ChannelOrder::Rgb | ChannelOrder::Unknown => Color { r: first, g: second, b: third },
            ChannelOrder::Bgr => Color { r: third, g: second, b: first },
            ChannelOrder::Gray => Color { r: first, g: first, b: first },
        };
        Some(color)
    }

    /// Writes `color` into every pixel slot of the backbuffer, in the layout
    /// of the channel order.
    pub fn fill(&mut self, color: Color)
        ensures
            final(self).info() == old(self).info(),
            final(self)@ == fill_spec(old(self)@, old(self).info(), color),
    {
        proof {
            use_type_invariant(&*self);
        }
        let bytes_per_pixel: usize = self.info.bytes_per_pixel;
        let len: usize = self.buffer.len();
        if bytes_per_pixel == 0 {
            return ;
        }
        let ghost info = self.info;
        let ghost before = self.buffer@;
        let ghost mut slot: int = 0;
        let mut at: usize = 0;
        while bytes_per_pixel <= len - at
            invariant
                self.info == info,
                self.buffer@.len() == len == before.len(),
                bytes_per_pixel == info.bytes_per_pixel,
                bytes_per_pixel > 0,
                0 <= slot,
                at == slot * bytes_per_pixel,
                at <= len,
                forall|i: int|
                    0 <= i < len ==> self.buffer@[i] == if i < at {
                        fill_spec(before, info, color)[i]
                    } else {
                        before[i]
                    },
            decreases len - at,
        {
            self.write_at(at, color);
            assert((slot + 1) * bytes_per_pixel == at + bytes_per_pixel) by (nonlinear_arith)
                requires
                    at == slot * bytes_per_pixel,
            ;
            assert forall|i: int| 0 <= i < len implies self.buffer@[i] == if i < at
                + bytes_per_pixel {
                fill_spec(before, info, color)[i]
            } else {
                before[i]
            } by {
                if at <= i < at + bytes_per_pixel {
                    lemma_slot_position(bytes_per_pixel as int, slot, i - at);
                }
            }
            proof {
                slot = slot + 1;
            }
            at = at + bytes_per_pixel;
        }
        assert forall|i: int| 0 <= i < len implies self.buffer@[i] == fill_spec(
            before,
            info,
            color,
        )[i] by {
            if at <= i {
                lemma_slot_position(bytes_per_pixel as int, slot, i - at);
                assert((slot + 1) * bytes_per_pixel == at + bytes_per_pixel) by (nonlinear_arith)
                    requires
                        at == slot * bytes_per_pixel,
                ;
            }
        }
    }

    /// Writes `color` to every pixel of the rectangle of width `w` and height
    /// `h` whose top left corner is `(x0, y0)`. Pixels of the rectangle that
    /// are not addressable are skipped.
    pub fn fill_block(&mut self, x0: i32, y0: i32, w: i32, h: i32, color: Color)
        ensures
            final(self).info() == old(self).info(),
            final(self)@ == fill_block_spec(
                old(self)@,
                old(self).info(),
                x0 as int,
                y0 as int,
                w as int,
                h as int,
                color,
            ),
    {
        proof {
            use_type_invariant(&*self);
        }
        let ghost info = self.info;
        let ghost before = self.buffer@;
        let ghost len = before.len() as int;
        let x1: i64 = x0 as i64 + w as i64;
        let y1: i64 = y0 as i64 + h as i64;
        let xa: usize = if x0 < 0 { 0 } else { x0 as usize };
        let ya: usize = if y0 < 0 { 0 } else { y0 as usize };
        let xb: usize = if x1 < 0 {
            0
        } else if (x1 as u64) < self.info.width as u64 {
            x1 as usize
        } else {
            self.info.width
        };
        let yb: usize = if y1 < 0 {
            0
        } else if (y1 as u64) < self.info.height as u64 {
            y1 as usize
        } else {
            self.info.height
        };
        let mut y: usize = ya;
        while y < yb
            invariant
                self.info == info,
                self.buffer@.len() == len == before.len(),
                ya <= y,
                y <= yb || y == ya,
                forall|i: int|
                    0 <= i < len ==> self.buffer@[i] == if painted(
                        info,
                        len,
                        xa as int,
                        xb as int,
                        ya as int,
                        xa as int,
                        y as int,
                        i,
                    ) {
                        info.pixel_format.channel(color, i % (info.bytes_per_pixel as int))
                    } else {
                        before[i]
                    },
            decreases yb - y,
        {
            let mut x: usize = xa;
            while x < xb
                invariant
                    self.info == info,
                    self.buffer@.len() == len == before.len(),
                    ya <= y < yb,
                    xa <= x,
                    forall|i: int|
                        0 <= i < len ==> self.buffer@[i] == if painted(
                            info,
                            len,
                            xa as int,
                            xb as int,
                            ya as int,
                            x as int,
                            y as int,
                            i,
                        ) {
                            info.pixel_format.channel(color, i % (info.bytes_per_pixel as int))
                        } else {
                            before[i]
                        },
                decreases xb - x,
            {
                let ghost prev = self.buffer@;
                self.put(x, y, color);
                assert forall|i: int| 0 <= i < len implies self.buffer@[i] == if painted(
                    info,
                    len,
                    xa as int,
                    xb as int,
                    ya as int,
                    x + 1,
                    y as int,
                    i,
                ) {
                    info.pixel_format.channel(color, i % (info.bytes_per_pixel as int))
                } else {
                    before[i]
                } by {
                    lemma_put_bytes(prev, info, x as int, y as int, color, i);
                    lemma_painted_step(info, len, xa as int, xb as int, ya as int, x as int, y as int, i);
                }
                x = x + 1;
            }
            assert forall|i: int| 0 <= i < len implies self.buffer@[i] == if painted(
                info,
                len,
                xa as int,
                xb as int,
                ya as int,
                xa as int,
                y + 1,
                i,
            ) {
                info.pixel_format.channel(color, i % (info.bytes_per_pixel as int))
            } else {
                before[i]
            } by {
                lemma_painted_line_done(
                    info,
                    len,
                    xa as int,
                    xb as int,
                    ya as int,
                    x as int,
                    y as int,
                    i,
                );
            }
            y = y + 1;
        }
        assert forall|i: int| 0 <= i < len implies self.buffer@[i] == fill_block_spec(
            before,
            info,
            x0 as int,
            y0 as int,
            w as int,
            h as int,
            color,
        )[i] by {
            lemma_painted_all(
                info,
                len,
                x0 as int,
                y0 as int,
                x0 + w,
                y0 + h,
                xa as int,
                xb as int,
                ya as int,
                yb as int,
                i,
            );
        }
        assert(self.buffer@ =~= fill_block_spec(
            before,
            info,
            x0 as int,
            y0 as int,
            w as int,
            h as int,
            color,
        ));
    }

    /// Copies the backbuffer byte for byte into `target`, the framebuffer.
    pub fn present(&self, target: &mut [u8])
        requires
            old(target)@.len() == self@.len(),
        ensures
            final(target)@ == self@,
    {
        let len: usize = self.buffer.len();
        let mut i: usize = 0;
        while i < len
            invariant
                len == self.buffer@.len(),
                target@.len() == len,
                i <= len,
                forall|j: int| 0 <= j < i ==> target@[j] == self.buffer@[j],
            decreases len - i,
        {
            target[i] = self.buffer[i];
            i = i + 1;
        }
    }

    /// Clears the backbuffer to `color`: the same as [`Renderer::fill`].
    pub fn clear(&mut self, color: Color)
        ensures
            final(self).info() == old(self).info(),
            final(self)@ == fill_spec(old(self)@, old(self).info(), color),
    {
        self.fill(color)
    }
}

/// With at least one byte per pixel, the byte offset of an on-screen pixel is
/// no smaller than each intermediate value of its computation.
proof fn lemma_offset_bounds(info: FramebufferDescriptor, x: int, y: int)
    requires
        0 <= x,
        0 <= y,
        info.bytes_per_pixel >= 1,
    ensures
        0 <= y * info.stride <= y * info.stride + x <= info.pixel_offset(x, y),
        info.pixel_offset(x, y) == (y * info.stride + x) * info.bytes_per_pixel,
{
    assert(0 <= y * info.stride) by (nonlinear_arith)
        requires
            0 <= y,
            0 <= info.stride,
    ;
    assert((y * info.stride + x) <= (y * info.stride + x) * info.bytes_per_pixel)
        by (nonlinear_arith)
        requires
            0 <= y * info.stride + x,
            info.bytes_per_pixel >= 1,
    ;
}

/// The bytes that a write to an addressable pixel touches lie in one pixel
/// slot, which the buffer holds whole.
proof fn lemma_pixel_slot(info: FramebufferDescriptor, len: int, x: int, y: int, j: int)
    requires
        info.addressable(len, x, y),
        0 <= j < info.pixel_bytes(),
    ensures
        0 <= info.pixel_offset(x, y) + j < len,
        fill_touches(info, len, info.pixel_offset(x, y) + j),
        (info.pixel_offset(x, y) + j) % (info.bytes_per_pixel as int) == j,
{
    let slot = y * info.stride + x;
    lemma_offset_bounds(info, x, y);
    lemma_slot_position(info.bytes_per_pixel as int, slot, j);
    assert((slot + 1) * info.bytes_per_pixel == slot * info.bytes_per_pixel + info.bytes_per_pixel)
        by (nonlinear_arith);
}

/// After a fill, every addressable pixel reads back what the geometry keeps
/// of the color.
pub proof fn lemma_fill_reads_back(
    buffer: Seq<u8>,
    info: FramebufferDescriptor,
    color: Color,
    x: int,
    y: int,
)
    requires
        info.addressable(buffer.len() as int, x, y),
    ensures
        get_pixel_spec(fill_spec(buffer, info, color), info, x, y) == Some(
            info.representable(color),
        ),
{
    let filled = fill_spec(buffer, info, color);
    let offset = info.pixel_offset(x, y);
    assert forall|j: int| 0 <= j < info.pixel_bytes() implies #[trigger] filled[offset + j]
        == info.encode(color)[j] by {
        lemma_pixel_slot(info, buffer.len() as int, x, y, j);
    }
}

/// After a block fill, every addressable pixel of the block reads back what
/// the geometry keeps of the color.
pub proof fn lemma_fill_block_reads_back(
    buffer: Seq<u8>,
    info: FramebufferDescriptor,
    x0: int,
    y0: int,
    w: int,
    h: int,
    color: Color,
    x: int,
    y: int,
)
    requires
        info.addressable(buffer.len() as int, x, y),
        x0 <= x < x0 + w,
        y0 <= y < y0 + h,
    ensures
        get_pixel_spec(fill_block_spec(buffer, info, x0, y0, w, h, color), info, x, y) == Some(
            info.representable(color),
        ),
{
    let len = buffer.len() as int;
    let filled = fill_block_spec(buffer, info, x0, y0, w, h, color);
    let offset = info.pixel_offset(x, y);
    assert forall|j: int| 0 <= j < info.pixel_bytes() implies #[trigger] filled[offset + j]
        == info.encode(color)[j] by {
        lemma_pixel_slot(info, len, x, y, j);
        assert(pixel_touches(info, len, x, y, offset + j));
    }
}

/// Byte `within` of pixel slot `slot` has index `slot * width + within`.
proof fn lemma_slot_position(width: int, slot: int, within: int)
    requires
        0 < width,
        0 <= within < width,
    ensures
        (slot * width + within) / width == slot,
        (slot * width + within) % width == within,
{
    vstd::arithmetic::div_mod::lemma_fundamental_div_mod_converse(
        slot * width + within,
        width,
        slot,
        within,
    );
}

} // verus!
