use kernel::framebuffer::{
    ChannelOrder, Color, FramebufferDescriptor, Renderer, MAX_BACKBUFFER_BYTES,
};

fn descriptor(
    width: usize,
    height: usize,
    bytes_per_pixel: usize,
    order: ChannelOrder,
) -> FramebufferDescriptor {
    FramebufferDescriptor {
        byte_len: width * height * bytes_per_pixel,
        width,
        height,
        pixel_format: order,
        bytes_per_pixel,
        stride: width,
    }
}

#[test]
fn clear_gray_framebuffer_writes_average() {
    let mut renderer = Renderer::attach(descriptor(100, 100, 1, ChannelOrder::Gray)).unwrap();
    renderer.clear(Color::rgb(10, 20, 30));
    assert_eq!(renderer.backbuffer().len(), 10_000);
    assert!(renderer.backbuffer().iter().all(|&b| b == 20));
}

#[test]
fn attach_refuses_empty_and_oversized() {
    assert!(Renderer::attach(descriptor(0, 0, 4, ChannelOrder::Rgb)).is_none());
    let mut info = descriptor(1280, 720, 4, ChannelOrder::Rgb);
    assert_eq!(info.byte_len, MAX_BACKBUFFER_BYTES);
    assert!(Renderer::attach(info).is_some());
    info.byte_len = MAX_BACKBUFFER_BYTES + 1;
    assert!(Renderer::attach(info).is_none());
}

#[test]
fn attach_gives_zeroed_backbuffer_of_byte_len() {
    let info = descriptor(7, 3, 4, ChannelOrder::Bgr);
    let renderer = Renderer::attach(info).unwrap();
    assert_eq!(renderer.descriptor(), info);
    assert_eq!(renderer.backbuffer(), vec![0u8; 84].as_slice());
    assert_eq!(renderer.width(), 7);
    assert_eq!(renderer.height(), 3);
}

#[test]
fn color_rgb_and_gray() {
    let c = Color::rgb(1, 2, 3);
    assert_eq!(c, Color { r: 1, g: 2, b: 3 });
    assert_eq!(Color::rgb(10, 20, 30).to_gray(), 20);
    assert_eq!(Color::rgb(255, 255, 255).to_gray(), 255);
    assert_eq!(Color::rgb(255, 255, 254).to_gray(), 254);
    assert_eq!(Color::rgb(0, 0, 2).to_gray(), 0);
}

#[test]
fn set_pixel_round_trips_in_every_three_channel_order() {
    let color = Color::rgb(200, 100, 50);
    for order in [ChannelOrder::Rgb, ChannelOrder::Bgr, ChannelOrder::Unknown] {
        for bpp in [3usize, 4] {
            let mut renderer = Renderer::attach(descriptor(5, 4, bpp, order)).unwrap();
            for y in 0..4 {
                for x in 0..5 {
                    renderer.set_pixel(x, y, color);
                    assert_eq!(renderer.get_pixel(x, y), Some(color));
                }
            }
        }
    }
}

#[test]
fn set_pixel_round_trips_gray_as_average() {
    let mut renderer = Renderer::attach(descriptor(5, 4, 1, ChannelOrder::Gray)).unwrap();
    renderer.set_pixel(2, 3, Color::rgb(10, 20, 30));
    assert_eq!(renderer.get_pixel(2, 3), Some(Color::rgb(20, 20, 20)));
    renderer.set_pixel(0, 0, Color::rgb(77, 77, 77));
    assert_eq!(renderer.get_pixel(0, 0), Some(Color::rgb(77, 77, 77)));
}

#[test]
fn set_pixel_byte_layout() {
    let mut info = descriptor(4, 4, 4, ChannelOrder::Rgb);
    info.stride = 5;
    info.byte_len = 5 * 4 * 4;
    let color = Color::rgb(1, 2, 3);

    let mut rgb = Renderer::attach(info).unwrap();
    rgb.set_pixel(1, 1, color);
    let mut expected = vec![0u8; 80];
    expected[24] = 1;
    expected[25] = 2;
    expected[26] = 3;
    assert_eq!(rgb.backbuffer(), expected.as_slice());

    info.pixel_format = ChannelOrder::Bgr;
    let mut bgr = Renderer::attach(info).unwrap();
    bgr.set_pixel(1, 1, color);
    expected[24] = 3;
    expected[26] = 1;
    assert_eq!(bgr.backbuffer(), expected.as_slice());

    info.pixel_format = ChannelOrder::Gray;
    let mut gray = Renderer::attach(info).unwrap();
    gray.set_pixel(1, 1, color);
    expected[24] = 2;
    expected[25] = 0;
    expected[26] = 0;
    assert_eq!(gray.backbuffer(), expected.as_slice());
}

#[test]
fn unknown_order_truncates_to_pixel_width() {
    let mut two = Renderer::attach(descriptor(2, 1, 2, ChannelOrder::Unknown)).unwrap();
    two.set_pixel(1, 0, Color::rgb(9, 8, 7));
    assert_eq!(two.backbuffer(), [0u8, 0, 9, 8].as_slice());
    assert_eq!(two.get_pixel(1, 0), Some(Color::rgb(9, 8, 0)));

    let mut one = Renderer::attach(descriptor(2, 1, 1, ChannelOrder::Unknown)).unwrap();
    one.fill(Color::rgb(9, 8, 7));
    assert_eq!(one.backbuffer(), [9u8, 9].as_slice());
}

#[test]
fn set_pixel_outside_bounds_changes_nothing() {
    let mut renderer = Renderer::attach(descriptor(4, 3, 3, ChannelOrder::Rgb)).unwrap();
    renderer.fill(Color::rgb(5, 6, 7));
    let before = renderer.backbuffer().to_vec();
    let color = Color::rgb(255, 255, 255);
    for (x, y) in [
        (-1, 0),
        (0, -1),
        (4, 0),
        (0, 3),
        (4, 3),
        (i32::MAX, 0),
        (0, i32::MAX),
        (i32::MIN, i32::MIN),
    ] {
        renderer.set_pixel(x, y, color);
        assert_eq!(renderer.get_pixel(x, y), None);
        assert_eq!(renderer.backbuffer(), before.as_slice());
    }
}

#[test]
fn set_pixel_beyond_buffer_end_changes_nothing() {
    // The geometry promises 4 lines, the buffer holds 2 and a half.
    let mut info = descriptor(4, 4, 4, ChannelOrder::Rgb);
    info.byte_len = 40;
    let mut renderer = Renderer::attach(info).unwrap();
    renderer.set_pixel(1, 2, Color::rgb(1, 2, 3));
    assert_eq!(renderer.get_pixel(1, 2), Some(Color::rgb(1, 2, 3)));
    let before = renderer.backbuffer().to_vec();
    renderer.set_pixel(2, 2, Color::rgb(9, 9, 9));
    renderer.set_pixel(0, 3, Color::rgb(9, 9, 9));
    assert_eq!(renderer.get_pixel(2, 2), None);
    assert_eq!(renderer.backbuffer(), before.as_slice());
}

#[test]
fn set_pixel_survives_degenerate_geometry() {
    let info = FramebufferDescriptor {
        byte_len: 16,
        width: usize::MAX,
        height: usize::MAX,
        pixel_format: ChannelOrder::Rgb,
        bytes_per_pixel: usize::MAX,
        stride: usize::MAX,
    };
    let mut renderer = Renderer::attach(info).unwrap();
    renderer.set_pixel(i32::MAX, i32::MAX, Color::rgb(1, 2, 3));
    renderer.set_pixel(0, 0, Color::rgb(1, 2, 3));
    renderer.fill(Color::rgb(1, 2, 3));
    renderer.fill_block(-5, -5, i32::MAX, i32::MAX, Color::rgb(1, 2, 3));
    assert_eq!(renderer.backbuffer(), [0u8; 16].as_slice());

    let zero = FramebufferDescriptor { bytes_per_pixel: 0, width: 2, height: 2, stride: 2, ..info };
    let mut renderer = Renderer::attach(zero).unwrap();
    renderer.set_pixel(1, 1, Color::rgb(1, 2, 3));
    renderer.fill(Color::rgb(1, 2, 3));
    assert_eq!(renderer.backbuffer(), [0u8; 16].as_slice());
    assert_eq!(renderer.get_pixel(1, 1), Some(Color::rgb(0, 0, 0)));
}

#[test]
fn fill_writes_every_whole_pixel_slot() {
    let mut info = descriptor(2, 2, 4, ChannelOrder::Bgr);
    info.byte_len = 18;
    let mut renderer = Renderer::attach(info).unwrap();
    renderer.fill(Color::rgb(1, 2, 3));
    assert_eq!(
        renderer.backbuffer(),
        [3u8, 2, 1, 0, 3, 2, 1, 0, 3, 2, 1, 0, 3, 2, 1, 0, 0, 0].as_slice()
    );
    renderer.fill(Color::rgb(0, 0, 0));
    assert_eq!(renderer.backbuffer(), [0u8; 18].as_slice());
}

#[test]
fn fill_covers_stride_padding() {
    let mut info = descriptor(2, 2, 3, ChannelOrder::Rgb);
    info.stride = 3;
    info.byte_len = 18;
    let mut renderer = Renderer::attach(info).unwrap();
    renderer.fill(Color::rgb(7, 8, 9));
    assert_eq!(renderer.backbuffer(), [7u8, 8, 9].repeat(6).as_slice());
}

#[test]
fn fill_block_paints_rectangle_and_clips() {
    let mut renderer = Renderer::attach(descriptor(4, 3, 1, ChannelOrder::Gray)).unwrap();
    renderer.fill_block(1, 1, 2, 2, Color::rgb(9, 9, 9));
    assert_eq!(
        renderer.backbuffer(),
        [0u8, 0, 0, 0, 0, 9, 9, 0, 0, 9, 9, 0].as_slice()
    );
    renderer.fill_block(-2, -2, 3, 3, Color::rgb(5, 5, 5));
    assert_eq!(
        renderer.backbuffer(),
        [5u8, 0, 0, 0, 0, 9, 9, 0, 0, 9, 9, 0].as_slice()
    );
    renderer.fill_block(3, 2, 100, 100, Color::rgb(4, 4, 4));
    assert_eq!(
        renderer.backbuffer(),
        [5u8, 0, 0, 0, 0, 9, 9, 0, 0, 9, 9, 4].as_slice()
    );
    let before = renderer.backbuffer().to_vec();
    renderer.fill_block(1, 1, 0, 5, Color::rgb(1, 1, 1));
    renderer.fill_block(1, 1, 5, -1, Color::rgb(1, 1, 1));
    renderer.fill_block(4, 0, 2, 2, Color::rgb(1, 1, 1));
    renderer.fill_block(i32::MAX, i32::MAX, i32::MAX, i32::MAX, Color::rgb(1, 1, 1));
    assert_eq!(renderer.backbuffer(), before.as_slice());
}

#[test]
fn fill_block_agrees_with_set_pixel() {
    let info = descriptor(6, 5, 4, ChannelOrder::Rgb);
    let color = Color::rgb(11, 22, 33);
    let mut block = Renderer::attach(info).unwrap();
    block.fill_block(2, 1, 3, 2, color);
    let mut pixels = Renderer::attach(info).unwrap();
    for y in 1..3 {
        for x in 2..5 {
            pixels.set_pixel(x, y, color);
        }
    }
    assert_eq!(block.backbuffer(), pixels.backbuffer());
    assert_eq!(block.get_pixel(4, 2), Some(color));
    assert_eq!(block.get_pixel(5, 2), Some(Color::rgb(0, 0, 0)));
}

#[test]
fn present_copies_backbuffer() {
    let mut renderer = Renderer::attach(descriptor(2, 2, 3, ChannelOrder::Rgb)).unwrap();
    renderer.set_pixel(1, 0, Color::rgb(1, 2, 3));
    let mut target = vec![0xAAu8; 12];
    renderer.present(&mut target);
    assert_eq!(target, vec![0, 0, 0, 1, 2, 3, 0, 0, 0, 0, 0, 0]);
    assert_eq!(target.as_slice(), renderer.backbuffer());
}
