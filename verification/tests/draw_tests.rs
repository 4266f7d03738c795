use tilegame::buffers::GraphicsBuffer;
use tilegame::draw::{
    color_from_rgb, debug_sync_display, draw_audio_debug, draw_rectangle_pixels, draw_vertical,
};

fn small_frame() -> GraphicsBuffer {
    GraphicsBuffer {
        pixels: vec![0u8; 32],
        width_pixels: 3,
        height_pixels: 2,
        pitch_bytes: 16,
        pitch_pixels: 4,
        bytes_per_pixel: 4,
    }
}

fn pool_frame(rows: usize) -> GraphicsBuffer {
    GraphicsBuffer {
        pixels: vec![0u8; rows * 15360],
        width_pixels: 5760,
        height_pixels: rows,
        pitch_bytes: 15360,
        pitch_pixels: 3840,
        bytes_per_pixel: 4,
    }
}

fn pixel(b: &GraphicsBuffer, p: usize) -> [u8; 4] {
    [b.pixels[4 * p], b.pixels[4 * p + 1], b.pixels[4 * p + 2], b.pixels[4 * p + 3]]
}

#[test]
fn colour_packs_alpha_red_green_blue() {
    assert_eq!(color_from_rgb(0x11, 0x22, 0x33), 0xFF11_2233);
    assert_eq!(color_from_rgb(0, 0, 0), 0xFF00_0000);
    assert_eq!(color_from_rgb(255, 255, 255), 0xFFFF_FFFF);
}

#[test]
fn rectangle_fills_its_pixels() {
    let mut b = small_frame();
    let color = 0xFF11_2233u32;
    draw_rectangle_pixels(&mut b, 1, 0, 3, 2, color);
    for p in 0..8 {
        let expected = if p % 4 >= 1 && p % 4 < 3 { color.to_ne_bytes() } else { [0; 4] };
        assert_eq!(pixel(&b, p), expected, "pixel {}", p);
    }
}

#[test]
fn rectangle_is_clamped_to_the_frame() {
    let mut b = small_frame();
    let color = 0xFF00_FF00u32;
    draw_rectangle_pixels(&mut b, -5, -5, 100, 100, color);
    for p in 0..8 {
        let expected = if p % 4 < 3 { color.to_ne_bytes() } else { [0; 4] };
        assert_eq!(pixel(&b, p), expected, "pixel {}", p);
    }
}

#[test]
fn empty_rectangle_changes_nothing() {
    let mut b = small_frame();
    draw_rectangle_pixels(&mut b, 2, 1, 2, 2, 0xFFFF_FFFF);
    assert!(b.pixels.iter().all(|&v| v == 0));
}

#[test]
fn vertical_line_steps_by_rows() {
    let mut b = pool_frame(2);
    draw_vertical(&mut b, 10, 0, 2, [1, 2, 3, 4]);
    for p in 0..2 * 3840 {
        let expected = if p == 10 || p == 3850 { [1, 2, 3, 4] } else { [0; 4] };
        assert_eq!(pixel(&b, p), expected, "pixel {}", p);
    }
}

#[test]
fn vertical_line_past_a_row_wraps_into_the_next() {
    let mut b = pool_frame(2);
    draw_vertical(&mut b, 4000, 0, 2, [9, 9, 9, 9]);
    for p in 0..2 * 3840 {
        let expected = if p == 4000 { [9; 4] } else { [0; 4] };
        assert_eq!(pixel(&b, p), expected, "pixel {}", p);
    }
}

#[test]
fn vertical_line_scales_by_width() {
    let mut b = pool_frame(3);
    b.width_pixels = 2880;
    draw_vertical(&mut b, 100, 1, 1, [5, 5, 5, 5]);
    for p in 0..3 * 3840 {
        let expected = if p == 3840 + 50 { [5; 4] } else { [0; 4] };
        assert_eq!(pixel(&b, p), expected, "pixel {}", p);
    }
}

#[test]
fn audio_debug_draws_each_entry_in_its_band() {
    let mut b = pool_frame(32);
    let written = [50usize; 32];
    let queued = [100usize; 32];
    draw_audio_debug(&mut b, written, queued, 4800);
    for row in 0..32 {
        assert_eq!(pixel(&b, row * 3840 + 100), [0, 255, 0, 0]);
        assert_eq!(pixel(&b, row * 3840 + 150), [0, 0, 255, 0]);
    }
    assert_eq!(pixel(&b, 4800), [255, 255, 255, 255]);
    assert_eq!(pixel(&b, 4800 + 3840), [255, 255, 255, 255]);
    assert_eq!(pixel(&b, 960), [0; 4]);
    assert_eq!(pixel(&b, 101), [0; 4]);
}

#[test]
fn debug_sync_display_leaves_frame() {
    let mut bytes = vec![1u8, 2, 3];
    debug_sync_display(&mut bytes);
    assert_eq!(bytes, vec![1, 2, 3]);
}

#[test]
fn fill_rect_sets_given_bytes() {
    let mut b = small_frame();
    tilegame::draw::fill_rect(&mut b, 0, 1, 1, 2, [1, 2, 3, 4]);
    for p in 0..8 {
        let expected = if p == 4 { [1, 2, 3, 4] } else { [0; 4] };
        assert_eq!(pixel(&b, p), expected, "pixel {}", p);
    }
}

#[test]
fn rectangle_without_rows_ignores_its_columns() {
    let mut b = small_frame();
    draw_rectangle_pixels(&mut b, 3, 1, 1, 1, 0xFFFF_FFFF);
    assert!(b.pixels.iter().all(|&v| v == 0));
    tilegame::draw::fill_rect(&mut b, 3, 1, 2, 2, [1, 1, 1, 1]);
    assert!(b.pixels.iter().all(|&v| v == 0));
}

#[test]
fn drawing_twice_is_drawing_once() {
    let mut once = small_frame();
    draw_rectangle_pixels(&mut once, 0, 0, 2, 1, 0xFF12_3456);
    let mut twice = small_frame();
    draw_rectangle_pixels(&mut twice, 0, 0, 2, 1, 0xFF12_3456);
    draw_rectangle_pixels(&mut twice, 0, 0, 2, 1, 0xFF12_3456);
    assert_eq!(once.pixels, twice.pixels);
}
