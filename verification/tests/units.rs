use gifcap::color::{Canvas, Color};
use gifcap::compositor::FrameCompositor;
use gifcap::diff::{DiffRect, TextureDiffer, texture_diff_shader};
use gifcap::encoder::{compute_delay, inflate_rect};
use gifcap::ensure_even;
use gifcap::lut::lut_generation_shader;
use gifcap::palette::{Palette, default_palette};

fn canvas_of(width: u32, height: u32, color: Color) -> Canvas {
    Canvas::filled(width, height, color)
}

#[test]
fn ensure_even_rounds_up() {
    assert_eq!(ensure_even(4), 4);
    assert_eq!(ensure_even(5), 6);
    assert_eq!(ensure_even(0), 0);
    assert_eq!(ensure_even(1), 2);
    assert_eq!(ensure_even(1919), 1920);
}

#[test]
fn diff_rect_validity_and_size() {
    let valid = DiffRect { left: 2, top: 3, right: 10, bottom: 7 };
    assert!(valid.is_valid());
    assert_eq!(valid.width(), 8);
    assert_eq!(valid.height(), 4);
    let inverted = DiffRect { left: 16, top: 16, right: 0, bottom: 0 };
    assert!(!inverted.is_valid());
    let empty = DiffRect { left: 5, top: 5, right: 5, bottom: 9 };
    assert!(!empty.is_valid());
}

#[test]
fn palette_normalize_pads_and_truncates() {
    // Two full entries and one spare byte: the third entry reads the spare
    // byte as red and zeros for the rest; everything after is black.
    let bytes = vec![1u8, 2, 3, 4, 5, 6, 7];
    let p = Palette::normalize(&bytes);
    assert_eq!(p.entries.len(), 256);
    assert_eq!((p.entries[0].r, p.entries[0].g, p.entries[0].b), (1, 2, 3));
    assert_eq!((p.entries[1].r, p.entries[1].g, p.entries[1].b), (4, 5, 6));
    assert_eq!((p.entries[2].r, p.entries[2].g, p.entries[2].b), (7, 0, 0));
    assert_eq!((p.entries[3].r, p.entries[3].g, p.entries[3].b), (0, 0, 0));
    assert_eq!((p.entries[255].r, p.entries[255].g, p.entries[255].b), (0, 0, 0));

    // 257 entries: the extra one is dropped.
    let mut long = Vec::new();
    for i in 0..257u32 {
        long.push((i % 251) as u8);
        long.push(2u8);
        long.push(3u8);
    }
    let truncated = Palette::normalize(&long);
    assert_eq!(truncated.entries.len(), 256);
    assert_eq!(truncated.entries[255].r, (255u32 % 251) as u8);

    let round = p.to_rgb_bytes();
    assert_eq!(round.len(), 768);
    assert_eq!(&round[0..7], &[1, 2, 3, 4, 5, 6, 7]);
    assert!(round[7..].iter().all(|&b| b == 0));

    // An empty palette becomes 256 black entries.
    let empty = Palette::normalize(&Vec::new());
    assert_eq!(empty.entries.len(), 256);
    assert!(empty.to_rgb_bytes().iter().all(|&b| b == 0));
}

#[test]
fn default_palette_has_256_entries() {
    let bytes = default_palette();
    assert_eq!(bytes.len(), 768);
    // First cube entry is black, last gray is white.
    assert_eq!(&bytes[0..3], &[0, 0, 0]);
    assert_eq!(&bytes[765..768], &[255, 255, 255]);
    // Cube entry 43 is one step up in every channel; entry 215 is white.
    assert_eq!(&bytes[3 * 43..3 * 43 + 3], &[51, 51, 51]);
    assert_eq!(&bytes[3 * 215..3 * 215 + 3], &[255, 255, 255]);
    // The gray ramp starts at black and steps by 255/39.
    assert_eq!(&bytes[3 * 216..3 * 216 + 3], &[0, 0, 0]);
    assert_eq!(&bytes[3 * 217..3 * 217 + 3], &[6, 6, 6]);
}

#[test]
fn nearest_index_exact_and_between() {
    // Entry i is the gray (i, i, i): color (40, 40, 40) hits entry 40
    // exactly, and (41, 40, 40) is still nearest to entry 40.
    let mut bytes = Vec::new();
    for i in 0..256u32 {
        let v = i as u8;
        bytes.push(v);
        bytes.push(v);
        bytes.push(v);
    }
    let p = Palette::normalize(&bytes);
    assert_eq!(lut_generation_shader(&p, Color { r: 40, g: 40, b: 40 }), 40);
    assert_eq!(lut_generation_shader(&p, Color { r: 41, g: 40, b: 40 }), 40);
    assert_eq!(lut_generation_shader(&p, Color { r: 0, g: 0, b: 0 }), 0);
    assert_eq!(lut_generation_shader(&p, Color { r: 255, g: 255, b: 255 }), 255);

    // Ties break to the first index at minimal distance: with entry 9
    // duplicating entry 5, their shared color maps to index 5.
    let mut dup = bytes.clone();
    dup[27] = 5;
    dup[28] = 5;
    dup[29] = 5;
    let pd = Palette::normalize(&dup);
    assert_eq!(lut_generation_shader(&pd, Color { r: 5, g: 5, b: 5 }), 5);
}

#[test]
fn differ_first_frame_is_fully_dirty() {
    let mut differ = TextureDiffer::new(16, 12);
    let canvas = canvas_of(16, 12, Color { r: 9, g: 8, b: 7 });
    let r = differ.process_frame(&canvas);
    assert_eq!(r, Some(DiffRect { left: 0, top: 0, right: 16, bottom: 12 }));
}

#[test]
fn differ_reports_no_change_for_identical_canvases() {
    let mut differ = TextureDiffer::new(16, 12);
    let canvas = canvas_of(16, 12, Color { r: 9, g: 8, b: 7 });
    assert!(differ.process_frame(&canvas).is_some());
    let again = canvas_of(16, 12, Color { r: 9, g: 8, b: 7 });
    assert_eq!(differ.process_frame(&again), None);
}

#[test]
fn differ_single_pixel_gives_single_pixel_rect() {
    let mut differ = TextureDiffer::new(16, 12);
    let black = Color { r: 0, g: 0, b: 0 };
    assert!(differ.process_frame(&canvas_of(16, 12, black)).is_some());
    let mut changed = canvas_of(16, 12, black);
    changed.set(10, 7, Color { r: 255, g: 0, b: 0 });
    let r = differ.process_frame(&changed);
    assert_eq!(r, Some(DiffRect { left: 10, top: 7, right: 11, bottom: 8 }));
}

#[test]
fn differ_tracks_latest_frame_even_without_change_report() {
    let mut differ = TextureDiffer::new(8, 8);
    let black = Color { r: 0, g: 0, b: 0 };
    assert!(differ.process_frame(&canvas_of(8, 8, black)).is_some());
    let mut second = canvas_of(8, 8, black);
    second.set(3, 3, Color { r: 1, g: 1, b: 1 });
    assert!(differ.process_frame(&second).is_some());
    // The retained canvas is now `second`: handing in `second` again shows
    // no change, not the (3, 3) pixel again.
    let mut third = canvas_of(8, 8, black);
    third.set(3, 3, Color { r: 1, g: 1, b: 1 });
    assert_eq!(differ.process_frame(&third), None);
}

#[test]
fn diff_shader_widens_accumulator_only_on_difference() {
    let black = Color { r: 0, g: 0, b: 0 };
    let prev = canvas_of(8, 8, black);
    let mut cur = canvas_of(8, 8, black);
    cur.set(5, 2, Color { r: 9, g: 0, b: 0 });
    let mut acc = DiffRect { left: 8, top: 8, right: 0, bottom: 0 };
    texture_diff_shader(&cur, &prev, 4, 2, &mut acc);
    assert_eq!(acc, DiffRect { left: 8, top: 8, right: 0, bottom: 0 });
    texture_diff_shader(&cur, &prev, 5, 2, &mut acc);
    assert_eq!(acc, DiffRect { left: 5, top: 2, right: 6, bottom: 3 });
}

#[test]
fn compositor_clears_margins_and_clamps_content() {
    let mut compositor = FrameCompositor::new(8, 6);
    let gray = Color { r: 100, g: 100, b: 100 };
    // A 4x3 content area inside a larger surface: the rest of the canvas
    // stays background black.
    let surface = canvas_of(10, 10, gray);
    let frame = compositor.process_frame(&surface, 4, 3, 0);
    assert_eq!(frame.canvas.width, 8);
    assert_eq!(frame.canvas.height, 6);
    for y in 0..6u32 {
        for x in 0..8u32 {
            let c = frame.canvas.get(x, y);
            if x < 4 && y < 3 {
                assert_eq!((c.r, c.g, c.b), (100, 100, 100));
            } else {
                assert_eq!((c.r, c.g, c.b), (0, 0, 0));
            }
        }
    }
    // Content larger than the canvas: the copy is clamped, never resized.
    let big = canvas_of(32, 32, gray);
    let frame2 = compositor.process_frame(&big, 32, 32, 1);
    assert_eq!(frame2.canvas.width, 8);
    assert_eq!(frame2.canvas.height, 6);
    for y in 0..6u32 {
        for x in 0..8u32 {
            let c = frame2.canvas.get(x, y);
            assert_eq!((c.r, c.g, c.b), (100, 100, 100));
        }
    }
    // Negative reported content is treated as empty.
    let frame3 = compositor.process_frame(&surface, -5, 3, 2);
    assert_eq!((frame3.canvas.get(0, 0).r, frame3.canvas.get(0, 0).g), (0, 0));
}

#[test]
fn compositor_repeat_frame_repeats_last_output() {
    let mut compositor = FrameCompositor::new(4, 4);
    let teal = Color { r: 0, g: 128, b: 128 };
    let surface = canvas_of(4, 4, teal);
    let _ = compositor.process_frame(&surface, 4, 4, 77);
    let again = compositor.repeat_frame(99);
    assert_eq!(again.system_relative_time, 99);
    let c = again.canvas.get(2, 2);
    assert_eq!((c.r, c.g, c.b), (0, 128, 128));
}

#[test]
fn inflate_rect_clamps_to_canvas() {
    let r = DiffRect { left: 10, top: 10, right: 11, bottom: 11 };
    assert_eq!(
        inflate_rect(r, 16, 16),
        DiffRect { left: 9, top: 9, right: 12, bottom: 12 }
    );
    let corner = DiffRect { left: 0, top: 0, right: 16, bottom: 16 };
    assert_eq!(
        inflate_rect(corner, 16, 16),
        DiffRect { left: 0, top: 0, right: 16, bottom: 16 }
    );
}

#[test]
fn delay_truncates_to_hundredths() {
    // 250 ms in 100 ns ticks.
    assert_eq!(compute_delay(Some(0), 2_500_000), 25);
    // 199.9999 ms truncates to 19 hundredths, not 20.
    assert_eq!(compute_delay(Some(0), 1_999_999), 19);
    // The first emitted frame is its own baseline.
    assert_eq!(compute_delay(None, 123_456_789), 0);
    assert_eq!(compute_delay(Some(2_500_000), 5_000_000), 25);
}
