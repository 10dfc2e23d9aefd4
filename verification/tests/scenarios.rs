use gifcap::color::{Canvas, Color};
use gifcap::diff::DiffRect;
use gifcap::encoder::CaptureGifEncoder;
use gifcap::lut::{PaletteIndexLUT, lut_generation_shader, lut_lookup_pixel_shader};
use gifcap::palette::Palette;
use gifcap::quantizer::ColorQuantizer;

/// Index 0 is black, index 1 is pure red, the rest are distinct grays.
fn session_palette_bytes() -> Vec<u8> {
    let mut bytes = vec![0u8, 0, 0, 255, 0, 0];
    for i in 2..256u32 {
        let v = i as u8;
        bytes.push(v);
        bytes.push(v);
        bytes.push(v);
    }
    bytes
}

/// 256 pairwise distinct entries spread over the color cube.
fn distinct_palette_bytes() -> Vec<u8> {
    let mut bytes = Vec::new();
    for i in 0..256u32 {
        bytes.push(i as u8);
        bytes.push((255 - i) as u8);
        bytes.push(((i * 7) % 256) as u8);
    }
    bytes
}

fn black_canvas(w: u32, h: u32) -> Canvas {
    Canvas::filled(w, h, Color { r: 0, g: 0, b: 0 })
}

fn decode_frames(bytes: &[u8]) -> Vec<(u16, u16, u16, u16, u16)> {
    let mut options = gif::DecodeOptions::new();
    options.set_color_output(gif::ColorOutput::Indexed);
    let mut decoder = options.read_info(bytes).unwrap();
    let mut frames = Vec::new();
    while let Some(frame) = decoder.read_next_frame().unwrap() {
        frames.push((frame.left, frame.top, frame.width, frame.height, frame.delay));
    }
    frames
}

#[test]
fn lut_build_round_trips_distinct_palette() {
    let palette = Palette::normalize(&distinct_palette_bytes());
    let lut = PaletteIndexLUT::new(palette);
    for i in 0..256usize {
        let c = lut.palette.entries[i];
        assert_eq!(lut_lookup_pixel_shader(&lut, c) as usize, i);
        assert_eq!(lut_generation_shader(&lut.palette, c) as usize, i);
    }
    // An off-palette color maps to the same index the generation kernel
    // computes for it.
    let off = Color { r: 13, g: 77, b: 200 };
    assert_eq!(
        lut_lookup_pixel_shader(&lut, off),
        lut_generation_shader(&lut.palette, off)
    );
}

#[test]
fn quantize_is_deterministic_and_compacts_rows() {
    let palette = Palette::normalize(&session_palette_bytes());
    let lut = PaletteIndexLUT::new(palette);
    let quantizer = ColorQuantizer::new(lut);
    let mut canvas = black_canvas(16, 16);
    canvas.set(3, 2, Color { r: 255, g: 0, b: 0 });
    let rect = DiffRect { left: 2, top: 1, right: 6, bottom: 4 };
    let once = quantizer.quantize(&canvas, &rect);
    let twice = quantizer.quantize(&canvas, &rect);
    assert_eq!(once, twice);
    // 4x3 region, rows compacted: the red pixel at canvas (3, 2) lands at
    // region coordinates (1, 1).
    assert_eq!(once.len(), 12);
    let mut expected = vec![0u8; 12];
    expected[1 * 4 + 1] = 1;
    assert_eq!(once, expected);
}

#[test]
fn scenario_black_black_red_pixel() {
    let mut enc = CaptureGifEncoder::new(&session_palette_bytes(), 16, 16, false).unwrap();
    enc.start();

    // Frame 1: all black. First frame: one full-canvas record, delay 0.
    let f1 = black_canvas(16, 16);
    let r1 = enc.process_frame(&f1, 16, 16, 0).unwrap().unwrap();
    assert_eq!((r1.left, r1.top, r1.width, r1.height, r1.delay), (0, 0, 16, 16, 0));
    assert!(r1.data.iter().all(|&b| b == 0));

    // Frame 2: all black again. No change: nothing is emitted.
    let f2 = black_canvas(16, 16);
    assert!(enc.process_frame(&f2, 16, 16, 2_500_000).unwrap().is_none());

    // Frame 3: one red pixel at (10, 10). A 1x1 change inflated to 3x3 at
    // (9, 9); the delay counts from frame 1, the last emitted frame.
    let mut f3 = black_canvas(16, 16);
    f3.set(10, 10, Color { r: 255, g: 0, b: 0 });
    let r3 = enc.process_frame(&f3, 16, 16, 5_000_000).unwrap().unwrap();
    assert_eq!((r3.left, r3.top, r3.width, r3.height), (9, 9, 3, 3));
    assert_eq!(r3.delay, 50);
    let mut expected = vec![0u8; 9];
    expected[1 * 3 + 1] = 1;
    assert_eq!(r3.data, expected);
}

#[test]
fn scenario_disable_diffing_emits_every_frame() {
    let mut enc = CaptureGifEncoder::new(&session_palette_bytes(), 12, 10, true).unwrap();
    enc.start();
    let mut count = 0;
    for i in 0..4i64 {
        // Identical content on purpose: with diffing disabled every frame
        // is treated as fully dirty.
        let f = black_canvas(12, 10);
        let rec = enc
            .process_frame(&f, 12, 10, i * 1_000_000)
            .unwrap()
            .expect("every frame must be emitted");
        assert_eq!((rec.left, rec.top, rec.width, rec.height), (0, 0, 12, 10));
        count += 1;
    }
    assert_eq!(count, 4);
    // Stopping adds the one forced terminating record.
    let (outcomes, bytes) = enc.stop(Vec::new()).unwrap();
    assert_eq!(outcomes.len(), 1);
    assert!(outcomes[0].is_some());
    let frames = decode_frames(&bytes);
    assert_eq!(frames.len(), 5);
    for f in &frames {
        assert_eq!((f.0, f.1, f.2, f.3), (0, 0, 12, 10));
    }
}

#[test]
fn scenario_stop_drains_queued_frames() {
    let mut enc = CaptureGifEncoder::new(&session_palette_bytes(), 16, 16, false).unwrap();
    enc.start();

    let mut queued = Vec::new();
    let f1 = black_canvas(16, 16);
    let mut f2 = black_canvas(16, 16);
    f2.set(4, 4, Color { r: 255, g: 0, b: 0 });
    let mut f3 = black_canvas(16, 16);
    f3.set(4, 4, Color { r: 255, g: 0, b: 0 });
    f3.set(12, 6, Color { r: 255, g: 0, b: 0 });
    queued.push(gifcap::encoder::CapturedFrame {
        surface: f1,
        content_width: 16,
        content_height: 16,
        timestamp: 0,
    });
    queued.push(gifcap::encoder::CapturedFrame {
        surface: f2,
        content_width: 16,
        content_height: 16,
        timestamp: 1_000_000,
    });
    queued.push(gifcap::encoder::CapturedFrame {
        surface: f3,
        content_width: 16,
        content_height: 16,
        timestamp: 2_000_000,
    });

    let (outcomes, bytes) = enc.stop(queued).unwrap();
    // Three queued frames and the forced terminator, none dropped.
    assert_eq!(outcomes.len(), 4);
    let r1 = outcomes[0].as_ref().unwrap();
    assert_eq!((r1.left, r1.top, r1.width, r1.height), (0, 0, 16, 16));
    let r2 = outcomes[1].as_ref().unwrap();
    assert_eq!((r2.left, r2.top, r2.width, r2.height), (3, 3, 3, 3));
    let r3 = outcomes[2].as_ref().unwrap();
    assert_eq!((r3.left, r3.top, r3.width, r3.height), (11, 5, 3, 3));
    // Terminator: no pending change, so the synthesized corner patch
    // (5x5 inflated to 6x6) with delay zero.
    let r4 = outcomes[3].as_ref().unwrap();
    assert_eq!((r4.left, r4.top, r4.width, r4.height, r4.delay), (0, 0, 6, 6, 0));

    // The byte stream decodes to exactly the records written.
    let frames = decode_frames(&bytes);
    assert_eq!(frames.len(), 4);
    assert_eq!(frames[0], (0, 0, 16, 16, 0));
    assert_eq!(frames[1], (3, 3, 3, 3, 10));
    assert_eq!(frames[2], (11, 5, 3, 3, 10));
    assert_eq!(frames[3], (0, 0, 6, 6, 0));
}

#[test]
fn stop_without_frames_still_terminates_the_stream() {
    let mut enc = CaptureGifEncoder::new(&session_palette_bytes(), 8, 8, false).unwrap();
    enc.start();
    let (outcomes, bytes) = enc.stop(Vec::new()).unwrap();
    // The forced flush is the first frame the differ sees, so the
    // terminator covers the full canvas.
    assert_eq!(outcomes.len(), 1);
    let rec = outcomes[0].as_ref().unwrap();
    assert_eq!((rec.left, rec.top, rec.width, rec.height, rec.delay), (0, 0, 8, 8, 0));
    let frames = decode_frames(&bytes);
    assert_eq!(frames.len(), 1);
}

#[test]
fn emitted_pixels_survive_the_gif_round_trip() {
    let mut enc = CaptureGifEncoder::new(&session_palette_bytes(), 8, 8, false).unwrap();
    enc.start();
    let mut f = black_canvas(8, 8);
    f.set(2, 5, Color { r: 255, g: 0, b: 0 });
    let rec = enc.process_frame(&f, 8, 8, 0).unwrap().unwrap();
    let (_, bytes) = enc.stop(Vec::new()).unwrap();

    let mut options = gif::DecodeOptions::new();
    options.set_color_output(gif::ColorOutput::Indexed);
    let mut decoder = options.read_info(&bytes[..]).unwrap();
    let first = decoder.read_next_frame().unwrap().unwrap();
    assert_eq!(first.width, 8);
    assert_eq!(first.height, 8);
    assert_eq!(&first.buffer[..], &rec.data[..]);
    assert_eq!(first.buffer[5 * 8 + 2], 1);
}
