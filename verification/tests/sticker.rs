use line_gtk::sticker::{
    apng_open, decode_frames, expand_to_rgba, frame_delay_ms, image_route, looks_like_apng, paint_rect,
    ImageRoute, Paint, PixelLayout,
    decode_step, AnimFrames, Dispose, FrameControl, FrameOutput, RawFrame, StepOutcome,
};

fn chunk(kind: &[u8; 4], data: &[u8]) -> Vec<u8> {
    let mut out = (data.len() as u32).to_be_bytes().to_vec();
    out.extend_from_slice(kind);
    out.extend_from_slice(data);
    out.extend_from_slice(&[0, 0, 0, 0]);
    out
}

fn png_header() -> Vec<u8> {
    let mut v = vec![0x89, b'P', b'N', b'G', 0x0D, 0x0A, 0x1A, 0x0A];
    v.extend(chunk(b"IHDR", &[0, 0, 0, 1, 0, 0, 0, 1, 8, 6, 0, 0, 0]));
    v
}

#[test]
fn detects_animation_chunks() {
    let mut apng = png_header();
    apng.extend(chunk(b"acTL", &[0, 0, 0, 1, 0, 0, 0, 0]));
    apng.extend(chunk(b"IDAT", &[]));
    assert!(looks_like_apng(&apng));
    let mut still = png_header();
    still.extend(chunk(b"IDAT", &[1, 2, 3]));
    still.extend(chunk(b"IEND", &[]));
    assert!(!looks_like_apng(&still));
    let mut late = png_header();
    late.extend(chunk(b"IDAT", &[]));
    late.extend(chunk(b"acTL", &[0; 8]));
    assert!(looks_like_apng(&late));
    assert!(!looks_like_apng(b"GIF89a......................"));
    assert!(!looks_like_apng(&png_header()[..20]));
}

#[test]
fn routes_image_files() {
    let mut apng = png_header();
    apng.extend(chunk(b"acTL", &[0, 0, 0, 1, 0, 0, 0, 0]));
    assert_eq!(image_route(&apng), ImageRoute::Animated);
    let mut jpeg = vec![0xFF, 0xD8, 0xFF];
    jpeg.extend([0u8; 40]);
    assert_eq!(image_route(&jpeg), ImageRoute::Still);
    let html = b"<!doctype html><html><body>expired</body></html>".to_vec();
    assert_eq!(image_route(&html), ImageRoute::Rejected);
    assert_eq!(image_route(&[0xFF, 0xD8, 0xFF]), ImageRoute::Rejected);
}

#[test]
fn expands_rgb_to_rgba() {
    assert_eq!(expand_to_rgba(&[1, 2, 3, 4, 5, 6], PixelLayout::Rgb, 2, 1), Some(vec![1, 2, 3, 255, 4, 5, 6, 255]));
    assert_eq!(expand_to_rgba(&[1, 2, 3, 4, 9], PixelLayout::Rgba, 1, 1), Some(vec![1, 2, 3, 4]));
    assert_eq!(expand_to_rgba(&[1, 2], PixelLayout::Indexed, 1, 1), None);
}

#[test]
fn clamps_frame_delays() {
    assert_eq!(frame_delay_ms(1, 10), 100);
    assert_eq!(frame_delay_ms(5, 0), 50);
    assert_eq!(frame_delay_ms(0, 1), 20);
    assert_eq!(frame_delay_ms(60, 1), 5000);
}

#[test]
fn paints_rectangles() {
    let mut canvas = vec![0u8; 2 * 2 * 4];
    let red = [255, 0, 0, 255];
    paint_rect(&mut canvas, 2, 2, &red, 1, 1, 1, 0, Paint::Source);
    assert_eq!(&canvas[4..8], &red);
    assert_eq!(&canvas[0..4], &[0, 0, 0, 0]);
    let half_blue = [0, 0, 255, 128];
    paint_rect(&mut canvas, 2, 2, &half_blue, 1, 1, 1, 0, Paint::Over);
    assert_eq!(&canvas[4..8], &[127, 0, 128, 255]);
    let clear = [0u8; 4];
    paint_rect(&mut canvas, 2, 2, &clear, 0, 0, 0, 0, Paint::Over);
    assert_eq!(&canvas[4..8], &[127, 0, 128, 255]);
    paint_rect(&mut canvas, 2, 2, &[], 2, 1, 0, 0, Paint::Clear);
    assert_eq!(canvas, vec![0u8; 16]);
}

#[test]
fn transparent_pixels_leave_the_canvas() {
    let mut canvas = vec![9u8; 4 * 4];
    let before = canvas.clone();
    let src = [1, 2, 3, 0, 4, 5, 6, 0];
    paint_rect(&mut canvas, 2, 2, &src, 2, 1, 0, 1, Paint::Over);
    assert_eq!(canvas, before);
    paint_rect(&mut canvas, 2, 2, &src, 2, 1, 0, 1, Paint::Source);
    assert_eq!(&canvas[8..16], &src);
}

#[test]
fn opens_a_png_header() {
    assert!(apng_open(vec![1, 2, 3]).is_none());
}

#[test]
fn decodes_a_generated_animation() {
    let mut out = Vec::new();
    {
        let mut enc = png::Encoder::new(&mut out, 2, 1);
        enc.set_color(png::ColorType::Rgba);
        enc.set_depth(png::BitDepth::Eight);
        enc.set_animated(2, 0).unwrap();
        let mut w = enc.write_header().unwrap();
        w.write_image_data(&[255, 0, 0, 255, 0, 255, 0, 255]).unwrap();
        w.write_image_data(&[0, 0, 255, 255, 0, 0, 255, 255]).unwrap();
        w.finish().unwrap();
    }
    assert!(looks_like_apng(&out));
    let dec = apng_open(out.clone()).unwrap();
    assert_eq!((dec.width, dec.height), (2, 1));
    let anim = decode_frames(dec, 2, 1, true).unwrap();
    assert_eq!(anim.frames.len(), 2);
    assert_eq!(anim.plays, 0);
    assert_eq!(anim.frames[0].rgba, vec![255, 0, 0, 255, 0, 255, 0, 255]);
    assert_eq!(anim.frames[1].rgba, vec![0, 0, 255, 255, 0, 0, 255, 255]);
    let dec = apng_open(out).unwrap();
    let still = decode_frames(dec, 1, 1, false).unwrap();
    assert_eq!(still.frames.len(), 1);
    assert_eq!(still.plays, 1);
    assert_eq!(still.frames[0].rgba.len(), 4);
}

fn control(x: u32, y: u32, dispose: Dispose, blend_over: bool) -> Option<FrameControl> {
    Some(FrameControl { x_offset: x, y_offset: y, delay_num: 1, delay_den: 10, dispose, blend_over })
}

#[test]
fn a_frame_is_drawn_shown_and_disposed() {
    // A 2 x 1 canvas; a 1 x 1 opaque red frame at x = 1, cleared afterwards.
    let mut canvas = vec![0u8; 8];
    let mut frames: Vec<RawFrame> = Vec::new();
    let out = FrameOutput { width: 1, height: 1, layout: PixelLayout::Rgba, size: 4 };
    let buf = vec![255, 0, 0, 255];
    let r = decode_step(&mut canvas, &mut frames, &out, &buf, control(1, 0, Dispose::Clear, false), 2, 1, 2, 1, true);
    assert_eq!(r, StepOutcome::Go);
    assert_eq!(frames.len(), 1);
    assert_eq!(frames[0].rgba, vec![0, 0, 0, 0, 255, 0, 0, 255]);
    assert_eq!(frames[0].delay_ms, 100);
    assert_eq!(canvas, vec![0u8; 8]);
    // Kept: the next frame is blended over what stays.
    let r = decode_step(&mut canvas, &mut frames, &out, &buf, control(0, 0, Dispose::Keep, true), 2, 1, 2, 1, true);
    assert_eq!(r, StepOutcome::Go);
    assert_eq!(canvas, vec![255, 0, 0, 255, 0, 0, 0, 0]);
    // Without animation the first frame ends the run.
    let mut c2 = vec![0u8; 8];
    let mut f2: Vec<RawFrame> = Vec::new();
    let r = decode_step(&mut c2, &mut f2, &out, &buf, control(0, 0, Dispose::Restore, false), 2, 1, 2, 1, false);
    assert_eq!(r, StepOutcome::Stop);
    assert_eq!(f2.len(), 1);
}

#[test]
fn images_outside_the_animation_and_bad_frames() {
    let mut canvas = vec![0u8; 8];
    let mut frames: Vec<RawFrame> = Vec::new();
    // A still image first: shown alone for 100 ms.
    let out = FrameOutput { width: 2, height: 1, layout: PixelLayout::Rgb, size: 6 };
    let r = decode_step(&mut canvas, &mut frames, &out, &vec![1, 2, 3, 4, 5, 6], None, 2, 1, 2, 1, true);
    assert_eq!(r, StepOutcome::Stop);
    assert_eq!(frames[0].rgba, vec![1, 2, 3, 255, 4, 5, 6, 255]);
    assert_eq!(frames[0].delay_ms, 100);
    // A still image of the wrong size fails.
    let mut f2: Vec<RawFrame> = Vec::new();
    let small = FrameOutput { width: 1, height: 1, layout: PixelLayout::Rgba, size: 4 };
    let r = decode_step(&mut canvas, &mut f2, &small, &vec![0, 0, 0, 0], None, 2, 1, 2, 1, true);
    assert_eq!(r, StepOutcome::Fail);
    // A frame reaching past the canvas stops the run; other layouts are passed over.
    let r = decode_step(&mut canvas, &mut f2, &small, &vec![0, 0, 0, 0], control(2, 0, Dispose::Keep, false), 2, 1, 2, 1, true);
    assert_eq!(r, StepOutcome::Stop);
    let grey = FrameOutput { width: 1, height: 1, layout: PixelLayout::Grayscale, size: 1 };
    let r = decode_step(&mut canvas, &mut f2, &grey, &vec![0], control(0, 0, Dispose::Keep, false), 2, 1, 2, 1, true);
    assert_eq!(r, StepOutcome::Go);
    assert!(f2.is_empty());
    // A buffer shorter than reported stops the run.
    let r = decode_step(&mut canvas, &mut f2, &small, &vec![0, 0], control(0, 0, Dispose::Keep, false), 2, 1, 2, 1, true);
    assert_eq!(r, StepOutcome::Stop);
}

#[test]
fn png_headers_give_the_canvas_and_counts() {
    assert!(apng_open(b"not a png".to_vec()).is_none());
    let mut bytes = Vec::new();
    {
        let mut enc = png::Encoder::new(&mut bytes, 3, 2);
        enc.set_color(png::ColorType::Rgba);
        enc.set_depth(png::BitDepth::Eight);
        let mut w = enc.write_header().unwrap();
        w.write_image_data(&[0u8; 24]).unwrap();
    }
    let d = apng_open(bytes).unwrap();
    assert_eq!((d.width, d.height, d.frame_count, d.plays), (3, 2, None, 0));
}

#[test]
fn still_pictures_are_decoded_and_scaled() {
    let mut bytes = Vec::new();
    {
        let mut enc = png::Encoder::new(&mut bytes, 4, 2);
        enc.set_color(png::ColorType::Rgba);
        enc.set_depth(png::BitDepth::Eight);
        let mut w = enc.write_header().unwrap();
        w.write_image_data(&[200u8; 32]).unwrap();
    }
    let (w, h, px) = line_gtk::sticker::decode_still(&bytes).unwrap();
    assert_eq!((w, h, px.len()), (4, 2, 32));
    let same = line_gtk::sticker::still_frame(w, h, px.clone(), 4, 2).unwrap();
    assert_eq!(same.plays, 1);
    assert_eq!(same.frames[0].rgba, px);
    assert_eq!(same.frames[0].delay_ms, 0);
    let small = line_gtk::sticker::still_frame(w, h, px, 2, 1).unwrap();
    assert_eq!((small.frames[0].width, small.frames[0].height), (2, 1));
    assert_eq!(small.frames[0].rgba, vec![200u8; 8]);
    assert!(line_gtk::sticker::decode_still(b"nope").is_none());
}

fn striped_frame() -> RawFrame {
    let mut rgba = Vec::new();
    for _ in 0..2 {
        for value in [10, 20, 30, 40] {
            rgba.extend_from_slice(&[value, 0, 0, 255]);
        }
    }
    RawFrame { rgba, width: 4, height: 2, delay_ms: 75 }
}

// The 4 x 2 frame keeps its size when filling (cover) a 2 x 2 canvas and when
// fitting (contain) a 4 x 4 one: the scale is one in both cases.
#[test]
fn cover_produces_exact_center_cropped_canvas() {
    let frame = line_gtk::sticker::fit_frame(striped_frame(), 4, 2, 2, 2, true).unwrap();
    assert_eq!((frame.width, frame.height), (2, 2));
    assert_eq!(frame.rgba.len(), 2 * 2 * 4);
    assert_eq!(frame.rgba[0], 20);
    assert_eq!(frame.rgba[4], 30);
    assert_eq!(frame.delay_ms, 75);
}

#[test]
fn contain_produces_exact_transparent_letterbox_canvas() {
    let frame = line_gtk::sticker::fit_frame(striped_frame(), 4, 2, 4, 4, false).unwrap();
    assert_eq!((frame.width, frame.height), (4, 4));
    assert_eq!(frame.rgba.len(), 4 * 4 * 4);
    assert_eq!(frame.rgba[3], 0);
    assert_eq!(frame.rgba[(4 * 4) + 3], 255);
    assert_eq!(frame.rgba[(3 * 4 * 4) + 3], 0);
}

#[test]
fn fitting_scales_keeps_delays_and_drops_short_frames() {
    let big = line_gtk::sticker::fit_frame(striped_frame(), 8, 4, 8, 4, true).unwrap();
    assert_eq!((big.width, big.height, big.rgba.len()), (8, 4, 8 * 4 * 4));
    let short = RawFrame { rgba: vec![0; 7], width: 4, height: 2, delay_ms: 1 };
    assert!(line_gtk::sticker::fit_frame(short.clone(), 4, 2, 2, 2, true).is_none());
    let anim = AnimFrames { frames: vec![striped_frame(), short, striped_frame()], plays: 0 };
    let fitted = line_gtk::sticker::fit_frames(anim, 4, 2, 2, 2, true).unwrap();
    assert_eq!(fitted.frames.len(), 2);
    assert_eq!(fitted.plays, 0);
    assert!(fitted.frames.iter().all(|f| f.delay_ms == 75 && f.width == 2));
    let none = AnimFrames { frames: vec![RawFrame { rgba: vec![], width: 1, height: 1, delay_ms: 5 }], plays: 1 };
    assert!(line_gtk::sticker::fit_frames(none, 1, 1, 1, 1, false).is_none());
}
