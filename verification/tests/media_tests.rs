use memeblink::decoder::{animation_from_frames, decode_asset, rgba_to_argb, RawFrame};
use memeblink::error::MemeBlinkError;
use memeblink::render::argb_to_rgba;
use memeblink::texture::{MediaAsset, TextureFrame};
use memeblink::time::Duration;

fn frame(w: u32, h: u32, fill: u32) -> TextureFrame {
    TextureFrame { width: w, height: h, pixels: vec![fill; (w * h) as usize] }
}

fn png_bytes() -> Vec<u8> {
    let mut img = image::RgbaImage::new(2, 1);
    img.put_pixel(0, 0, image::Rgba([0x11, 0x22, 0x33, 0x44]));
    img.put_pixel(1, 0, image::Rgba([0xff, 0x00, 0x80, 0xff]));
    let mut out = std::io::Cursor::new(Vec::new());
    img.write_to(&mut out, image::ImageFormat::Png).unwrap();
    out.into_inner()
}

fn gif_bytes(delays_cs: &[u32]) -> Vec<u8> {
    let mut out = Vec::new();
    {
        let mut enc = image::codecs::gif::GifEncoder::new(&mut out);
        for (i, cs) in delays_cs.iter().enumerate() {
            let mut img = image::RgbaImage::new(1, 1);
            img.put_pixel(0, 0, image::Rgba([i as u8, 0, 0, 255]));
            let delay = image::Delay::from_numer_denom_ms(cs * 10, 1);
            enc.encode_frame(image::Frame::from_parts(img, 0, 0, delay)).unwrap();
        }
    }
    out
}

#[test]
fn rgba_packs_to_argb() {
    let px = rgba_to_argb(&vec![0x11, 0x22, 0x33, 0x44, 0xff, 0x00, 0x80, 0xff, 0x01]);
    assert_eq!(px, vec![0x44112233, 0xffff0080]);
}

#[test]
fn argb_unpacks_to_rgba() {
    assert_eq!(argb_to_rgba(&vec![0x44112233]), vec![0x11, 0x22, 0x33, 0x44]);
}

#[test]
fn pixel_roundtrip_on_values() {
    let raw: Vec<u8> = (0u8..32).collect();
    assert_eq!(argb_to_rgba(&rgba_to_argb(&raw)), raw);
}

#[test]
fn decode_png_into_still_texture() {
    match decode_asset(&png_bytes()) {
        Some(Ok(MediaAsset::Static(f))) => {
            assert_eq!((f.width, f.height), (2, 1));
            assert_eq!(f.pixels, vec![0x44112233, 0xffff0080]);
        }
        other => panic!("unexpected {other:?}"),
    }
}

#[test]
fn decode_gif_into_animation() {
    match decode_asset(&gif_bytes(&[10, 20])) {
        Some(Ok(MediaAsset::Animated { frames, delays, total_duration, .. })) => {
            assert_eq!(frames.len(), 2);
            assert_eq!(delays[0].as_millis(), 100);
            assert_eq!(delays[1].as_millis(), 200);
            assert_eq!(total_duration.as_millis(), 300);
            assert_eq!(frames[1].pixels, vec![0xff010000]);
        }
        other => panic!("unexpected {other:?}"),
    }
}

#[test]
fn decode_unknown_bytes_fails() {
    match decode_asset(b"definitely not an image") {
        Some(Err(MemeBlinkError::DecodeError(msg))) => {
            assert!(msg.starts_with("Unknown image format: "), "{msg}");
        }
        other => panic!("unexpected {other:?}"),
    }
}

#[test]
fn decode_truncated_png_fails() {
    let mut bytes = png_bytes();
    bytes.truncate(20);
    assert!(matches!(decode_asset(&bytes), Some(Err(MemeBlinkError::DecodeError(_)))));
}

#[test]
fn new_animated_without_frames_fails() {
    match MediaAsset::new_animated(vec![], vec![Duration::from_millis(10)]) {
        Err(MemeBlinkError::DecodeError(msg)) => assert_eq!(msg, "Animation contains no frame"),
        other => panic!("unexpected {other:?}"),
    }
}

fn animation() -> MediaAsset {
    MediaAsset::new_animated(
        vec![frame(1, 1, 1), frame(2, 2, 2), frame(3, 3, 3)],
        vec![Duration::from_millis(100), Duration::from_millis(50), Duration::from_millis(250)],
    )
    .unwrap()
}

#[test]
fn frame_lookup_by_elapsed_time() {
    let a = animation();
    let w = |ms: u64| a.frame_at_elapsed(Duration::from_millis(ms)).width;
    assert_eq!(w(0), 1);
    assert_eq!(w(99), 1);
    assert_eq!(w(100), 2);
    assert_eq!(w(149), 2);
    assert_eq!(w(150), 3);
    assert_eq!(w(399), 3);
    // the animation loops every 400 ms
    assert_eq!(w(400), 1);
    assert_eq!(w(950), 3);
    assert_eq!(w(1250), 1);
    assert_eq!(w(1300), 2);
}

#[test]
fn zero_length_animation_shows_first_frame() {
    let a = MediaAsset::new_animated(
        vec![frame(1, 1, 1), frame(2, 2, 2)],
        vec![Duration::from_millis(0), Duration::from_millis(0)],
    )
    .unwrap();
    assert_eq!(a.frame_at_elapsed(Duration::from_millis(12345)).width, 1);
}

#[test]
fn submillisecond_delays_round_the_total() {
    let half = Duration::new(0, 1_500_000);
    let a = MediaAsset::new_animated(vec![frame(1, 1, 1), frame(2, 2, 2)], vec![half, half]).unwrap();
    // total 3 ms; each delay counts as 1 ms; 2 ms lands past both slots
    assert_eq!(a.frame_at_elapsed(Duration::from_millis(2)).width, 1);
    assert_eq!(a.frame_at_elapsed(Duration::from_millis(1)).width, 2);
}

#[test]
fn current_frame_of_still_and_single() {
    let s = MediaAsset::new_static(frame(7, 7, 0));
    assert_eq!(s.current_frame().width, 7);
    let one = MediaAsset::new_animated(vec![frame(5, 5, 0)], vec![Duration::from_millis(10)]).unwrap();
    assert_eq!(one.current_frame().width, 5);
}

#[test]
fn reset_keeps_frames() {
    let mut a = animation();
    a.reset();
    assert_eq!(a.frame_at_elapsed(Duration::from_millis(120)).width, 2);
    assert!(a.current_frame().width >= 1);
}

#[test]
fn durations_add_up() {
    let d = Duration::new(1, 2_500_000_000);
    assert_eq!(d.as_secs(), 3);
    assert_eq!(d.subsec_nanos(), 500_000_000);
    assert_eq!(d.as_millis(), 3500);
    let m = Duration::from_millis(12_345);
    assert_eq!((m.as_secs(), m.subsec_nanos()), (12, 345_000_000));
    assert_eq!(memeblink::time::sum_durations(&vec![d, m]).as_nanos(), 15_845_000_000);
}

fn raw(ms: u64, byte: u8) -> RawFrame {
    RawFrame { delay: Duration::from_millis(ms), width: 1, height: 1, rgba: vec![byte, 0, 0, 0xff] }
}

#[test]
fn frames_become_an_animation() {
    match animation_from_frames(&vec![raw(40, 1), raw(60, 2)]) {
        Some(Ok(MediaAsset::Animated { frames, delays, total_duration, .. })) => {
            assert_eq!(frames.len(), 2);
            assert_eq!(frames[0].pixels, vec![0xff010000]);
            assert_eq!(frames[1].pixels, vec![0xff020000]);
            assert_eq!(delays[1].as_millis(), 60);
            assert_eq!(total_duration.as_millis(), 100);
        }
        other => panic!("unexpected {other:?}"),
    }
}

#[test]
fn no_frames_is_an_error() {
    match animation_from_frames(&vec![]) {
        Some(Err(MemeBlinkError::DecodeError(msg))) => assert_eq!(msg, "Animation contains no frame"),
        other => panic!("unexpected {other:?}"),
    }
}

#[test]
fn overflowing_delays_give_nothing() {
    let long = |byte: u8| RawFrame { delay: Duration::new(u64::MAX, 0), width: 1, height: 1, rgba: vec![byte; 4] };
    assert!(animation_from_frames(&vec![long(1), long(2)]).is_none());
}

#[test]
fn still_image_after_many_resets() {
    let mut a = MediaAsset::new_static(frame(4, 3, 9));
    for _ in 0..5 {
        a.reset();
    }
    let f = a.current_frame();
    assert_eq!((f.width, f.height), (4, 3));
    assert_eq!(f.pixels, vec![9; 12]);
}

#[test]
fn well_formedness_check() {
    assert!(animation().is_wf());
    assert!(MediaAsset::new_static(frame(1, 1, 0)).is_wf());
    let wrong_total = MediaAsset::Animated {
        frames: vec![frame(1, 1, 0)],
        delays: vec![Duration::from_millis(10)],
        total_duration: Duration::from_millis(11),
        start_time: std::time::Instant::now(),
    };
    assert!(!wrong_total.is_wf());
    let no_frame = MediaAsset::Animated {
        frames: vec![],
        delays: vec![],
        total_duration: Duration::from_millis(0),
        start_time: std::time::Instant::now(),
    };
    assert!(!no_frame.is_wf());
}

#[test]
fn cloned_animation_shows_the_same_frames() {
    let a = animation();
    let b = a.clone();
    assert_eq!(b.frame_at_elapsed(Duration::from_millis(120)).width, 2);
    assert!(b.is_wf());
}

#[test]
fn error_messages() {
    assert_eq!(MemeBlinkError::DecodeError("bad".to_string()).message(), "Failed to decode image asset: bad");
    assert_eq!(
        MemeBlinkError::WaylandInitialization("x".to_string()).message(),
        "Failed to initialize Wayland connection: x"
    );
    assert_eq!(MemeBlinkError::ImageDecoding("p".to_string()).message(), "Failed to decode image from path: p");
    assert_eq!(
        MemeBlinkError::InvalidConfiguration("w".to_string()).message(),
        "Invalid configuration parameter: w"
    );
    let io = MemeBlinkError::IoError { path: "a.png".to_string(), source: std::io::Error::other("boom") };
    assert_eq!(io.message(), "File system I/O failure for path: a.png. Source: boom");
    let bind = MemeBlinkError::IpcBinding { path: "/s".to_string(), source: std::io::Error::other("busy") };
    assert_eq!(bind.message(), "IPC socket binding failed at /s: busy");
}
