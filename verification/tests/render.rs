use base64::Engine;
use rpix::error::{ColorError, RenderError};
use rpix::raster::RasterImage;
use rpix::render::{
    apply_background, encode_image, fit_image, render_image, transmit, Mode, RenderOptions,
};
use std::io::Read;

const TERM: (u32, u32) = (800, 400);

fn options(mode: Mode) -> RenderOptions {
    RenderOptions {
        width: None,
        height: None,
        fullwidth: false,
        fullheight: false,
        resize: false,
        noresize: false,
        background: false,
        color: String::from("FFFFFF"),
        mode,
        to_file: false,
    }
}

fn picture(width: u32, height: u32) -> RasterImage {
    let mut pixels = Vec::new();
    for i in 0..width * height {
        pixels.extend_from_slice(&[(i * 7) as u8, (i * 13) as u8, (i * 29) as u8, (i * 31) as u8]);
    }
    RasterImage::from_raw(width, height, pixels).unwrap()
}

/// The header of the first frame and the payload of all frames, decoded
/// from base64.
fn unframe(wire: &[u8]) -> (String, Vec<u8>) {
    let mut header = String::new();
    let mut text = Vec::new();
    let mut rest = wire;
    let mut first = true;
    let mut ended = false;
    while rest.starts_with(b"\x1b_G") {
        assert!(!ended);
        let semi = rest.iter().position(|&b| b == b';').unwrap();
        let control = String::from_utf8(rest[3..semi].to_vec()).unwrap();
        let end = rest.windows(2).position(|w| w == b"\x1b\\").unwrap();
        assert!(end - semi - 1 <= 4096);
        text.extend_from_slice(&rest[semi + 1..end]);
        if first {
            header = control[..control.len() - 3].to_string();
        } else {
            assert!(control == "m=0" || control == "m=1");
        }
        ended = control.ends_with("m=0");
        first = false;
        rest = &rest[end + 2..];
    }
    assert!(ended);
    assert_eq!(rest, b"\n");
    (header, base64::engine::general_purpose::STANDARD.decode(text).unwrap())
}

#[test]
fn render_png_mode() {
    let img = picture(4, 3);
    let pixels = img.as_raw().clone();
    let wire = render_image(img, &options(Mode::Png), TERM).unwrap();
    let (header, payload) = unframe(&wire);
    assert_eq!(header, "a=T,f=100,");
    assert_eq!(&payload[..8], b"\x89PNG\r\n\x1a\n");
    let read = image::load_from_memory(&payload).unwrap().into_rgba8();
    assert_eq!(read.dimensions(), (4, 3));
    assert_eq!(read.into_raw(), pixels);
}

#[test]
fn render_raw_mode() {
    let img = picture(4, 3);
    let pixels = img.as_raw().clone();
    let wire = render_image(img, &options(Mode::Raw), TERM).unwrap();
    let (header, payload) = unframe(&wire);
    assert_eq!(header, "a=T,f=32,s=4,v=3,");
    assert_eq!(payload, pixels);
}

#[test]
fn render_raw_mode_byte_for_byte() {
    let img = RasterImage::from_raw(1, 1, vec![1, 2, 3, 4]).unwrap();
    let wire = render_image(img, &options(Mode::Raw), TERM).unwrap();
    assert_eq!(wire, b"\x1b_Ga=T,f=32,s=1,v=1,m=0;AQIDBA==\x1b\\\n".to_vec());
}

#[test]
fn render_zlib_mode() {
    let img = picture(40, 30);
    let pixels = img.as_raw().clone();
    let wire = render_image(img, &options(Mode::Zlib), TERM).unwrap();
    let (header, payload) = unframe(&wire);
    assert_eq!(header, "a=T,f=32,s=40,v=30,o=z,");
    assert_ne!(payload, pixels);
    let mut back = Vec::new();
    flate2::read::ZlibDecoder::new(payload.as_slice()).read_to_end(&mut back).unwrap();
    assert_eq!(back, pixels);
}

#[test]
fn render_to_file_is_a_bare_png() {
    for mode in [Mode::Png, Mode::Zlib, Mode::Raw] {
        let img = picture(4, 3);
        let pixels = img.as_raw().clone();
        let mut conf = options(mode);
        conf.to_file = true;
        let file = render_image(img, &conf, TERM).unwrap();
        assert_eq!(&file[..8], b"\x89PNG\r\n\x1a\n");
        let read = image::load_from_memory(&file).unwrap().into_rgba8();
        assert_eq!(read.into_raw(), pixels);
    }
}

#[test]
fn render_large_payload_goes_out_in_several_frames() {
    let img = picture(64, 64);
    let pixels = img.as_raw().clone();
    let wire = render_image(img, &options(Mode::Raw), TERM).unwrap();
    // 16384 bytes are 21848 characters of base64: six frames
    assert_eq!(wire.windows(3).filter(|w| w == b"\x1b_G").count(), 6);
    assert_eq!(wire.windows(4).filter(|w| w == b"m=1;").count(), 5);
    assert_eq!(wire.windows(4).filter(|w| w == b"m=0;").count(), 1);
    assert_eq!(unframe(&wire).1, pixels);
}

#[test]
fn render_resizes_to_explicit_width() {
    let mut conf = options(Mode::Raw);
    conf.width = Some(2);
    let wire = render_image(picture(4, 6), &conf, TERM).unwrap();
    let (header, payload) = unframe(&wire);
    assert_eq!(header, "a=T,f=32,s=2,v=3,");
    assert_eq!(payload.len(), 2 * 3 * 4);
}

#[test]
fn render_fits_a_picture_larger_than_the_terminal() {
    let wire = render_image(picture(20, 10), &options(Mode::Raw), (10, 10)).unwrap();
    assert_eq!(unframe(&wire).0, "a=T,f=32,s=10,v=5,");
}

#[test]
fn render_noresize_keeps_the_size() {
    let mut conf = options(Mode::Raw);
    conf.noresize = true;
    let img = picture(20, 10);
    let pixels = img.as_raw().clone();
    let wire = render_image(img, &conf, (10, 10)).unwrap();
    let (header, payload) = unframe(&wire);
    assert_eq!(header, "a=T,f=32,s=20,v=10,");
    assert_eq!(payload, pixels);
}

#[test]
fn render_with_background() {
    let mut conf = options(Mode::Raw);
    conf.background = true;
    let img = RasterImage::from_raw(2, 1, vec![255, 0, 0, 128, 9, 9, 9, 0]).unwrap();
    let wire = render_image(img, &conf, TERM).unwrap();
    assert_eq!(unframe(&wire).1, vec![255, 127, 127, 255, 255, 255, 255, 255]);
}

#[test]
fn render_ignores_the_colour_without_background() {
    let mut conf = options(Mode::Raw);
    conf.color = String::from("nonsense");
    let img = RasterImage::from_raw(1, 1, vec![1, 2, 3, 4]).unwrap();
    assert_eq!(unframe(&render_image(img, &conf, TERM).unwrap()).1, vec![1, 2, 3, 4]);
}

#[test]
fn render_reports_a_bad_colour() {
    let mut conf = options(Mode::Png);
    conf.background = true;
    conf.color = String::from("FFF");
    assert_eq!(
        render_image(picture(2, 2), &conf, TERM),
        Err(RenderError::InvalidColor(ColorError::InvalidLength))
    );
    conf.color = String::from("ZZZZZZ");
    assert_eq!(
        render_image(picture(2, 2), &conf, TERM),
        Err(RenderError::InvalidColor(ColorError::InvalidDigit))
    );
}

#[test]
fn render_reports_a_size_beyond_memory() {
    let mut conf = options(Mode::Png);
    conf.width = Some(u32::MAX);
    assert_eq!(render_image(picture(1, u32::MAX.min(8)), &conf, TERM), Err(RenderError::TooLarge));
}

#[test]
fn render_empty_picture_is_not_resized() {
    let img = RasterImage::from_raw(0, 0, vec![]).unwrap();
    let mut conf = options(Mode::Raw);
    conf.fullwidth = true;
    let wire = render_image(img, &conf, TERM).unwrap();
    assert_eq!(wire, b"\n".to_vec());
}

#[test]
fn render_twice_gives_the_same_bytes() {
    for mode in [Mode::Png, Mode::Zlib, Mode::Raw] {
        let mut conf = options(mode);
        conf.background = true;
        conf.color = String::from("#336699");
        conf.width = Some(7);
        let first = render_image(picture(9, 5), &conf, TERM).unwrap();
        let second = render_image(picture(9, 5), &conf, TERM).unwrap();
        assert_eq!(first, second);
    }
}

#[test]
fn fit_image_leaves_a_fitting_picture_alone() {
    let img = picture(3, 3);
    let pixels = img.as_raw().clone();
    let out = fit_image(img, &options(Mode::Png), TERM).unwrap();
    assert_eq!(out.dimensions(), (3, 3));
    assert_eq!(out.as_raw(), &pixels);
}

#[test]
fn fit_image_skips_a_plan_with_an_empty_side() {
    // a terminal of unknown width gives nothing to fill: the picture stays as it is
    let mut conf = options(Mode::Png);
    conf.fullwidth = true;
    let out = fit_image(picture(3, 1), &conf, (0, 400)).unwrap();
    assert_eq!(out.dimensions(), (3, 1));
}

#[test]
fn fit_image_keeps_a_pixel_of_every_side() {
    // 1 * 1 / 3 would round to a height of zero
    let mut conf = options(Mode::Png);
    conf.width = Some(1);
    let out = fit_image(picture(3, 1), &conf, TERM).unwrap();
    assert_eq!(out.dimensions(), (1, 1));
}

#[test]
fn render_reports_a_side_beyond_the_resampler() {
    // 2 * 33554428 / 1 saturates nowhere, but the side is too long to resample
    let mut conf = options(Mode::Raw);
    conf.height = Some(33_554_428);
    assert_eq!(render_image(picture(1, 1), &conf, TERM), Err(RenderError::TooLarge));
    conf.height = Some(2_097_153);
    assert_eq!(render_image(picture(1, 1), &conf, TERM), Err(RenderError::TooLarge));
}

#[test]
fn transmit_frame_count_follows_the_payload_size() {
    for len in [0usize, 1, 2, 3, 3071, 3072, 3073, 6144, 6145, 10000] {
        let wire = transmit(b"h,", &vec![7u8; len]).unwrap();
        let characters = 4 * ((len + 2) / 3);
        let frames = wire.windows(3).filter(|w| w == b"\x1b_G").count();
        assert_eq!(frames, (characters + 4095) / 4096, "{len} bytes");
    }
}

#[test]
fn apply_background_only_when_asked() {
    let img = RasterImage::from_raw(1, 1, vec![0, 0, 0, 0]).unwrap();
    let out = apply_background(img, &options(Mode::Png)).unwrap();
    assert_eq!(out.as_raw(), &vec![0, 0, 0, 0]);
    let mut conf = options(Mode::Png);
    conf.background = true;
    conf.color = String::from("#102030");
    let img = RasterImage::from_raw(1, 1, vec![0, 0, 0, 0]).unwrap();
    let out = apply_background(img, &conf).unwrap();
    assert_eq!(out.as_raw(), &vec![0x10, 0x20, 0x30, 255]);
}

#[test]
fn transmit_encodes_and_frames() {
    assert_eq!(transmit(b"h,", b"hello"), Ok(b"\x1b_Gh,m=0;aGVsbG8=\x1b\\\n".to_vec()));
}

#[test]
fn encode_image_picks_header_by_mode() {
    let raw = encode_image(picture(2, 2), Mode::Raw, false).unwrap();
    assert!(raw.starts_with(b"\x1b_Ga=T,f=32,s=2,v=2,m=0;"));
    let zlib = encode_image(picture(2, 2), Mode::Zlib, false).unwrap();
    assert!(zlib.starts_with(b"\x1b_Ga=T,f=32,s=2,v=2,o=z,m=0;"));
    let png = encode_image(picture(2, 2), Mode::Png, false).unwrap();
    assert!(png.starts_with(b"\x1b_Ga=T,f=100,m=0;"));
}

#[test]
fn render_error_messages() {
    assert_eq!(RenderError::TooLarge.message(), "Image too large");
    assert_eq!(RenderError::EncodingFailed.message(), "Failed to encode image");
    assert_eq!(
        RenderError::InvalidColor(ColorError::InvalidLength).message(),
        "Invalid color format"
    );
}

#[test]
fn render_reports_a_failed_encoder() {
    let img = RasterImage::from_raw(0, 3, vec![]).unwrap();
    assert_eq!(render_image(img, &options(Mode::Png), TERM), Err(RenderError::EncodingFailed));
}

#[test]
fn only_zlib_mode_declares_the_payload_compressed() {
    for (mode, declared) in [(Mode::Raw, false), (Mode::Zlib, true), (Mode::Png, false)] {
        let wire = render_image(picture(70, 70), &options(mode), TERM).unwrap();
        let text = String::from_utf8(wire).unwrap();
        let first = &text[..text.find(';').unwrap()];
        assert_eq!(first.contains("o=z"), declared, "{first}");
        // the frames after the first carry no header at all
        assert_eq!(text.matches("o=z").count(), if declared { 1 } else { 0 });
    }
}

#[test]
fn render_zlib_mode_after_resizing() {
    let mut conf = options(Mode::Zlib);
    conf.width = Some(2);
    let wire = render_image(picture(4, 6), &conf, TERM).unwrap();
    let (header, payload) = unframe(&wire);
    assert_eq!(header, "a=T,f=32,s=2,v=3,o=z,");
    let mut back = Vec::new();
    flate2::read::ZlibDecoder::new(payload.as_slice()).read_to_end(&mut back).unwrap();
    assert_eq!(back.len(), 2 * 3 * 4);
}
