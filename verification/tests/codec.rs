use rpix::codec::{
    can_resize, compress, decode_image, encode_base64, encode_png, is_encodable, resize_exact,
    MAX_RESAMPLE_SIDE,
};
use rpix::error::RenderError;
use rpix::raster::RasterImage;
use std::io::Read;

fn gradient(width: u32, height: u32) -> RasterImage {
    let mut pixels = Vec::new();
    for y in 0..height {
        for x in 0..width {
            pixels.extend_from_slice(&[(x * 40) as u8, (y * 40) as u8, ((x + y) * 20) as u8, 255]);
        }
    }
    RasterImage::from_raw(width, height, pixels).unwrap()
}

#[test]
fn base64_of_known_text() {
    assert_eq!(encode_base64(b""), Ok(b"".to_vec()));
    assert_eq!(encode_base64(b"f"), Ok(b"Zg==".to_vec()));
    assert_eq!(encode_base64(b"fo"), Ok(b"Zm8=".to_vec()));
    assert_eq!(encode_base64(b"foo"), Ok(b"Zm9v".to_vec()));
    assert_eq!(encode_base64(b"hello"), Ok(b"aGVsbG8=".to_vec()));
    assert_eq!(encode_base64(&[0xfb, 0xff, 0xfe]), Ok(b"+//+".to_vec()));
}

#[test]
fn zlib_stream_inflates_to_the_input() {
    let data: Vec<u8> = (0..5000u32).map(|i| (i % 7) as u8).collect();
    let stream = compress(&data).unwrap();
    assert_ne!(stream, data);
    assert!(stream.len() < data.len());
    assert_eq!(stream[0], 0x78);
    let mut back = Vec::new();
    flate2::read::ZlibDecoder::new(stream.as_slice()).read_to_end(&mut back).unwrap();
    assert_eq!(back, data);
}

#[test]
fn zlib_stream_of_nothing() {
    let stream = compress(b"").unwrap();
    assert!(!stream.is_empty());
    let mut back = Vec::new();
    flate2::read::ZlibDecoder::new(stream.as_slice()).read_to_end(&mut back).unwrap();
    assert!(back.is_empty());
}

#[test]
fn png_file_has_signature_and_decodes_to_the_picture() {
    let img = gradient(5, 3);
    let file = encode_png(&img).unwrap();
    assert_eq!(&file[..8], b"\x89PNG\r\n\x1a\n");
    let back = decode_image(&file).unwrap();
    assert_eq!(back.dimensions(), (5, 3));
    assert_eq!(back.as_raw(), img.as_raw());
}

#[test]
fn png_file_is_read_by_the_image_crate() {
    let img = gradient(4, 4);
    let file = encode_png(&img).unwrap();
    let read = image::load_from_memory(&file).unwrap().into_rgba8();
    assert_eq!(read.dimensions(), (4, 4));
    assert_eq!(&read.into_raw(), img.as_raw());
}

#[test]
fn decode_rejects_what_is_no_image() {
    assert!(decode_image(b"").is_none());
    assert!(decode_image(b"hello world").is_none());
    assert!(decode_image(b"\x89PNG\r\n\x1a\n").is_none());
}

#[test]
fn decode_converts_to_rgba() {
    // a 2x1 image without alpha, written by the image crate
    let mut file = Vec::new();
    let encoder = image::codecs::png::PngEncoder::new(&mut file);
    image::ImageEncoder::write_image(
        encoder,
        &[1, 2, 3, 4, 5, 6],
        2,
        1,
        image::ExtendedColorType::Rgb8,
    )
    .unwrap();
    let img = decode_image(&file).unwrap();
    assert_eq!(img.dimensions(), (2, 1));
    assert_eq!(img.as_raw(), &vec![1, 2, 3, 255, 4, 5, 6, 255]);
}

#[test]
fn resize_gives_the_new_size() {
    let out = resize_exact(gradient(4, 2), 8, 6).unwrap();
    assert_eq!(out.dimensions(), (8, 6));
    assert_eq!(out.as_raw().len(), 8 * 6 * 4);
}

#[test]
fn resize_of_one_colour_keeps_the_colour() {
    let img = RasterImage::from_raw(3, 3, [10, 20, 30, 255].repeat(9)).unwrap();
    let out = resize_exact(img, 6, 2).unwrap();
    assert_eq!(out.dimensions(), (6, 2));
    assert_eq!(out.as_raw(), &[10, 20, 30, 255].repeat(12));
}

#[test]
fn resize_agrees_with_the_image_crate() {
    let img = gradient(6, 5);
    let source = image::RgbaImage::from_raw(6, 5, img.as_raw().clone()).unwrap();
    let expected =
        image::imageops::resize(&source, 3, 4, image::imageops::FilterType::Triangle).into_raw();
    let out = resize_exact(img, 3, 4).unwrap();
    assert_eq!(out.as_raw(), &expected);
}

#[test]
fn resize_to_nothing() {
    let out = resize_exact(gradient(4, 2), 0, 6).unwrap();
    assert_eq!(out.dimensions(), (0, 6));
    assert!(out.as_raw().is_empty());
}

#[test]
fn resize_of_nothing_is_blank() {
    let img = RasterImage::from_raw(0, 0, vec![]).unwrap();
    let out = resize_exact(img, 2, 2).unwrap();
    assert_eq!(out.as_raw(), &vec![0; 16]);
}

#[test]
fn resize_refuses_what_cannot_be_allocated() {
    assert_eq!(
        resize_exact(gradient(2, 2), u32::MAX, u32::MAX).err(),
        Some(RenderError::TooLarge)
    );
    assert!(!can_resize(2, 2, u32::MAX, u32::MAX));
    assert!(can_resize(2, 2, 4, 4));
    assert!(can_resize(0, 0, 4, 4));
}

#[test]
fn encodable_up_to_half_of_the_address_space() {
    assert!(is_encodable(0));
    assert!(is_encodable(1 << 20));
    assert!(is_encodable(isize::MAX as usize / 2));
    assert!(!is_encodable(isize::MAX as usize / 2 + 1));
    assert!(!is_encodable(usize::MAX));
}

#[test]
fn png_of_an_empty_picture_fails() {
    for (width, height) in [(0, 0), (0, 5), (5, 0)] {
        let img = RasterImage::from_raw(width, height, vec![]).unwrap();
        assert_eq!(encode_png(&img), Err(RenderError::EncodingFailed));
    }
}

fn column(height: u32) -> RasterImage {
    let mut pixels = Vec::with_capacity(height as usize * 4);
    for y in 0..height {
        pixels.extend_from_slice(&[(y % 251) as u8, (y % 7) as u8, 200, 255]);
    }
    RasterImage::from_raw(1, height, pixels).unwrap()
}

#[test]
fn resample_bound_is_two_to_the_21() {
    assert_eq!(MAX_RESAMPLE_SIDE, 2_097_152);
    assert_eq!(MAX_RESAMPLE_SIDE, 1 << 21);
}

#[test]
fn can_resize_up_to_the_bound_on_each_side() {
    let bound = MAX_RESAMPLE_SIDE;
    assert!(can_resize(bound, 1, 1, 1));
    assert!(can_resize(1, bound, 1, 1));
    assert!(can_resize(1, 1, bound, 1));
    assert!(can_resize(1, 1, 1, bound));
    assert!(!can_resize(bound + 1, 1, 1, 1));
    assert!(!can_resize(1, bound + 1, 1, 1));
    assert!(!can_resize(1, 1, bound + 1, 1));
    assert!(!can_resize(1, 1, 1, bound + 1));
    // a picture 1 by 16,777,215 to 1 by 33,554,428
    assert!(!can_resize(1, 16_777_215, 1, 33_554_428));
}

#[test]
fn can_resize_what_is_copied_or_cleared_beyond_the_bound() {
    let bound = MAX_RESAMPLE_SIDE;
    assert!(can_resize(bound + 1, 3, bound + 1, 3));
    assert!(can_resize(0, bound + 1, 3, 3));
    assert!(can_resize(bound + 1, 0, 3, bound + 1));
}

#[test]
fn base64_has_four_characters_for_three_bytes_begun() {
    for len in 0..50usize {
        let text = encode_base64(&vec![0xa5u8; len]).unwrap();
        assert_eq!(text.len(), 4 * ((len + 2) / 3));
    }
}

#[test]
fn resize_beyond_the_bound_is_refused() {
    assert_eq!(
        resize_exact(gradient(2, 2), 1, MAX_RESAMPLE_SIDE + 1).err(),
        Some(RenderError::TooLarge)
    );
    assert_eq!(
        resize_exact(gradient(2, 2), MAX_RESAMPLE_SIDE + 1, 1).err(),
        Some(RenderError::TooLarge)
    );
    assert_eq!(
        resize_exact(column(MAX_RESAMPLE_SIDE + 1), 1, 5).err(),
        Some(RenderError::TooLarge)
    );
}

#[test]
fn resize_at_the_bound_stretching() {
    // the ratio of the sides is rounded upward to a little over one half
    let out = resize_exact(column(1_048_575), 1, 2_097_150).unwrap();
    assert_eq!(out.dimensions(), (1, 2_097_150));
    assert_eq!(out.as_raw().len(), 4 * 2_097_150);
    assert_eq!(&out.as_raw()[..4], &[0, 0, 200, 255]);
    assert_eq!(out.as_raw()[4 * 2_097_149 + 2], 200);
    assert_eq!(out.as_raw()[4 * 2_097_149 + 3], 255);
}

#[test]
fn resize_at_the_bound_by_one_row() {
    let bound = MAX_RESAMPLE_SIDE;
    let out = resize_exact(column(bound - 1), 1, bound).unwrap();
    assert_eq!(out.dimensions(), (1, bound));
    assert!(out.as_raw().chunks(4).all(|p| p[2] == 200 && p[3] == 255));
    let out = resize_exact(column(bound), 1, bound - 1).unwrap();
    assert_eq!(out.dimensions(), (1, bound - 1));
    assert!(out.as_raw().chunks(4).all(|p| p[2] == 200 && p[3] == 255));
}

#[test]
fn resize_at_the_bound_shrinking_and_widening() {
    let bound = MAX_RESAMPLE_SIDE;
    let out = resize_exact(column(bound), 1, 3).unwrap();
    assert_eq!(out.dimensions(), (1, 3));
    assert!(out.as_raw().chunks(4).all(|p| p[2] == 200 && p[3] == 255));
    let row = RasterImage::from_raw(bound, 1, [9, 8, 7, 255].repeat(bound as usize)).unwrap();
    let out = resize_exact(row, bound - 3, 1).unwrap();
    assert_eq!(out.dimensions(), (bound - 3, 1));
    assert!(out.as_raw().chunks(4).all(|p| p == [9, 8, 7, 255]));
    let out = resize_exact(gradient(1, 1), bound, 1).unwrap();
    assert_eq!(out.dimensions(), (bound, 1));
}
