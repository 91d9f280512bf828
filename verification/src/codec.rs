//! The encoders and decoders that other crates supply: base64, zlib, PNG,
//! resampling and the decoding of image files. Each is called through one
//! private function whose contract is taken on trust; the public functions
//! here guard those calls and are verified against the contracts.

use crate::error::RenderError;
use crate::raster::{buffer_len, sample_count, RasterImage, RasterView};
use vstd::prelude::*;

verus! {

/// The base64 text of `data` as `base64::engine::general_purpose::STANDARD`
/// writes it: standard alphabet, padded with `=`.
pub uninterp spec fn base64_standard(data: Seq<u8>) -> Seq<u8>;

/// The zlib stream that `flate2` makes of `data` at its default compression
/// level, or `None` where it reports an error.
pub uninterp spec fn zlib_compressed(data: Seq<u8>) -> Option<Seq<u8>>;

/// The PNG file that the `image` crate writes for RGBA samples of the given
/// width and height, or `None` where it reports an error.
pub uninterp spec fn png_encoded(pixels: Seq<u8>, width: u32, height: u32) -> Option<Seq<u8>>;

/// The samples that `image::imageops::resize` gives with the triangle filter
/// for an RGBA image of `width` by `height` resampled to `new_width` by
/// `new_height`.
pub uninterp spec fn resampled(
    pixels: Seq<u8>,
    width: u32,
    height: u32,
    new_width: u32,
    new_height: u32,
) -> Seq<u8>;

/// A buffer of `len` bytes can be encoded: it and what is made of it stay
/// within what one allocation can hold.
pub open spec fn encodable(len: nat) -> bool {
    2 * len <= isize::MAX
}

/// The longest side, old or new, that a picture may have where it is
/// resampled: 2^21 pixels.
///
/// The resampler places the centre of each new pixel on the old grid in
/// 32-bit floating point, as `(index + 0.5) * (old / new)`. With sides up to
/// 2^21 the sides and `index + 0.5` are exact, the quotient and the product
/// are each rounded once, and the centre is at most `old * (2^-23 + 2^-48)`,
/// a little over a quarter of a pixel, from where it belongs. The old pixel
/// that holds the centre, or the last one where the centre comes to lie
/// just past the grid, is then within the window of pixels considered and
/// less than three quarters of a pixel from the centre, so that its
/// triangle weight is positive and the weights can be normalised. With
/// longer sides the centre can leave the grid by a pixel and more, every
/// weight can be zero, and the resampler fails on the division of zero by
/// zero.
pub const MAX_RESAMPLE_SIDE: u32 = 0x20_0000;

/// The number of characters of the base64 text of `len` bytes, padding
/// included.
pub open spec fn base64_len(len: nat) -> nat {
    4 * ((len + 2) / 3)
}

/// Resampling is within reach: the buffers that it allocates stay within
/// what one allocation can hold (the result, and between the two passes an
/// image of `width` by `new_height` pixels with four 32-bit samples each),
/// and no side exceeds `MAX_RESAMPLE_SIDE`. A picture without pixels, or one
/// that has the new size already, is not resampled but cleared or copied,
/// and only the result has to fit.
pub open spec fn resize_fits(width: nat, height: nat, new_width: nat, new_height: nat) -> bool {
    &&& buffer_len(new_width, new_height) <= isize::MAX
    &&& (width == 0 || height == 0 || (new_width == width && new_height == height) || {
        &&& 4 * buffer_len(width, new_height) <= isize::MAX
        &&& width <= MAX_RESAMPLE_SIDE
        &&& height <= MAX_RESAMPLE_SIDE
        &&& new_width <= MAX_RESAMPLE_SIDE
        &&& new_height <= MAX_RESAMPLE_SIDE
    })
}

/// Calls `Engine::encode` of `base64::engine::general_purpose::STANDARD` and
/// takes the bytes of the string it returns. Trusted: the result is the
/// function `base64_standard` of the input, and it has four characters for
/// every three bytes begun, which is the length `base64::encoded_len` gives
/// with padding. The call allocates that many bytes at once, hence the
/// bound.
#[verifier::external_body]
fn base64_encode(data: &[u8]) -> (out: Vec<u8>)
    requires
        encodable(data@.len()),
    ensures
        out@ == base64_standard(data@),
        out@.len() == base64_len(data@.len()),
{
    base64::Engine::encode(&base64::engine::general_purpose::STANDARD, data).into_bytes()
}

/// Runs `data` through `flate2::write::ZlibEncoder` (`new` with
/// `Compression::default()`, `write_all`, `finish`) into a fresh vector.
/// Trusted: the outcome is the function `zlib_compressed` of the input.
#[verifier::external_body]
fn zlib_compress(data: &[u8]) -> (out: Option<Vec<u8>>)
    requires
        encodable(data@.len()),
    ensures
        out matches Some(bytes) ==> zlib_compressed(data@) == Some(bytes@),
        out is None ==> zlib_compressed(data@) is None,
{
    let mut encoder = flate2::write::ZlibEncoder::new(Vec::new(), flate2::Compression::default());
    match std::io::Write::write_all(&mut encoder, data) {
        Ok(()) => encoder.finish().ok(),
        Err(_) => None,
    }
}

/// Calls `write_image` of `image::codecs::png::PngEncoder` with the colour
/// type `Rgba8`, writing into a fresh vector. Trusted: the outcome is the
/// function `png_encoded` of the arguments. The encoder panics unless the
/// buffer holds exactly four bytes per pixel.
#[verifier::external_body]
fn png_encode(pixels: &[u8], width: u32, height: u32) -> (out: Option<Vec<u8>>)
    requires
        pixels@.len() == buffer_len(width as nat, height as nat),
        encodable(pixels@.len()),
    ensures
        out matches Some(bytes) ==> png_encoded(pixels@, width, height) == Some(bytes@),
        out is None ==> png_encoded(pixels@, width, height) is None,
{
    let mut file: Vec<u8> = Vec::new();
    let encoder = image::codecs::png::PngEncoder::new(&mut file);
    let color = image::ExtendedColorType::Rgba8;
    match image::ImageEncoder::write_image(encoder, pixels, width, height, color) {
        Ok(()) => Some(file),
        Err(_) => None,
    }
}

/// Calls `image::imageops::resize` with `FilterType::Triangle` on an
/// `RgbaImage` made of the arguments. Trusted: the samples are the function
/// `resampled` of the arguments, and there are four for each pixel of the new
/// size, since the result is allocated by `ImageBuffer::new`. That function
/// panics where a buffer would exceed an allocation, and the resampler
/// panics where all weights of a new pixel are zero, which the bound on the
/// sides excludes: hence `resize_fits`.
#[verifier::external_body]
fn resample(pixels: Vec<u8>, width: u32, height: u32, new_width: u32, new_height: u32) -> (out:
    Vec<u8>)
    requires
        pixels@.len() == buffer_len(width as nat, height as nat),
        resize_fits(width as nat, height as nat, new_width as nat, new_height as nat),
    ensures
        out@ == resampled(pixels@, width, height, new_width, new_height),
        out@.len() == buffer_len(new_width as nat, new_height as nat),
{
    match image::RgbaImage::from_raw(width, height, pixels) {
        Some(source) => {
            let filter = image::imageops::FilterType::Triangle;
            image::imageops::resize(&source, new_width, new_height, filter).into_raw()
        },
        None => Vec::new(),
    }
}

/// Calls `image::load_from_memory` and converts what it read with
/// `DynamicImage::into_rgba8`. Nothing is taken on trust: which bytes are a
/// picture, and which picture, is for the decoders to say. The answer is no
/// function of the bytes alone: the reader first consults the format and
/// decoder hooks that the running program has registered with the `image`
/// crate, and some decoders choose their arithmetic by the processor they
/// run on.
#[verifier::external_body]
fn decode_rgba8(data: &[u8]) -> (out: Option<(u32, u32, Vec<u8>)>) {
    match image::load_from_memory(data) {
        Ok(picture) => {
            let rgba = picture.into_rgba8();
            Some((rgba.width(), rgba.height(), rgba.into_raw()))
        },
        Err(_) => None,
    }
}

/// Whether a buffer of `len` bytes is within the bound `encodable`.
pub fn is_encodable(len: usize) -> (r: bool)
    ensures
        r == encodable(len as nat),
{
    len <= (isize::MAX as usize) / 2
}

/// The base64 text of `data`, or `TooLarge` where the text would not fit an
/// allocation.
pub fn encode_base64(data: &[u8]) -> (r: Result<Vec<u8>, RenderError>)
    ensures
        match r {
            Ok(text) => {
                &&& encodable(data@.len())
                &&& text@ == base64_standard(data@)
                &&& text@.len() == base64_len(data@.len())
            },
            Err(e) => !encodable(data@.len()) && e == RenderError::TooLarge,
        },
{
    if !is_encodable(data.len()) {
        return Err(RenderError::TooLarge);
    }
    Ok(base64_encode(data))
}

/// What becomes of the answer `stream` that an encoder gave for an input of
/// `len` bytes: input beyond the bound is refused before the encoder is
/// asked, and an encoder without an answer has failed.
pub open spec fn encoder_outcome(len: nat, stream: Option<Seq<u8>>) -> Result<
    Seq<u8>,
    RenderError,
> {
    if !encodable(len) {
        Err(RenderError::TooLarge)
    } else {
        match stream {
            Some(bytes) => Ok(bytes),
            None => Err(RenderError::EncodingFailed),
        }
    }
}

/// The zlib stream of `data`.
pub fn compress(data: &[u8]) -> (r: Result<Vec<u8>, RenderError>)
    ensures
        match r {
            Ok(bytes) => encoder_outcome(data@.len(), zlib_compressed(data@)) == Ok::<
                Seq<u8>,
                RenderError,
            >(bytes@),
            Err(e) => encoder_outcome(data@.len(), zlib_compressed(data@)) == Err::<
                Seq<u8>,
                RenderError,
            >(e),
        },
{
    if !is_encodable(data.len()) {
        return Err(RenderError::TooLarge);
    }
    match zlib_compress(data) {
        Some(bytes) => Ok(bytes),
        None => Err(RenderError::EncodingFailed),
    }
}

/// The PNG file of `img`.
pub fn encode_png(img: &RasterImage) -> (r: Result<Vec<u8>, RenderError>)
    ensures
        match r {
            Ok(bytes) => encoder_outcome(
                img@.pixels.len(),
                png_encoded(img@.pixels, img@.width as u32, img@.height as u32),
            ) == Ok::<Seq<u8>, RenderError>(bytes@),
            Err(e) => encoder_outcome(
                img@.pixels.len(),
                png_encoded(img@.pixels, img@.width as u32, img@.height as u32),
            ) == Err::<Seq<u8>, RenderError>(e),
        },
{
    let pixels = img.as_raw();
    if !is_encodable(pixels.len()) {
        return Err(RenderError::TooLarge);
    }
    match png_encode(pixels.as_slice(), img.width(), img.height()) {
        Some(bytes) => Ok(bytes),
        None => Err(RenderError::EncodingFailed),
    }
}

/// Whether resampling to the new size stays within `resize_fits`.
pub fn can_resize(width: u32, height: u32, new_width: u32, new_height: u32) -> (r: bool)
    ensures
        r == resize_fits(width as nat, height as nat, new_width as nat, new_height as nat),
{
    let limit: u128 = (isize::MAX as usize) as u128;
    let result_len: u128 = sample_count(new_width, new_height);
    if result_len > limit {
        return false;
    }
    if width == 0 || height == 0 || (new_width == width && new_height == height) {
        return true;
    }
    let between: u128 = sample_count(width, new_height);
    between <= limit / 4 && width <= MAX_RESAMPLE_SIDE && height <= MAX_RESAMPLE_SIDE && new_width
        <= MAX_RESAMPLE_SIDE && new_height <= MAX_RESAMPLE_SIDE
}

/// `img` resampled to `new_width` by `new_height` with the triangle filter,
/// or `TooLarge` where that is beyond `resize_fits`.
pub fn resize_exact(img: RasterImage, new_width: u32, new_height: u32) -> (r: Result<
    RasterImage,
    RenderError,
>)
    ensures
        match r {
            Ok(out) => {
                &&& resize_fits(img@.width, img@.height, new_width as nat, new_height as nat)
                &&& out@.wf()
                &&& out@ == (RasterView {
                    width: new_width as nat,
                    height: new_height as nat,
                    pixels: resampled(
                        img@.pixels,
                        img@.width as u32,
                        img@.height as u32,
                        new_width,
                        new_height,
                    ),
                })
            },
            Err(e) => e == RenderError::TooLarge && !resize_fits(
                img@.width,
                img@.height,
                new_width as nat,
                new_height as nat,
            ),
        },
{
    let width = img.width();
    let height = img.height();
    if !can_resize(width, height, new_width, new_height) {
        return Err(RenderError::TooLarge);
    }
    let pixels = resample(img.into_raw(), width, height, new_width, new_height);
    match RasterImage::from_raw(new_width, new_height, pixels) {
        Some(out) => Ok(out),
        None => Err(RenderError::TooLarge),
    }
}

/// The picture in an image file held in memory, in any format the decoder
/// recognises by its content; `None` where the decoder finds no picture or
/// hands out a buffer that does not fit the picture's size. Whether there is
/// a picture is the decoder's word; what is made of its answer is what
/// `RasterImage::from_raw` says of the size and samples it names.
pub fn decode_image(data: &[u8]) -> (r: Option<RasterImage>)
    ensures
        r matches Some(img) ==> img@.wf(),
{
    match decode_rgba8(data) {
        Some((width, height, pixels)) => RasterImage::from_raw(width, height, pixels),
        None => None,
    }
}

} // verus!
