//! From a decoded picture to the bytes that show it: fit it to the
//! terminal, lay it over a background if asked, encode it, and frame the
//! result for the wire or hand it out as a PNG file.

use crate::codec::{
    base64_len, base64_standard, compress, encodable, encode_base64, encode_png,
    encoder_outcome, png_encoded, resampled, resize_exact, resize_fits, zlib_compressed,
};
use crate::color::{parse_color, parsed_color};
use crate::composite::{add_background, composited};
use crate::dimensions::{calculate_dimensions, planned_dimensions};
use crate::error::RenderError;
use crate::protocol::{
    build_png_header, build_rgba_header, chunks, div_ceil, encode_transmission,
    lemma_chunk_count, png_header, rgba_header, transmission, CHUNK_SIZE,
};
use crate::raster::{RasterImage, RasterView};
use vstd::prelude::*;

verus! {

/// What travels as the payload.
#[derive(Clone, Copy, Debug, PartialEq, Eq, Structural)]
pub enum Mode {
    /// A PNG file.
    Png,
    /// The RGBA samples, compressed with zlib.
    Zlib,
    /// The RGBA samples as they are.
    Raw,
}

/// How a picture is to be shown.
pub struct RenderOptions {
    /// The width asked for, in pixels.
    pub width: Option<u32>,
    /// The height asked for, in pixels.
    pub height: Option<u32>,
    /// Fill the terminal's width.
    pub fullwidth: bool,
    /// Fill the terminal's height.
    pub fullheight: bool,
    /// Fit the picture to the terminal.
    pub resize: bool,
    /// Never fit the picture by itself.
    pub noresize: bool,
    /// Lay the picture over a background.
    pub background: bool,
    /// The background's colour, as `parse_color` reads it.
    pub color: String,
    /// The payload's form on the wire.
    pub mode: Mode,
    /// Produce a PNG file instead of frames for the terminal.
    pub to_file: bool,
}

/// The picture at the size it is shown at. It is resampled only where the
/// planned size has no empty side and differs from its own.
pub open spec fn fitted(img: RasterView, conf: &RenderOptions, term_size: (u32, u32)) -> Result<
    RasterView,
    RenderError,
> {
    let dims = planned_dimensions(
        (img.width as u32, img.height as u32),
        (conf.width, conf.height),
        conf.fullwidth,
        conf.fullheight,
        conf.resize,
        conf.noresize,
        term_size,
    );
    if dims.0 != 0 && dims.1 != 0 && (dims.0 != img.width || dims.1 != img.height) {
        if resize_fits(img.width, img.height, dims.0 as nat, dims.1 as nat) {
            Ok(
                RasterView {
                    width: dims.0 as nat,
                    height: dims.1 as nat,
                    pixels: resampled(
                        img.pixels,
                        img.width as u32,
                        img.height as u32,
                        dims.0,
                        dims.1,
                    ),
                },
            )
        } else {
            Err(RenderError::TooLarge)
        }
    } else {
        Ok(img)
    }
}

/// The picture over the background, where one is asked for.
pub open spec fn backed(img: RasterView, conf: &RenderOptions) -> Result<RasterView, RenderError> {
    if conf.background {
        match parsed_color(conf.color@) {
            Ok(color) => Ok(composited(img, color)),
            Err(e) => Err(RenderError::InvalidColor(e)),
        }
    } else {
        Ok(img)
    }
}

/// The frames that carry `payload` behind `header`: the payload goes into
/// base64 and is cut into chunks.
pub open spec fn wire(header: Seq<u8>, payload: Seq<u8>) -> Result<Seq<u8>, RenderError> {
    if encodable(payload.len()) {
        Ok(transmission(header, base64_standard(payload)))
    } else {
        Err(RenderError::TooLarge)
    }
}

/// The PNG file of a picture.
pub open spec fn png_file(img: RasterView) -> Result<Seq<u8>, RenderError> {
    encoder_outcome(
        img.pixels.len(),
        png_encoded(img.pixels, img.width as u32, img.height as u32),
    )
}

/// The bytes for a picture that is ready to show. A file is the PNG itself.
/// For the terminal the payload is the PNG, or the samples with their size
/// in the header: compressed and declared so in `Zlib` mode, as they are in
/// `Raw` mode.
pub open spec fn encoded(img: RasterView, mode: Mode, to_file: bool) -> Result<
    Seq<u8>,
    RenderError,
> {
    if to_file || mode == Mode::Png {
        match png_file(img) {
            Ok(png) => if to_file {
                Ok(png)
            } else {
                wire(png_header(), png)
            },
            Err(e) => Err(e),
        }
    } else {
        let payload = if mode == Mode::Zlib {
            encoder_outcome(img.pixels.len(), zlib_compressed(img.pixels))
        } else {
            Ok(img.pixels)
        };
        match payload {
            Ok(bytes) => wire(rgba_header(img.width, img.height, mode == Mode::Zlib), bytes),
            Err(e) => Err(e),
        }
    }
}

/// Everything `render_image` does, step by step.
pub open spec fn rendered(img: RasterView, conf: &RenderOptions, term_size: (u32, u32)) -> Result<
    Seq<u8>,
    RenderError,
> {
    match fitted(img, conf, term_size) {
        Ok(sized) => match backed(sized, conf) {
            Ok(ready) => encoded(ready, conf.mode, conf.to_file),
            Err(e) => Err(e),
        },
        Err(e) => Err(e),
    }
}

/// `r` is the outcome `expected`, seen through the view of its bytes.
pub open spec fn bytes_match(r: Result<Vec<u8>, RenderError>, expected: Result<
    Seq<u8>,
    RenderError,
>) -> bool {
    match r {
        Ok(bytes) => expected == Ok::<Seq<u8>, RenderError>(bytes@),
        Err(e) => expected == Err::<Seq<u8>, RenderError>(e),
    }
}

/// `r` is the outcome `expected`, seen through the view of its picture.
pub open spec fn image_matches(r: Result<RasterImage, RenderError>, expected: Result<
    RasterView,
    RenderError,
>) -> bool {
    match r {
        Ok(img) => expected == Ok::<RasterView, RenderError>(img@),
        Err(e) => expected == Err::<RasterView, RenderError>(e),
    }
}

/// Brings `img` to the size it is shown at.
pub fn fit_image(img: RasterImage, conf: &RenderOptions, term_size: (u32, u32)) -> (r: Result<
    RasterImage,
    RenderError,
>)
    ensures
        image_matches(r, fitted(img@, conf, term_size)),
{
    let dims = calculate_dimensions(
        img.dimensions(),
        (conf.width, conf.height),
        conf.fullwidth,
        conf.fullheight,
        conf.resize,
        conf.noresize,
        term_size,
    );
    if dims.0 != 0 && dims.1 != 0 && (dims.0 != img.width() || dims.1 != img.height()) {
        resize_exact(img, dims.0, dims.1)
    } else {
        Ok(img)
    }
}

/// Lays `img` over the background that `conf` names, if it names one.
pub fn apply_background(img: RasterImage, conf: &RenderOptions) -> (r: Result<
    RasterImage,
    RenderError,
>)
    ensures
        image_matches(r, backed(img@, conf)),
{
    if conf.background {
        match parse_color(conf.color.as_str()) {
            Ok(color) => Ok(add_background(&img, &color)),
            Err(e) => Err(RenderError::InvalidColor(e)),
        }
    } else {
        Ok(img)
    }
}

/// Puts `payload` into base64 and frames it behind `header`. The number of
/// frames follows from the size of the payload alone: four characters go
/// out for every three bytes begun, a chunk's worth to a frame.
pub fn transmit(header: &[u8], payload: &[u8]) -> (r: Result<Vec<u8>, RenderError>)
    ensures
        bytes_match(r, wire(header@, payload@)),
        r is Ok ==> chunks(base64_standard(payload@), CHUNK_SIZE as nat).len() == div_ceil(
            base64_len(payload@.len()),
            CHUNK_SIZE as nat,
        ),
{
    match encode_base64(payload) {
        Ok(text) => {
            proof {
                lemma_chunk_count(text@, CHUNK_SIZE as nat);
            }
            Ok(encode_transmission(header, text.as_slice()))
        },
        Err(e) => Err(e),
    }
}

/// Encodes a picture that is ready to show.
pub fn encode_image(img: RasterImage, mode: Mode, to_file: bool) -> (r: Result<
    Vec<u8>,
    RenderError,
>)
    ensures
        bytes_match(r, encoded(img@, mode, to_file)),
{
    if to_file || mode == Mode::Png {
        match encode_png(&img) {
            Ok(png) => if to_file {
                Ok(png)
            } else {
                let header = build_png_header();
                transmit(header.as_slice(), png.as_slice())
            },
            Err(e) => Err(e),
        }
    } else {
        let header = build_rgba_header(img.width(), img.height(), mode == Mode::Zlib);
        let samples = img.into_raw();
        if mode == Mode::Zlib {
            match compress(samples.as_slice()) {
                Ok(stream) => transmit(header.as_slice(), stream.as_slice()),
                Err(e) => Err(e),
            }
        } else {
            transmit(header.as_slice(), samples.as_slice())
        }
    }
}

/// The bytes that show `img`: frames for the terminal, or a PNG file where
/// `conf.to_file` is set.
pub fn render_image(img: RasterImage, conf: &RenderOptions, term_size: (u32, u32)) -> (r: Result<
    Vec<u8>,
    RenderError,
>)
    ensures
        bytes_match(r, rendered(img@, conf, term_size)),
{
    let sized = match fit_image(img, conf, term_size) {
        Ok(sized) => sized,
        Err(e) => {
            return Err(e);
        },
    };
    let ready = match apply_background(sized, conf) {
        Ok(ready) => ready,
        Err(e) => {
            return Err(e);
        },
    };
    encode_image(ready, conf.mode, conf.to_file)
}

/// What is sent depends on the picture's content and on the settings alone:
/// two pictures with the same size and samples, under settings that agree,
/// give the same bytes or the same error.
pub proof fn lemma_render_deterministic(
    a: RasterView,
    b: RasterView,
    conf_a: &RenderOptions,
    conf_b: &RenderOptions,
    term_size: (u32, u32),
)
    requires
        a.width == b.width,
        a.height == b.height,
        a.pixels == b.pixels,
        conf_a.width == conf_b.width,
        conf_a.height == conf_b.height,
        conf_a.fullwidth == conf_b.fullwidth,
        conf_a.fullheight == conf_b.fullheight,
        conf_a.resize == conf_b.resize,
        conf_a.noresize == conf_b.noresize,
        conf_a.background == conf_b.background,
        conf_a.color@ == conf_b.color@,
        conf_a.mode == conf_b.mode,
        conf_a.to_file == conf_b.to_file,
    ensures
        rendered(a, conf_a, term_size) == rendered(b, conf_b, term_size),
{
}

} // verus!
