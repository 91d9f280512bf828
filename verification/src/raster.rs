//! Raster images: a pixel grid with four 8-bit channels per pixel.

use crate::color::Rgba;
use vstd::prelude::*;

verus! {

/// The mathematical content of a raster image: its size in pixels and its
/// samples, row by row from the top, four per pixel in the order red, green,
/// blue, alpha.
pub struct RasterView {
    pub width: nat,
    pub height: nat,
    pub pixels: Seq<u8>,
}

impl RasterView {
    /// The sample buffer holds exactly four samples for each pixel, and both
    /// sides fit the 32-bit sizes that images carry.
    pub open spec fn wf(self) -> bool {
        &&& self.width <= u32::MAX
        &&& self.height <= u32::MAX
        &&& self.pixels.len() == 4 * self.width * self.height
    }

    /// How many pixels the image has.
    pub open spec fn pixel_count(self) -> nat {
        self.width * self.height
    }

    /// The `i`-th pixel in row-major order.
    pub open spec fn pixel(self, i: int) -> Rgba {
        Rgba {
            r: self.pixels[4 * i],
            g: self.pixels[4 * i + 1],
            b: self.pixels[4 * i + 2],
            a: self.pixels[4 * i + 3],
        }
    }

    /// The pixel in column `x` of row `y`.
    pub open spec fn pixel_at(self, x: int, y: int) -> Rgba {
        self.pixel(y * self.width + x)
    }
}

/// The number of samples in a buffer of `width` by `height` RGBA pixels.
pub open spec fn buffer_len(width: nat, height: nat) -> nat {
    4 * width * height
}

/// A decoded picture in RGBA with 8 bits per channel. The sample buffer
/// always has length `4 * width * height`.
pub struct RasterImage {
    width: u32,
    height: u32,
    pixels: Vec<u8>,
}

impl View for RasterImage {
    type V = RasterView;

    closed spec fn view(&self) -> RasterView {
        RasterView {
            width: self.width as nat,
            height: self.height as nat,
            pixels: self.pixels@,
        }
    }
}

/// `4 * width * height`, which always fits 128 bits.
pub fn sample_count(width: u32, height: u32) -> (n: u128)
    ensures
        n == buffer_len(width as nat, height as nat),
{
    let w: u128 = width as u128;
    let h: u128 = height as u128;
    assert(w * h <= 0xffff_ffff * 0xffff_ffff) by (nonlinear_arith)
        requires
            w <= 0xffff_ffff,
            h <= 0xffff_ffff,
    ;
    assert(4 * width as nat * height as nat == 4 * (w * h)) by (nonlinear_arith)
        requires
            w == width,
            h == height,
    ;
    4 * (w * h)
}

impl RasterImage {
    #[verifier::type_invariant]
    spec fn well_formed(&self) -> bool {
        self.pixels@.len() == 4 * self.width as nat * self.height as nat
    }

    /// An image over `pixels`, or `None` where the buffer does not hold
    /// exactly four samples per pixel.
    pub fn from_raw(width: u32, height: u32, pixels: Vec<u8>) -> (r: Option<RasterImage>)
        ensures
            r is Some <==> pixels@.len() == buffer_len(width as nat, height as nat),
            r matches Some(img) ==> img@ == (RasterView {
                width: width as nat,
                height: height as nat,
                pixels: pixels@,
            }),
    {
        if pixels.len() as u128 == sample_count(width, height) {
            Some(RasterImage { width, height, pixels })
        } else {
            None
        }
    }

    /// An image over `pixels`, which hold four samples per pixel.
    pub(crate) fn from_samples(width: u32, height: u32, pixels: Vec<u8>) -> (img: RasterImage)
        requires
            pixels@.len() == buffer_len(width as nat, height as nat),
        ensures
            img@.wf(),
            img@ == (RasterView { width: width as nat, height: height as nat, pixels: pixels@ }),
    {
        RasterImage { width, height, pixels }
    }

    /// The width in pixels.
    pub fn width(&self) -> (w: u32)
        ensures
            w == self@.width,
    {
        self.width
    }

    /// The height in pixels.
    pub fn height(&self) -> (h: u32)
        ensures
            h == self@.height,
    {
        self.height
    }

    /// Width and height, in that order.
    pub fn dimensions(&self) -> (d: (u32, u32))
        ensures
            d.0 == self@.width,
            d.1 == self@.height,
    {
        (self.width, self.height)
    }

    /// The samples, row by row.
    pub fn as_raw(&self) -> (s: &Vec<u8>)
        ensures
            s@ == self@.pixels,
            self@.wf(),
    {
        proof {
            use_type_invariant(self);
        }
        &self.pixels
    }

    /// Gives up the image for its sample buffer.
    pub fn into_raw(self) -> (s: Vec<u8>)
        ensures
            s@ == self@.pixels,
            self@.wf(),
    {
        proof {
            use_type_invariant(&self);
        }
        self.pixels
    }

    /// The pixel in column `x` of row `y`, or `None` outside the image.
    pub fn get_pixel(&self, x: u32, y: u32) -> (p: Option<Rgba>)
        ensures
            p is Some <==> x < self@.width && y < self@.height,
            p matches Some(c) ==> c == self@.pixel_at(x as int, y as int),
    {
        proof {
            use_type_invariant(self);
        }
        if x >= self.width || y >= self.height {
            return None;
        }
        let ghost w = self.width as int;
        let ghost h = self.height as int;
        assert(0 <= y * w && 4 * (y * w + x) + 3 < 4 * w * h) by (nonlinear_arith)
            requires
                0 <= x < w,
                0 <= y < h,
        ;
        let len: usize = self.pixels.len();
        assert(4 * w * h == len);
        let i: usize = 4 * (y as usize * self.width as usize + x as usize);
        Some(Rgba { r: self.pixels[i], g: self.pixels[i + 1], b: self.pixels[i + 2], a: self.pixels[i + 3] })
    }
}

} // verus!
