//! Laying a picture with transparency over a background of one colour.

use crate::color::Rgba;
use crate::raster::{RasterImage, RasterView};
use vstd::prelude::*;

verus! {

/// One channel of a pixel over the background: the weighted mean of the
/// two, the pixel's weight being `alpha` of 255, rounded down.
pub open spec fn blend_channel(src: u8, bg: u8, alpha: u8) -> u8 {
    ((src * alpha + bg * (255 - alpha)) / 255) as u8
}

/// The background colour as an opaque pixel.
pub open spec fn opaque(bg: Rgba) -> Rgba {
    Rgba { r: bg.r, g: bg.g, b: bg.b, a: 255 }
}

/// A pixel over the background. An opaque pixel stays; a fully transparent
/// one gives way to the background; any other is blended channel by channel.
/// The result is always opaque.
pub open spec fn composite_pixel(src: Rgba, bg: Rgba) -> Rgba {
    if src.a == 255 {
        src
    } else if src.a == 0 {
        opaque(bg)
    } else {
        Rgba {
            r: blend_channel(src.r, bg.r, src.a),
            g: blend_channel(src.g, bg.g, src.a),
            b: blend_channel(src.b, bg.b, src.a),
            a: 255,
        }
    }
}

/// One channel of a colour: red, green, blue, alpha for 0 to 3.
pub open spec fn channel(c: Rgba, k: int) -> u8 {
    if k == 0 {
        c.r
    } else if k == 1 {
        c.g
    } else if k == 2 {
        c.b
    } else {
        c.a
    }
}

/// The picture `img` over the background `bg`.
pub open spec fn composited(img: RasterView, bg: Rgba) -> RasterView {
    RasterView {
        width: img.width,
        height: img.height,
        pixels: Seq::new(
            img.pixels.len(),
            |k: int| channel(composite_pixel(img.pixel(k / 4), bg), k % 4),
        ),
    }
}

/// `out` is `img` over the background `bg`: same size, each pixel
/// composited.
pub open spec fn is_composite(out: RasterView, img: RasterView, bg: Rgba) -> bool {
    &&& out.width == img.width
    &&& out.height == img.height
    &&& out.pixels.len() == img.pixels.len()
    &&& forall|i: int|
        0 <= i < img.pixel_count() ==> #[trigger] out.pixel(i) == composite_pixel(img.pixel(i), bg)
}

/// A blended channel lies between nothing and full intensity, so the
/// division never leaves the range of a byte.
pub proof fn lemma_blend_in_range(src: u8, bg: u8, alpha: u8)
    ensures
        0 <= (src * alpha + bg * (255 - alpha)) / 255 <= 255,
{
    assert(0 <= src * alpha + bg * (255 - alpha) <= 255 * 255) by (nonlinear_arith)
        requires
            0 <= src <= 255,
            0 <= bg <= 255,
            0 <= alpha <= 255,
    ;
}

/// Over any background an opaque pixel is unchanged, a fully transparent
/// pixel becomes the background, and the result is opaque in every case.
pub proof fn lemma_composite_extremes(src: Rgba, bg: Rgba)
    ensures
        src.a == 255 ==> composite_pixel(src, bg) == src,
        src.a == 0 ==> composite_pixel(src, bg) == opaque(bg),
        composite_pixel(src, bg).a == 255,
{
}

/// What has been laid over a background is opaque, so that laying it over
/// any background again changes nothing.
pub proof fn lemma_composite_settles(src: Rgba, bg: Rgba, other: Rgba)
    ensures
        composite_pixel(composite_pixel(src, bg), other) == composite_pixel(src, bg),
{
}

/// Two composites of one picture over one background are the same picture.
pub proof fn lemma_composite_unique(a: RasterView, b: RasterView, img: RasterView, bg: Rgba)
    requires
        img.wf(),
        is_composite(a, img, bg),
        is_composite(b, img, bg),
    ensures
        a == b,
{
    assert forall|k: int| 0 <= k < a.pixels.len() implies a.pixels[k] == b.pixels[k] by {
        let i = k / 4;
        assert(0 <= i < img.pixel_count()) by (nonlinear_arith)
            requires
                0 <= k < 4 * img.width * img.height,
                i == k / 4,
                img.pixel_count() == img.width * img.height,
        ;
        assert(a.pixel(i) == b.pixel(i));
        assert(k == 4 * i || k == 4 * i + 1 || k == 4 * i + 2 || k == 4 * i + 3);
    }
    assert(a.pixels =~= b.pixels);
}

/// `composited` is the composite of a picture over a background.
pub proof fn lemma_composited_is_composite(img: RasterView, bg: Rgba)
    requires
        img.wf(),
    ensures
        is_composite(composited(img, bg), img, bg),
        composited(img, bg).wf(),
{
    let out = composited(img, bg);
    assert forall|i: int| 0 <= i < img.pixel_count() implies #[trigger] out.pixel(i)
        == composite_pixel(img.pixel(i), bg) by {
        assert(4 * i + 3 < img.pixels.len()) by (nonlinear_arith)
            requires
                0 <= i < img.width * img.height,
                img.pixels.len() == 4 * img.width * img.height,
        ;
        assert((4 * i) / 4 == i && (4 * i + 1) / 4 == i && (4 * i + 2) / 4 == i && (4 * i + 3) / 4
            == i);
    }
}

/// One channel of `src` over `bg`.
fn blend(src: u8, bg: u8, alpha: u8) -> (r: u8)
    ensures
        r == blend_channel(src, bg, alpha),
{
    proof {
        lemma_blend_in_range(src, bg, alpha);
    }
    let a: u32 = alpha as u32;
    assert(src as u32 * a <= 255 * 255 && bg as u32 * (255 - a) <= 255 * 255) by (nonlinear_arith)
        requires
            src <= 255,
            bg <= 255,
            a <= 255,
    ;
    ((src as u32 * a + bg as u32 * (255 - a)) / 255) as u8
}

/// The pixel `src` over the background `bg`.
pub fn composite(src: Rgba, bg: Rgba) -> (r: Rgba)
    ensures
        r == composite_pixel(src, bg),
{
    if src.a == 255 {
        src
    } else if src.a == 0 {
        Rgba { r: bg.r, g: bg.g, b: bg.b, a: 255 }
    } else {
        Rgba {
            r: blend(src.r, bg.r, src.a),
            g: blend(src.g, bg.g, src.a),
            b: blend(src.b, bg.b, src.a),
            a: 255,
        }
    }
}

/// Lays `img` over a background of the colour `color`, whose own alpha is
/// not used. The result has the size of `img` and no transparency.
pub fn add_background(img: &RasterImage, color: &Rgba) -> (out: RasterImage)
    ensures
        out@.wf(),
        out@ == composited(img@, *color),
        is_composite(out@, img@, *color),
        forall|i: int| 0 <= i < out@.pixel_count() ==> (#[trigger] out@.pixel(i)).a == 255,
        forall|i: int|
            0 <= i < out@.pixel_count() && img@.pixel(i).a == 255 ==> #[trigger] out@.pixel(i)
                == img@.pixel(i),
        forall|i: int|
            0 <= i < out@.pixel_count() && img@.pixel(i).a == 0 ==> #[trigger] out@.pixel(i)
                == opaque(*color),
{
    let src = img.as_raw();
    let len: usize = src.len();
    let ghost view = img@;
    let mut pixels: Vec<u8> = Vec::with_capacity(len);
    let mut k: usize = 0;
    assert(len == 4 * (view.width * view.height)) by (nonlinear_arith)
        requires
            len == 4 * view.width * view.height,
    ;
    while k < len
        invariant
            len == src@.len(),
            len % 4 == 0,
            src@ == view.pixels,
            view.wf(),
            k <= len,
            k % 4 == 0,
            pixels@.len() == k,
            forall|i: int|
                0 <= i < k / 4 ==> (Rgba {
                    r: #[trigger] pixels@[4 * i],
                    g: pixels@[4 * i + 1],
                    b: pixels@[4 * i + 2],
                    a: pixels@[4 * i + 3],
                }) == composite_pixel(view.pixel(i), *color),
        decreases len - k,
    {
        let p = composite(Rgba { r: src[k], g: src[k + 1], b: src[k + 2], a: src[k + 3] }, *color);
        let ghost before = pixels@;
        pixels.push(p.r);
        pixels.push(p.g);
        pixels.push(p.b);
        pixels.push(p.a);
        proof {
            let j = (k / 4) as int;
            assert(4 * j == k);
            assert forall|i: int| 0 <= i < j + 1 implies (Rgba {
                r: #[trigger] pixels@[4 * i],
                g: pixels@[4 * i + 1],
                b: pixels@[4 * i + 2],
                a: pixels@[4 * i + 3],
            }) == composite_pixel(view.pixel(i), *color) by {
                if i < j {
                    assert(pixels@[4 * i] == before[4 * i]);
                    assert(pixels@[4 * i + 1] == before[4 * i + 1]);
                    assert(pixels@[4 * i + 2] == before[4 * i + 2]);
                    assert(pixels@[4 * i + 3] == before[4 * i + 3]);
                }
            }
        }
        k += 4;
    }
    let out = RasterImage::from_samples(img.width(), img.height(), pixels);
    proof {
        assert(out@.pixel_count() * 4 == len) by (nonlinear_arith)
            requires
                out@.pixel_count() == view.width * view.height,
                len == 4 * view.width * view.height,
        ;
        assert forall|i: int| 0 <= i < view.pixel_count() implies #[trigger] out@.pixel(i)
            == composite_pixel(view.pixel(i), *color) by {
            assert(out@.pixels[4 * i] == pixels@[4 * i]);
        }
        lemma_composited_is_composite(view, *color);
        lemma_composite_unique(out@, composited(view, *color), view, *color);
    }
    out
}

} // verus!
