//! The size at which a picture is shown: from its own size, what the user
//! asked for and the size of the terminal.
//!
//! Only one side is ever chosen freely. The other follows from the picture's
//! aspect ratio, rounded to the nearest whole pixel, but never to nothing:
//! a picture keeps at least one pixel along every side it has.

use vstd::prelude::*;

verus! {

/// `n / d` rounded to the nearest integer, halves upward.
pub open spec fn round_div(n: nat, d: nat) -> nat
    recommends
        d > 0,
{
    (2 * n + d) / (2 * d)
}

/// `v` held to what 32 bits can express.
pub open spec fn saturate(v: nat) -> u32 {
    if v > u32::MAX {
        u32::MAX
    } else {
        v as u32
    }
}

/// The length of one side after scaling: `side * target / base` rounded to
/// the nearest integer and saturated, and one pixel where that would leave
/// nothing of a side that the picture has. A picture without extent along
/// `base` has no aspect ratio; its side becomes as large as can be where
/// there is anything to scale, and zero otherwise.
pub open spec fn scaled(side: u32, target: u32, base: u32) -> u32 {
    if base > 0 {
        let nearest = saturate(round_div(side as nat * target as nat, base as nat));
        if nearest == 0 && side > 0 && target > 0 {
            1
        } else {
            nearest
        }
    } else if side > 0 && target > 0 {
        u32::MAX
    } else {
        0
    }
}

/// The explicit size asked for, zero standing for none.
pub open spec fn requested(side: Option<u32>) -> u32 {
    match side {
        Some(v) => v,
        None => 0,
    }
}

/// Whether the picture is fitted to the terminal without being asked: no
/// flag forbids or fixes it, and the picture is larger than the terminal
/// along a side whose size is known.
pub open spec fn auto_fit(
    img_dims: (u32, u32),
    fullwidth: bool,
    fullheight: bool,
    noresize: bool,
    term_size: (u32, u32),
) -> bool {
    &&& !noresize
    &&& !fullwidth
    &&& !fullheight
    &&& ((img_dims.0 > term_size.0 && term_size.0 > 0) || (img_dims.1 > term_size.1 && term_size.1
        > 0))
}

/// The size at which the picture is shown.
///
/// Fitting, asked for or automatic, fills the terminal's width for a picture
/// wider than high and its height otherwise. Then the first of these
/// decides: an explicit width alone; an explicit height alone; filling the
/// width; filling the height; the picture's own size. An explicit size of
/// zero counts as none, and where both sizes are given neither decides.
pub open spec fn planned_dimensions(
    img_dims: (u32, u32),
    conf_size: (Option<u32>, Option<u32>),
    fullwidth: bool,
    fullheight: bool,
    resize: bool,
    noresize: bool,
    term_size: (u32, u32),
) -> (u32, u32) {
    let width = requested(conf_size.0);
    let height = requested(conf_size.1);
    let fit = resize || auto_fit(img_dims, fullwidth, fullheight, noresize, term_size);
    let fill_width = fullwidth || (fit && img_dims.0 > img_dims.1);
    let fill_height = fullheight || (fit && img_dims.0 <= img_dims.1);
    if width > 0 && height == 0 {
        (width, scaled(img_dims.1, width, img_dims.0))
    } else if height > 0 && width == 0 {
        (scaled(img_dims.0, height, img_dims.1), height)
    } else if fill_width {
        (term_size.0, scaled(img_dims.1, term_size.0, img_dims.0))
    } else if fill_height {
        (scaled(img_dims.0, term_size.1, img_dims.1), term_size.1)
    } else {
        img_dims
    }
}

/// `round_div(n, d)` is the one integer within half a unit of `n / d`,
/// halves going upward.
pub proof fn lemma_round_div_nearest(n: nat, d: nat)
    requires
        d > 0,
    ensures
        2 * n - d < 2 * d * round_div(n, d) <= 2 * n + d,
{
    let q = (2 * n + d) / (2 * d);
    assert(0 <= q && 2 * d * q <= 2 * n + d < 2 * d * q + 2 * d) by (nonlinear_arith)
        requires
            d > 0,
            q == (2 * n + d) / (2 * d),
    ;
}

/// An integer within half a unit of `n / d`, halves going upward, is
/// `round_div(n, d)`.
pub proof fn lemma_round_div_unique(n: nat, d: nat, q: int)
    requires
        d > 0,
        2 * n - d < 2 * d * q <= 2 * n + d,
    ensures
        q == round_div(n, d),
{
    lemma_round_div_nearest(n, d);
    let r = round_div(n, d) as int;
    assert(q == r) by (nonlinear_arith)
        requires
            d > 0,
            2 * n - d < 2 * d * q <= 2 * n + d,
            2 * n - d < 2 * d * r <= 2 * n + d,
    ;
}

/// One side scaled to `target`.
fn scale_side(side: u32, target: u32, base: u32) -> (r: u32)
    ensures
        r == scaled(side, target, base),
{
    if base == 0 {
        return if side > 0 && target > 0 {
            u32::MAX
        } else {
            0
        };
    }
    assert(side as nat * target as nat <= 0xffff_ffff * 0xffff_ffff) by (nonlinear_arith)
        requires
            side <= 0xffff_ffff,
            target <= 0xffff_ffff,
    ;
    let n: u128 = side as u128 * target as u128;
    let q: u128 = (2 * n + base as u128) / (2 * base as u128);
    if q > u32::MAX as u128 {
        u32::MAX
    } else if q == 0 && side > 0 && target > 0 {
        1
    } else {
        q as u32
    }
}

/// The size at which to show a picture of `img_dims` in a terminal of
/// `term_size`, both as width and height in pixels.
pub fn calculate_dimensions(
    img_dims: (u32, u32),
    conf_size: (Option<u32>, Option<u32>),
    fullwidth: bool,
    fullheight: bool,
    resize: bool,
    noresize: bool,
    term_size: (u32, u32),
) -> (dims: (u32, u32))
    ensures
        dims == planned_dimensions(
            img_dims,
            conf_size,
            fullwidth,
            fullheight,
            resize,
            noresize,
            term_size,
        ),
{
    let width: u32 = match conf_size.0 {
        Some(v) => v,
        None => 0,
    };
    let height: u32 = match conf_size.1 {
        Some(v) => v,
        None => 0,
    };
    let mut use_resize = resize;
    let mut use_fullwidth = fullwidth;
    let mut use_fullheight = fullheight;
    if !noresize && !use_fullwidth && !use_fullheight && ((img_dims.0 > term_size.0 && term_size.0
        > 0) || (img_dims.1 > term_size.1 && term_size.1 > 0)) {
        use_resize = true;
    }
    if use_resize {
        if img_dims.0 > img_dims.1 {
            use_fullwidth = true;
        } else {
            use_fullheight = true;
        }
    }
    if width > 0 && height == 0 {
        (width, scale_side(img_dims.1, width, img_dims.0))
    } else if height > 0 && width == 0 {
        (scale_side(img_dims.0, height, img_dims.1), height)
    } else if use_fullwidth {
        (term_size.0, scale_side(img_dims.1, term_size.0, img_dims.0))
    } else if use_fullheight {
        (scale_side(img_dims.0, term_size.1, img_dims.1), term_size.1)
    } else {
        img_dims
    }
}

/// With resizing switched off and no size asked for, a picture keeps its
/// size, whatever the terminal's.
pub proof fn lemma_noresize_keeps_size(
    img_dims: (u32, u32),
    conf_size: (Option<u32>, Option<u32>),
    term_size: (u32, u32),
)
    requires
        requested(conf_size.0) == 0,
        requested(conf_size.1) == 0,
    ensures
        planned_dimensions(img_dims, conf_size, false, false, false, true, term_size) == img_dims,
{
}

/// A picture with extent along both sides, shown in a terminal with extent
/// along both sides, is planned with extent along both sides, whatever is
/// asked for: no side of it is rounded away.
pub proof fn lemma_positive_dimensions(
    img_dims: (u32, u32),
    conf_size: (Option<u32>, Option<u32>),
    fullwidth: bool,
    fullheight: bool,
    resize: bool,
    noresize: bool,
    term_size: (u32, u32),
)
    requires
        img_dims.0 > 0,
        img_dims.1 > 0,
        term_size.0 > 0,
        term_size.1 > 0,
    ensures
        planned_dimensions(
            img_dims,
            conf_size,
            fullwidth,
            fullheight,
            resize,
            noresize,
            term_size,
        ).0 > 0,
        planned_dimensions(
            img_dims,
            conf_size,
            fullwidth,
            fullheight,
            resize,
            noresize,
            term_size,
        ).1 > 0,
{
    lemma_scaled_positive(img_dims.1, requested(conf_size.0), img_dims.0);
    lemma_scaled_positive(img_dims.0, requested(conf_size.1), img_dims.1);
    lemma_scaled_positive(img_dims.1, term_size.0, img_dims.0);
    lemma_scaled_positive(img_dims.0, term_size.1, img_dims.1);
}

/// A side that the picture has, scaled to a target that is not nothing,
/// keeps at least one pixel.
pub proof fn lemma_scaled_positive(side: u32, target: u32, base: u32)
    ensures
        side > 0 && target > 0 ==> scaled(side, target, base) > 0,
        scaled(side, target, base) == 0 ==> side == 0 || target == 0,
{
}

/// With only a width asked for, the picture gets that width, and its height
/// is the source height times the ratio of the widths, rounded to the
/// nearest pixel: within half a pixel of the exact value, unless that lies
/// beyond what 32 bits can express or below one pixel. A height that the
/// picture has and that would round to nothing is one pixel.
pub proof fn lemma_explicit_width_keeps_aspect(
    img_dims: (u32, u32),
    width: u32,
    fullwidth: bool,
    fullheight: bool,
    resize: bool,
    noresize: bool,
    term_size: (u32, u32),
)
    requires
        width > 0,
        img_dims.0 > 0,
    ensures
        ({
            let dims = planned_dimensions(
                img_dims,
                (Some(width), None),
                fullwidth,
                fullheight,
                resize,
                noresize,
                term_size,
            );
            let exact = round_div(img_dims.1 as nat * width as nat, img_dims.0 as nat);
            &&& dims.0 == width
            &&& exact >= 1 ==> dims.1 == saturate(exact)
            &&& exact == 0 ==> dims.1 == (if img_dims.1 > 0 {
                1u32
            } else {
                0u32
            })
            &&& 1 <= exact <= u32::MAX ==> {
                &&& 2 * img_dims.1 * width - img_dims.0 < 2 * img_dims.0 * dims.1
                &&& 2 * img_dims.0 * dims.1 <= 2 * img_dims.1 * width + img_dims.0
            }
        }),
{
    let n = img_dims.1 as nat * width as nat;
    let d = img_dims.0 as nat;
    lemma_round_div_nearest(n, d);
    let q = round_div(n, d);
    if 1 <= q <= u32::MAX {
        assert(2 * img_dims.1 * width == 2 * n) by (nonlinear_arith)
            requires
                n == img_dims.1 as nat * width as nat,
        ;
        assert(2 * img_dims.0 * (q as u32) == 2 * d * q) by (nonlinear_arith)
            requires
                d == img_dims.0,
                q <= u32::MAX,
        ;
    }
}

/// With only a height asked for, the picture gets that height, and its width
/// is the source width times the ratio of the heights, rounded to the
/// nearest pixel. A width that the picture has and that would round to
/// nothing is one pixel.
pub proof fn lemma_explicit_height_keeps_aspect(
    img_dims: (u32, u32),
    height: u32,
    fullwidth: bool,
    fullheight: bool,
    resize: bool,
    noresize: bool,
    term_size: (u32, u32),
)
    requires
        height > 0,
        img_dims.1 > 0,
    ensures
        ({
            let dims = planned_dimensions(
                img_dims,
                (None, Some(height)),
                fullwidth,
                fullheight,
                resize,
                noresize,
                term_size,
            );
            let exact = round_div(img_dims.0 as nat * height as nat, img_dims.1 as nat);
            &&& dims.1 == height
            &&& exact >= 1 ==> dims.0 == saturate(exact)
            &&& exact == 0 ==> dims.0 == (if img_dims.0 > 0 {
                1u32
            } else {
                0u32
            })
        }),
{
}

} // verus!
