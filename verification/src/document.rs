//! Paginated documents: which pages are rendered, and how the rendered
//! pages become one picture.
//!
//! The pages stand one below the other, each at the left edge. The picture
//! is as wide as the widest page; to the right of a narrower page it is
//! transparent.

use crate::raster::{buffer_len, sample_count, RasterImage, RasterView};
use vstd::prelude::*;

verus! {

/// Why a document gives no picture.
#[derive(Clone, Copy, Debug, PartialEq, Eq, Structural)]
pub enum DocumentError {
    /// A selected page does not exist.
    PageOutOfRange,
    /// There is no page to render.
    NoPages,
    /// The pages together are larger than a picture can be.
    TooLarge,
}

impl DocumentError {
    /// What went wrong, in words.
    pub open spec fn description(self) -> Seq<char> {
        match self {
            DocumentError::PageOutOfRange => "Page index out of range"@,
            DocumentError::NoPages => "No pages found"@,
            DocumentError::TooLarge => "Pages too large"@,
        }
    }

    /// A short description for the user.
    pub fn message(&self) -> (m: &'static str)
        ensures
            m@ == self.description(),
    {
        match self {
            DocumentError::PageOutOfRange => "Page index out of range",
            DocumentError::NoPages => "No pages found",
            DocumentError::TooLarge => "Pages too large",
        }
    }
}

/// The width to render pages at: the width asked for, else the terminal's,
/// if it fits a signed 32-bit number.
pub fn target_width(conf_w: Option<u32>, term_width: u32) -> (r: Option<i32>)
    ensures
        match r {
            Some(w) => w == (match conf_w {
                Some(v) => v,
                None => term_width,
            }),
            None => (match conf_w {
                Some(v) => v,
                None => term_width,
            }) > i32::MAX,
        },
{
    let width: u32 = match conf_w {
        Some(v) => v,
        None => term_width,
    };
    if width > i32::MAX as u32 {
        None
    } else {
        Some(width as i32)
    }
}

/// All pages of a document of `n_pages` pages, in order.
pub open spec fn all_pages(n_pages: u16) -> Seq<u16> {
    Seq::new(n_pages as nat, |i: int| i as u16)
}

/// Every page of `pages` exists in a document of `n_pages` pages.
pub open spec fn pages_exist(pages: Seq<u16>, n_pages: u16) -> bool {
    forall|i: int| 0 <= i < pages.len() ==> #[trigger] pages[i] < n_pages
}

/// The pages to render of a document of `n_pages` pages: those selected, if
/// they all exist, or all of them where none were selected.
pub fn select_pages(page_indices: Option<Vec<u16>>, n_pages: u16) -> (r: Result<
    Vec<u16>,
    DocumentError,
>)
    ensures
        match r {
            Ok(list) => match page_indices {
                Some(selected) => list@ == selected@ && pages_exist(selected@, n_pages),
                None => list@ == all_pages(n_pages),
            },
            Err(e) => e == DocumentError::PageOutOfRange && page_indices is Some && !pages_exist(
                page_indices->0@,
                n_pages,
            ),
        },
{
    match page_indices {
        Some(selected) => {
            let mut i: usize = 0;
            while i < selected.len()
                invariant
                    page_indices == Some(selected),
                    i <= selected@.len(),
                    forall|j: int| 0 <= j < i ==> #[trigger] selected@[j] < n_pages,
                decreases selected@.len() - i,
            {
                if selected[i] >= n_pages {
                    assert(!(selected@[i as int] < n_pages));
                    return Err(DocumentError::PageOutOfRange);
                }
                i += 1;
            }
            Ok(selected)
        },
        None => {
            let mut list: Vec<u16> = Vec::new();
            let mut page: u16 = 0;
            while page < n_pages
                invariant
                    page <= n_pages,
                    list@.len() == page,
                    forall|j: int| 0 <= j < page ==> list@[j] == j as u16,
                decreases n_pages - page,
            {
                list.push(page);
                page += 1;
            }
            assert(list@ =~= all_pages(n_pages));
            Ok(list)
        },
    }
}

/// The width of the widest page.
pub open spec fn max_width(pages: Seq<RasterImage>) -> nat
    decreases pages.len(),
{
    if pages.len() == 0 {
        0
    } else {
        let rest = max_width(pages.drop_last());
        if pages.last()@.width > rest {
            pages.last()@.width
        } else {
            rest
        }
    }
}

/// The heights of all pages together.
pub open spec fn total_height(pages: Seq<RasterImage>) -> nat
    decreases pages.len(),
{
    if pages.len() == 0 {
        0
    } else {
        total_height(pages.drop_last()) + pages.last()@.height
    }
}

/// `count` samples of nothing.
pub open spec fn blank(count: nat) -> Seq<u8> {
    Seq::new(count, |i: int| 0u8)
}

/// Row `y` of `page`, filled up with transparent pixels to `width`.
pub open spec fn padded_row(page: RasterView, y: int, width: nat) -> Seq<u8> {
    page.pixels.subrange(4 * (y * page.width), 4 * (y * page.width) + 4 * page.width) + blank(
        (4 * (width - page.width)) as nat,
    )
}

/// The first `rows` rows of `page`, each filled up to `width`.
pub open spec fn padded_rows(page: RasterView, rows: nat, width: nat) -> Seq<u8>
    decreases rows,
{
    if rows == 0 {
        Seq::empty()
    } else {
        padded_rows(page, (rows - 1) as nat, width) + padded_row(page, rows - 1, width)
    }
}

/// The samples of the pages one below the other in a picture `width` pixels
/// wide.
pub open spec fn stacked(pages: Seq<RasterImage>, width: nat) -> Seq<u8>
    decreases pages.len(),
{
    if pages.len() == 0 {
        Seq::empty()
    } else {
        stacked(pages.drop_last(), width) + padded_rows(
            pages.last()@,
            pages.last()@.height,
            width,
        )
    }
}

/// The pages fit into one picture: its height fits 32 bits and its buffer
/// one allocation.
pub open spec fn stack_fits(pages: Seq<RasterImage>) -> bool {
    &&& total_height(pages) <= u32::MAX
    &&& buffer_len(max_width(pages), total_height(pages)) <= isize::MAX
}

/// Row `y` of a page lies within the page's samples.
proof fn lemma_row_in_page(page: RasterView, y: int)
    requires
        page.wf(),
        0 <= y < page.height,
    ensures
        0 <= 4 * (y * page.width),
        4 * (y * page.width) + 4 * page.width <= page.pixels.len(),
{
    assert(0 <= y * page.width && 4 * (y * page.width) + 4 * page.width <= 4 * page.width
        * page.height) by (nonlinear_arith)
        requires
            0 <= y < page.height,
            0 <= page.width,
    ;
}

/// Rows filled up to `width` have `4 * width` samples each.
proof fn lemma_padded_rows_len(page: RasterView, rows: nat, width: nat)
    requires
        page.wf(),
        rows <= page.height,
        page.width <= width,
    ensures
        padded_rows(page, rows, width).len() == 4 * width * rows,
    decreases rows,
{
    if rows > 0 {
        lemma_padded_rows_len(page, (rows - 1) as nat, width);
        lemma_row_in_page(page, rows - 1);
        assert(4 * width * (rows - 1) + 4 * width == 4 * width * rows) by (nonlinear_arith);
    } else {
        assert(4 * width * rows == 0) by (nonlinear_arith)
            requires
                rows == 0,
        ;
    }
}

/// The greatest width and the sum of the heights of `pages`, or `None` where
/// the sum does not fit 32 bits.
fn measure(pages: &Vec<RasterImage>) -> (r: Option<(u32, u32)>)
    ensures
        match r {
            Some((width, height)) => width == max_width(pages@) && height == total_height(pages@),
            None => total_height(pages@) > u32::MAX,
        },
        r is Some ==> forall|k: int| 0 <= k < pages@.len() ==> (#[trigger] pages@[k])@.wf(),
{
    let mut width: u32 = 0;
    let mut height: u32 = 0;
    let mut k: usize = 0;
    assert(pages@.take(0) =~= Seq::empty());
    while k < pages.len()
        invariant
            k <= pages@.len(),
            width == max_width(pages@.take(k as int)),
            height == total_height(pages@.take(k as int)),
            forall|j: int| 0 <= j < k ==> (#[trigger] pages@[j])@.wf(),
        decreases pages@.len() - k,
    {
        let page = &pages[k];
        let _ = page.as_raw();
        proof {
            assert(pages@.take(k + 1).drop_last() =~= pages@.take(k as int));
            assert(pages@.take(k + 1).last() == pages@[k as int]);
        }
        if page.width() > width {
            width = page.width();
        }
        if page.height() > u32::MAX - height {
            proof {
                lemma_total_height_grows(pages@, k + 1);
            }
            return None;
        }
        height = height + page.height();
        k += 1;
    }
    assert(pages@.take(k as int) =~= pages@);
    Some((width, height))
}

/// The first `count` pages are together no higher than all of them.
proof fn lemma_total_height_grows(pages: Seq<RasterImage>, count: int)
    requires
        0 <= count <= pages.len(),
    ensures
        total_height(pages.take(count)) <= total_height(pages),
    decreases pages.len() - count,
{
    if count < pages.len() {
        lemma_total_height_grows(pages, count + 1);
        assert(pages.take(count + 1).drop_last() =~= pages.take(count));
    } else {
        assert(pages.take(count) =~= pages);
    }
}

/// No page is wider than the widest.
proof fn lemma_max_width_bounds(pages: Seq<RasterImage>, k: int)
    requires
        0 <= k < pages.len(),
    ensures
        pages[k]@.width <= max_width(pages),
    decreases pages.len(),
{
    if k < pages.len() - 1 {
        lemma_max_width_bounds(pages.drop_last(), k);
    }
}

/// Appends the rows of `page`, each filled up to `width`, to `out`.
fn push_page(out: &mut Vec<u8>, page: &RasterImage, width: u32)
    requires
        page@.width <= width,
        old(out)@.len() + 4 * width * page@.height <= usize::MAX,
    ensures
        final(out)@ == old(out)@ + padded_rows(page@, page@.height, width as nat),
{
    let samples = page.as_raw();
    let height: u32 = page.height();
    let ghost view = page@;
    if height == 0 {
        assert(old(out)@ + padded_rows(view, 0, width as nat) =~= old(out)@);
        return ;
    }
    let page_width: u32 = page.width();
    let len: usize = samples.len();
    assert(4 * page_width <= len && 4 * width <= usize::MAX) by (nonlinear_arith)
        requires
            len == 4 * page_width * height,
            4 * width * height <= usize::MAX,
            height >= 1,
            page_width >= 0,
            width >= 0,
    ;
    let row_len: usize = 4 * page_width as usize;
    let pad: usize = 4 * (width - page_width) as usize;
    let mut y: u32 = 0;
    assert(old(out)@ + padded_rows(view, 0, width as nat) =~= old(out)@);
    while y < height
        invariant
            y <= height,
            view.wf(),
            view == page@,
            height == view.height,
            view.width <= width,
            samples@ == view.pixels,
            samples@.len() == len,
            page_width == view.width,
            row_len == 4 * view.width,
            pad == 4 * (width - view.width),
            old(out)@.len() + 4 * width * view.height <= usize::MAX,
            out@ == old(out)@ + padded_rows(view, y as nat, width as nat),
        decreases height - y,
    {
        proof {
            lemma_row_in_page(view, y as int);
            lemma_padded_rows_len(view, y as nat, width as nat);
            lemma_padded_rows_len(view, (y + 1) as nat, width as nat);
            assert(4 * width * (y + 1) <= 4 * width * view.height) by (nonlinear_arith)
                requires
                    y + 1 <= view.height,
                    0 <= width,
            ;
        }
        let ghost before = out@;
        let start: usize = 4 * (y as usize * page_width as usize);
        out.extend_from_slice(
            vstd::slice::slice_subrange(samples.as_slice(), start, start + row_len),
        );
        let mut i: usize = 0;
        let ghost filled = out@;
        while i < pad
            invariant
                i <= pad,
                out@ == filled + blank(i as nat),
                filled.len() + pad <= usize::MAX,
            decreases pad - i,
        {
            out.push(0);
            assert(out@ =~= filled + blank((i + 1) as nat));
            i += 1;
        }
        proof {
            assert(filled == before + view.pixels.subrange(start as int, start + row_len));
            assert(out@ =~= before + padded_row(view, y as int, width as nat));
            assert(out@ =~= old(out)@ + padded_rows(view, (y + 1) as nat, width as nat));
        }
        y += 1;
    }
}

/// Puts pages that were rendered one by one into one picture, the first on
/// top.
pub fn stack_pages(pages: &Vec<RasterImage>) -> (r: Result<RasterImage, DocumentError>)
    ensures
        match r {
            Ok(img) => {
                &&& pages@.len() > 0
                &&& stack_fits(pages@)
                &&& img@.wf()
                &&& img@ == (RasterView {
                    width: max_width(pages@),
                    height: total_height(pages@),
                    pixels: stacked(pages@, max_width(pages@)),
                })
            },
            Err(DocumentError::NoPages) => pages@.len() == 0,
            Err(DocumentError::TooLarge) => pages@.len() > 0 && !stack_fits(pages@),
            Err(DocumentError::PageOutOfRange) => false,
        },
{
    if pages.len() == 0 {
        return Err(DocumentError::NoPages);
    }
    let (width, height) = match measure(pages) {
        Some(size) => size,
        None => {
            return Err(DocumentError::TooLarge);
        },
    };
    let total: u128 = sample_count(width, height);
    if total > (isize::MAX as usize) as u128 {
        return Err(DocumentError::TooLarge);
    }
    let mut out: Vec<u8> = Vec::with_capacity(total as usize);
    let mut k: usize = 0;
    assert(pages@.take(0) =~= Seq::empty());
    assert(4 * width * total_height(pages@.take(0)) == 0) by (nonlinear_arith)
        requires
            total_height(pages@.take(0)) == 0,
    ;
    while k < pages.len()
        invariant
            k <= pages@.len(),
            width == max_width(pages@),
            height == total_height(pages@),
            total == buffer_len(width as nat, height as nat),
            total <= isize::MAX,
            forall|j: int| 0 <= j < pages@.len() ==> (#[trigger] pages@[j])@.wf(),
            out@ == stacked(pages@.take(k as int), width as nat),
            out@.len() == 4 * width * total_height(pages@.take(k as int)),
        decreases pages@.len() - k,
    {
        let page = &pages[k];
        proof {
            let done = pages@.take(k as int);
            let next = pages@.take(k + 1);
            assert(next.drop_last() =~= done);
            assert(next.last() == pages@[k as int]);
            lemma_max_width_bounds(pages@, k as int);
            lemma_total_height_grows(pages@, k + 1);
            lemma_padded_rows_len(page@, page@.height, width as nat);
            assert(4 * width * total_height(done) + 4 * width * page@.height == 4 * width
                * total_height(next)) by (nonlinear_arith)
                requires
                    total_height(next) == total_height(done) + page@.height,
            ;
            assert(4 * width * total_height(next) <= 4 * width * height) by (nonlinear_arith)
                requires
                    total_height(next) <= height,
                    0 <= width,
            ;
        }
        push_page(&mut out, page, width);
        k += 1;
    }
    assert(pages@.take(k as int) =~= pages@);
    Ok(RasterImage::from_samples(width, height, out))
}

} // verus!
