//! The drawing surface of the terminal, in pixels.
//!
//! A terminal may report its size in pixels, in character cells, in both or
//! in neither. What it leaves out is estimated, and two text lines are kept
//! free below the picture: one for the next prompt and one left blank.

use vstd::prelude::*;

verus! {

/// What the terminal reports of its window. Zero stands for "not known".
#[derive(Clone, Copy, Debug, PartialEq, Eq, Structural)]
pub struct WindowReport {
    /// Rows of text.
    pub rows: u16,
    /// Columns of text.
    pub columns: u16,
    /// Width in pixels.
    pub width: u16,
    /// Height in pixels.
    pub height: u16,
}

/// The width assumed for one character cell, in pixels.
pub const CELL_WIDTH: u32 = 10;

/// The height assumed for one line of text, in pixels.
pub const LINE_HEIGHT: u32 = 20;

/// The width used where the terminal reports none.
pub const FALLBACK_WIDTH: u32 = 800;

/// The height used where the terminal reports none.
pub const FALLBACK_HEIGHT: u32 = 400;

/// The rows left for the picture once two lines are set aside.
pub open spec fn free_rows(rows: u16) -> int {
    if rows >= 2 {
        rows - 2
    } else {
        0
    }
}

/// The width to draw in: the reported pixel width, else ten pixels for each
/// column, else the fallback.
pub open spec fn usable_width(report: WindowReport) -> u32 {
    if report.width > 0 {
        report.width as u32
    } else if report.columns > 0 {
        (report.columns * CELL_WIDTH) as u32
    } else {
        FALLBACK_WIDTH
    }
}

/// The height to draw in. A reported pixel height is scaled by the share of
/// rows that stay free, where columns and rows are known; without a pixel
/// height each free row counts twenty pixels; without rows the fallback
/// applies.
pub open spec fn usable_height(report: WindowReport) -> u32 {
    if report.height > 0 {
        if report.columns > 0 && report.rows > 0 {
            (report.height * free_rows(report.rows) / report.rows as int) as u32
        } else {
            report.height as u32
        }
    } else if report.rows > 0 {
        (free_rows(report.rows) * LINE_HEIGHT) as u32
    } else {
        FALLBACK_HEIGHT
    }
}

/// The size to draw in, as width and height in pixels, for what the
/// terminal reported; `None` stands for a terminal that could not be asked.
pub open spec fn term_size_of(report: Option<WindowReport>) -> (u32, u32) {
    match report {
        Some(r) => (usable_width(r), usable_height(r)),
        None => (FALLBACK_WIDTH, FALLBACK_HEIGHT),
    }
}

/// The size of the terminal's drawing surface. It never fails: what is not
/// reported is estimated.
pub fn get_term_size(report: Option<WindowReport>) -> (size: (u32, u32))
    ensures
        size == term_size_of(report),
{
    let mut width: u32 = FALLBACK_WIDTH;
    let mut height: u32 = FALLBACK_HEIGHT;
    if let Some(size) = report {
        let cols: u32 = size.columns as u32;
        let rows: u32 = size.rows as u32;
        let free: u32 = if rows >= 2 {
            rows - 2
        } else {
            0
        };
        if size.width > 0 {
            width = size.width as u32;
        } else if cols > 0 {
            width = cols * CELL_WIDTH;
        }
        if size.height > 0 {
            height = size.height as u32;
            if cols > 0 && rows > 0 {
                assert(height * free <= 0xffff * 0xffff) by (nonlinear_arith)
                    requires
                        height <= 0xffff,
                        free <= 0xffff,
                ;
                height = height * free / rows;
            }
        } else if rows > 0 {
            height = free * LINE_HEIGHT;
        }
    }
    (width, height)
}

/// A terminal that reports its size in pixels is taken at its word for the
/// width, and never gets more height than it reported.
pub proof fn lemma_reported_pixels_bound(report: WindowReport)
    requires
        report.width > 0,
        report.height > 0,
    ensures
        usable_width(report) == report.width,
        usable_height(report) <= report.height,
{
    if report.columns > 0 && report.rows > 0 {
        let h = report.height as int;
        let f = free_rows(report.rows);
        let r = report.rows as int;
        assert(h * f / r <= h) by (nonlinear_arith)
            requires
                0 <= f <= r,
                0 <= h,
                r > 0,
        ;
    }
}

} // verus!
