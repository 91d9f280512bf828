//! Office documents as web pages: the text of a spreadsheet, a slide show or
//! a word processor's document is laid out in plain HTML, which the web
//! renderer turns into a picture.
//!
//! Reading the files is not done here. What is taken from them arrives as
//! strings and goes into the markup as it is.

use crate::bytes::{bytes_eq, decimal, has_prefix, push_decimal, push_str, starts_with};
use vstd::prelude::*;
use vstd::string::*;
use vstd::utf8::encode_utf8;

verus! {

/// One piece of a word processor's document.
pub enum DocPart {
    /// A run of text.
    Text(String),
    /// The end of a paragraph.
    ParagraphEnd,
}

/// The sheets to show of a workbook with `count` sheets: of those selected,
/// the ones that exist, in the order of the selection; without a selection
/// the first sheet, if there is one.
pub open spec fn sheets_shown(count: nat, pages: Option<Seq<u16>>) -> Seq<nat> {
    match pages {
        Some(selected) => existing(selected, count),
        None => if count > 0 {
            seq![0nat]
        } else {
            Seq::empty()
        },
    }
}

/// Those of `selected` that are below `count`, in their order.
pub open spec fn existing(selected: Seq<u16>, count: nat) -> Seq<nat>
    decreases selected.len(),
{
    if selected.len() == 0 {
        Seq::empty()
    } else if selected.last() < count {
        existing(selected.drop_last(), count).push(selected.last() as nat)
    } else {
        existing(selected.drop_last(), count)
    }
}

/// Where a page begins.
pub open spec fn page_open() -> Seq<u8> {
    "<html><body style='background:white; color:black; font-family: sans-serif;'>".spec_bytes()
}

/// Where a page ends.
pub open spec fn page_close() -> Seq<u8> {
    "</body></html>".spec_bytes()
}

/// One cell of a table.
pub open spec fn cell_markup(cell: Seq<char>) -> Seq<u8> {
    "<td style='padding: 4px;'>".spec_bytes() + encode_utf8(cell) + "</td>".spec_bytes()
}

/// The first `count` cells of a row, one after the other.
pub open spec fn cells_markup(cells: Seq<String>, count: nat) -> Seq<u8>
    decreases count,
{
    if count == 0 {
        Seq::empty()
    } else {
        cells_markup(cells, (count - 1) as nat) + cell_markup(cells[count - 1]@)
    }
}

/// One row of a table.
pub open spec fn row_markup(cells: Seq<String>) -> Seq<u8> {
    "<tr>".spec_bytes() + cells_markup(cells, cells.len()) + "</tr>".spec_bytes()
}

/// The first `count` rows of a table, one after the other.
pub open spec fn rows_markup(rows: Seq<Vec<String>>, count: nat) -> Seq<u8>
    decreases count,
{
    if count == 0 {
        Seq::empty()
    } else {
        rows_markup(rows, (count - 1) as nat) + row_markup(rows[count - 1]@)
    }
}

/// A sheet: its name as a heading, then its rows as a table.
pub open spec fn sheet_markup(name: Seq<char>, rows: Seq<Vec<String>>) -> Seq<u8> {
    "<h1>".spec_bytes() + encode_utf8(name)
        + "</h1><table border='1' style='border-collapse: collapse;'>".spec_bytes() + rows_markup(
        rows,
        rows.len(),
    ) + "</table><br/>".spec_bytes()
}

/// A slide: its number as a heading, then its text.
pub open spec fn slide_markup(number: u16, text: Seq<char>) -> Seq<u8> {
    "<div style='border: 1px solid black; padding: 20px; margin: 20px; min-height: 400px;'><h2>Slide ".spec_bytes()
        + decimal(number as nat) + "</h2><p>".spec_bytes() + encode_utf8(text)
        + "</p></div>".spec_bytes()
}

/// One piece of a document: text is followed by a space, the end of a
/// paragraph is two line breaks.
pub open spec fn part_markup(part: DocPart) -> Seq<u8> {
    match part {
        DocPart::Text(text) => encode_utf8(text@) + " ".spec_bytes(),
        DocPart::ParagraphEnd => "<br/><br/>".spec_bytes(),
    }
}

/// The first `count` pieces of a document, one after the other.
pub open spec fn parts_markup(parts: Seq<DocPart>, count: nat) -> Seq<u8>
    decreases count,
{
    if count == 0 {
        Seq::empty()
    } else {
        parts_markup(parts, (count - 1) as nat) + part_markup(parts[count - 1])
    }
}

/// A word processor's document.
pub open spec fn document_markup(parts: Seq<DocPart>) -> Seq<u8> {
    "<div style='padding: 40px; max-width: 800px;'>".spec_bytes() + parts_markup(
        parts,
        parts.len(),
    ) + "</div>".spec_bytes()
}

/// The number of the slide that the selected page `index` names. Pages are
/// counted from zero and slides from one, so that it is the number after
/// the index; the last index that 16 bits can express names no slide.
pub open spec fn slide_of_page(index: u16) -> Option<u16> {
    if index < u16::MAX {
        Some((index + 1) as u16)
    } else {
        None
    }
}

/// The numbers of the slides that the selected pages name, in the order of
/// the selection.
pub open spec fn slides_of_pages(pages: Seq<u16>) -> Seq<u16>
    decreases pages.len(),
{
    if pages.len() == 0 {
        Seq::empty()
    } else {
        match slide_of_page(pages.last()) {
            Some(number) => slides_of_pages(pages.drop_last()).push(number),
            None => slides_of_pages(pages.drop_last()),
        }
    }
}

/// The name under which slide `number` is kept in a slide show's archive.
pub open spec fn slide_entry(number: u16) -> Seq<u8> {
    "ppt/slides/slide".spec_bytes() + decimal(number as nat) + ".xml".spec_bytes()
}

/// Whether the byte is an ASCII digit.
pub open spec fn is_digit_byte(b: u8) -> bool {
    0x30 <= b <= 0x39
}

/// The number that the digits among `bytes` write in decimal, whatever
/// stands between them.
pub open spec fn digits_number(bytes: Seq<u8>) -> nat
    decreases bytes.len(),
{
    if bytes.len() == 0 {
        0
    } else if is_digit_byte(bytes.last()) {
        10 * digits_number(bytes.drop_last()) + (bytes.last() - 0x30) as nat
    } else {
        digits_number(bytes.drop_last())
    }
}

/// How many digits `bytes` holds.
pub open spec fn digit_count(bytes: Seq<u8>) -> nat
    decreases bytes.len(),
{
    if bytes.len() == 0 {
        0
    } else if is_digit_byte(bytes.last()) {
        digit_count(bytes.drop_last()) + 1
    } else {
        digit_count(bytes.drop_last())
    }
}

/// `suffix` stands at the end of `data`.
pub open spec fn has_suffix(data: Seq<u8>, suffix: Seq<u8>) -> bool {
    suffix.len() <= data.len() && data.subrange(data.len() - suffix.len(), data.len() as int)
        == suffix
}

/// The number of the slide kept under `name` in a slide show's archive: the
/// name begins with `ppt/slides/slide` and ends with `.xml`, and its digits
/// write a number that fits 16 bits.
pub open spec fn slide_number_of(name: Seq<u8>) -> Option<u16> {
    if has_prefix(name, "ppt/slides/slide".spec_bytes()) && has_suffix(
        name,
        ".xml".spec_bytes(),
    ) && digit_count(name) > 0 && digits_number(name) <= u16::MAX {
        Some(digits_number(name) as u16)
    } else {
        None
    }
}

/// No element is greater than a later one.
pub open spec fn ascending(v: Seq<u16>) -> bool {
    forall|i: int, j: int| 0 <= i <= j < v.len() ==> v[i] <= v[j]
}

/// A single selected page names the slide with the number after it, and
/// with it the one archive entry of that slide.
pub proof fn lemma_page_names_next_slide(index: u16)
    ensures
        index < u16::MAX ==> slides_of_pages(seq![index]) == seq![(index + 1) as u16],
        index == u16::MAX ==> slides_of_pages(seq![index]) == Seq::<u16>::empty(),
{
    let pages = seq![index];
    assert(pages.drop_last() =~= Seq::empty());
    assert(pages.last() == index);
    assert(slides_of_pages(pages.drop_last()) =~= Seq::empty());
    if index < u16::MAX {
        assert(Seq::<u16>::empty().push((index + 1) as u16) =~= seq![(index + 1) as u16]);
    }
}

/// More bytes write no smaller a number and hold no fewer digits.
proof fn lemma_digits_grow(bytes: Seq<u8>, k: int)
    requires
        0 <= k <= bytes.len(),
    ensures
        digits_number(bytes.take(k)) <= digits_number(bytes),
        digit_count(bytes.take(k)) <= digit_count(bytes),
    decreases bytes.len() - k,
{
    if k < bytes.len() {
        lemma_digits_grow(bytes, k + 1);
        assert(bytes.take(k + 1).drop_last() =~= bytes.take(k));
    } else {
        assert(bytes.take(k) =~= bytes);
    }
}

/// Whether `data` ends with `suffix`.
fn ends_with(data: &[u8], suffix: &[u8]) -> (r: bool)
    ensures
        r == has_suffix(data@, suffix@),
{
    if suffix.len() > data.len() {
        return false;
    }
    let start: usize = data.len() - suffix.len();
    let tail = vstd::slice::slice_subrange(data, start, data.len());
    bytes_eq(tail, suffix)
}

/// The number of the slide kept under `name`, if `name` is the name of a
/// slide.
pub fn slide_number(name: &str) -> (r: Option<u16>)
    ensures
        r == slide_number_of(name.spec_bytes()),
{
    let bytes = name.as_bytes();
    if !starts_with(bytes, "ppt/slides/slide".as_bytes()) || !ends_with(
        bytes,
        ".xml".as_bytes(),
    ) {
        return None;
    }
    let mut value: u32 = 0;
    let mut digits: bool = false;
    let mut k: usize = 0;
    assert(bytes@.take(0) =~= Seq::empty());
    while k < bytes.len()
        invariant
            k <= bytes@.len(),
            bytes@ == name.spec_bytes(),
            has_prefix(bytes@, "ppt/slides/slide".spec_bytes()),
            has_suffix(bytes@, ".xml".spec_bytes()),
            value == digits_number(bytes@.take(k as int)),
            digits == (digit_count(bytes@.take(k as int)) > 0),
            value <= u16::MAX,
        decreases bytes@.len() - k,
    {
        let b: u8 = bytes[k];
        proof {
            assert(bytes@.take(k + 1).drop_last() =~= bytes@.take(k as int));
            assert(bytes@.take(k + 1).last() == b);
        }
        if 0x30 <= b && b <= 0x39 {
            value = value * 10 + (b - 0x30) as u32;
            digits = true;
            if value > u16::MAX as u32 {
                proof {
                    lemma_digits_grow(bytes@, k + 1);
                }
                return None;
            }
        }
        k += 1;
    }
    assert(bytes@.take(k as int) =~= bytes@);
    if digits {
        Some(value as u16)
    } else {
        None
    }
}

/// The slide numbers in ascending order, each as often as it was found.
pub fn sort_slides(found: &Vec<u16>) -> (sorted: Vec<u16>)
    ensures
        ascending(sorted@),
        sorted@.to_multiset() == found@.to_multiset(),
{
    let mut sorted: Vec<u16> = Vec::new();
    let mut k: usize = 0;
    assert(found@.take(0) =~= Seq::empty());
    while k < found.len()
        invariant
            k <= found@.len(),
            ascending(sorted@),
            sorted@.to_multiset() == found@.take(k as int).to_multiset(),
        decreases found@.len() - k,
    {
        let x: u16 = found[k];
        let mut pos: usize = sorted.len();
        while pos > 0 && sorted[pos - 1] > x
            invariant
                pos <= sorted@.len(),
                forall|j: int| pos <= j < sorted@.len() ==> sorted@[j] > x,
            decreases pos,
        {
            pos -= 1;
        }
        let ghost before = sorted@;
        sorted.insert(pos, x);
        proof {
            vstd::seq_lib::to_multiset_insert(before, pos as int, x);
            assert(found@.take(k + 1) =~= found@.take(k as int).push(x));
            vstd::seq_lib::to_multiset_build(found@.take(k as int), x);
            assert forall|i: int, j: int| 0 <= i <= j < sorted@.len() implies sorted@[i]
                <= sorted@[j] by {
                if i < pos && j > pos {
                    assert(sorted@[i] == before[i]);
                    assert(sorted@[j] == before[j - 1]);
                } else if i < pos && j == pos {
                    assert(sorted@[i] == before[i]);
                    assert(before[i] <= before[pos - 1]);
                } else if i < pos {
                    assert(sorted@[i] == before[i] && sorted@[j] == before[j]);
                } else if i == pos && j > pos {
                    assert(sorted@[j] == before[j - 1]);
                } else if i > pos {
                    assert(sorted@[i] == before[i - 1] && sorted@[j] == before[j - 1]);
                }
            }
        }
        k += 1;
    }
    assert(found@.take(k as int) =~= found@);
    sorted
}

/// The sheets to show of a workbook with `count` sheets.
pub fn select_sheets(count: usize, pages: Option<&Vec<u16>>) -> (shown: Vec<usize>)
    ensures
        shown@.map_values(|i: usize| i as nat) == sheets_shown(
            count as nat,
            match pages {
                Some(selected) => Some(selected@),
                None => None,
            },
        ),
{
    let mut shown: Vec<usize> = Vec::new();
    match pages {
        Some(selected) => {
            let mut k: usize = 0;
            assert(selected@.take(0) =~= Seq::empty());
            assert(shown@.map_values(|i: usize| i as nat) =~= Seq::empty());
            while k < selected.len()
                invariant
                    k <= selected@.len(),
                    shown@.map_values(|i: usize| i as nat) == existing(
                        selected@.take(k as int),
                        count as nat,
                    ),
                decreases selected@.len() - k,
            {
                let ghost before = shown@;
                let page: u16 = selected[k];
                proof {
                    assert(selected@.take(k + 1).drop_last() =~= selected@.take(k as int));
                    assert(selected@.take(k + 1).last() == page);
                }
                if (page as usize) < count {
                    shown.push(page as usize);
                    assert(shown@.map_values(|i: usize| i as nat) =~= before.map_values(
                        |i: usize| i as nat,
                    ).push(page as nat));
                }
                k += 1;
            }
            assert(selected@.take(k as int) =~= selected@);
        },
        None => {
            if count > 0 {
                shown.push(0);
                assert(shown@.map_values(|i: usize| i as nat) =~= seq![0nat]);
            } else {
                assert(shown@.map_values(|i: usize| i as nat) =~= Seq::empty());
            }
        },
    }
    shown
}

/// A page with nothing on it yet.
pub fn begin_page() -> (out: Vec<u8>)
    ensures
        out@ == page_open(),
{
    let mut out: Vec<u8> = Vec::new();
    push_str(
        &mut out,
        "<html><body style='background:white; color:black; font-family: sans-serif;'>",
    );
    assert(out@ =~= page_open());
    out
}

/// Closes the page.
pub fn end_page(out: &mut Vec<u8>)
    ensures
        final(out)@ == old(out)@ + page_close(),
{
    push_str(out, "</body></html>");
}

/// Appends one row of a table.
fn push_row(out: &mut Vec<u8>, cells: &Vec<String>)
    ensures
        final(out)@ == old(out)@ + row_markup(cells@),
{
    push_str(out, "<tr>");
    let ghost start = out@;
    let mut k: usize = 0;
    assert(start + cells_markup(cells@, 0) =~= start);
    while k < cells.len()
        invariant
            k <= cells@.len(),
            out@ == start + cells_markup(cells@, k as nat),
        decreases cells@.len() - k,
    {
        let ghost before = out@;
        push_str(out, "<td style='padding: 4px;'>");
        push_str(out, cells[k].as_str());
        push_str(out, "</td>");
        assert(out@ =~= before + cell_markup(cells@[k as int]@));
        assert(out@ =~= start + cells_markup(cells@, (k + 1) as nat));
        k += 1;
    }
    push_str(out, "</tr>");
    assert(out@ =~= old(out)@ + row_markup(cells@));
}

/// Appends a sheet with the given name and rows of cells.
pub fn push_sheet(out: &mut Vec<u8>, name: &str, rows: &Vec<Vec<String>>)
    ensures
        final(out)@ == old(out)@ + sheet_markup(name@, rows@),
{
    push_str(out, "<h1>");
    push_str(out, name);
    push_str(out, "</h1><table border='1' style='border-collapse: collapse;'>");
    let ghost start = out@;
    let mut k: usize = 0;
    assert(start + rows_markup(rows@, 0) =~= start);
    while k < rows.len()
        invariant
            k <= rows@.len(),
            out@ == start + rows_markup(rows@, k as nat),
        decreases rows@.len() - k,
    {
        push_row(out, &rows[k]);
        assert(out@ =~= start + rows_markup(rows@, (k + 1) as nat));
        k += 1;
    }
    push_str(out, "</table><br/>");
    assert(out@ =~= old(out)@ + sheet_markup(name@, rows@));
}

/// Appends the slide `number` with its text.
pub fn push_slide(out: &mut Vec<u8>, number: u16, text: &str)
    ensures
        final(out)@ == old(out)@ + slide_markup(number, text@),
{
    push_str(
        out,
        "<div style='border: 1px solid black; padding: 20px; margin: 20px; min-height: 400px;'><h2>Slide ",
    );
    push_decimal(out, number as u32);
    push_str(out, "</h2><p>");
    push_str(out, text);
    push_str(out, "</p></div>");
    assert(out@ =~= old(out)@ + slide_markup(number, text@));
}

/// Appends a word processor's document.
pub fn push_document(out: &mut Vec<u8>, parts: &Vec<DocPart>)
    ensures
        final(out)@ == old(out)@ + document_markup(parts@),
{
    push_str(out, "<div style='padding: 40px; max-width: 800px;'>");
    let ghost start = out@;
    let mut k: usize = 0;
    assert(start + parts_markup(parts@, 0) =~= start);
    while k < parts.len()
        invariant
            k <= parts@.len(),
            out@ == start + parts_markup(parts@, k as nat),
        decreases parts@.len() - k,
    {
        let ghost before = out@;
        match &parts[k] {
            DocPart::Text(text) => {
                push_str(out, text.as_str());
                push_str(out, " ");
            },
            DocPart::ParagraphEnd => {
                push_str(out, "<br/><br/>");
            },
        }
        assert(out@ =~= before + part_markup(parts@[k as int]));
        assert(out@ =~= start + parts_markup(parts@, (k + 1) as nat));
        k += 1;
    }
    push_str(out, "</div>");
    assert(out@ =~= old(out)@ + document_markup(parts@));
}

/// The slides to show of a slide show, by their numbers: those that the
/// selected pages name, in the order of the selection, or without a
/// selection the slides `found` in the archive, in ascending order.
pub fn slide_targets(pages: Option<&Vec<u16>>, found: &Vec<u16>) -> (targets: Vec<u16>)
    ensures
        match pages {
            Some(selected) => targets@ == slides_of_pages(selected@),
            None => ascending(targets@) && targets@.to_multiset() == found@.to_multiset(),
        },
{
    match pages {
        Some(selected) => {
            let mut targets: Vec<u16> = Vec::new();
            let mut k: usize = 0;
            assert(selected@.take(0) =~= Seq::empty());
            while k < selected.len()
                invariant
                    k <= selected@.len(),
                    targets@ == slides_of_pages(selected@.take(k as int)),
                decreases selected@.len() - k,
            {
                let page: u16 = selected[k];
                proof {
                    assert(selected@.take(k + 1).drop_last() =~= selected@.take(k as int));
                    assert(selected@.take(k + 1).last() == page);
                }
                if page < u16::MAX {
                    targets.push(page + 1);
                }
                k += 1;
            }
            assert(selected@.take(k as int) =~= selected@);
            targets
        },
        None => sort_slides(found),
    }
}

/// The name under which slide `number` is kept in a slide show's archive.
pub fn slide_entry_name(number: u16) -> (name: Vec<u8>)
    ensures
        name@ == slide_entry(number),
{
    let mut name: Vec<u8> = Vec::new();
    push_str(&mut name, "ppt/slides/slide");
    push_decimal(&mut name, number as u32);
    push_str(&mut name, ".xml");
    assert(name@ =~= slide_entry(number));
    name
}

} // verus!
