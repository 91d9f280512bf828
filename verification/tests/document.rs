use rpix::document::{select_pages, stack_pages, target_width, DocumentError};
use rpix::raster::RasterImage;

fn filled(width: u32, height: u32, value: u8) -> RasterImage {
    RasterImage::from_raw(width, height, vec![value; (width * height * 4) as usize]).unwrap()
}

#[test]
fn target_width_prefers_the_width_asked_for() {
    assert_eq!(target_width(Some(640), 800), Some(640));
    assert_eq!(target_width(None, 800), Some(800));
    assert_eq!(target_width(Some(0), 800), Some(0));
}

#[test]
fn target_width_must_fit_a_signed_number() {
    assert_eq!(target_width(Some(i32::MAX as u32), 800), Some(i32::MAX));
    assert_eq!(target_width(Some(i32::MAX as u32 + 1), 800), None);
    assert_eq!(target_width(None, u32::MAX), None);
}

#[test]
fn select_pages_without_selection_takes_all() {
    assert_eq!(select_pages(None, 4), Ok(vec![0, 1, 2, 3]));
    assert_eq!(select_pages(None, 0), Ok(vec![]));
}

#[test]
fn select_pages_keeps_a_selection_that_exists() {
    assert_eq!(select_pages(Some(vec![0, 2]), 3), Ok(vec![0, 2]));
    assert_eq!(select_pages(Some(vec![2, 0, 2]), 3), Ok(vec![2, 0, 2]));
    assert_eq!(select_pages(Some(vec![]), 0), Ok(vec![]));
}

#[test]
fn select_pages_rejects_a_page_that_does_not_exist() {
    assert_eq!(select_pages(Some(vec![0, 3]), 3), Err(DocumentError::PageOutOfRange));
    assert_eq!(select_pages(Some(vec![0]), 0), Err(DocumentError::PageOutOfRange));
}

#[test]
fn stack_of_nothing_fails() {
    assert_eq!(stack_pages(&vec![]).err(), Some(DocumentError::NoPages));
}

#[test]
fn stack_of_one_page_is_the_page() {
    let page: Vec<u8> = (0..24).collect();
    let out = stack_pages(&vec![RasterImage::from_raw(3, 2, page.clone()).unwrap()]).unwrap();
    assert_eq!(out.dimensions(), (3, 2));
    assert_eq!(out.as_raw(), &page);
}

#[test]
fn stack_puts_pages_below_each_other() {
    let out = stack_pages(&vec![filled(2, 1, 1), filled(2, 2, 2), filled(2, 1, 3)]).unwrap();
    assert_eq!(out.dimensions(), (2, 4));
    let mut expected = vec![1; 8];
    expected.extend_from_slice(&[2; 16]);
    expected.extend_from_slice(&[3; 8]);
    assert_eq!(out.as_raw(), &expected);
}

#[test]
fn stack_pads_narrow_pages_with_transparency() {
    let out = stack_pages(&vec![filled(1, 2, 7), filled(3, 1, 9)]).unwrap();
    assert_eq!(out.dimensions(), (3, 3));
    assert_eq!(
        out.as_raw(),
        &vec![
            7, 7, 7, 7, 0, 0, 0, 0, 0, 0, 0, 0, //
            7, 7, 7, 7, 0, 0, 0, 0, 0, 0, 0, 0, //
            9, 9, 9, 9, 9, 9, 9, 9, 9, 9, 9, 9,
        ]
    );
}

#[test]
fn stack_keeps_each_pixel_in_its_column() {
    let first = RasterImage::from_raw(2, 1, vec![1, 1, 1, 1, 2, 2, 2, 2]).unwrap();
    let second = RasterImage::from_raw(1, 1, vec![3, 3, 3, 3]).unwrap();
    let out = stack_pages(&vec![first, second]).unwrap();
    assert_eq!(out.get_pixel(1, 0).unwrap().r, 2);
    assert_eq!(out.get_pixel(0, 1).unwrap().r, 3);
    assert_eq!(out.get_pixel(1, 1).unwrap().a, 0);
}

#[test]
fn stack_with_empty_pages() {
    let out = stack_pages(&vec![filled(0, 3, 0), filled(2, 0, 0), filled(1, 1, 5)]).unwrap();
    assert_eq!(out.dimensions(), (2, 4));
    let mut expected = vec![0; 24];
    expected.extend_from_slice(&[5, 5, 5, 5, 0, 0, 0, 0]);
    assert_eq!(out.as_raw(), &expected);
}

#[test]
fn stack_refuses_a_height_beyond_32_bits() {
    let pages = vec![filled(0, u32::MAX, 0), filled(0, 1, 0)];
    assert_eq!(stack_pages(&pages).err(), Some(DocumentError::TooLarge));
}

#[test]
fn document_error_messages() {
    assert_eq!(DocumentError::PageOutOfRange.message(), "Page index out of range");
    assert_eq!(DocumentError::NoPages.message(), "No pages found");
    assert_eq!(DocumentError::TooLarge.message(), "Pages too large");
}
