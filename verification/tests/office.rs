use rpix::office::{
    begin_page, end_page, push_document, push_sheet, push_slide, select_sheets, slide_entry_name,
    slide_number, slide_targets, sort_slides, DocPart,
};

fn text(s: &str) -> String {
    String::from(s)
}

#[test]
fn sheets_without_selection() {
    assert_eq!(select_sheets(3, None), vec![0]);
    assert_eq!(select_sheets(0, None), Vec::<usize>::new());
}

#[test]
fn sheets_selected_that_exist() {
    assert_eq!(select_sheets(3, Some(&vec![0, 2])), vec![0, 2]);
    assert_eq!(select_sheets(3, Some(&vec![2, 5, 0, 3, 2])), vec![2, 0, 2]);
    assert_eq!(select_sheets(3, Some(&vec![7])), Vec::<usize>::new());
    assert_eq!(select_sheets(0, Some(&vec![0])), Vec::<usize>::new());
}

#[test]
fn empty_page() {
    let mut page = begin_page();
    end_page(&mut page);
    assert_eq!(
        String::from_utf8(page).unwrap(),
        "<html><body style='background:white; color:black; font-family: sans-serif;'></body></html>"
    );
}

#[test]
fn sheet_markup() {
    let mut out = Vec::new();
    let rows = vec![vec![text("a"), text("1")], vec![], vec![text("ä<b>")]];
    push_sheet(&mut out, "Sheet 1", &rows);
    assert_eq!(
        String::from_utf8(out).unwrap(),
        "<h1>Sheet 1</h1><table border='1' style='border-collapse: collapse;'>\
         <tr><td style='padding: 4px;'>a</td><td style='padding: 4px;'>1</td></tr>\
         <tr></tr>\
         <tr><td style='padding: 4px;'>ä<b></td></tr>\
         </table><br/>"
    );
}

#[test]
fn sheet_without_rows() {
    let mut out = b"x".to_vec();
    push_sheet(&mut out, "", &vec![]);
    assert_eq!(
        String::from_utf8(out).unwrap(),
        "x<h1></h1><table border='1' style='border-collapse: collapse;'></table><br/>"
    );
}

#[test]
fn slide_markup() {
    let mut out = Vec::new();
    push_slide(&mut out, 12, "Hello");
    assert_eq!(
        String::from_utf8(out).unwrap(),
        "<div style='border: 1px solid black; padding: 20px; margin: 20px; min-height: 400px;'>\
         <h2>Slide 12</h2><p>Hello</p></div>"
    );
}

#[test]
fn document_markup() {
    let mut out = Vec::new();
    let parts = vec![
        DocPart::Text(text("One")),
        DocPart::Text(text("two")),
        DocPart::ParagraphEnd,
        DocPart::Text(text("three")),
        DocPart::ParagraphEnd,
    ];
    push_document(&mut out, &parts);
    assert_eq!(
        String::from_utf8(out).unwrap(),
        "<div style='padding: 40px; max-width: 800px;'>One two <br/><br/>three <br/><br/></div>"
    );
}

#[test]
fn document_without_parts() {
    let mut out = Vec::new();
    push_document(&mut out, &vec![]);
    assert_eq!(
        String::from_utf8(out).unwrap(),
        "<div style='padding: 40px; max-width: 800px;'></div>"
    );
}

#[test]
fn slide_entry_names() {
    assert_eq!(slide_entry_name(1), b"ppt/slides/slide1.xml".to_vec());
    assert_eq!(slide_entry_name(0), b"ppt/slides/slide0.xml".to_vec());
    assert_eq!(slide_entry_name(65535), b"ppt/slides/slide65535.xml".to_vec());
}

#[test]
fn slide_numbers() {
    assert_eq!(slide_number("ppt/slides/slide1.xml"), Some(1));
    assert_eq!(slide_number("ppt/slides/slide12.xml"), Some(12));
    assert_eq!(slide_number("ppt/slides/slide007.xml"), Some(7));
    assert_eq!(slide_number("ppt/slides/slide65535.xml"), Some(65535));
    assert_eq!(slide_number("ppt/slides/slide1a2.xml"), Some(12));
}

#[test]
fn slide_numbers_of_other_entries() {
    assert_eq!(slide_number("ppt/slides/slide.xml"), None);
    assert_eq!(slide_number("ppt/slides/slide65536.xml"), None);
    assert_eq!(slide_number("ppt/slides/slide1.xml.rels"), None);
    assert_eq!(slide_number("ppt/slides/_rels/slide1.xml.rels"), None);
    assert_eq!(slide_number("ppt/slideLayouts/slideLayout1.xml"), None);
    assert_eq!(slide_number("ppt/slides/slide1"), None);
    assert_eq!(slide_number("slide1.xml"), None);
    assert_eq!(slide_number(""), None);
}

#[test]
fn slides_are_sorted() {
    assert_eq!(sort_slides(&vec![]), Vec::<u16>::new());
    assert_eq!(sort_slides(&vec![3, 1, 2]), vec![1, 2, 3]);
    assert_eq!(sort_slides(&vec![10, 9, 8, 7, 9, 10, 0]), vec![0, 7, 8, 9, 9, 10, 10]);
    assert_eq!(sort_slides(&vec![1, 2, 3]), vec![1, 2, 3]);
}

#[test]
fn selected_pages_name_the_slides_after_them() {
    let found = vec![3, 1, 2];
    assert_eq!(slide_targets(Some(&vec![1]), &found), vec![2]);
    assert_eq!(slide_targets(Some(&vec![0]), &found), vec![1]);
    assert_eq!(slide_targets(Some(&vec![0, 1, 2]), &found), vec![1, 2, 3]);
    assert_eq!(slide_targets(Some(&vec![2, 0, 2]), &found), vec![3, 1, 3]);
    // what the archive holds plays no part
    assert_eq!(slide_targets(Some(&vec![7]), &vec![]), vec![8]);
    assert_eq!(slide_targets(Some(&vec![]), &found), Vec::<u16>::new());
}

#[test]
fn selected_page_names_one_entry() {
    let targets = slide_targets(Some(&vec![1]), &vec![1, 2, 3]);
    let names: Vec<Vec<u8>> = targets.iter().map(|n| slide_entry_name(*n)).collect();
    assert_eq!(names, vec![b"ppt/slides/slide2.xml".to_vec()]);
}

#[test]
fn the_last_page_index_names_no_slide() {
    assert_eq!(slide_targets(Some(&vec![65535]), &vec![1]), Vec::<u16>::new());
    assert_eq!(slide_targets(Some(&vec![65534, 65535, 0]), &vec![1]), vec![65535, 1]);
}

#[test]
fn without_a_selection_the_slides_found_are_shown_in_order() {
    assert_eq!(slide_targets(None, &vec![3, 1, 2]), vec![1, 2, 3]);
    assert_eq!(slide_targets(None, &vec![2, 2, 1]), vec![1, 2, 2]);
    assert_eq!(slide_targets(None, &vec![]), Vec::<u16>::new());
}
