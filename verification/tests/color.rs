use rpix::color::{parse_color, Rgba};
use rpix::error::ColorError;

#[test]
fn parse_color_plain_white() {
    assert_eq!(parse_color("FFFFFF"), Ok(Rgba::new(255, 255, 255, 255)));
}

#[test]
fn parse_color_with_hash() {
    assert_eq!(parse_color("#FFFFFF"), Ok(Rgba::new(255, 255, 255, 255)));
}

#[test]
fn parse_color_mixed_case_digits() {
    assert_eq!(parse_color("#1a2B3c"), Ok(Rgba::new(0x1a, 0x2b, 0x3c, 255)));
    assert_eq!(parse_color("000000"), Ok(Rgba::new(0, 0, 0, 255)));
    assert_eq!(parse_color("0F10fe"), Ok(Rgba::new(15, 16, 254, 255)));
}

#[test]
fn parse_color_is_always_opaque() {
    for text in ["123456", "#abcdef", "ABCDEF", "#000000"] {
        assert_eq!(parse_color(text).unwrap().a, 255);
    }
}

#[test]
fn parse_color_rejects_short_form() {
    assert_eq!(parse_color("FFF"), Err(ColorError::InvalidLength));
}

#[test]
fn parse_color_rejects_other_lengths() {
    assert_eq!(parse_color(""), Err(ColorError::InvalidLength));
    assert_eq!(parse_color("#"), Err(ColorError::InvalidLength));
    assert_eq!(parse_color("#FFFFF"), Err(ColorError::InvalidLength));
    assert_eq!(parse_color("FFFFFFF"), Err(ColorError::InvalidLength));
    assert_eq!(parse_color("FFFFFFFF"), Err(ColorError::InvalidLength));
}

#[test]
fn parse_color_rejects_non_hex() {
    assert_eq!(parse_color("ZZZZZZ"), Err(ColorError::InvalidDigit));
    assert_eq!(parse_color("#12345G"), Err(ColorError::InvalidDigit));
    assert_eq!(parse_color("12 456"), Err(ColorError::InvalidDigit));
}

#[test]
fn parse_color_takes_one_hash_only() {
    assert_eq!(parse_color("##FFFFFF"), Err(ColorError::InvalidLength));
    assert_eq!(parse_color("##FFFFF"), Err(ColorError::InvalidDigit));
}

#[test]
fn parse_color_rejects_signs() {
    assert_eq!(parse_color("+F+F+F"), Err(ColorError::InvalidDigit));
}

#[test]
fn parse_color_counts_characters() {
    assert_eq!(parse_color("ééé"), Err(ColorError::InvalidLength));
    assert_eq!(parse_color("éééééé"), Err(ColorError::InvalidDigit));
}

#[test]
fn color_error_messages() {
    assert_eq!(ColorError::InvalidLength.message(), "Invalid color format");
    assert_eq!(ColorError::InvalidDigit.message(), "Invalid digit in color");
}
