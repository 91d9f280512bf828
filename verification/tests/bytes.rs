use rpix::bytes::{bytes_eq, push_decimal, push_str, starts_with, str_eq};

#[test]
fn starts_with_prefixes() {
    assert!(starts_with(b"hello", b""));
    assert!(starts_with(b"hello", b"he"));
    assert!(starts_with(b"hello", b"hello"));
    assert!(!starts_with(b"hello", b"hello!"));
    assert!(!starts_with(b"hello", b"el"));
    assert!(!starts_with(b"", b"x"));
    assert!(starts_with(b"", b""));
}

#[test]
fn bytes_eq_compares_everything() {
    assert!(bytes_eq(b"", b""));
    assert!(bytes_eq(b"abc", b"abc"));
    assert!(!bytes_eq(b"abc", b"abd"));
    assert!(!bytes_eq(b"abc", b"ab"));
    assert!(!bytes_eq(b"ab", b"abc"));
}

#[test]
fn str_eq_compares_characters() {
    assert!(str_eq("", ""));
    assert!(str_eq("häuser", "häuser"));
    assert!(!str_eq("hauser", "häuser"));
    assert!(!str_eq("a", "A"));
}

#[test]
fn push_str_appends_utf8() {
    let mut out = b"x".to_vec();
    push_str(&mut out, "aä");
    assert_eq!(out, vec![b'x', b'a', 0xc3, 0xa4]);
}

#[test]
fn push_decimal_writes_digits() {
    for n in [0u32, 1, 9, 10, 11, 99, 100, 101, 4096, 65535, 1_000_000, u32::MAX] {
        let mut out = b"n=".to_vec();
        push_decimal(&mut out, n);
        assert_eq!(String::from_utf8(out).unwrap(), format!("n={}", n));
    }
}
