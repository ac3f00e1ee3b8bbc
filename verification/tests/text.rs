use gpui_tea::text::{decimal_string, decimal_string_u64, push_decimal, utf8_len};

#[test]
fn decimal_rendering() {
    assert_eq!(decimal_string(0), "0");
    assert_eq!(decimal_string(7), "7");
    assert_eq!(decimal_string(1090), "1090");
    assert_eq!(decimal_string_u64(u64::MAX), "18446744073709551615");
    let mut out = String::from("n=");
    push_decimal(&mut out, 42);
    assert_eq!(out, "n=42");
}

#[test]
fn byte_lengths_count_utf8_bytes() {
    assert_eq!(utf8_len(""), 0);
    assert_eq!(utf8_len("abc"), 3);
    assert_eq!(utf8_len("é"), 2);
    assert_eq!(utf8_len("日本"), 6);
}
