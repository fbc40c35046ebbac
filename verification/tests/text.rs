use wasminspect::text::{parse_i64, push_radix, string_push};

#[test]
fn parse_decimal_and_hex() {
    assert_eq!(parse_i64("42", 10), Some(42));
    assert_eq!(parse_i64("-17", 10), Some(-17));
    assert_eq!(parse_i64("+5", 10), Some(5));
    assert_eq!(parse_i64("ff", 16), Some(255));
    assert_eq!(parse_i64("FF", 16), Some(255));
    assert_eq!(parse_i64("", 10), None);
    assert_eq!(parse_i64("-", 10), None);
    assert_eq!(parse_i64("12a", 10), None);
    assert_eq!(parse_i64("9223372036854775807", 10), Some(i64::MAX));
    assert_eq!(parse_i64("9223372036854775808", 10), None);
    assert_eq!(parse_i64("-9223372036854775808", 10), Some(i64::MIN));
    assert_eq!(parse_i64("-9223372036854775809", 10), None);
}

#[test]
fn radix_text_reads_back() {
    let mut s = String::from("x=");
    push_radix(&mut s, 255, 16);
    assert_eq!(s, "x=ff");
    let mut s = String::new();
    push_radix(&mut s, 0, 10);
    assert_eq!(s, "0");
    let mut s = String::new();
    push_radix(&mut s, 1234567890123, 10);
    assert_eq!(parse_i64(&s, 10), Some(1234567890123));
    string_push(&mut s, '!');
    assert!(s.ends_with('!'));
}
