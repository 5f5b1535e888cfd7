use parallax::text::{
    chars_of, dec_string, decode_utf8, lines, parse_i32, parse_u16, parse_u32, rsplit_once,
    split, split_once, split_whitespace, str_utf8, string_of, trim,
};

fn s(cs: &[char]) -> String {
    string_of(cs)
}

#[test]
fn trimming_and_splitting() {
    assert_eq!(s(&trim(&chars_of("\t a b \n"))), "a b");
    assert_eq!(s(&trim(&chars_of("\u{3000}x\u{a0}"))), "x");
    let parts: Vec<String> = split(&chars_of("a,,b,"), ',').iter().map(|p| s(p)).collect();
    assert_eq!(parts, vec!["a", "", "b", ""]);
    let words: Vec<String> = split_whitespace(&chars_of("  one\ttwo  three ")).iter().map(|p| s(p)).collect();
    assert_eq!(words, vec!["one", "two", "three"]);
}

#[test]
fn lines_drop_carriage_returns_and_the_last_empty_line() {
    let ls: Vec<String> = lines(&chars_of("a\r\nb\n\nc")).iter().map(|p| s(p)).collect();
    assert_eq!(ls, vec!["a", "b", "", "c"]);
    let ls: Vec<String> = lines(&chars_of("a\n")).iter().map(|p| s(p)).collect();
    assert_eq!(ls, vec!["a"]);
    assert!(lines(&chars_of("")).is_empty());
}

#[test]
fn split_once_from_each_end() {
    let (a, b) = split_once(&chars_of("k=v=w"), '=').unwrap();
    assert_eq!((s(&a), s(&b)), ("k".to_string(), "v=w".to_string()));
    let (a, b) = rsplit_once(&chars_of("k=v=w"), '=').unwrap();
    assert_eq!((s(&a), s(&b)), ("k=v".to_string(), "w".to_string()));
    assert!(split_once(&chars_of("none"), '=').is_none());
}

#[test]
fn numbers_parse_as_str_parse_does() {
    assert_eq!(parse_u16(&chars_of("65535")), Some(65535));
    assert_eq!(parse_u16(&chars_of("65536")), None);
    assert_eq!(parse_u16(&chars_of("+7")), Some(7));
    assert_eq!(parse_u16(&chars_of("")), None);
    assert_eq!(parse_u16(&chars_of("+")), None);
    assert_eq!(parse_u32(&chars_of("4294967295")), Some(u32::MAX));
    assert_eq!(parse_u32(&chars_of("-1")), None);
    assert_eq!(parse_i32(&chars_of("-2147483648")), Some(i32::MIN));
    assert_eq!(parse_i32(&chars_of("2147483648")), None);
    assert_eq!(parse_i32(&chars_of("+12")), Some(12));
    assert_eq!(parse_i32(&chars_of("-")), None);
    assert_eq!(parse_i32(&chars_of("1 ")), None);
}

#[test]
fn decimal_text_and_bytes() {
    assert_eq!(dec_string(0), "0");
    assert_eq!(dec_string(18446744073709551615), "18446744073709551615");
    assert_eq!(str_utf8("é!"), vec![0xc3, 0xa9, b'!']);
    assert_eq!(s(&decode_utf8(&[0xc3, 0xa9]).unwrap()), "é");
    assert!(decode_utf8(&[0xc3]).is_none());
}
