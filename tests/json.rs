use htm_bridge::json::{contains_zero_byte, push_decimal, push_json_string, push_json_text};

#[test]
fn json_string_escapes() {
    let mut out = Vec::new();
    push_json_string(&mut out, b"q\"\\\x08\x0c\n\r\t\x1f~");
    assert_eq!(out, b"\"q\\\"\\\\\\b\\f\\n\\r\\t\\u001f~\"".to_vec());
}

#[test]
fn json_text_keeps_multibyte_characters() {
    let mut out = b"x".to_vec();
    push_json_text(&mut out, "\u{263a}");
    assert_eq!(String::from_utf8(out).unwrap(), "x\"\u{263a}\"");
}

#[test]
fn decimals() {
    let mut out = Vec::new();
    push_decimal(&mut out, 0);
    out.push(b' ');
    push_decimal(&mut out, 5242880);
    out.push(b' ');
    push_decimal(&mut out, u64::MAX);
    assert_eq!(String::from_utf8(out).unwrap(), "0 5242880 18446744073709551615");
}

#[test]
fn zero_bytes_found() {
    assert!(!contains_zero_byte(b"abc"));
    assert!(contains_zero_byte(b"a\0c"));
    assert!(!contains_zero_byte(b""));
}
