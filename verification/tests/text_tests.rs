use zlib_tester::text::{decimal, escape_byte, hex_byte, pad_left, pad_right, parse_decimal, same_text};

#[test]
fn decimal_renders_numbers() {
    assert_eq!(decimal(0), "0");
    assert_eq!(decimal(7), "7");
    assert_eq!(decimal(10), "10");
    assert_eq!(decimal(1234), "1234");
    assert_eq!(decimal(u64::MAX), "18446744073709551615");
}

#[test]
fn hex_byte_has_two_lowercase_digits() {
    assert_eq!(hex_byte(0x00), "00");
    assert_eq!(hex_byte(0x0f), "0f");
    assert_eq!(hex_byte(0xab), "ab");
    assert_eq!(hex_byte(0xff), "ff");
}

#[test]
fn padding_aligns_in_fields() {
    assert_eq!(pad_left("42", 6), "    42");
    assert_eq!(pad_left("1234567", 6), "1234567");
    assert_eq!(pad_right("ab", 5), "ab   ");
    assert_eq!(pad_right("abcdef", 5), "abcdef");
    assert_eq!(pad_right("", 3), "   ");
}

#[test]
fn escape_byte_follows_default_escapes() {
    assert_eq!(escape_byte(b'\t'), "\\t");
    assert_eq!(escape_byte(b'\r'), "\\r");
    assert_eq!(escape_byte(b'\n'), "\\n");
    assert_eq!(escape_byte(b'\\'), "\\\\");
    assert_eq!(escape_byte(b'\''), "\\'");
    assert_eq!(escape_byte(b'"'), "\\\"");
    assert_eq!(escape_byte(b'a'), "a");
    assert_eq!(escape_byte(b' '), " ");
    assert_eq!(escape_byte(b'~'), "~");
    assert_eq!(escape_byte(0x00), "\\x00");
    assert_eq!(escape_byte(0x1b), "\\x1b");
    assert_eq!(escape_byte(0x7f), "\\x7f");
}

#[test]
fn parse_decimal_reads_unsigned_numbers() {
    assert_eq!(parse_decimal("0"), Some(0));
    assert_eq!(parse_decimal("123"), Some(123));
    assert_eq!(parse_decimal("+7"), Some(7));
    assert_eq!(parse_decimal("007"), Some(7));
    assert_eq!(parse_decimal(""), None);
    assert_eq!(parse_decimal("+"), None);
    assert_eq!(parse_decimal("12a"), None);
    assert_eq!(parse_decimal("-1"), None);
    assert_eq!(parse_decimal(" 1"), None);
    assert_eq!(parse_decimal(&usize::MAX.to_string()), Some(usize::MAX));
    assert_eq!(parse_decimal("99999999999999999999999"), None);
}

#[test]
fn decimal_then_parse_gives_the_number_back() {
    for n in [0u64, 1, 9, 10, 99, 100, 65535, 4294967295] {
        assert_eq!(parse_decimal(&decimal(n)), Some(n as usize));
    }
}

#[test]
fn same_text_compares_characters() {
    assert!(same_text("abc", "abc"));
    assert!(!same_text("abc", "abd"));
    assert!(!same_text("abc", "ab"));
    assert!(same_text("", ""));
}
