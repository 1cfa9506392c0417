use udp_socket_service::decimal::{to_decimal, NumberError};
use udp_socket_service::parsers::{as_number, split2};
use udp_socket_service::text::{is_whitespace, same_text, text_of, trim};

#[test]
fn white_space_is_what_std_calls_white_space() {
    for n in 0..=0x10ffff_u32 {
        if let Some(c) = char::from_u32(n) {
            assert_eq!(is_whitespace(c), c.is_whitespace(), "U+{:04X}", n);
        }
    }
}

#[test]
fn trim_is_what_std_trims() {
    for s in ["", " ", "a", " a", "a ", "\t a b \r\n", "\u{3000}x\u{a0}", " \u{e9}t\u{e9} ", "   "] {
        assert_eq!(trim(s), s.trim(), "{:?}", s);
    }
}

#[test]
fn same_text_compares_texts() {
    assert!(same_text("", ""));
    assert!(same_text("shutdown", "shutdown"));
    assert!(!same_text("shutdown", "shutdowN"));
    assert!(!same_text("shut", "shutdown"));
    assert!(same_text("\u{e9}", "\u{e9}"));
}

#[test]
fn text_of_reads_utf8_and_replaces_the_rest() {
    assert_eq!(text_of("gr\u{fc}n".as_bytes()), "gr\u{fc}n");
    assert_eq!(text_of(&[0x66, 0x80, 0x6f]), "f\u{fffd}o");
    assert_eq!(text_of(&[]), "");
}

#[test]
fn split2_of_nothing_is_nothing() {
    assert_eq!(split2(""), (String::new(), String::new()));
    assert_eq!(split2("  \t "), (String::new(), String::new()));
    assert_eq!(split2(" one "), ("one".to_string(), String::new()));
}

#[test]
fn split2_is_what_split_whitespace_gives() {
    for s in ["a b c", "  a\tb\n\nc  ", "\u{2003}x\u{2003}y z", "get k", "set k  v  w"] {
        let mut words = s.split_whitespace();
        let head = words.next().unwrap_or("").to_string();
        let tail = words.collect::<Vec<&str>>().join(" ");
        assert_eq!(split2(s), (head, tail), "{:?}", s);
    }
}

#[test]
fn to_decimal_writes_numbers() {
    assert_eq!(to_decimal(0), "0");
    assert_eq!(to_decimal(9), "9");
    assert_eq!(to_decimal(10), "10");
    assert_eq!(to_decimal(404), "404");
    assert_eq!(to_decimal(u64::MAX as u128), u64::MAX.to_string());
    assert_eq!(to_decimal(u128::MAX), u128::MAX.to_string());
}

#[test]
fn as_number_gives_each_error() {
    assert_eq!(as_number("", 100), Err(NumberError::Empty));
    assert_eq!(as_number("+", 100), Err(NumberError::InvalidDigit));
    assert_eq!(as_number("-1", 100), Err(NumberError::InvalidDigit));
    assert_eq!(as_number("1 ", 100), Err(NumberError::InvalidDigit));
    assert_eq!(as_number("1_0", 100), Err(NumberError::InvalidDigit));
    assert_eq!(as_number("101", 100), Err(NumberError::TooLarge));
    assert_eq!(as_number("100", 100), Ok(100));
    assert_eq!(as_number("+0007", 100), Ok(7));
    assert_eq!(as_number("1000x", 100), Err(NumberError::TooLarge));
    assert_eq!(as_number("10x0000", 100), Err(NumberError::InvalidDigit));
}

#[test]
fn as_number_agrees_with_std() {
    let texts = [
        "0", "42", "+42", "-42", "", "+", "-", "++1", "18446744073709551615",
        "18446744073709551616", "99999999999999999999999", "99999999999999999999999x", "x9",
        "000000000000000000000000001", " 1", "1 ", "\u{661}",
    ];
    for text in texts {
        let ours = as_number(text, u64::MAX).ok();
        let theirs = text.parse::<u64>().ok();
        assert_eq!(ours, theirs, "{:?}", text);
    }
}
