use delila_rs::text::{u64_to_decimal, u64_to_hex_padded, u64_to_hex_upper};
use delila_rs::chars::{chars_of, contains, parse_u32_in, str_is, ParseFail};

#[test]
fn decimal_and_hex_rendering() {
    assert_eq!(u64_to_decimal(0), "0");
    assert_eq!(u64_to_decimal(1234567890), "1234567890");
    assert_eq!(u64_to_decimal(u64::MAX), u64::MAX.to_string());
    assert_eq!(u64_to_hex_upper(0), "0");
    assert_eq!(u64_to_hex_upper(0xBEEF), "BEEF");
    assert_eq!(u64_to_hex_padded(3, 2), "03");
    assert_eq!(u64_to_hex_padded(0x800003, 6), "800003");
    assert_eq!(u64_to_hex_padded(0x1234, 2), "1234");
}

#[test]
fn char_helpers() {
    let s = chars_of("héllo_wörld");
    assert_eq!(s.len(), 11);
    assert!(contains(&s, &chars_of("o_w")));
    assert!(contains(&s, &chars_of("")));
    assert!(!contains(&s, &chars_of("xyz")));
    assert!(str_is("abc", "abc"));
    assert!(!str_is("abc", "abd"));
    let d = chars_of("x12345y");
    assert_eq!(parse_u32_in(&d, 1, 6, 10), Ok(12345));
    assert_eq!(parse_u32_in(&d, 0, 3, 10), Err(ParseFail::InvalidDigit));
    assert_eq!(parse_u32_in(&d, 1, 1, 10), Err(ParseFail::Empty));
}
