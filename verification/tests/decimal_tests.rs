use pinenote_dbus_service::decimal::{decimal_string, parse_u32, parse_u8};

#[test]
fn parse_u32_accepts_plain_and_plus_signed_digits() {
    assert_eq!(parse_u32("42"), Some(42));
    assert_eq!(parse_u32("+7"), Some(7));
    assert_eq!(parse_u32("007"), Some(7));
    assert_eq!(parse_u32("0"), Some(0));
    assert_eq!(parse_u32("4294967295"), Some(u32::MAX));
}

#[test]
fn parse_u32_refuses_what_str_parse_refuses() {
    for s in ["", "+", "-", "-1", "-0", " 1", "1 ", "4294967296", "99999999999", "1a", "++1", "１"] {
        assert_eq!(parse_u32(s), None, "input {:?}", s);
        assert!(s.parse::<u32>().is_err());
    }
}

#[test]
fn parse_u8_bounds() {
    assert_eq!(parse_u8("255"), Some(255));
    assert_eq!(parse_u8("256"), None);
    assert_eq!(parse_u8("+0"), Some(0));
    assert_eq!(parse_u8("-1"), None);
}

#[test]
fn parse_agrees_with_std() {
    for s in ["0", "12", "+12", "0012", "300", "65535", "abc", "", "1000000000000"] {
        assert_eq!(parse_u32(s), s.parse::<u32>().ok());
        assert_eq!(parse_u8(s), s.parse::<u8>().ok());
    }
}

#[test]
fn decimal_string_formats_like_display() {
    assert_eq!(decimal_string(0), "0");
    assert_eq!(decimal_string(8), "8");
    assert_eq!(decimal_string(10), "10");
    assert_eq!(decimal_string(1314144), "1314144");
    assert_eq!(decimal_string(u32::MAX), "4294967295");
}

#[test]
fn decimal_reads_back() {
    for n in [0u32, 1, 9, 10, 99, 100, 65536, u32::MAX] {
        assert_eq!(parse_u32(&decimal_string(n)), Some(n));
    }
}
