use tunnel::text::{parse_u16, u16_to_decimal};

#[test]
fn formats_ports_in_decimal() {
    assert_eq!(u16_to_decimal(0), "0");
    assert_eq!(u16_to_decimal(7), "7");
    assert_eq!(u16_to_decimal(3000), "3000");
    assert_eq!(u16_to_decimal(65535), "65535");
}

#[test]
fn parses_like_u16_from_str() {
    assert_eq!(parse_u16("8080"), Some(8080));
    assert_eq!(parse_u16("+42"), Some(42));
    assert_eq!(parse_u16("007"), Some(7));
    assert_eq!(parse_u16("65535"), Some(65535));
    assert_eq!(parse_u16("65536"), None);
    assert_eq!(parse_u16("999999999999"), None);
    assert_eq!(parse_u16(""), None);
    assert_eq!(parse_u16("+"), None);
    assert_eq!(parse_u16("-1"), None);
    assert_eq!(parse_u16(" 80"), None);
    assert_eq!(parse_u16("8a"), None);
}

#[test]
fn parse_agrees_with_std_on_samples() {
    for s in ["0", "1", "+0", "++1", "12x", "65535", "70000", "٣", "", "-0"] {
        assert_eq!(parse_u16(s), s.parse::<u16>().ok(), "{}", s);
    }
}

#[test]
fn decimal_text_reads_back() {
    for n in [0u16, 9, 10, 99, 100, 12345, 65535] {
        assert_eq!(parse_u16(&u16_to_decimal(n)), Some(n));
    }
}
