use jrok::text::{decimal_text, ipv4_string, parse_u16, parse_u64, push_decimal, push_hex4};

#[test]
fn decimal_rendering() {
    assert_eq!(decimal_text(0), "0");
    assert_eq!(decimal_text(7), "7");
    assert_eq!(decimal_text(10), "10");
    assert_eq!(decimal_text(65535), "65535");
    assert_eq!(decimal_text(u64::MAX), "18446744073709551615");
    let mut s = "port ".to_string();
    push_decimal(&mut s, 3478);
    assert_eq!(s, "port 3478");
}

#[test]
fn hex_rendering() {
    let mut s = String::new();
    push_hex4(&mut s, 0x2001);
    push_hex4(&mut s, 0x0db8);
    push_hex4(&mut s, 0xffff);
    assert_eq!(s, "20010db8ffff");
}

#[test]
fn ipv4_rendering() {
    assert_eq!(ipv4_string(192, 168, 1, 100), "192.168.1.100");
    assert_eq!(ipv4_string(255, 0, 10, 1), "255.0.10.1");
}

#[test]
fn port_parsing_follows_std() {
    for s in ["0", "80", "+80", "0080", "65535", "65536", "", "+", "-1", "1a", " 1", "++1", "99999999999"] {
        assert_eq!(parse_u16(s), s.parse::<u16>().ok(), "{:?}", s);
    }
    for n in [0u16, 1, 9, 10, 99, 100, 3478, 65535] {
        assert_eq!(parse_u16(&n.to_string()), Some(n));
    }
}

#[test]
fn u64_parsing_follows_std() {
    for s in ["0", "+5000", "18446744073709551615", "18446744073709551616", "", "+", "-0", "12x", "000000000000000000000001"] {
        assert_eq!(parse_u64(s), s.parse::<u64>().ok(), "{:?}", s);
    }
}
