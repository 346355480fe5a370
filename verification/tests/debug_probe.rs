use labwired::debug_probe::{parse_address, BreakpointSpec};

#[test]
fn parse_address_hex_and_decimal() {
    assert_eq!(parse_address("0x40000000"), Some(0x4000_0000));
    assert_eq!(parse_address("0XABCD"), Some(0xABCD));
    assert_eq!(parse_address("1234"), Some(1234));
    assert_eq!(parse_address("  0x10  "), Some(0x10));
    assert_eq!(parse_address("nope"), None);
    assert_eq!(parse_address(""), None);
    assert_eq!(parse_address("0x4000_0000"), None);
}

#[test]
fn parse_address_follows_from_str_radix() {
    assert_eq!(parse_address("4294967295"), Some(u32::MAX));
    assert_eq!(parse_address("4294967296"), None, "overflow");
    assert_eq!(parse_address("0xffffffff"), Some(u32::MAX));
    assert_eq!(parse_address("0x100000000"), None, "overflow");
    assert_eq!(parse_address("+42"), Some(42), "a leading plus is accepted");
    assert_eq!(parse_address("0x+1f"), Some(0x1f));
    assert_eq!(parse_address("+"), None);
    assert_eq!(parse_address("-1"), None);
    assert_eq!(parse_address("0x"), None);
    assert_eq!(parse_address("0xg"), None);
    assert_eq!(parse_address("12a"), None);
    assert_eq!(parse_address("00012"), Some(12));
}

#[test]
fn parse_address_trims_unicode_white_space() {
    assert_eq!(parse_address("\t\n 0x20\r\n"), Some(0x20));
    assert_eq!(parse_address("\u{a0}77\u{3000}"), Some(77));
    assert_eq!(parse_address("1 2"), None, "inner space");
    assert_eq!(parse_address("   "), None);
}

#[test]
fn breakpoint_specs_compare_by_content() {
    let a = BreakpointSpec::Line {
        line: 42,
        file: Some("main.c".to_string()),
    };
    assert_eq!(a.clone(), a);
    assert_ne!(
        BreakpointSpec::Address {
            address: "0x08000100".to_string()
        },
        BreakpointSpec::Symbol {
            symbol: "0x08000100".to_string()
        }
    );
}
