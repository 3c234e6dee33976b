//! Console-address discovery on concrete firmware strings.

use earlyboot::console::{
    console_address_from_alias, console_address_query, ConsoleQuery, SERIAL_PORT_ADDRESS,
};
use earlyboot::hex::{hex_name_u64, parse_hex32};

#[test]
fn absent_property_yields_default() {
    match console_address_query(None) {
        ConsoleQuery::Resolved(a) => assert_eq!(a, 0x09000000),
        ConsoleQuery::NeedsAlias(_) => panic!("absent property must resolve to the default"),
    }
}

#[test]
fn at_suffix_yields_hex_value() {
    match console_address_query(Some(b"/pl011@9000000")) {
        ConsoleQuery::Resolved(a) => assert_eq!(a, 0x09000000),
        ConsoleQuery::NeedsAlias(_) => panic!("@ string must resolve directly"),
    }
}

#[test]
fn at_suffix_with_trailing_nuls() {
    match console_address_query(Some(b"/soc/uart@fe001000\0\0")) {
        ConsoleQuery::Resolved(a) => assert_eq!(a, 0xfe001000),
        ConsoleQuery::NeedsAlias(_) => panic!("@ string must resolve directly"),
    }
}

#[test]
fn at_suffix_upper_case_hex() {
    match console_address_query(Some(b"uart@FF00")) {
        ConsoleQuery::Resolved(a) => assert_eq!(a, 0xFF00),
        ConsoleQuery::NeedsAlias(_) => panic!("@ string must resolve directly"),
    }
}

#[test]
fn last_at_governs() {
    match console_address_query(Some(b"bus@1/uart@2000")) {
        ConsoleQuery::Resolved(a) => assert_eq!(a, 0x2000),
        ConsoleQuery::NeedsAlias(_) => panic!("@ string must resolve directly"),
    }
}

#[test]
fn non_hex_suffix_falls_back_to_default() {
    match console_address_query(Some(b"uart@zz00")) {
        ConsoleQuery::Resolved(a) => assert_eq!(a, SERIAL_PORT_ADDRESS),
        ConsoleQuery::NeedsAlias(_) => panic!("@ string must resolve directly"),
    }
}

#[test]
fn empty_suffix_falls_back_to_default() {
    match console_address_query(Some(b"uart@")) {
        ConsoleQuery::Resolved(a) => assert_eq!(a, SERIAL_PORT_ADDRESS),
        ConsoleQuery::NeedsAlias(_) => panic!("@ string must resolve directly"),
    }
}

#[test]
fn overlong_suffix_falls_back_to_default() {
    match console_address_query(Some(b"uart@1ffffffff")) {
        ConsoleQuery::Resolved(a) => assert_eq!(a, SERIAL_PORT_ADDRESS),
        ConsoleQuery::NeedsAlias(_) => panic!("@ string must resolve directly"),
    }
}

#[test]
fn plain_string_falls_back_to_default() {
    match console_address_query(Some(b"ttyS0")) {
        ConsoleQuery::Resolved(a) => assert_eq!(a, SERIAL_PORT_ADDRESS),
        ConsoleQuery::NeedsAlias(_) => panic!("plain string must resolve to the default"),
    }
}

#[test]
fn colon_form_asks_for_alias() {
    match console_address_query(Some(b"serial0:115200n8\0")) {
        ConsoleQuery::Resolved(_) => panic!("alias form must ask for a lookup"),
        ConsoleQuery::NeedsAlias(name) => assert_eq!(name, b"serial0".to_vec()),
    }
}

#[test]
fn alias_value_with_at_resolves() {
    assert_eq!(console_address_from_alias(Some(b"/soc/uart@fe001000\0")), 0xfe001000);
}

#[test]
fn missing_alias_falls_back_to_default() {
    assert_eq!(console_address_from_alias(None), SERIAL_PORT_ADDRESS);
}

#[test]
fn alias_value_without_at_falls_back_to_default() {
    assert_eq!(console_address_from_alias(Some(b"ttyS0\0")), SERIAL_PORT_ADDRESS);
}

#[test]
fn hex_parsing_exact_values() {
    assert_eq!(parse_hex32(b"ff"), Some(255));
    assert_eq!(parse_hex32(b"FFFFFFFF"), Some(u32::MAX));
    assert_eq!(parse_hex32(b"0"), Some(0));
    assert_eq!(parse_hex32(b"100000000"), None);
    assert_eq!(parse_hex32(b""), None);
    assert_eq!(parse_hex32(b"1g"), None);
}

#[test]
fn hex_formatting_exact_values() {
    assert_eq!(hex_name_u64(0), b"0".to_vec());
    assert_eq!(hex_name_u64(0x100000), b"100000".to_vec());
    assert_eq!(hex_name_u64(0xDEADBEEF), b"deadbeef".to_vec());
}
