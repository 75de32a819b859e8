use iec104sim_core::tools::{format_hex, format_ioa, format_ioa_hex, hex_string_splits_char, parse_hex_string, ToolError};

#[test]
fn test_parse_hex_string() {
    let bytes = parse_hex_string("68 04 07 00").unwrap();
    assert_eq!(bytes, vec![0x68, 0x04, 0x07, 0x00]);
}

#[test]
fn test_parse_hex_string_no_spaces() {
    let bytes = parse_hex_string("68040700").unwrap();
    assert_eq!(bytes, vec![0x68, 0x04, 0x07, 0x00]);
}

#[test]
fn test_parse_hex_invalid() {
    assert!(parse_hex_string("6").is_err());
    assert!(parse_hex_string("GG").is_err());
}

#[test]
fn tools_test_format_hex() {
    assert_eq!(format_hex(&[0x68, 0x04]), "68 04");
}

#[test]
fn test_format_ioa() {
    assert_eq!(format_ioa(100), "100");
    assert_eq!(format_ioa_hex(100), "0x000064");
}

#[test]
fn parse_hex_errors_are_told_apart() {
    assert_eq!(parse_hex_string("6").unwrap_err(), ToolError::InvalidHexLength);
    assert_eq!(parse_hex_string("GG").unwrap_err(), ToolError::InvalidHexChar);
}

#[test]
fn parse_hex_accepts_lower_case_and_tabs_but_no_sign() {
    assert_eq!(parse_hex_string("ab\tCD\n").unwrap(), vec![0xAB, 0xCD]);
    assert_eq!(parse_hex_string("+f").unwrap_err(), ToolError::InvalidHexChar);
    assert_eq!(parse_hex_string("-1").unwrap_err(), ToolError::InvalidHexChar);
    assert_eq!(parse_hex_string("").unwrap(), Vec::<u8>::new());
}

#[test]
fn parse_hex_of_format_hex_gives_bytes_back() {
    let bytes = vec![0x00, 0x7F, 0x80, 0xFF, 0x12];
    assert_eq!(parse_hex_string(&format_hex(&bytes)).unwrap(), bytes);
}

#[test]
fn parse_hex_non_ascii_input() {
    // a two-byte character read as one piece is not a hex byte
    assert!(!hex_string_splits_char("é0é"));
    assert_eq!(parse_hex_string("éé").unwrap_err(), ToolError::InvalidHexChar);
    // an ASCII digit followed by a two-byte character would cut it in half
    assert!(hex_string_splits_char("aé0"));
    // an ideographic space is whitespace
    assert_eq!(parse_hex_string("68\u{3000}04").unwrap(), vec![0x68, 0x04]);
}

#[test]
fn format_ioa_hex_wide_values() {
    assert_eq!(format_ioa_hex(0), "0x000000");
    assert_eq!(format_ioa_hex(0xABCDEF), "0xABCDEF");
    assert_eq!(format_ioa_hex(0x1234567), "0x1234567");
    assert_eq!(format_ioa(0), "0");
    assert_eq!(format_ioa(4294967295), "4294967295");
}
