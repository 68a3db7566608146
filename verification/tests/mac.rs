use std::str::FromStr;
use waker::{Mac, MacAddressError};

const MAC_BYTES: [u8; 6] = [0x01, 0x23, 0x45, 0x67, 0x89, 0xAB];

#[test]
fn mac_test_parse_mac_from_str() {
    let mac = Mac::from_str("01:23:45:67:89:AB").expect("Failed to parse MAC address");
    assert_eq!(mac.0, MAC_BYTES);
}

#[test]
fn mac_test_mac_display_lower() {
    let mac = Mac(MAC_BYTES);
    assert_eq!(mac.to_string(), "01:23:45:67:89:ab");
}

#[test]
fn mac_test_mac_display_upper() {
    let mac = Mac(MAC_BYTES);
    assert_eq!(mac.to_upper_hex(), "01:23:45:67:89:AB");
}

#[test]
fn test_parse_mac_from_str() {
    let mac = Mac::from_str("01:23:45:67:89:AB").expect("Failed to parse MAC address");
    assert_eq!(mac.0, MAC_BYTES);
}

#[test]
fn test_mac_display_lower() {
    let mac = Mac(MAC_BYTES);
    assert_eq!(mac.to_string(), "01:23:45:67:89:ab");
}

#[test]
fn test_mac_display_upper() {
    let mac = Mac(MAC_BYTES);
    assert_eq!(mac.to_upper_hex(), "01:23:45:67:89:AB");
}

#[test]
fn parse_accepts_every_separator() {
    for text in [
        "01-23-45-67-89-ab",
        "01_23_45_67_89_ab",
        "01.23.45.67.89.ab",
        "01:23-45_67.89:aB",
    ] {
        assert_eq!(Mac::from_str(text), Ok(Mac(MAC_BYTES)));
    }
}

#[test]
fn parse_ignores_white_space_around_the_address() {
    assert_eq!(Mac::from_str("  01:23:45:67:89:AB\t\n"), Ok(Mac(MAC_BYTES)));
    assert_eq!(Mac::from_str("\u{3000}01:23:45:67:89:AB\u{a0}"), Ok(Mac(MAC_BYTES)));
}

#[test]
fn parse_through_the_std_traits() {
    let parsed: Mac = "01:23:45:67:89:AB".parse().unwrap();
    assert_eq!(parsed, Mac(MAC_BYTES));
    assert_eq!(Mac::try_from("01:23:45:67:89:AB"), Ok(Mac(MAC_BYTES)));
    assert_eq!(Mac::try_from(&MAC_BYTES[..]), Ok(Mac(MAC_BYTES)));
    assert_eq!(Mac::from(MAC_BYTES), Mac(MAC_BYTES));
}

#[test]
fn parse_rejects_five_groups() {
    assert_eq!(
        Mac::from_str("01:23:45:67:89"),
        Err(MacAddressError::InvalidMacAddress("01:23:45:67:89".to_string()))
    );
}

#[test]
fn parse_rejects_text_behind_the_address() {
    assert_eq!(
        Mac::from_str("01:23:45:67:89:AB:CD"),
        Err(MacAddressError::InvalidMacAddress("01:23:45:67:89:AB:CD".to_string()))
    );
    assert_eq!(
        Mac::from_str("01:23:45:67:89:ABC"),
        Err(MacAddressError::InvalidMacAddress("01:23:45:67:89:ABC".to_string()))
    );
}

#[test]
fn parse_rejects_a_wrong_digit_count() {
    assert_eq!(
        Mac::from_str("01:23:45:67:89:A"),
        Err(MacAddressError::InvalidMacAddress("01:23:45:67:89:A".to_string()))
    );
    assert_eq!(
        Mac::from_str("0123456789AB"),
        Err(MacAddressError::InvalidMacAddress("0123456789AB".to_string()))
    );
    assert_eq!(
        Mac::from_str(""),
        Err(MacAddressError::InvalidMacAddress(String::new()))
    );
}

#[test]
fn parse_reports_the_trimmed_text() {
    assert_eq!(
        Mac::from_str("  01:23  "),
        Err(MacAddressError::InvalidMacAddress("01:23".to_string()))
    );
}

#[test]
fn parse_rejects_a_wrong_separator() {
    assert_eq!(
        Mac::from_str("01:23:45:67:89/AB"),
        Err(MacAddressError::InvalidMacAddress("01:23:45:67:89/AB".to_string()))
    );
}

#[test]
fn parse_reports_the_first_character_that_is_no_digit() {
    assert_eq!(
        Mac::from_str("01:2g:45:67:89:AB"),
        Err(MacAddressError::InvalidByteInMac("g".to_string()))
    );
    assert_eq!(
        Mac::from_str("0h:2g:45:67:89:AB"),
        Err(MacAddressError::InvalidByteInMac("h".to_string()))
    );
    assert_eq!(
        Mac::from_str("01:23:45:67:89:\u{e9}B"),
        Err(MacAddressError::InvalidByteInMac("\u{e9}".to_string()))
    );
}

#[test]
fn try_from_rejects_five_bytes() {
    let bytes: [u8; 5] = [0x01, 0x23, 0x45, 0x67, 0x89];
    assert_eq!(Mac::try_from(&bytes[..]), Err(MacAddressError::InvalidLength(5)));
}

#[test]
fn written_address_reads_back() {
    for bytes in [[0u8; 6], [0xFF; 6], [0x00, 0x1A, 0x2B, 0x3C, 0x4D, 0x5E], MAC_BYTES] {
        let mac = Mac(bytes);
        assert_eq!(Mac::from_str(&mac.to_string()), Ok(mac));
        assert_eq!(Mac::from_str(&mac.to_upper_hex()), Ok(mac));
    }
}

#[test]
fn read_address_is_written_in_lower_case() {
    for text in ["01:23:45:67:89:AB", "aA:bB:cC:dD:eE:fF", "00:00:00:00:00:00"] {
        let mac = Mac::from_str(text).unwrap();
        assert_eq!(mac.to_string(), text.to_lowercase());
    }
    let mac = Mac::from_str(" DE-AD_BE.EF:00-9a ").unwrap();
    assert_eq!(mac.to_string(), "de:ad:be:ef:00:9a");
}

#[test]
fn error_sentences() {
    assert_eq!(
        MacAddressError::InvalidByteInMac("g".to_string()).to_string(),
        "Invalid byte in MAC address: g"
    );
    assert_eq!(
        MacAddressError::InvalidMacAddress("01:23".to_string()).to_string(),
        "Invalid MAC address: 01:23"
    );
    assert_eq!(
        MacAddressError::InvalidLength(5).to_string(),
        "Invalid MAC address length: expected 6 bytes, got 5"
    );
    assert_eq!(
        MacAddressError::InvalidLength(0).to_string(),
        "Invalid MAC address length: expected 6 bytes, got 0"
    );
    assert_eq!(
        MacAddressError::InvalidLength(1234567890).to_string(),
        "Invalid MAC address length: expected 6 bytes, got 1234567890"
    );
}
