use telewol::codec::encode;
use telewol::errors::WolError;
use telewol::mac::{parse_mac, unparse_mac, MacAddress};

#[test]
fn test_parse_mac_fail() {
    assert!(vec![
        "",
        "Potato",
        "00:FF:0p:0a:ff:\u{c3}\u{b1}0",
        "FF:01:0a:ff:00",
        "00:FF:0e:0a:ff::00"
    ]
    .into_iter()
    .all(|mac| parse_mac(mac).is_err()));
}

#[test]
fn test_parse_mac_success() {
    assert!(vec![
        "00:FF:0a:0a:ff:00",
        "FF:FF:ba:0a:ff:00",
        "00:FF:0a:fa:dd:00",
        "00:FF:0a:0a:ff:e0",
        "00-FF-0a-0a-ff-e0",
        "00:FF:0a:0a:ff:a0"
    ]
    .into_iter()
    .all(|mac| parse_mac(mac).is_ok()));
}

#[test]
fn test_unparse_mac() {
    assert_eq!(
        unparse_mac(&MacAddress::new(0x00, 0xFF, 0x0a, 0x0a, 0xff, 0x00)),
        "00:FF:0A:0A:FF:00"
    );
}

#[test]
fn parse_reports_the_failing_check() {
    // wrong length
    assert_eq!(parse_mac(""), Err(WolError::InvalidMacFormat));
    assert_eq!(parse_mac("Potato"), Err(WolError::InvalidMacFormat));
    assert_eq!(parse_mac("FF:01:0a:ff:00"), Err(WolError::InvalidMacFormat));
    assert_eq!(
        parse_mac("00:FF:0e:0a:ff::00"),
        Err(WolError::InvalidMacFormat)
    );
    // 17 characters but no delimiter at all
    assert_eq!(
        parse_mac("00x00x00x00x00x00"),
        Err(WolError::InvalidMacDelimiter)
    );
    // a doubled delimiter splits into seven groups
    assert_eq!(
        parse_mac("00:FF:0e:0a:ff::0"),
        Err(WolError::InvalidMacLength)
    );
    // mixed delimiters: split on `-` does not yield six groups
    assert_eq!(
        parse_mac("00-FF:0e:0a:ff:00"),
        Err(WolError::InvalidMacLength)
    );
    // six groups but one is not a two-digit hex byte
    assert_eq!(parse_mac("0g:FF:0e:0a:ff:00"), Err(WolError::InvalidMacByte));
    assert_eq!(parse_mac("000:FF:0e:0a:ff:0"), Err(WolError::InvalidMacByte));
}

#[test]
fn parse_normalizes_either_delimiter_and_case() {
    let colon = parse_mac("aa:bb:cc:dd:ee:ff").unwrap();
    let dash = parse_mac("AA-BB-CC-DD-EE-FF").unwrap();
    assert_eq!(colon, dash);
    assert_eq!(unparse_mac(&colon), "AA:BB:CC:DD:EE:FF");
    assert_eq!(unparse_mac(&dash), "AA:BB:CC:DD:EE:FF");
}

#[test]
fn parse_format_round_trip() {
    let mac = MacAddress::new(0x01, 0x23, 0x45, 0x67, 0x89, 0xAB);
    let text = unparse_mac(&mac);
    assert_eq!(text, "01:23:45:67:89:AB");
    assert_eq!(parse_mac(&text), Ok(mac));
}

#[test]
fn encode_builds_the_exact_payload() {
    let mac = MacAddress::new(0x0F, 0x1E, 0x2D, 0x3C, 0x4B, 0x5A);
    let payload = encode(&mac);
    assert_eq!(payload.len(), 102);
    for i in 0..6 {
        assert_eq!(payload[i], 0xFF);
    }
    for k in 0..16 {
        assert_eq!(
            &payload[6 + 6 * k..12 + 6 * k],
            &[0x0F, 0x1E, 0x2D, 0x3C, 0x4B, 0x5A]
        );
    }
}

#[test]
fn error_messages_are_stable() {
    assert_eq!(WolError::InvalidMacFormat.message(), "Invalid MAC address");
    assert_eq!(
        WolError::InvalidMacDelimiter.message(),
        "Invalid MAC address delimiter"
    );
    assert_eq!(WolError::InvalidMacLength.message(), "MAC address must be 6 bytes");
    assert_eq!(WolError::SendFailed.message(), "Unable to send magic packet");
}
