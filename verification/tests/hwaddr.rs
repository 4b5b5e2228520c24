use jimiru::HwAddr;

#[test]
fn display() {
    assert_eq!(
        "00:41:D0:24:00:0B",
        "00:41:D0:24:00:0B".parse::<HwAddr>().unwrap().to_text()
    );
}

#[test]
fn octets_of_parsed_text() {
    assert_eq!(
        "00-14-22-01-23-45".parse::<HwAddr>().unwrap().octets(),
        [0, 20, 34, 1, 35, 69]
    );
}

#[test]
fn broadcast_detection() {
    assert!("FF:FF:FF:FF:FF:FF".parse::<HwAddr>().unwrap().is_broadcast());
    assert!(!"00:00:00:00:00:00".parse::<HwAddr>().unwrap().is_broadcast());
    assert!(!"FF:FF:FF:FF:FF:FE".parse::<HwAddr>().unwrap().is_broadcast());
}

#[test]
fn lower_case_digits_accepted() {
    assert_eq!(
        "ab:cd:ef:01:23:45".parse::<HwAddr>().unwrap().to_text(),
        "AB:CD:EF:01:23:45"
    );
}

#[test]
fn dash_and_colon_separators_mix() {
    assert_eq!(
        "AB-CD:EF-01:23-45".parse::<HwAddr>().unwrap().octets(),
        [0xAB, 0xCD, 0xEF, 0x01, 0x23, 0x45]
    );
}

#[test]
fn missing_groups_fill_with_zero() {
    assert_eq!("AB".parse::<HwAddr>().unwrap().octets(), [0xAB, 0, 0, 0, 0, 0]);
    assert_eq!(
        "AB:CD".parse::<HwAddr>().unwrap().octets(),
        [0xAB, 0xCD, 0, 0, 0, 0]
    );
}

#[test]
fn leading_zeros_accepted() {
    assert_eq!("000A:0B".parse::<HwAddr>().unwrap().octets(), [0x0A, 0x0B, 0, 0, 0, 0]);
}

#[test]
fn empty_text_rejected() {
    assert!("".parse::<HwAddr>().is_err());
}

#[test]
fn empty_group_rejected() {
    assert!("AB:".parse::<HwAddr>().is_err());
    assert!("AB::CD".parse::<HwAddr>().is_err());
}

#[test]
fn non_hex_digit_rejected() {
    assert!("GG".parse::<HwAddr>().is_err());
    assert!("AB:CZ".parse::<HwAddr>().is_err());
}

#[test]
fn group_over_one_octet_rejected() {
    assert!("100".parse::<HwAddr>().is_err());
}

#[test]
fn seven_groups_rejected() {
    assert!("AB:CD:EF:01:23:45:67".parse::<HwAddr>().is_err());
}

#[test]
fn from_u32_little_endian_octets() {
    let a = HwAddr::from_u32(0x0102_030A);
    assert_eq!(a.octets(), [0x0A, 0x03, 0x02, 0x01, 0, 0]);
}

#[test]
fn from_octets_round_trip() {
    let a = HwAddr::from_octets([1, 2, 3, 4, 5, 6]);
    assert_eq!(a.octets(), [1, 2, 3, 4, 5, 6]);
    assert_eq!(a.to_text(), "01:02:03:04:05:06");
}

#[test]
fn from_bytes_takes_first_six() {
    let bytes = [9u8, 8, 7, 6, 5, 4, 3];
    let a = HwAddr::from_bytes(&bytes);
    assert_eq!(a.octets(), [9, 8, 7, 6, 5, 4]);
}
