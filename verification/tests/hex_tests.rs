use jam_services::hex::bytes_to_hex;

#[test]
fn hex_is_lowercase_two_digits_per_byte() {
    assert_eq!(bytes_to_hex(&[0x00, 0xab, 0x0f, 0xff, 0x10]), "00ab0fff10");
}

#[test]
fn hex_of_empty_is_empty() {
    assert_eq!(bytes_to_hex(&[]), "");
}

#[test]
fn hex_matches_format() {
    let data: Vec<u8> = (0..=255u8).collect();
    let expected: String = data.iter().map(|b| format!("{:02x}", b)).collect();
    assert_eq!(bytes_to_hex(&data), expected);
}
