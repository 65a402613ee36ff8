use jam_services::image::{decode_image, encode_image};

#[test]
fn encode_writes_big_endian_header_then_pixels() {
    let pixels = [1u8, 2, 3, 4, 5, 6];
    let buf = encode_image(258, 1, &pixels);
    assert_eq!(buf, vec![1, 2, 0, 1, 1, 2, 3, 4, 5, 6]);
}

#[test]
fn encode_empty_image() {
    assert_eq!(encode_image(0, 0, &[]), vec![0, 0, 0, 0]);
}

#[test]
fn decode_reads_back_encoded_image() {
    let pixels: Vec<u8> = (0u8..12).collect();
    let buf = encode_image(2, 2, &pixels);
    let (w, h, px) = decode_image(&buf).expect("valid image");
    assert_eq!(w, 2);
    assert_eq!(h, 2);
    assert_eq!(px, &pixels[..]);
}

#[test]
fn decode_rejects_short_header() {
    assert!(decode_image(&[]).is_none());
    assert!(decode_image(&[0, 1, 0]).is_none());
}

#[test]
fn decode_rejects_wrong_body_length() {
    assert!(decode_image(&[0, 1, 0, 1, 9, 9]).is_none());
    assert!(decode_image(&[0, 1, 0, 1, 9, 9, 9, 9]).is_none());
}

#[test]
fn decode_accepts_zero_sized_image() {
    let (w, h, px) = decode_image(&[0, 0, 0, 7]).expect("empty body");
    assert_eq!((w, h), (0, 7));
    assert!(px.is_empty());
}

#[test]
fn encode_of_decoded_is_identity() {
    let data = vec![0u8, 1, 0, 1, 10, 20, 30];
    let (w, h, px) = decode_image(&data).unwrap();
    assert_eq!(encode_image(w, h, px), data);
}
