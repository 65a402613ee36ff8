use vstd::prelude::*;

verus! {

/// The two bytes of `v` in big-endian order.
pub open spec fn be_u16_bytes(v: u16) -> Seq<u8> {
    seq![(v / 256) as u8, (v % 256) as u8]
}

/// The `u16` whose big-endian encoding is `hi`, `lo`.
pub open spec fn be_u16_value(hi: u8, lo: u8) -> u16 {
    (hi * 256 + lo) as u16
}

/// The container format: width and height as big-endian `u16`, then the
/// pixel bytes.
pub open spec fn encoded_image(width: u16, height: u16, pixels: Seq<u8>) -> Seq<u8> {
    be_u16_bytes(width) + be_u16_bytes(height) + pixels
}

/// Number of pixel bytes an RGB8 image of the given size holds.
pub open spec fn rgb_len(width: u16, height: u16) -> int {
    width * height * 3
}

/// What `decode_image` gives back for `data`: `None` unless the header is
/// present and the body holds exactly `width * height * 3` bytes.
pub open spec fn decoded_image(data: Seq<u8>) -> Option<(u16, u16, Seq<u8>)> {
    if data.len() < 4 {
        None
    } else {
        let width = be_u16_value(data[0], data[1]);
        let height = be_u16_value(data[2], data[3]);
        if data.len() != 4 + rgb_len(width, height) {
            None
        } else {
            Some((width, height, data.subrange(4, data.len() as int)))
        }
    }
}

/// Serialises an image as its big-endian width, its big-endian height and
/// its pixel bytes.
pub fn encode_image(width: u16, height: u16, pixels: &[u8]) -> (buf: Vec<u8>)
    requires
        pixels@.len() + 4 <= usize::MAX,
    ensures
        buf@ == encoded_image(width, height, pixels@),
{
    let mut buf: Vec<u8> = Vec::with_capacity(4 + pixels.len());
    buf.push((width / 256) as u8);
    buf.push((width % 256) as u8);
    buf.push((height / 256) as u8);
    buf.push((height % 256) as u8);
    let mut i: usize = 0;
    while i < pixels.len()
        invariant
            i <= pixels@.len(),
            buf@ == be_u16_bytes(width) + be_u16_bytes(height) + pixels@.subrange(0, i as int),
        decreases pixels@.len() - i,
    {
        buf.push(pixels[i]);
        i = i + 1;
        assert(pixels@.subrange(0, i as int) == pixels@.subrange(0, i - 1).push(pixels@[i - 1]));
    }
    assert(pixels@.subrange(0, pixels@.len() as int) == pixels@);
    buf
}

/// Reads an image written by `encode_image`: `None` when `data` is shorter
/// than the header or when its body is not exactly `width * height * 3`
/// bytes long; otherwise the width, the height and the pixel bytes.
pub fn decode_image(data: &[u8]) -> (res: Option<(u16, u16, &[u8])>)
    requires
        data@.len() >= 4 ==> 4 + rgb_len(be_u16_value(data@[0], data@[1]), be_u16_value(data@[2], data@[3])) <= usize::MAX,
    ensures
        match res {
            Some((w, h, px)) => decoded_image(data@) == Some((w, h, px@)),
            None => decoded_image(data@) is None,
        },
{
    if data.len() < 4 {
        return None;
    }
    let width: u16 = data[0] as u16 * 256 + data[1] as u16;
    let height: u16 = data[2] as u16 * 256 + data[3] as u16;
    proof {
        vstd::arithmetic::mul::lemma_mul_nonnegative(width as int, height as int);
        assert(rgb_len(width, height) == (width as int * height as int) * 3);
    }
    let expected: usize = width as usize * height as usize * 3;
    if data.len() != 4 + expected {
        return None;
    }
    Some((width, height, vstd::slice::slice_subrange(data, 4, data.len())))
}

/// The two header bytes of a `u16` read back as that `u16`.
proof fn lemma_be_u16_roundtrip(v: u16)
    ensures
        be_u16_value(be_u16_bytes(v)[0], be_u16_bytes(v)[1]) == v,
{
}

/// Two bytes read as a `u16` and written back are the same two bytes.
proof fn lemma_be_u16_bytes_of_value(hi: u8, lo: u8)
    ensures
        be_u16_bytes(be_u16_value(hi, lo)) == seq![hi, lo],
{
    let v = be_u16_value(hi, lo);
    assert(v == hi * 256 + lo);
    assert(v / 256 == hi);
    assert(v % 256 == lo);
}

/// Decoding what `encode_image` wrote gives back the width, the height and
/// the pixels, for every image whose pixel bytes match its size.
pub proof fn lemma_decode_encoded(width: u16, height: u16, pixels: Seq<u8>)
    requires
        pixels.len() == width as int * height as int * 3,
    ensures
        decoded_image(encoded_image(width, height, pixels)) == Some((width, height, pixels)),
{
    let data = encoded_image(width, height, pixels);
    lemma_be_u16_roundtrip(width);
    lemma_be_u16_roundtrip(height);
    assert(data[0] == be_u16_bytes(width)[0] && data[1] == be_u16_bytes(width)[1]);
    assert(data[2] == be_u16_bytes(height)[0] && data[3] == be_u16_bytes(height)[1]);
    assert(data.subrange(4, data.len() as int) =~= pixels);
}

/// Every byte string that `decode_image` accepts is exactly what
/// `encode_image` writes for the width, height and pixels it yields.
pub proof fn lemma_encode_decoded(data: Seq<u8>)
    requires
        decoded_image(data) is Some,
    ensures
        encoded_image(
            decoded_image(data).unwrap().0,
            decoded_image(data).unwrap().1,
            decoded_image(data).unwrap().2,
        )
            == data,
{
    let (w, h, px) = decoded_image(data).unwrap();
    lemma_be_u16_bytes_of_value(data[0], data[1]);
    lemma_be_u16_bytes_of_value(data[2], data[3]);
    assert(encoded_image(w, h, px) =~= data);
}

/// The container is the plain big-endian header and then the pixels: byte
/// 0 is the high byte of the width and byte 1 its low byte, bytes 2 and 3
/// likewise for the height, and the pixels follow unchanged.
pub proof fn lemma_encoded_image_layout(width: u16, height: u16, pixels: Seq<u8>)
    ensures
        encoded_image(width, height, pixels).len() == pixels.len() + 4,
        encoded_image(width, height, pixels)[0] == width / 256,
        encoded_image(width, height, pixels)[1] == width % 256,
        encoded_image(width, height, pixels)[2] == height / 256,
        encoded_image(width, height, pixels)[3] == height % 256,
        encoded_image(width, height, pixels)[0] * 256 + encoded_image(width, height, pixels)[1]
            == width,
        encoded_image(width, height, pixels)[2] * 256 + encoded_image(width, height, pixels)[3]
            == height,
        encoded_image(width, height, pixels).subrange(4, pixels.len() as int + 4) == pixels,
{
    let data = encoded_image(width, height, pixels);
    assert(data.subrange(4, pixels.len() as int + 4) =~= pixels);
}

/// Decoding succeeds exactly when there is a 4-byte header and then
/// exactly width * height * 3 bytes, where the width is
/// `data[0] * 256 + data[1]` and the height `data[2] * 256 + data[3]`
/// (the integer product, without wrap-around); it yields that width,
/// that height and the bytes after the header.
pub proof fn lemma_decoded_image_exact(data: Seq<u8>)
    ensures
        decoded_image(data) is Some <==> data.len() >= 4 && data.len() == 4 + (data[0] * 256
            + data[1]) * (data[2] * 256 + data[3]) * 3,
        decoded_image(data) is Some ==> decoded_image(data).unwrap().0 == data[0] * 256 + data[1],
        decoded_image(data) is Some ==> decoded_image(data).unwrap().1 == data[2] * 256 + data[3],
        decoded_image(data) is Some ==> decoded_image(data).unwrap().2 == data.subrange(
            4,
            data.len() as int,
        ),
{
    if data.len() >= 4 {
        let w = be_u16_value(data[0], data[1]);
        let h = be_u16_value(data[2], data[3]);
        assert(w == data[0] * 256 + data[1]);
        assert(h == data[2] * 256 + data[3]);
    }
}

} // verus!
