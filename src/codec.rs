//! The TGA codec: an 18-byte header followed by B,G,R triplets, one per pixel.
use vstd::prelude::*;

use crate::image::{Data, DecodeError, Header, Pixel, Pixels, HEADER_LEN};

verus! {

/// The pixels that a pixel region holds: one per full 3-byte group, in
/// B,G,R order; a trailing group of one or two bytes is dropped.
pub open spec fn pixels_of(bytes: Seq<u8>) -> Seq<Pixel> {
    Seq::new(
        bytes.len() / 3,
        |i: int| Pixel { blue: bytes[3 * i], green: bytes[3 * i + 1], red: bytes[3 * i + 2] },
    )
}

/// Channel `c` of `p` in file order: 0 is blue, 1 green, 2 red.
pub open spec fn channel_in_file_order(p: Pixel, c: int) -> u8 {
    if c == 0 {
        p.blue
    } else if c == 1 {
        p.green
    } else {
        p.red
    }
}

/// The pixel region that holds `ps`: three bytes per pixel, no padding.
pub open spec fn bytes_of(ps: Seq<Pixel>) -> Seq<u8> {
    Seq::new(3 * ps.len(), |k: int| channel_in_file_order(ps[k / 3], k % 3))
}

/// The file that holds `img`: its header, then its pixels.
pub open spec fn encoded(img: Data) -> Seq<u8> {
    img.header.spec_bytes() + bytes_of(img.pixels.data@)
}

/// `img` is what a successful decode of `bytes` yields: the header from the
/// first 18 bytes, the pixels from the rest.
pub open spec fn decodes_to(bytes: Seq<u8>, img: Data) -> bool {
    &&& bytes.len() >= HEADER_LEN
    &&& img.header.spec_bytes() == bytes.subrange(0, HEADER_LEN as int)
    &&& img.pixels.data@ == pixels_of(bytes.subrange(HEADER_LEN as int, bytes.len() as int))
}

/// Two headers with the same bytes are the same header.
pub proof fn lemma_header_bytes_injective(a: Header, b: Header)
    requires
        a.spec_bytes() == b.spec_bytes(),
    ensures
        a == b,
{
    let (sa, sb) = (a.spec_bytes(), b.spec_bytes());
    assert(a.color_map_details@ =~= sa.subrange(3, 8));
    assert(b.color_map_details@ =~= sb.subrange(3, 8));
    assert(a.image_details@ =~= sa.subrange(8, 18));
    assert(b.image_details@ =~= sb.subrange(8, 18));
    assert(sa[0] == a.id_length && sa[1] == a.type_map && sa[2] == a.image_type);
    assert(sb[0] == b.id_length && sb[1] == b.type_map && sb[2] == b.image_type);
    assert(a.color_map_details =~= b.color_map_details);
    assert(a.image_details =~= b.image_details);
}

/// Decoding an encoded image gives the image back: the bytes are long
/// enough to decode, and whatever they decode to has the same header and
/// the same pixels.
pub proof fn lemma_round_trip(img: Data, back: Data)
    ensures
        encoded(img).len() >= HEADER_LEN,
        decodes_to(encoded(img), back) ==> back.header == img.header && back.pixels.data@
            == img.pixels.data@,
{
    let e = encoded(img);
    let ps = img.pixels.data@;
    assert(e.subrange(0, HEADER_LEN as int) =~= img.header.spec_bytes());
    assert(e.subrange(HEADER_LEN as int, e.len() as int) =~= bytes_of(ps));
    assert(pixels_of(bytes_of(ps)) =~= ps);
    if decodes_to(e, back) {
        lemma_header_bytes_injective(back.header, img.header);
    }
}

/// Turns a pixel region into pixels, three bytes each; one or two bytes
/// left over at the end are dropped.
pub fn make_pixels(pixel_data: &[u8]) -> (r: Vec<Pixel>)
    ensures
        r@ == pixels_of(pixel_data@),
{
    let len = pixel_data.len();
    let mut bgr_pixels: Vec<Pixel> = Vec::new();
    let mut index: usize = 0;
    while len - index >= 3
        invariant
            len == pixel_data@.len(),
            index <= len,
            index == 3 * bgr_pixels@.len(),
            forall|j: int|
                0 <= j < bgr_pixels@.len() ==> bgr_pixels@[j] == (Pixel {
                    blue: pixel_data@[3 * j],
                    green: pixel_data@[3 * j + 1],
                    red: pixel_data@[3 * j + 2],
                }),
        decreases len - index,
    {
        let blue = pixel_data[index];
        let green = pixel_data[index + 1];
        let red = pixel_data[index + 2];
        bgr_pixels.push(Pixel { blue, green, red });
        index += 3;
    }
    assert(bgr_pixels@ =~= pixels_of(pixel_data@));
    bgr_pixels
}

/// Decodes a TGA file: the 18-byte header, then the pixels. A buffer
/// shorter than the header is refused with `Truncated`.
pub fn decode(bytes: &[u8]) -> (r: Result<Data, DecodeError>)
    ensures
        match r {
            Ok(img) => decodes_to(bytes@, img),
            Err(e) => bytes@.len() < HEADER_LEN && e == DecodeError::Truncated,
        },
{
    if bytes.len() < HEADER_LEN {
        return Err(DecodeError::Truncated);
    }
    let h = &bytes[0..HEADER_LEN];
    let header = Header {
        id_length: h[0],
        type_map: h[1],
        image_type: h[2],
        color_map_details: [h[3], h[4], h[5], h[6], h[7]],
        image_details: [h[8], h[9], h[10], h[11], h[12], h[13], h[14], h[15], h[16], h[17]],
    };
    assert(header.spec_bytes() =~= bytes@.subrange(0, HEADER_LEN as int));
    let data = make_pixels(&bytes[HEADER_LEN..bytes.len()]);
    Ok(Data { header, pixels: Pixels { data } })
}

/// Encodes an image as a TGA file: the header's 18 bytes, then each pixel
/// as blue, green, red.
pub fn encode(image: &Data) -> (r: Vec<u8>)
    ensures
        r@ == encoded(*image),
{
    let ps = &image.pixels.data;
    let header = image.header.to_bytes();
    let mut out: Vec<u8> = Vec::new();
    let mut k: usize = 0;
    while k < HEADER_LEN
        invariant
            k <= HEADER_LEN,
            header@ == image.header.spec_bytes(),
            out@ == header@.subrange(0, k as int),
        decreases HEADER_LEN - k,
    {
        out.push(header[k]);
        k += 1;
        assert(out@ =~= header@.subrange(0, k as int));
    }
    let mut i: usize = 0;
    while i < ps.len()
        invariant
            i <= ps@.len(),
            out@.len() == HEADER_LEN + 3 * i,
            out@.subrange(0, HEADER_LEN as int) == image.header.spec_bytes(),
            forall|j: int|
                0 <= j < i ==> {
                    &&& out@[HEADER_LEN + 3 * j] == ps@[j].blue
                    &&& out@[HEADER_LEN + 3 * j + 1] == ps@[j].green
                    &&& out@[HEADER_LEN + 3 * j + 2] == ps@[j].red
                },
        decreases ps@.len() - i,
    {
        let p = ps[i];
        let ghost before = out@;
        out.push(p.blue);
        out.push(p.green);
        out.push(p.red);
        assert(out@.subrange(0, HEADER_LEN as int) =~= before.subrange(0, HEADER_LEN as int));
        i += 1;
    }
    let ghost e = encoded(*image);
    assert forall|k: int| HEADER_LEN <= k < out@.len() implies out@[k] == e[k] by {
        let j = (k - HEADER_LEN) / 3;
        assert(k == HEADER_LEN + 3 * j + (k - HEADER_LEN) % 3);
    }
    assert forall|k: int| 0 <= k < HEADER_LEN implies out@[k] == e[k] by {
        assert(out@[k] == out@.subrange(0, HEADER_LEN as int)[k]);
    }
    assert(out@ =~= e);
    out
}

} // verus!
