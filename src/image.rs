//! The in-memory image: an 18-byte header and a buffer of BGR pixels.
use vstd::prelude::*;

verus! {

/// One truecolor pixel, stored in the file as blue, green, red.
#[derive(Clone, Copy, Debug, PartialEq, Eq)]
pub struct Pixel {
    pub blue: u8,
    pub green: u8,
    pub red: u8,
}

/// The fixed 18-byte TGA header, kept field by field so that it
/// serializes back byte for byte.
#[derive(Clone, Copy, Debug, PartialEq, Eq)]
pub struct Header {
    pub id_length: u8,
    pub type_map: u8,
    pub image_type: u8,
    /// Color-map specification, passed through untouched.
    pub color_map_details: [u8; 5],
    /// Image specification: x origin, y origin, width, height (each a
    /// little-endian 16-bit value), pixel depth and descriptor.
    pub image_details: [u8; 10],
}

/// Size of the header in bytes.
pub const HEADER_LEN: usize = 18;

impl Header {
    /// The header as it stands in the file.
    pub open spec fn spec_bytes(self) -> Seq<u8> {
        seq![self.id_length, self.type_map, self.image_type] + self.color_map_details@
            + self.image_details@
    }

    /// Width in pixels: the little-endian 16-bit field at bytes 12 and 13 of the file.
    pub open spec fn spec_width(self) -> nat {
        (self.image_details@[4] + 256 * self.image_details@[5]) as nat
    }

    /// Height in pixels: the little-endian 16-bit field at bytes 14 and 15 of the file.
    pub open spec fn spec_height(self) -> nat {
        (self.image_details@[6] + 256 * self.image_details@[7]) as nat
    }

    /// Converts the header to the 18 bytes that begin a TGA file.
    pub fn to_bytes(&self) -> (r: [u8; 18])
        ensures
            r@ == self.spec_bytes(),
    {
        let c = &self.color_map_details;
        let d = &self.image_details;
        let r = [
            self.id_length,
            self.type_map,
            self.image_type,
            c[0],
            c[1],
            c[2],
            c[3],
            c[4],
            d[0],
            d[1],
            d[2],
            d[3],
            d[4],
            d[5],
            d[6],
            d[7],
            d[8],
            d[9],
        ];
        assert(r@ =~= self.spec_bytes());
        r
    }

    /// Image width in pixels.
    pub fn width(&self) -> (r: u16)
        ensures
            r == self.spec_width(),
    {
        self.image_details[4] as u16 + (self.image_details[5] as u16) * 256
    }

    /// Image height in pixels.
    pub fn height(&self) -> (r: u16)
        ensures
            r == self.spec_height(),
    {
        self.image_details[6] as u16 + (self.image_details[7] as u16) * 256
    }
}

/// A buffer of pixels, row after row.
pub struct Pixels {
    pub data: Vec<Pixel>,
}

/// A decoded image: its header and its pixels.
pub struct Data {
    pub header: Header,
    pub pixels: Pixels,
}

/// Why a compositing operation refused its inputs.
#[derive(Clone, Copy, Debug, PartialEq, Eq)]
pub enum CompositeError {
    /// Buffers that must have the same length or geometry do not.
    DimensionMismatch,
}

/// Why a byte buffer could not be decoded as an image.
#[derive(Clone, Copy, Debug, PartialEq, Eq)]
pub enum DecodeError {
    /// The buffer is shorter than the 18-byte header.
    Truncated,
}

} // verus!
