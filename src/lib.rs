//! Uncompressed 24-bit TGA images: a byte-exact codec and a pixel compositor
//! (blend modes, channel operations, vertical flip, quadrant composition).
pub mod blend;
pub mod codec;
pub mod compose;
pub mod image;
pub mod parts;
