//! The fixed processing steps, each on decoded images: reading the inputs
//! and writing the outputs is left to the caller.
use vstd::prelude::*;

use crate::blend::{blended, multiply_blend, overlay_blend, screen_blend, subtract_blend, BlendMode};
use crate::compose::{
    combine_channels,
    combine_images,
    combined,
    composite_header_bytes,
    extract_channels,
    flip,
    gray,
    is_flip_of,
    is_quadrant_composition,
    same_geometry,
};
use crate::image::{CompositeError, Data, Pixel, Pixels};

verus! {

/// `r` is `top` blended over `bottom` with `mode`, under `top`'s header,
/// or a dimension mismatch exactly when the two buffers differ in length.
pub open spec fn layered(mode: BlendMode, top: &Data, bottom: &Data, r: Result<Data, CompositeError>) -> bool {
    match r {
        Ok(img) => {
            &&& top.pixels.data@.len() == bottom.pixels.data@.len()
            &&& img.header == top.header
            &&& img.pixels.data@ == blended(mode, top.pixels.data@, bottom.pixels.data@)
        },
        Err(e) => top.pixels.data@.len() != bottom.pixels.data@.len() && e
            == CompositeError::DimensionMismatch,
    }
}

/// `p` with 200 added to green, saturating at 255.
pub open spec fn green_boosted(p: Pixel) -> Pixel {
    Pixel { green: if p.green >= 55 { 255 } else { (p.green + 200) as u8 }, ..p }
}

/// `p` with blue cleared and red multiplied by 4, saturating at 255.
pub open spec fn red_scaled(p: Pixel) -> Pixel {
    Pixel { blue: 0, red: if p.red >= 64 { 255 } else { (4 * p.red) as u8 }, ..p }
}

fn blend_layers(mode: BlendMode, top: &Data, bottom: &Data) -> (r: Result<Data, CompositeError>)
    ensures
        layered(mode, top, bottom, r),
{
    let blended = match mode {
        BlendMode::Multiply => multiply_blend(&top.pixels, &bottom.pixels),
        BlendMode::Subtract => subtract_blend(&top.pixels, &bottom.pixels),
        BlendMode::Screen => screen_blend(&top.pixels, &bottom.pixels),
        BlendMode::Overlay => overlay_blend(&top.pixels, &bottom.pixels),
    };
    match blended {
        Ok(data) => Ok(Data { header: top.header, pixels: Pixels { data } }),
        Err(e) => Err(e),
    }
}

/// Multiplies `top_layer` with `bottom_layer`, keeping the top header.
pub fn part1(top_layer: &Data, bottom_layer: &Data) -> (r: Result<Data, CompositeError>)
    ensures
        layered(BlendMode::Multiply, top_layer, bottom_layer, r),
{
    blend_layers(BlendMode::Multiply, top_layer, bottom_layer)
}

/// Subtracts `top_layer` from `bottom_layer`, keeping the top header.
pub fn part2(top_layer: &Data, bottom_layer: &Data) -> (r: Result<Data, CompositeError>)
    ensures
        layered(BlendMode::Subtract, top_layer, bottom_layer, r),
{
    blend_layers(BlendMode::Subtract, top_layer, bottom_layer)
}

/// Multiplies `layer` with `pattern`, then screens `text` over the result,
/// keeping the header of `text`.
pub fn part3(layer: &Data, pattern: &Data, text: &Data) -> (r: Result<Data, CompositeError>)
    ensures
        ({
            let (l, p, t) = (layer.pixels.data@, pattern.pixels.data@, text.pixels.data@);
            match r {
                Ok(img) => {
                    &&& l.len() == p.len() && t.len() == l.len()
                    &&& img.header == text.header
                    &&& img.pixels.data@ == blended(
                        BlendMode::Screen,
                        t,
                        blended(BlendMode::Multiply, l, p),
                    )
                },
                Err(e) => !(l.len() == p.len() && t.len() == l.len()) && e
                    == CompositeError::DimensionMismatch,
            }
        }),
{
    let multiplied = blend_layers(BlendMode::Multiply, layer, pattern)?;
    blend_layers(BlendMode::Screen, text, &multiplied)
}

/// Multiplies `layer` with `circles`, then subtracts `pattern` from the
/// result, keeping the header of `pattern`.
pub fn part4(layer: &Data, circles: &Data, pattern: &Data) -> (r: Result<Data, CompositeError>)
    ensures
        ({
            let (l, c, p) = (layer.pixels.data@, circles.pixels.data@, pattern.pixels.data@);
            match r {
                Ok(img) => {
                    &&& l.len() == c.len() && p.len() == l.len()
                    &&& img.header == pattern.header
                    &&& img.pixels.data@ == blended(
                        BlendMode::Subtract,
                        p,
                        blended(BlendMode::Multiply, l, c),
                    )
                },
                Err(e) => !(l.len() == c.len() && p.len() == l.len()) && e
                    == CompositeError::DimensionMismatch,
            }
        }),
{
    let multiplied = blend_layers(BlendMode::Multiply, layer, circles)?;
    blend_layers(BlendMode::Subtract, pattern, &multiplied)
}

/// Overlays `top_layer` on `bottom_layer`, keeping the top header.
pub fn part5(top_layer: &Data, bottom_layer: &Data) -> (r: Result<Data, CompositeError>)
    ensures
        layered(BlendMode::Overlay, top_layer, bottom_layer, r),
{
    blend_layers(BlendMode::Overlay, top_layer, bottom_layer)
}

/// Adds 200 to the green channel of every pixel, saturating at 255.
pub fn part6(image: &Data) -> (r: Data)
    ensures
        r.header == image.header,
        r.pixels.data@ == image.pixels.data@.map_values(|p: Pixel| green_boosted(p)),
{
    let ps = &image.pixels.data;
    let mut out: Vec<Pixel> = Vec::with_capacity(ps.len());
    let mut i: usize = 0;
    while i < ps.len()
        invariant
            i <= ps@.len(),
            out@.len() == i,
            forall|j: int| 0 <= j < i ==> out@[j] == green_boosted(ps@[j]),
        decreases ps@.len() - i,
    {
        let p = ps[i];
        out.push(Pixel { green: p.green.saturating_add(200), ..p });
        i += 1;
    }
    assert(out@ =~= ps@.map_values(|p: Pixel| green_boosted(p)));
    Data { header: image.header, pixels: Pixels { data: out } }
}

/// Clears the blue channel and multiplies the red channel by 4, saturating
/// at 255, in every pixel.
pub fn part7(image: &Data) -> (r: Data)
    ensures
        r.header == image.header,
        r.pixels.data@ == image.pixels.data@.map_values(|p: Pixel| red_scaled(p)),
{
    let ps = &image.pixels.data;
    let mut out: Vec<Pixel> = Vec::with_capacity(ps.len());
    let mut i: usize = 0;
    while i < ps.len()
        invariant
            i <= ps@.len(),
            out@.len() == i,
            forall|j: int| 0 <= j < i ==> out@[j] == red_scaled(ps@[j]),
        decreases ps@.len() - i,
    {
        let p = ps[i];
        let red = if p.red >= 64 {
            255
        } else {
            p.red * 4
        };
        out.push(Pixel { blue: 0, red, ..p });
        i += 1;
    }
    assert(out@ =~= ps@.map_values(|p: Pixel| red_scaled(p)));
    Data { header: image.header, pixels: Pixels { data: out } }
}

/// Splits an image into its red, green and blue channels, each shown as a
/// gray image under the same header.
pub fn part8(image: &Data) -> (r: (Data, Data, Data))
    ensures
        r.0.header == image.header && r.1.header == image.header && r.2.header == image.header,
        r.0.pixels.data@ == image.pixels.data@.map_values(|p: Pixel| gray(p.red)),
        r.1.pixels.data@ == image.pixels.data@.map_values(|p: Pixel| gray(p.green)),
        r.2.pixels.data@ == image.pixels.data@.map_values(|p: Pixel| gray(p.blue)),
{
    let (blues, greens, reds) = extract_channels(&image.pixels);
    (
        Data { header: image.header, pixels: Pixels { data: reds } },
        Data { header: image.header, pixels: Pixels { data: greens } },
        Data { header: image.header, pixels: Pixels { data: blues } },
    )
}

/// Builds one image from three single-channel layers, blue from the first,
/// green from the second, red from the third.
pub fn part9(blue_layer: &Data, green_layer: &Data, red_layer: &Data) -> (r: Result<
    Data,
    CompositeError,
>)
    ensures
        ({
            let (b, g, rd) = (
                blue_layer.pixels.data@,
                green_layer.pixels.data@,
                red_layer.pixels.data@,
            );
            match r {
                Ok(img) => {
                    &&& b.len() == g.len() && b.len() == rd.len()
                    &&& img.header == blue_layer.header
                    &&& img.pixels.data@ == combined(b, g, rd)
                },
                Err(e) => !(b.len() == g.len() && b.len() == rd.len()) && e
                    == CompositeError::DimensionMismatch,
            }
        }),
{
    combine_channels(blue_layer, green_layer, red_layer)
}

/// Turns an image upside down, keeping its header.
pub fn part10(image: &Data) -> (r: Data)
    requires
        image.pixels.data@.len() == image.header.spec_width() * image.header.spec_height(),
    ensures
        r.header == image.header,
        is_flip_of(
            r.pixels.data@,
            image.pixels.data@,
            image.header.spec_width() as int,
            image.header.spec_height() as int,
        ),
{
    let data = flip(image);
    Data { header: image.header, pixels: Pixels { data } }
}

/// Tiles four images into one: `top_left`, `top_right`, `bottom_left` and
/// `bottom_right` each give the matching quarter.
pub fn extra_credit(top_left: &Data, top_right: &Data, bottom_left: &Data, bottom_right: &Data) -> (r:
    Result<Data, CompositeError>)
    ensures
        ({
            let images = [top_left, top_right, bottom_left, bottom_right];
            match r {
                Ok(img) => {
                    &&& same_geometry(images)
                    &&& img.header.spec_bytes() == composite_header_bytes(top_left.header)
                    &&& is_quadrant_composition(
                        img.pixels.data@,
                        images,
                        top_left.header.spec_width() as int,
                        top_left.header.spec_height() as int,
                    )
                },
                Err(e) => !same_geometry(images) && e == CompositeError::DimensionMismatch,
            }
        }),
{
    combine_images([top_left, top_right, bottom_left, bottom_right])
}

} // verus!
