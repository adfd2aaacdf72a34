//! Blend modes: per-channel arithmetic combining a top and a bottom layer.
use vstd::prelude::*;

use crate::image::{CompositeError, Pixel, Pixels};

verus! {

/// The four ways of combining two layers.
#[derive(Clone, Copy, Debug, PartialEq, Eq)]
pub enum BlendMode {
    /// `round(top * bottom / 255)`.
    Multiply,
    /// `bottom - top`, floored at zero.
    Subtract,
    /// `255 - round((255 - top) * (255 - bottom) / 255)`.
    Screen,
    /// Multiply doubled where the bottom channel is below 128, screen doubled elsewhere.
    Overlay,
}

/// `n / 255` rounded to the nearest integer (for `n >= 0`; 255 is odd, so
/// there is never a tie).
pub open spec fn div255_round(n: int) -> int {
    (n + 127) / 255
}

/// One channel of the blend of `top` over `bottom`. Where a formula
/// subtracts a rounded quotient from 255, this equals rounding the whole
/// difference, since the quotient is never halfway between two integers.
pub open spec fn blend_channel(mode: BlendMode, top: u8, bottom: u8) -> u8 {
    match mode {
        BlendMode::Multiply => div255_round(top * bottom) as u8,
        BlendMode::Subtract => if bottom >= top {
            (bottom - top) as u8
        } else {
            0
        },
        BlendMode::Screen => (255 - div255_round((255 - top) * (255 - bottom))) as u8,
        BlendMode::Overlay => if bottom < 128 {
            div255_round(2 * top * bottom) as u8
        } else {
            (255 - div255_round(2 * (255 - top) * (255 - bottom))) as u8
        },
    }
}

/// The blend of one pixel over another, channel by channel.
pub open spec fn blend_pixel(mode: BlendMode, top: Pixel, bottom: Pixel) -> Pixel {
    Pixel {
        blue: blend_channel(mode, top.blue, bottom.blue),
        green: blend_channel(mode, top.green, bottom.green),
        red: blend_channel(mode, top.red, bottom.red),
    }
}

/// The blend of two equally long layers, pixel by pixel.
pub open spec fn blended(mode: BlendMode, top: Seq<Pixel>, bottom: Seq<Pixel>) -> Seq<Pixel> {
    Seq::new(top.len(), |i: int| blend_pixel(mode, top[i], bottom[i]))
}

/// What a blend of `top` over `bottom` returns: the pixel-by-pixel blend
/// when the layers have the same length, a dimension mismatch otherwise.
pub open spec fn blend_result(
    mode: BlendMode,
    top: Seq<Pixel>,
    bottom: Seq<Pixel>,
    r: Result<Vec<Pixel>, CompositeError>,
) -> bool {
    match r {
        Ok(v) => top.len() == bottom.len() && v@ == blended(mode, top, bottom),
        Err(e) => top.len() != bottom.len() && e == CompositeError::DimensionMismatch,
    }
}

/// `div255_round` is the nearest integer to `n / 255`.
pub proof fn lemma_div255_round_nearest(n: int)
    requires
        n >= 0,
    ensures
        255 * div255_round(n) - 127 <= n <= 255 * div255_round(n) + 127,
{
}

/// Pure white: every channel at 255.
pub open spec fn white() -> Pixel {
    Pixel { blue: 255, green: 255, red: 255 }
}

/// Pure black: every channel at 0.
pub open spec fn black() -> Pixel {
    Pixel { blue: 0, green: 0, red: 0 }
}

/// Multiplying a pixel by pure white, on either layer, leaves it unchanged.
pub proof fn lemma_multiply_white_identity(p: Pixel)
    ensures
        blend_pixel(BlendMode::Multiply, p, white()) == p,
        blend_pixel(BlendMode::Multiply, white(), p) == p,
{
}

/// Screening a pixel with pure black, on either layer, leaves it unchanged.
pub proof fn lemma_screen_black_identity(p: Pixel)
    ensures
        blend_pixel(BlendMode::Screen, p, black()) == p,
        blend_pixel(BlendMode::Screen, black(), p) == p,
{
}

/// Multiply and screen do not depend on which layer is on top.
pub proof fn lemma_multiply_screen_commute(a: Pixel, b: Pixel)
    ensures
        blend_pixel(BlendMode::Multiply, a, b) == blend_pixel(BlendMode::Multiply, b, a),
        blend_pixel(BlendMode::Screen, a, b) == blend_pixel(BlendMode::Screen, b, a),
{
}

/// Subtracting never wraps: a channel where the top value is at least the
/// bottom one becomes 0, and no channel exceeds the bottom value.
pub proof fn lemma_subtract_floor(top: Pixel, bottom: Pixel)
    ensures
        ({
            let r = blend_pixel(BlendMode::Subtract, top, bottom);
            &&& (top.blue >= bottom.blue ==> r.blue == 0)
            &&& (top.green >= bottom.green ==> r.green == 0)
            &&& (top.red >= bottom.red ==> r.red == 0)
            &&& r.blue <= bottom.blue
            &&& r.green <= bottom.green
            &&& r.red <= bottom.red
        }),
{
}

/// Overlay's branch goes by `bottom < 128`: at exactly 128 the lightening
/// (screen) formula applies, which differs from the multiply formula
/// wherever the top value is below 255.
pub proof fn lemma_overlay_boundary(top: u8)
    ensures
        blend_channel(BlendMode::Overlay, top, 128) == 255 - div255_round(2 * (255 - top) * 127),
        top < 255 ==> blend_channel(BlendMode::Overlay, top, 128) != div255_round(2 * top * 128),
{
    assert(2 * (255 - top) * 127 <= 2 * 255 * 127) by (nonlinear_arith)
        requires
            top <= 255,
    ;
}

fn div255_round_exec(n: u32) -> (r: u32)
    requires
        n <= 255 * 255,
    ensures
        r == div255_round(n as int),
        r <= 255,
{
    (n + 127) / 255
}

fn blend_channel_exec(mode: BlendMode, top: u8, bottom: u8) -> (r: u8)
    ensures
        r == blend_channel(mode, top, bottom),
{
    let t = top as u32;
    let b = bottom as u32;
    match mode {
        BlendMode::Multiply => {
            assert(t * b <= 255 * 255) by (nonlinear_arith)
                requires
                    t <= 255,
                    b <= 255,
            ;
            div255_round_exec(t * b) as u8
        },
        BlendMode::Subtract => bottom.saturating_sub(top),
        BlendMode::Screen => {
            assert((255 - t) * (255 - b) <= 255 * 255) by (nonlinear_arith)
                requires
                    t <= 255,
                    b <= 255,
            ;
            (255 - div255_round_exec((255 - t) * (255 - b))) as u8
        },
        BlendMode::Overlay => {
            if bottom < 128 {
                assert(2 * t * b <= 2 * 255 * 127) by (nonlinear_arith)
                    requires
                        t <= 255,
                        b < 128,
                ;
                div255_round_exec(2 * t * b) as u8
            } else {
                assert(2 * (255 - t) * (255 - b) <= 2 * 255 * 127) by (nonlinear_arith)
                    requires
                        t <= 255,
                        128 <= b <= 255,
                ;
                (255 - div255_round_exec(2 * (255 - t) * (255 - b))) as u8
            }
        },
    }
}

fn blend_pixel_exec(mode: BlendMode, top: Pixel, bottom: Pixel) -> (r: Pixel)
    ensures
        r == blend_pixel(mode, top, bottom),
{
    Pixel {
        blue: blend_channel_exec(mode, top.blue, bottom.blue),
        green: blend_channel_exec(mode, top.green, bottom.green),
        red: blend_channel_exec(mode, top.red, bottom.red),
    }
}

/// Blends `top` over `bottom` with `mode`, pixel by pixel. Layers of
/// different lengths are refused with `DimensionMismatch`.
pub fn blend(mode: BlendMode, top: &Pixels, bottom: &Pixels) -> (r: Result<
    Vec<Pixel>,
    CompositeError,
>)
    ensures
        blend_result(mode, top.data@, bottom.data@, r),
{
    let n = top.data.len();
    if n != bottom.data.len() {
        return Err(CompositeError::DimensionMismatch);
    }
    let mut out: Vec<Pixel> = Vec::with_capacity(n);
    let mut i: usize = 0;
    while i < n
        invariant
            n == top.data@.len(),
            n == bottom.data@.len(),
            i <= n,
            out@.len() == i,
            forall|j: int|
                0 <= j < i ==> out@[j] == blend_pixel(mode, top.data@[j], bottom.data@[j]),
        decreases n - i,
    {
        out.push(blend_pixel_exec(mode, top.data[i], bottom.data[i]));
        i += 1;
    }
    assert(out@ =~= blended(mode, top.data@, bottom.data@));
    Ok(out)
}

/// Multiply blend: `round(top * bottom / 255)` in each channel.
pub fn multiply_blend(top_pixels: &Pixels, bottom_pixels: &Pixels) -> (r: Result<
    Vec<Pixel>,
    CompositeError,
>)
    ensures
        blend_result(BlendMode::Multiply, top_pixels.data@, bottom_pixels.data@, r),
{
    blend(BlendMode::Multiply, top_pixels, bottom_pixels)
}

/// Subtract blend: the top layer taken from the bottom one, floored at zero.
pub fn subtract_blend(top_pixels: &Pixels, bottom_pixels: &Pixels) -> (r: Result<
    Vec<Pixel>,
    CompositeError,
>)
    ensures
        blend_result(BlendMode::Subtract, top_pixels.data@, bottom_pixels.data@, r),
{
    blend(BlendMode::Subtract, top_pixels, bottom_pixels)
}

/// Screen blend: `255 - round((255 - top) * (255 - bottom) / 255)` in each channel.
pub fn screen_blend(top_pixels: &Pixels, bottom_pixels: &Pixels) -> (r: Result<
    Vec<Pixel>,
    CompositeError,
>)
    ensures
        blend_result(BlendMode::Screen, top_pixels.data@, bottom_pixels.data@, r),
{
    blend(BlendMode::Screen, top_pixels, bottom_pixels)
}

/// Overlay blend: in each channel, a doubled multiply where the bottom value
/// is below 128 and a doubled screen elsewhere.
pub fn overlay_blend(top_pixels: &Pixels, bottom_pixels: &Pixels) -> (r: Result<
    Vec<Pixel>,
    CompositeError,
>)
    ensures
        blend_result(BlendMode::Overlay, top_pixels.data@, bottom_pixels.data@, r),
{
    blend(BlendMode::Overlay, top_pixels, bottom_pixels)
}

} // verus!
