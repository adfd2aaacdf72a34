//! Channel and geometric operations: channel combination and extraction,
//! vertical flip, quadrant composition.
use vstd::prelude::*;

use crate::image::{CompositeError, Data, Header, Pixel, Pixels};

verus! {

/// The pixel at `row`, `col` of a row-major buffer `width` pixels wide.
pub open spec fn at(ps: Seq<Pixel>, width: int, row: int, col: int) -> Pixel {
    ps[row * width + col]
}

/// A gray pixel: `v` in all three channels.
pub open spec fn gray(v: u8) -> Pixel {
    Pixel { blue: v, green: v, red: v }
}

/// Blue from `b`, green from `g`, red from `r`, index by index.
pub open spec fn combined(b: Seq<Pixel>, g: Seq<Pixel>, r: Seq<Pixel>) -> Seq<Pixel> {
    Seq::new(b.len(), |i: int| Pixel { blue: b[i].blue, green: g[i].green, red: r[i].red })
}

/// `ps` flipped upside down: row `row` of the result is row `h - 1 - row`
/// of `ps`, columns unchanged.
pub open spec fn is_flip_of(r: Seq<Pixel>, ps: Seq<Pixel>, w: int, h: int) -> bool {
    &&& r.len() == w * h
    &&& forall|row: int, col: int|
        0 <= row < h && 0 <= col < w ==> #[trigger] at(r, w, row, col) == at(ps, w, h - 1 - row, col)
}

/// Which of four `w` by `h` sources supplies cell `row`, `col` of a quadrant
/// composition: 0 top-left, 1 top-right, 2 bottom-left, 3 bottom-right.
pub open spec fn quadrant(row: int, col: int, w: int, h: int) -> int {
    if col < w / 2 {
        if row < h / 2 {
            0
        } else {
            2
        }
    } else {
        if row < h / 2 {
            1
        } else {
            3
        }
    }
}

/// `img` is `w` by `h` pixels, by its header and by its buffer.
pub open spec fn has_geometry(img: &Data, w: int, h: int) -> bool {
    &&& img.header.spec_width() == w
    &&& img.header.spec_height() == h
    &&& img.pixels.data@.len() == w * h
}

/// Four images fit together for a quadrant composition: all have the
/// geometry that the first one's header states.
pub open spec fn same_geometry(images: [&Data; 4]) -> bool {
    let w = images@[0].header.spec_width() as int;
    let h = images@[0].header.spec_height() as int;
    forall|q: int| 0 <= q < 4 ==> has_geometry(#[trigger] images@[q], w, h)
}

/// The header of a quadrant composition: an uncompressed truecolor image
/// with no id and no color map, origin 0, 24 bits per pixel, and the width
/// and height fields of `first`.
pub open spec fn composite_header_bytes(first: Header) -> Seq<u8> {
    seq![0u8, 0, 2, 0, 0, 0, 0, 0, 0, 0, 0, 0] + first.image_details@.subrange(4, 8) + seq![
        24u8,
        0,
    ]
}

/// `r` tiles four `w` by `h` sources: each cell comes from the source that
/// `quadrant` picks, at the same row and column.
pub open spec fn is_quadrant_composition(r: Seq<Pixel>, images: [&Data; 4], w: int, h: int) -> bool {
    &&& r.len() == w * h
    &&& forall|row: int, col: int|
        0 <= row < h && 0 <= col < w ==> #[trigger] at(r, w, row, col) == at(
            images@[quadrant(row, col, w, h)].pixels.data@,
            w,
            row,
            col,
        )
}

/// Cells before row `i` of a row-major buffer come before the row.
proof fn lemma_cell_before_row(w: int, row: int, col: int, i: int)
    requires
        0 <= row < i,
        0 <= col < w,
    ensures
        0 <= row * w + col < i * w,
        row * w + col + 1 <= i * w,
        i * w == w * i,
{
    assert(i * w == w * i) by (nonlinear_arith);
    assert(row * w + col < i * w) by (nonlinear_arith)
        requires
            0 <= row < i,
            0 <= col < w,
    ;
    assert(0 <= row * w) by (nonlinear_arith)
        requires
            0 <= row,
            0 <= col < w,
    ;
}

/// Builds one image from three: blue from the first, green from the
/// second, red from the third, with the first one's header. Buffers of
/// different lengths are refused with `DimensionMismatch`.
pub fn combine_channels(blue_channel: &Data, green_channel: &Data, red_channel: &Data) -> (r:
    Result<Data, CompositeError>)
    ensures
        ({
            let (b, g, rd) = (
                blue_channel.pixels.data@,
                green_channel.pixels.data@,
                red_channel.pixels.data@,
            );
            match r {
                Ok(img) => {
                    &&& b.len() == g.len() && b.len() == rd.len()
                    &&& img.header == blue_channel.header
                    &&& img.pixels.data@ == combined(b, g, rd)
                },
                Err(e) => !(b.len() == g.len() && b.len() == rd.len()) && e
                    == CompositeError::DimensionMismatch,
            }
        }),
{
    let b = &blue_channel.pixels.data;
    let g = &green_channel.pixels.data;
    let rd = &red_channel.pixels.data;
    let n = b.len();
    if n != g.len() || n != rd.len() {
        return Err(CompositeError::DimensionMismatch);
    }
    let mut combined_pixels: Vec<Pixel> = Vec::with_capacity(n);
    let mut i: usize = 0;
    while i < n
        invariant
            n == b@.len() && n == g@.len() && n == rd@.len(),
            i <= n,
            combined_pixels@.len() == i,
            forall|j: int| 0 <= j < i ==> combined_pixels@[j] == combined(b@, g@, rd@)[j],
        decreases n - i,
    {
        combined_pixels.push(Pixel { blue: b[i].blue, green: g[i].green, red: rd[i].red });
        i += 1;
    }
    assert(combined_pixels@ =~= combined(b@, g@, rd@));
    Ok(Data { header: blue_channel.header, pixels: Pixels { data: combined_pixels } })
}

/// Splits a buffer into three gray views, one per channel: the blue, the
/// green and the red value of each pixel copied into all three channels.
pub fn extract_channels(pixels: &Pixels) -> (r: (Vec<Pixel>, Vec<Pixel>, Vec<Pixel>))
    ensures
        r.0@ == pixels.data@.map_values(|p: Pixel| gray(p.blue)),
        r.1@ == pixels.data@.map_values(|p: Pixel| gray(p.green)),
        r.2@ == pixels.data@.map_values(|p: Pixel| gray(p.red)),
{
    let ps = &pixels.data;
    let mut blues: Vec<Pixel> = Vec::with_capacity(ps.len());
    let mut greens: Vec<Pixel> = Vec::with_capacity(ps.len());
    let mut reds: Vec<Pixel> = Vec::with_capacity(ps.len());
    let mut i: usize = 0;
    while i < ps.len()
        invariant
            i <= ps@.len(),
            blues@.len() == i && greens@.len() == i && reds@.len() == i,
            forall|j: int|
                0 <= j < i ==> {
                    &&& blues@[j] == gray(ps@[j].blue)
                    &&& greens@[j] == gray(ps@[j].green)
                    &&& reds@[j] == gray(ps@[j].red)
                },
        decreases ps@.len() - i,
    {
        let p = ps[i];
        blues.push(Pixel { blue: p.blue, green: p.blue, red: p.blue });
        greens.push(Pixel { blue: p.green, green: p.green, red: p.green });
        reds.push(Pixel { blue: p.red, green: p.red, red: p.red });
        i += 1;
    }
    assert(blues@ =~= ps@.map_values(|p: Pixel| gray(p.blue)));
    assert(greens@ =~= ps@.map_values(|p: Pixel| gray(p.green)));
    assert(reds@ =~= ps@.map_values(|p: Pixel| gray(p.red)));
    (blues, greens, reds)
}

/// Flips an image upside down: row `i` of the result is row `h - 1 - i` of
/// the image, where `w` and `h` are the width and height its header states.
pub fn flip(image: &Data) -> (r: Vec<Pixel>)
    requires
        image.pixels.data@.len() == image.header.spec_width() * image.header.spec_height(),
    ensures
        is_flip_of(
            r@,
            image.pixels.data@,
            image.header.spec_width() as int,
            image.header.spec_height() as int,
        ),
{
    let w = image.header.width() as usize;
    let h = image.header.height() as usize;
    let ps = &image.pixels.data;
    let n = ps.len();
    let mut flipped_pixels: Vec<Pixel> = Vec::new();
    let mut i: usize = 0;
    while i < h
        invariant
            ps@.len() == w * h,
            n == ps@.len(),
            i <= h,
            flipped_pixels@.len() == i * w,
            forall|row: int, col: int|
                0 <= row < i && 0 <= col < w ==> #[trigger] at(flipped_pixels@, w as int, row, col)
                    == at(ps@, w as int, h - 1 - row, col),
        decreases h - i,
    {
        let ghost done = flipped_pixels@;
        let mut j: usize = 0;
        while j < w
            invariant
                ps@.len() == w * h,
                n == ps@.len(),
                i < h,
                j <= w,
                flipped_pixels@.len() == i * w + j,
                flipped_pixels@.subrange(0, i * w) == done,
                forall|col: int|
                    0 <= col < j ==> #[trigger] flipped_pixels@[i * w + col] == at(
                        ps@,
                        w as int,
                        h - 1 - i,
                        col,
                    ),
            decreases w - j,
        {
            proof {
                lemma_cell_before_row(w as int, (h - 1 - i) as int, j as int, h as int);
            }
            let ghost before = flipped_pixels@;
            flipped_pixels.push(ps[(h - 1 - i) * w + j]);
            assert(flipped_pixels@.subrange(0, i * w) =~= before.subrange(0, i * w));
            j += 1;
        }
        assert((i + 1) * w == i * w + w) by (nonlinear_arith);
        assert forall|row: int, col: int| 0 <= row < i + 1 && 0 <= col < w implies #[trigger] at(
            flipped_pixels@,
            w as int,
            row,
            col,
        ) == at(ps@, w as int, h - 1 - row, col) by {
            if row < i {
                lemma_cell_before_row(w as int, row, col, i as int);
                assert(flipped_pixels@[row * w + col] == flipped_pixels@.subrange(0, i * w)[row * w
                    + col]);
                assert(at(done, w as int, row, col) == at(ps@, w as int, h - 1 - row, col));
            } else {
                assert(flipped_pixels@[i * w + col] == at(ps@, w as int, h - 1 - i, col));
            }
        }
        i += 1;
    }
    assert(h * w == w * h) by (nonlinear_arith);
    flipped_pixels
}

/// Tiles four images of one size into one of that size: the top-left
/// quarter from the first, top-right from the second, bottom-left from the
/// third, bottom-right from the fourth, split at half the width and half
/// the height. The size is the one the first image's header states; an
/// image whose header or buffer does not have it is refused with
/// `DimensionMismatch`. The result gets a fresh header with that size.
pub fn combine_images(images: [&Data; 4]) -> (r: Result<Data, CompositeError>)
    ensures
        match r {
            Ok(img) => {
                &&& same_geometry(images)
                &&& img.header.spec_bytes() == composite_header_bytes(images@[0].header)
                &&& is_quadrant_composition(
                    img.pixels.data@,
                    images,
                    images@[0].header.spec_width() as int,
                    images@[0].header.spec_height() as int,
                )
            },
            Err(e) => !same_geometry(images) && e == CompositeError::DimensionMismatch,
        },
{
    let first = images[0];
    let w = first.header.width() as usize;
    let h = first.header.height() as usize;
    assert(w * h <= 65535 * 65535) by (nonlinear_arith)
        requires
            w <= 65535,
            h <= 65535,
    ;
    let n = w * h;
    let mut k: usize = 0;
    while k < 4
        invariant
            k <= 4,
            w == images@[0].header.spec_width(),
            h == images@[0].header.spec_height(),
            n == w * h,
            forall|q: int| 0 <= q < k ==> has_geometry(#[trigger] images@[q], w as int, h as int),
        decreases 4 - k,
    {
        let img = images[k];
        if img.header.width() as usize != w || img.header.height() as usize != h
            || img.pixels.data.len() != n {
            assert(!has_geometry(images@[k as int], w as int, h as int));
            return Err(CompositeError::DimensionMismatch);
        }
        k += 1;
    }
    let mut combined_pixels: Vec<Pixel> = Vec::new();
    let mut i: usize = 0;
    while i < h
        invariant
            w == images@[0].header.spec_width(),
            h == images@[0].header.spec_height(),
            n == w * h,
            same_geometry(images),
            i <= h,
            combined_pixels@.len() == i * w,
            forall|row: int, col: int|
                0 <= row < i && 0 <= col < w ==> #[trigger] at(combined_pixels@, w as int, row, col)
                    == at(
                    images@[quadrant(row, col, w as int, h as int)].pixels.data@,
                    w as int,
                    row,
                    col,
                ),
        decreases h - i,
    {
        let ghost done = combined_pixels@;
        let mut j: usize = 0;
        while j < w
            invariant
                w == images@[0].header.spec_width(),
                h == images@[0].header.spec_height(),
                n == w * h,
                same_geometry(images),
                i < h,
                j <= w,
                combined_pixels@.len() == i * w + j,
                combined_pixels@.subrange(0, i * w) == done,
                forall|col: int|
                    0 <= col < j ==> #[trigger] combined_pixels@[i * w + col] == at(
                        images@[quadrant(i as int, col, w as int, h as int)].pixels.data@,
                        w as int,
                        i as int,
                        col,
                    ),
            decreases w - j,
        {
            let q: usize = if j < w / 2 {
                if i < h / 2 {
                    0
                } else {
                    2
                }
            } else {
                if i < h / 2 {
                    1
                } else {
                    3
                }
            };
            let src = images[q];
            proof {
                lemma_cell_before_row(w as int, i as int, j as int, h as int);
                assert(has_geometry(images@[q as int], w as int, h as int));
            }
            let ghost before = combined_pixels@;
            combined_pixels.push(src.pixels.data[i * w + j]);
            assert(combined_pixels@.subrange(0, i * w) =~= before.subrange(0, i * w));
            j += 1;
        }
        assert((i + 1) * w == i * w + w) by (nonlinear_arith);
        assert forall|row: int, col: int| 0 <= row < i + 1 && 0 <= col < w implies #[trigger] at(
            combined_pixels@,
            w as int,
            row,
            col,
        ) == at(
            images@[quadrant(row, col, w as int, h as int)].pixels.data@,
            w as int,
            row,
            col,
        ) by {
            if row < i {
                lemma_cell_before_row(w as int, row, col, i as int);
                assert(combined_pixels@[row * w + col] == combined_pixels@.subrange(0, i * w)[row
                    * w + col]);
                assert(at(done, w as int, row, col) == at(
                    images@[quadrant(row, col, w as int, h as int)].pixels.data@,
                    w as int,
                    row,
                    col,
                ));
            } else {
                assert(combined_pixels@[i * w + col] == at(
                    images@[quadrant(i as int, col, w as int, h as int)].pixels.data@,
                    w as int,
                    i as int,
                    col,
                ));
            }
        }
        i += 1;
    }
    let d = &first.header.image_details;
    let combined_header = Header {
        id_length: 0,
        type_map: 0,
        image_type: 2,
        color_map_details: [0, 0, 0, 0, 0],
        image_details: [0, 0, 0, 0, d[4], d[5], d[6], d[7], 24, 0],
    };
    assert(combined_header.spec_bytes() =~= composite_header_bytes(first.header));
    assert(h * w == w * h) by (nonlinear_arith);
    Ok(Data { header: combined_header, pixels: Pixels { data: combined_pixels } })
}

} // verus!
