use tga::blend::{blend, multiply_blend, overlay_blend, screen_blend, subtract_blend, BlendMode};
use tga::codec::{decode, encode, make_pixels};
use tga::compose::{combine_channels, combine_images, extract_channels, flip};
use tga::image::{CompositeError, Data, DecodeError, Header, Pixel, Pixels};
use tga::parts::{
    extra_credit, part1, part10, part2, part3, part4, part5, part6, part7, part8, part9,
};

fn px(blue: u8, green: u8, red: u8) -> Pixel {
    Pixel { blue, green, red }
}

fn pixels(v: Vec<Pixel>) -> Pixels {
    Pixels { data: v }
}

fn header(w: u16, h: u16) -> Header {
    Header {
        id_length: 0,
        type_map: 0,
        image_type: 2,
        color_map_details: [0; 5],
        image_details: [0, 0, 0, 0, (w % 256) as u8, (w / 256) as u8, (h % 256) as u8, (h / 256) as u8, 24, 0],
    }
}

fn image(w: u16, h: u16, v: Vec<Pixel>) -> Data {
    Data { header: header(w, h), pixels: pixels(v) }
}

fn filled(w: u16, h: u16, p: Pixel) -> Data {
    image(w, h, vec![p; w as usize * h as usize])
}

// ---- codec ----

#[test]
fn header_to_bytes_is_field_order() {
    let h = Header {
        id_length: 1,
        type_map: 2,
        image_type: 3,
        color_map_details: [4, 5, 6, 7, 8],
        image_details: [9, 10, 11, 12, 13, 14, 15, 16, 17, 18],
    };
    let expected: [u8; 18] = [1, 2, 3, 4, 5, 6, 7, 8, 9, 10, 11, 12, 13, 14, 15, 16, 17, 18];
    assert_eq!(h.to_bytes(), expected);
}

#[test]
fn header_width_height_are_little_endian() {
    let h = header(512, 300);
    assert_eq!(h.width(), 512);
    assert_eq!(h.height(), 300);
    assert_eq!(h.to_bytes()[12], 0);
    assert_eq!(h.to_bytes()[13], 2);
    assert_eq!(h.to_bytes()[14], 44);
    assert_eq!(h.to_bytes()[15], 1);
}

#[test]
fn make_pixels_reads_bgr_and_drops_leftover() {
    let v = make_pixels(&[1, 2, 3, 4, 5, 6, 7, 8]);
    assert_eq!(v, vec![px(1, 2, 3), px(4, 5, 6)]);
    assert_eq!(make_pixels(&[]), vec![]);
    assert_eq!(make_pixels(&[9, 9]), vec![]);
}

#[test]
fn decode_truncated_header() {
    let bytes = [0u8; 17];
    assert!(matches!(decode(&bytes), Err(DecodeError::Truncated)));
    assert!(matches!(decode(&[]), Err(DecodeError::Truncated)));
}

#[test]
fn decode_header_only() {
    let mut bytes = vec![0u8; 18];
    bytes[2] = 2;
    bytes[12] = 7;
    let img = decode(&bytes).unwrap();
    assert_eq!(img.header.image_type, 2);
    assert_eq!(img.header.width(), 7);
    assert!(img.pixels.data.is_empty());
}

#[test]
fn decode_splits_header_and_pixels() {
    let mut bytes: Vec<u8> = (0..18).collect();
    bytes.extend_from_slice(&[10, 20, 30, 40, 50, 60, 70]);
    let img = decode(&bytes).unwrap();
    assert_eq!(img.header.id_length, 0);
    assert_eq!(img.header.type_map, 1);
    assert_eq!(img.header.image_type, 2);
    assert_eq!(img.header.color_map_details, [3, 4, 5, 6, 7]);
    assert_eq!(img.header.image_details, [8, 9, 10, 11, 12, 13, 14, 15, 16, 17]);
    assert_eq!(img.pixels.data, vec![px(10, 20, 30), px(40, 50, 60)]);
}

#[test]
fn encode_writes_header_then_bgr() {
    let img = image(2, 1, vec![px(1, 2, 3), px(4, 5, 6)]);
    let bytes = encode(&img);
    assert_eq!(bytes.len(), 24);
    assert_eq!(&bytes[0..18], &img.header.to_bytes()[..]);
    assert_eq!(&bytes[18..], &[1, 2, 3, 4, 5, 6]);
}

#[test]
fn round_trip_keeps_header_and_pixels() {
    let h = Header {
        id_length: 0,
        type_map: 0,
        image_type: 2,
        color_map_details: [1, 2, 3, 4, 5],
        image_details: [6, 7, 8, 9, 3, 0, 2, 0, 24, 32],
    };
    let ps = vec![px(0, 0, 0), px(255, 255, 255), px(1, 128, 254), px(9, 8, 7), px(3, 4, 5), px(200, 100, 50)];
    let img = Data { header: h, pixels: pixels(ps.clone()) };
    let back = decode(&encode(&img)).unwrap();
    assert_eq!(back.header, h);
    assert_eq!(back.pixels.data, ps);
}

#[test]
fn round_trip_of_empty_image() {
    let img = image(0, 0, vec![]);
    let back = decode(&encode(&img)).unwrap();
    assert_eq!(back.header, img.header);
    assert!(back.pixels.data.is_empty());
}

// ---- blend modes ----

#[test]
fn multiply_exact_values() {
    let top = pixels(vec![px(100, 0, 255), px(128, 128, 1)]);
    let bottom = pixels(vec![px(200, 77, 128), px(128, 2, 1)]);
    // 100*200/255 = 78.4; 128*128/255 = 64.25; 128*2/255 = 1.004
    let r = multiply_blend(&top, &bottom).unwrap();
    assert_eq!(r, vec![px(78, 0, 128), px(64, 1, 0)]);
}

#[test]
fn multiply_rounds_half_up_cases() {
    // 3*85/255 = 1.0; 1*128/255 = 0.502 -> 1; 1*127/255 = 0.498 -> 0
    let top = pixels(vec![px(3, 1, 1)]);
    let bottom = pixels(vec![px(85, 128, 127)]);
    assert_eq!(multiply_blend(&top, &bottom).unwrap(), vec![px(1, 1, 0)]);
}

#[test]
fn multiply_white_identity() {
    let white = px(255, 255, 255);
    let ps = vec![px(0, 0, 0), px(1, 127, 254), px(255, 128, 64)];
    let whites = pixels(vec![white; 3]);
    assert_eq!(multiply_blend(&pixels(ps.clone()), &whites).unwrap(), ps);
    assert_eq!(multiply_blend(&whites, &pixels(ps.clone())).unwrap(), ps);
}

#[test]
fn subtract_floor() {
    let top = pixels(vec![px(200, 200, 200)]);
    let bottom = pixels(vec![px(50, 50, 50)]);
    assert_eq!(subtract_blend(&top, &bottom).unwrap(), vec![px(0, 0, 0)]);
}

#[test]
fn subtract_is_top_from_bottom() {
    let top = pixels(vec![px(10, 60, 0)]);
    let bottom = pixels(vec![px(50, 50, 255)]);
    assert_eq!(subtract_blend(&top, &bottom).unwrap(), vec![px(40, 0, 255)]);
    assert_eq!(subtract_blend(&bottom, &top).unwrap(), vec![px(0, 10, 0)]);
}

#[test]
fn screen_exact_values() {
    // 255 - round(155*55/255) = 255 - round(33.43) = 222
    let top = pixels(vec![px(100, 255, 0)]);
    let bottom = pixels(vec![px(200, 10, 0)]);
    assert_eq!(screen_blend(&top, &bottom).unwrap(), vec![px(222, 255, 0)]);
}

#[test]
fn screen_black_identity() {
    let ps = vec![px(0, 0, 0), px(1, 127, 254), px(255, 128, 64)];
    let blacks = pixels(vec![px(0, 0, 0); 3]);
    assert_eq!(screen_blend(&pixels(ps.clone()), &blacks).unwrap(), ps);
    assert_eq!(screen_blend(&blacks, &pixels(ps.clone())).unwrap(), ps);
}

#[test]
fn overlay_branch_boundary() {
    // bottom 128 takes the lighten branch: 255 - round(2*255*127/255) = 1, not 0
    let top = pixels(vec![px(0, 0, 0)]);
    let bottom = pixels(vec![px(128, 127, 129)]);
    assert_eq!(overlay_blend(&top, &bottom).unwrap(), vec![px(1, 0, 3)]);
}

#[test]
fn overlay_exact_values() {
    // blue: 2*100*50/255 = 39.2 -> 39; green: 255 - 2*155*55/255 = 188.1 -> 188
    // red: 2*200*127/255 = 199.2 -> 199
    let top = pixels(vec![px(100, 100, 200)]);
    let bottom = pixels(vec![px(50, 200, 127)]);
    assert_eq!(overlay_blend(&top, &bottom).unwrap(), vec![px(39, 188, 199)]);
}

#[test]
fn blend_dimension_mismatch() {
    let four = pixels(vec![px(1, 2, 3); 4]);
    let five = pixels(vec![px(1, 2, 3); 5]);
    assert_eq!(multiply_blend(&four, &five), Err(CompositeError::DimensionMismatch));
    assert_eq!(subtract_blend(&four, &five), Err(CompositeError::DimensionMismatch));
    assert_eq!(screen_blend(&five, &four), Err(CompositeError::DimensionMismatch));
    assert_eq!(overlay_blend(&four, &five), Err(CompositeError::DimensionMismatch));
    assert_eq!(blend(BlendMode::Multiply, &four, &five), Err(CompositeError::DimensionMismatch));
}

#[test]
fn blend_of_empty_layers() {
    let empty = pixels(vec![]);
    assert_eq!(multiply_blend(&empty, &empty), Ok(vec![]));
}

// ---- channels and geometry ----

#[test]
fn combine_channels_takes_one_channel_each() {
    let b = image(2, 1, vec![px(1, 2, 3), px(4, 5, 6)]);
    let g = image(9, 9, vec![px(7, 8, 9), px(10, 11, 12)]);
    let r = image(9, 9, vec![px(13, 14, 15), px(16, 17, 18)]);
    let out = combine_channels(&b, &g, &r).unwrap();
    assert_eq!(out.header, b.header);
    assert_eq!(out.pixels.data, vec![px(1, 8, 15), px(4, 11, 18)]);
}

#[test]
fn combine_channels_mismatch() {
    let b = image(2, 1, vec![px(1, 2, 3), px(4, 5, 6)]);
    let g = image(1, 1, vec![px(7, 8, 9)]);
    assert!(matches!(combine_channels(&b, &g, &b), Err(CompositeError::DimensionMismatch)));
    assert!(matches!(combine_channels(&b, &b, &g), Err(CompositeError::DimensionMismatch)));
}

#[test]
fn extract_channels_gives_gray_views() {
    let (b, g, r) = extract_channels(&pixels(vec![px(1, 2, 3), px(40, 50, 60)]));
    assert_eq!(b, vec![px(1, 1, 1), px(40, 40, 40)]);
    assert_eq!(g, vec![px(2, 2, 2), px(50, 50, 50)]);
    assert_eq!(r, vec![px(3, 3, 3), px(60, 60, 60)]);
}

#[test]
fn flip_two_by_two() {
    let a0 = px(1, 1, 1);
    let a1 = px(2, 2, 2);
    let b0 = px(3, 3, 3);
    let b1 = px(4, 4, 4);
    let img = image(2, 2, vec![a0, a1, b0, b1]);
    assert_eq!(flip(&img), vec![b0, b1, a0, a1]);
}

#[test]
fn flip_three_rows() {
    let img = image(1, 3, vec![px(1, 0, 0), px(2, 0, 0), px(3, 0, 0)]);
    assert_eq!(flip(&img), vec![px(3, 0, 0), px(2, 0, 0), px(1, 0, 0)]);
}

#[test]
fn quadrant_mapping_four_by_four() {
    let srcs = [
        filled(4, 4, px(0, 0, 0)),
        filled(4, 4, px(1, 1, 1)),
        filled(4, 4, px(2, 2, 2)),
        filled(4, 4, px(3, 3, 3)),
    ];
    let out = combine_images([&srcs[0], &srcs[1], &srcs[2], &srcs[3]]).unwrap();
    let at = |row: usize, col: usize| out.pixels.data[row * 4 + col];
    assert_eq!(at(0, 0), px(0, 0, 0));
    assert_eq!(at(0, 3), px(1, 1, 1));
    assert_eq!(at(3, 0), px(2, 2, 2));
    assert_eq!(at(3, 3), px(3, 3, 3));
    assert_eq!(at(1, 1), px(0, 0, 0));
    assert_eq!(at(1, 2), px(1, 1, 1));
    assert_eq!(at(2, 1), px(2, 2, 2));
    assert_eq!(at(2, 2), px(3, 3, 3));
    assert_eq!(out.pixels.data.len(), 16);
}

#[test]
fn quadrant_copies_same_position() {
    let ramp: Vec<Pixel> = (0..4u8).map(|i| px(i, 10 + i, 20 + i)).collect();
    let a = image(2, 2, ramp.clone());
    let b = image(2, 2, ramp.iter().map(|p| px(p.blue + 100, p.green, p.red)).collect());
    let out = combine_images([&a, &b, &a, &b]).unwrap();
    assert_eq!(out.pixels.data, vec![ramp[0], px(101, 11, 21), ramp[2], px(103, 13, 23)]);
}

#[test]
fn quadrant_header_is_fresh() {
    let mut a = filled(2, 2, px(5, 5, 5));
    a.header.id_length = 9;
    a.header.color_map_details = [1; 5];
    a.header.image_details[0] = 3;
    let out = combine_images([&a, &a, &a, &a]).unwrap();
    let expected: [u8; 18] = [0, 0, 2, 0, 0, 0, 0, 0, 0, 0, 0, 0, 2, 0, 2, 0, 24, 0];
    assert_eq!(out.header.to_bytes(), expected);
}

#[test]
fn quadrant_dimension_mismatch() {
    let a = filled(2, 2, px(1, 1, 1));
    let b = filled(2, 3, px(1, 1, 1));
    assert!(matches!(combine_images([&a, &a, &a, &b]), Err(CompositeError::DimensionMismatch)));
    let short = image(2, 2, vec![px(1, 1, 1); 3]);
    assert!(matches!(combine_images([&a, &short, &a, &a]), Err(CompositeError::DimensionMismatch)));
    assert!(matches!(combine_images([&short, &a, &a, &a]), Err(CompositeError::DimensionMismatch)));
}

// ---- processing steps ----

#[test]
fn steps_blend_under_top_header() {
    let top = image(1, 1, vec![px(100, 200, 0)]);
    let bottom = image(7, 7, vec![px(200, 50, 255)]);
    let r1 = part1(&top, &bottom).unwrap();
    assert_eq!(r1.header, top.header);
    assert_eq!(r1.pixels.data, vec![px(78, 39, 0)]);
    let r2 = part2(&top, &bottom).unwrap();
    assert_eq!(r2.pixels.data, vec![px(100, 0, 255)]);
    let r5 = part5(&top, &bottom).unwrap();
    // blue: 255 - 2*155*55/255 = 188.1; green: 2*200*50/255 = 78.4; red: 255 - 0 = 255
    assert_eq!(r5.pixels.data, vec![px(188, 78, 255)]);
    let long = image(1, 2, vec![px(0, 0, 0); 2]);
    assert!(matches!(part1(&top, &long), Err(CompositeError::DimensionMismatch)));
}

#[test]
fn step_three_multiplies_then_screens() {
    let layer = image(1, 1, vec![px(100, 0, 255)]);
    let pattern = image(1, 1, vec![px(200, 0, 255)]);
    let text = image(3, 3, vec![px(0, 255, 0)]);
    let out = part3(&layer, &pattern, &text).unwrap();
    assert_eq!(out.header, text.header);
    assert_eq!(out.pixels.data, vec![px(78, 255, 255)]);
    let two = image(1, 2, vec![px(0, 0, 0); 2]);
    assert!(matches!(part3(&layer, &pattern, &two), Err(CompositeError::DimensionMismatch)));
}

#[test]
fn step_four_multiplies_then_subtracts() {
    let layer = image(1, 1, vec![px(100, 255, 255)]);
    let circles = image(1, 1, vec![px(200, 100, 255)]);
    let pattern = image(5, 5, vec![px(8, 200, 5)]);
    let out = part4(&layer, &circles, &pattern).unwrap();
    assert_eq!(out.header, pattern.header);
    assert_eq!(out.pixels.data, vec![px(70, 0, 250)]);
}

#[test]
fn step_six_boosts_green() {
    let img = image(3, 1, vec![px(1, 0, 2), px(1, 55, 2), px(1, 56, 2)]);
    let out = part6(&img);
    assert_eq!(out.header, img.header);
    assert_eq!(out.pixels.data, vec![px(1, 200, 2), px(1, 255, 2), px(1, 255, 2)]);
}

#[test]
fn step_seven_scales_red_clears_blue() {
    let img = image(3, 1, vec![px(9, 7, 10), px(9, 7, 63), px(9, 7, 64)]);
    let out = part7(&img);
    assert_eq!(out.pixels.data, vec![px(0, 7, 40), px(0, 7, 252), px(0, 7, 255)]);
}

#[test]
fn step_eight_splits_red_green_blue() {
    let img = image(1, 1, vec![px(1, 2, 3)]);
    let (r, g, b) = part8(&img);
    assert_eq!(r.pixels.data, vec![px(3, 3, 3)]);
    assert_eq!(g.pixels.data, vec![px(2, 2, 2)]);
    assert_eq!(b.pixels.data, vec![px(1, 1, 1)]);
    assert_eq!(r.header, img.header);
}

#[test]
fn step_nine_ten_and_tiles() {
    let b = image(1, 2, vec![px(1, 0, 0), px(2, 0, 0)]);
    let g = image(1, 2, vec![px(0, 3, 0), px(0, 4, 0)]);
    let r = image(1, 2, vec![px(0, 0, 5), px(0, 0, 6)]);
    let combined = part9(&b, &g, &r).unwrap();
    assert_eq!(combined.pixels.data, vec![px(1, 3, 5), px(2, 4, 6)]);
    let flipped = part10(&combined);
    assert_eq!(flipped.header, combined.header);
    assert_eq!(flipped.pixels.data, vec![px(2, 4, 6), px(1, 3, 5)]);
    let t = filled(2, 2, px(0, 0, 0));
    let u = filled(2, 2, px(9, 9, 9));
    let tiles = extra_credit(&t, &u, &u, &t).unwrap();
    assert_eq!(tiles.pixels.data, vec![px(0, 0, 0), px(9, 9, 9), px(9, 9, 9), px(0, 0, 0)]);
}
