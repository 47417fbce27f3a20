use mu::mu_egui::artwork::{decode, expand_luma_alpha, gather, halve, premultiply_rgba, ready, reduce, resample, weights_from_sums, Axis, Cover};

fn pixels_of(c: Cover) -> Option<(Vec<u8>, usize, usize)> {
    match c {
        Cover::Pixels(v, w, h) => Some((v, w, h)),
        _ => None,
    }
}

fn px(c: [u32; 4]) -> u32 {
    c[0] | (c[1] << 8) | (c[2] << 16) | (c[3] << 24)
}

fn ch(p: u32) -> [u32; 4] {
    [p & 0xff, (p >> 8) & 0xff, (p >> 16) & 0xff, p >> 24]
}

#[test]
fn halving_averages_blocks() {
    let a = px([10, 20, 30, 255]);
    let b = px([11, 21, 31, 255]);
    let c = px([12, 22, 32, 0]);
    let d = px([255, 0, 1, 1]);
    let out = halve(&[a, b, c, d], 2, 2);
    assert_eq!(out.len(), 1);
    assert_eq!(ch(out[0]), [(10 + 11 + 12 + 255 + 2) / 4, (20 + 21 + 22 + 2) / 4, (30 + 31 + 32 + 1 + 2) / 4, (255 + 255 + 1 + 2) / 4]);
}

#[test]
fn halving_odd_sizes_repeats_the_edge() {
    let p0 = px([0, 0, 0, 0]);
    let p1 = px([4, 8, 12, 16]);
    let p2 = px([7, 7, 7, 7]);
    let out = halve(&[p0, p1, p2], 3, 1);
    assert_eq!(out.len(), 2);
    assert_eq!(ch(out[0]), [(8 + 2) / 4, (16 + 2) / 4, (24 + 2) / 4, (32 + 2) / 4]);
    assert_eq!(out[1], p2);
}

#[test]
fn reducing_stops_before_the_target() {
    let src = vec![px([100, 100, 100, 100]); 64];
    let (out, w, h) = reduce(&src, 8, 8, 2, 2);
    assert_eq!((w, h), (2, 2));
    assert_eq!(out, vec![px([100, 100, 100, 100]); 4]);
    let (out, w, h) = reduce(&src, 8, 8, 3, 3);
    assert_eq!((w, h, out.len()), (4, 4, 16));
    let (out, w, h) = reduce(&src, 8, 8, 5, 1);
    assert_eq!((w, h), (8, 8));
    assert_eq!(out, src);
}

#[test]
fn gathering_weights_each_channel() {
    let a = px([200, 0, 10, 255]);
    let b = px([100, 255, 30, 255]);
    let weights = [0u16, 128, 128, 7];
    let out = gather(&[a, 0, b], 0, 2, &weights, 1, 2);
    assert_eq!(ch(out), [(200 * 128 + 100 * 128) / 256, (255 * 128) / 256, (10 * 128 + 30 * 128) / 256, 255]);
    let out = gather(&[a], 0, 1, &[256], 0, 1);
    assert_eq!(out, a);
}

#[test]
fn resampling_with_an_identity_axis_copies() {
    let src: Vec<u32> = (0..6).map(|i| px([i, 2 * i, 3 * i, 255])).collect();
    let horizontal = Axis { taps: 1, first: vec![0, 1, 2], weights: vec![256, 256, 256] };
    let vertical = Axis { taps: 1, first: vec![0, 1], weights: vec![256, 256] };
    assert_eq!(resample(&src, 3, 2, 3, 2, &horizontal, &vertical), src);
}

#[test]
fn resampling_averages_pairs() {
    let src: Vec<u32> = vec![px([0, 0, 0, 0]), px([100, 0, 0, 0]), px([200, 0, 0, 0]), px([255, 0, 0, 0])];
    let horizontal = Axis { taps: 2, first: vec![0], weights: vec![128, 128] };
    let vertical = Axis { taps: 2, first: vec![0], weights: vec![128, 128] };
    let out = resample(&src, 2, 2, 1, 1, &horizontal, &vertical);
    let top = (0 * 128 + 100 * 128) / 256;
    let bottom = (200 * 128 + 255 * 128) / 256;
    assert_eq!(ch(out[0]), [(top * 128 + bottom * 128) / 256, 0, 0, 0]);
}

#[test]
fn premultiplying_scales_colour_by_alpha() {
    let mut bytes = vec![200u8, 100, 50, 128, 9, 9, 9, 255, 9, 9, 9, 0];
    premultiply_rgba(&mut bytes);
    assert_eq!(bytes, vec![100, 50, 25, 128, 9, 9, 9, 255, 0, 0, 0, 0]);
}

#[test]
fn luma_alpha_expands_to_rgba() {
    let out = expand_luma_alpha(&[255, 255, 10, 0, 100, 51, 7], 3);
    assert_eq!(out, vec![255, 255, 255, 255, 0, 0, 0, 0, 20, 20, 20, 51]);
}

const RGBA_PNG: &[u8] = &[137, 80, 78, 71, 13, 10, 26, 10, 0, 0, 0, 13, 73, 72, 68, 82, 0, 0, 0, 2, 0, 0, 0, 1, 8, 6, 0, 0, 0, 244, 34, 127, 138, 0, 0, 0, 17, 73, 68, 65, 84, 120, 156, 99, 56, 145, 98, 212, 192, 201, 201, 249, 31, 0, 14, 1, 2, 249, 138, 46, 4, 182, 0, 0, 0, 0, 73, 69, 78, 68, 174, 66, 96, 130];
const GREY_PNG: &[u8] = &[137, 80, 78, 71, 13, 10, 26, 10, 0, 0, 0, 13, 73, 72, 68, 82, 0, 0, 0, 1, 0, 0, 0, 1, 8, 0, 0, 0, 0, 58, 126, 155, 85, 0, 0, 0, 10, 73, 68, 65, 84, 120, 156, 99, 72, 1, 0, 0, 102, 0, 101, 122, 160, 198, 146, 0, 0, 0, 0, 73, 69, 78, 68, 174, 66, 96, 130];
const GREY_JPEG: &[u8] = &[255, 216, 255, 219, 0, 67, 0, 1, 1, 1, 1, 1, 1, 1, 1, 1, 1, 1, 1, 1, 1, 1, 1, 1, 1, 1, 1, 1, 1, 1, 1, 1, 1, 1, 1, 1, 1, 1, 1, 1, 1, 1, 1, 1, 1, 1, 1, 1, 1, 1, 1, 1, 1, 1, 1, 1, 1, 1, 1, 1, 1, 1, 1, 1, 1, 1, 1, 1, 1, 1, 1, 255, 192, 0, 11, 8, 0, 8, 0, 8, 1, 1, 17, 0, 255, 196, 0, 210, 0, 0, 1, 5, 1, 1, 1, 1, 1, 1, 0, 0, 0, 0, 0, 0, 0, 0, 1, 2, 3, 4, 5, 6, 7, 8, 9, 10, 11, 16, 0, 2, 1, 3, 3, 2, 4, 3, 5, 5, 4, 4, 0, 0, 1, 125, 1, 2, 3, 0, 4, 17, 5, 18, 33, 49, 65, 6, 19, 81, 97, 7, 34, 113, 20, 50, 129, 145, 161, 8, 35, 66, 177, 193, 21, 82, 209, 240, 36, 51, 98, 114, 130, 9, 10, 22, 23, 24, 25, 26, 37, 38, 39, 40, 41, 42, 52, 53, 54, 55, 56, 57, 58, 67, 68, 69, 70, 71, 72, 73, 74, 83, 84, 85, 86, 87, 88, 89, 90, 99, 100, 101, 102, 103, 104, 105, 106, 115, 116, 117, 118, 119, 120, 121, 122, 131, 132, 133, 134, 135, 136, 137, 138, 146, 147, 148, 149, 150, 151, 152, 153, 154, 162, 163, 164, 165, 166, 167, 168, 169, 170, 178, 179, 180, 181, 182, 183, 184, 185, 186, 194, 195, 196, 197, 198, 199, 200, 201, 202, 210, 211, 212, 213, 214, 215, 216, 217, 218, 225, 226, 227, 228, 229, 230, 231, 232, 233, 234, 241, 242, 243, 244, 245, 246, 247, 248, 249, 250, 255, 218, 0, 8, 1, 1, 0, 0, 63, 0, 43, 255, 217];

#[test]
fn decoding_png_premultiplies() {
    let (pixels, w, h) = pixels_of(decode(RGBA_PNG)).unwrap();
    assert_eq!((w, h), (2, 1));
    assert_eq!(pixels, vec![100, 50, 25, 128, 9, 9, 9, 255]);
}

#[test]
fn decoding_grey_png_spreads_luma() {
    let (pixels, w, h) = pixels_of(decode(GREY_PNG)).unwrap();
    assert_eq!((w, h), (1, 1));
    assert_eq!(pixels, vec![100, 100, 100, 255]);
}

#[test]
fn decoding_jpeg_is_left_to_the_caller() {
    assert!(matches!(decode(GREY_JPEG), Cover::Jpeg));
    let options = zune_core::options::DecoderOptions::default()
        .jpeg_set_out_colorspace(zune_core::colorspace::ColorSpace::RGBA);
    let mut decoder = zune_jpeg::JpegDecoder::new_with_options(zune_core::bytestream::ZCursor::new(GREY_JPEG), options);
    decoder.decode_headers().unwrap();
    let info = decoder.info().unwrap();
    let mut samples = vec![0u8; decoder.output_buffer_size().unwrap()];
    decoder.decode_into(&mut samples).unwrap();
    let (pixels, w, h) = ready(samples, info.width as usize, info.height as usize).unwrap();
    assert_eq!((w, h), (8, 8));
    assert_eq!(pixels.len(), 256);
    assert!(pixels.chunks(4).all(|p| p == [128, 128, 128, 255]));
}

#[test]
fn decoding_other_bytes_fails() {
    assert!(matches!(decode(b"not an image"), Cover::Unreadable));
    assert!(matches!(decode(&[0x89, 0x50, 0x4E, 0x47, 1, 2, 3]), Cover::Unreadable));
    assert!(matches!(decode(&[0xFF, 0xD8, 0]), Cover::Jpeg));
}

#[test]
fn ready_premultiplies_four_channel_samples() {
    let out = ready(vec![200, 100, 50, 128, 9, 9, 9, 255, 77], 2, 1).unwrap();
    assert_eq!(out, (vec![100, 50, 25, 128, 9, 9, 9, 255], 2, 1));
}

#[test]
fn ready_spreads_two_channel_samples() {
    let out = ready(vec![10, 0, 100, 51], 2, 1).unwrap();
    assert_eq!(out, (vec![0, 0, 0, 0, 20, 20, 20, 51], 2, 1));
}

#[test]
fn ready_refuses_other_layouts() {
    assert!(ready(vec![1, 2, 3, 4, 5, 6], 2, 1).is_none());
    assert!(ready(vec![1, 2, 3, 4], 0, 1).is_none());
    assert!(ready(vec![1], 1, 1).is_none());
}

#[test]
fn a_uniform_colour_survives_reduce_and_resample() {
    let p = px([37, 200, 3, 129]);
    let src = vec![p; 8 * 6];
    let (small, w, h) = reduce(&src, 8, 6, 3, 2);
    assert_eq!((w, h), (4, 3));
    assert_eq!(small, vec![p; w * h]);
    let horizontal = Axis { taps: 2, first: vec![0, 1, 2], weights: vec![100, 156, 256, 0, 1, 255] };
    let vertical = Axis { taps: 3, first: vec![0, 0], weights: vec![85, 85, 86, 0, 128, 128] };
    let out = resample(&small, w, h, 3, 2, &horizontal, &vertical);
    assert_eq!(out, vec![p; 6]);
}

#[test]
fn weights_are_what_each_running_sum_still_owes() {
    assert_eq!(weights_from_sums(&[64, 192, 256]), vec![64, 128, 64]);
    assert_eq!(weights_from_sums(&[0, 0, 256]), vec![0, 0, 256]);
    assert_eq!(weights_from_sums(&[100, 90, 256]), vec![100, 0, 156]);
    assert_eq!(weights_from_sums(&[300, 300]), vec![256, 44]);
    let w = weights_from_sums(&[30, 130, 200, 256]);
    assert_eq!(w.iter().map(|&x| x as u32).sum::<u32>(), 256);
}
