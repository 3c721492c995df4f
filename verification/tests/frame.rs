//! Planar frames and how they are taken from bytes.

type FrameF32 = ana_convert::frame::FrameF32<f32>;

fn from_byte(v: u8) -> f32 {
    f32::from(v) / 255.0
}

fn from_word(v: u16) -> f32 {
    f32::from(v) / 65535.0
}

type Quantising = ana_convert::frame::QuantiseMath<
    fn(f32, u32) -> f32,
    fn(f32) -> bool,
    fn(f32, u32) -> bool,
    fn(f32) -> u32,
>;

fn quantising() -> Quantising {
    Quantising {
        round: |v: f32, limit: u32| (v * limit as f32).round(),
        below: |v: f32| v.is_nan() || v < 0.0,
        above: |v: f32, limit: u32| v > limit as f32,
        whole: |v: f32| v as u32,
    }
}

#[test]
fn new_rgb_allocates_three_zeroed_planes() {
    let frame = FrameF32::new_rgb(4, 3);
    assert_eq!(frame.width(), 4);
    assert_eq!(frame.height(), 3);
    assert_eq!(frame.channels(), 3);
    assert_eq!(frame.plane_len(), 12);
    assert_eq!(frame.as_slice().len(), 36);
    assert!(frame.as_slice().iter().all(|&s| s == 0.0));
}

#[test]
fn planes_are_contiguous_and_independently_addressable() {
    let mut frame = FrameF32::new_rgb(2, 2);
    frame.plane_mut(1)[3] = 0.5;
    assert_eq!(frame.plane(0), &[0.0, 0.0, 0.0, 0.0]);
    assert_eq!(frame.plane(1), &[0.0, 0.0, 0.0, 0.5]);
    assert_eq!(frame.plane(2), &[0.0, 0.0, 0.0, 0.0]);
}

#[test]
fn rgb_planes_splits_without_copying_order() {
    let frame = FrameF32::from_rgb_planes(2, 1, &[1.0, 2.0], &[3.0, 4.0], &[5.0, 6.0]);
    let (r, g, b) = frame.rgb_planes();
    assert_eq!(r, &[1.0, 2.0]);
    assert_eq!(g, &[3.0, 4.0]);
    assert_eq!(b, &[5.0, 6.0]);
}

#[test]
fn grey_to_rgb_replicates_the_single_plane() {
    let grey = FrameF32::from_planar(2, 1, 1, vec![0.25, 0.75]);
    let rgb = grey.grey_to_rgb();
    assert_eq!(rgb.channels(), 3);
    let (r, g, b) = rgb.rgb_planes();
    assert_eq!(r, &[0.25, 0.75]);
    assert_eq!(g, &[0.25, 0.75]);
    assert_eq!(b, &[0.25, 0.75]);
}

#[test]
fn rgb8_round_trips_every_byte_value_exactly() {
    let interleaved: Vec<u8> = (0..=255u8).flat_map(|v| [v, v, v]).collect();
    let frame = FrameF32::from_rgb8(256, 1, &interleaved, &from_byte);
    assert_eq!(frame.to_rgb8(&quantising()), interleaved);
}

#[test]
fn from_rgb8_deinterleaves_channels() {
    let frame = FrameF32::from_rgb8(2, 1, &[255, 0, 0, 0, 255, 0], &from_byte);
    let (r, g, b) = frame.rgb_planes();
    assert_eq!(r, &[1.0, 0.0]);
    assert_eq!(g, &[0.0, 1.0]);
    assert_eq!(b, &[0.0, 0.0]);
}

#[test]
fn rgb16_round_trips_endpoint_values() {
    let interleaved: Vec<u16> = vec![0, 32768, 65535, 65535, 0, 12345];
    let frame = FrameF32::from_rgb16(2, 1, &interleaved, &from_word);
    assert_eq!(frame.to_rgb16(&quantising()), interleaved);
}

#[test]
fn quantisation_clamps_out_of_range_samples() {
    let frame = FrameF32::from_rgb_planes(3, 1, &[-1.0, 0.5, 2.0], &[0.0; 3], &[0.0; 3]);
    let bytes = frame.to_rgb8(&quantising());
    assert_eq!(bytes[0], 0, "negative clamps to 0");
    assert_eq!(bytes[3], 128, "0.5 rounds to nearest");
    assert_eq!(bytes[6], 255, "above 1.0 clamps to 255");
}

#[test]
fn quantisation_maps_nan_to_zero() {
    let frame = FrameF32::from_rgb_planes(1, 1, &[f32::NAN], &[f32::NAN], &[f32::NAN]);
    assert_eq!(frame.to_rgb8(&quantising()), vec![0, 0, 0]);
}

#[test]
fn a_frame_maps_over_every_sample_in_place() {
    let frame = FrameF32::from_planar(50, 40, 3, (0..6000).map(|i| i as f32).collect());
    let doubled = frame.map(|s| s * 2.0);
    assert_eq!((doubled.width(), doubled.height(), doubled.channels()), (50, 40, 3));
    for (i, s) in doubled.as_slice().iter().enumerate() {
        assert_eq!(*s, i as f32 * 2.0, "sample {i}");
    }
}

#[test]
fn every_word_survives_decoding_and_encoding() {
    let words: Vec<u16> = (0..=65535u16).flat_map(|v| [v, v, v]).collect();
    let frame = FrameF32::from_rgb16(256, 256, &words, &from_word);
    assert_eq!(frame.to_rgb16(&quantising()), words);
}

#[test]
fn samples_of_any_kind_make_a_frame() {
    type Grey = ana_convert::frame::FrameF32<u8>;
    let grey: Grey = Grey::from_planar(2, 2, 1, vec![1, 2, 3, 4]);
    assert_eq!(grey.at(1, 0, 0), 2);
    assert_eq!(grey.at(0, 1, 0), 3);
    assert!(!grey.is_empty());
    assert!(Grey::new_grey(0, 5).is_empty());
}
