//! Stacking, cropping, converging and resampling.

use ana_convert::compose::{aspect_differs, axis_taps, clamp_index, conform_to, converge, converged_width, crop, stack_horizontal, stack_vertical};
use ana_convert::scalar::F32;

type FrameF32 = ana_convert::frame::FrameF32<f32>;

/// Resamples with three Lanczos lobes, widened where the picture shrinks.
fn stretch(frame: &FrameF32, width: usize, height: usize) -> FrameF32 {
    let add = |sum: f32, weight: f32, sample: f32| sum + weight * sample;
    ana_convert::compose::resize(frame, width, height, &filter(), &add)
}

type Filter = ana_convert::compose::TapMath<
    f32,
    fn(usize, usize, usize) -> (isize, isize),
    fn(usize, usize, usize, isize) -> f32,
    fn(f32, f32) -> f32,
    fn(f32, f32) -> f32,
>;

/// How far the filter is widened where the picture shrinks, and where it is centred.
fn laid(src: usize, dst: usize, i: usize) -> (f32, f32) {
    let scale = dst as f32 / src as f32;
    (if scale < 1.0 { 1.0 / scale } else { 1.0 }, (i as f32 + 0.5) / scale - 0.5)
}

fn filter() -> Filter {
    Filter {
        zero: 0.0,
        reach: |src: usize, dst: usize, i: usize| {
            let (widened, at) = laid(src, dst, i);
            ((at - 3.0 * widened).ceil() as isize, (at + 3.0 * widened).floor() as isize)
        },
        weigh: |src: usize, dst: usize, i: usize, s: isize| {
            let (widened, at) = laid(src, dst, i);
            lanczos((s as f32 - at) / widened)
        },
        plus: |a: f32, b: f32| a + b,
        share: |w: f32, sum: f32| if sum != 0.0 { w / sum } else { w },
    }
}

fn lanczos(x: f32) -> f32 {
    if x.abs() < 1e-6 {
        return 1.0;
    }
    if x.abs() >= 3.0 {
        return 0.0;
    }
    let px = std::f32::consts::PI * x;
    3.0 * px.sin() * (px / 3.0).sin() / (px * px)
}

fn resize(frame: &FrameF32, width: usize, height: usize) -> FrameF32 {
    conform_to(frame, width, height, &stretch)
}

fn ramp(w: usize, h: usize, offset: f32) -> FrameF32 {
    let data: Vec<f32> = (0..w * h * 3).map(|i| i as f32 / 100.0 + offset).collect();
    FrameF32::from_planar(w, h, 3, data)
}

#[test]
fn horizontal_stack_doubles_the_width() {
    let out = stack_horizontal(&FrameF32::new_rgb(4, 3), &FrameF32::new_rgb(4, 3));
    assert_eq!((out.width(), out.height(), out.channels()), (8, 3, 3));
}

#[test]
fn vertical_stack_doubles_the_height() {
    let out = stack_vertical(&FrameF32::new_rgb(4, 3), &FrameF32::new_rgb(4, 3));
    assert_eq!((out.width(), out.height(), out.channels()), (4, 6, 3));
}

#[test]
fn horizontal_stack_interleaves_rows_not_whole_images() {
    // Each output row must be a's row followed by b's row. Concatenating
    // the buffers instead would put all of a above all of b.
    let a = FrameF32::from_rgb_planes(2, 2, &[1.0, 2.0, 3.0, 4.0], &[0.0; 4], &[0.0; 4]);
    let b = FrameF32::from_rgb_planes(2, 2, &[5.0, 6.0, 7.0, 8.0], &[0.0; 4], &[0.0; 4]);
    let out = stack_horizontal(&a, &b);
    assert_eq!(out.plane(0), &[1.0, 2.0, 5.0, 6.0, 3.0, 4.0, 7.0, 8.0]);
}

#[test]
fn vertical_stack_puts_the_first_frame_on_top() {
    let a = FrameF32::from_rgb_planes(2, 1, &[1.0, 2.0], &[0.0; 2], &[0.0; 2]);
    let b = FrameF32::from_rgb_planes(2, 1, &[3.0, 4.0], &[0.0; 2], &[0.0; 2]);
    let out = stack_vertical(&a, &b);
    assert_eq!(out.plane(0), &[1.0, 2.0, 3.0, 4.0]);
}

#[test]
fn stacking_keeps_every_plane_separate() {
    let a = ramp(2, 2, 0.0);
    let b = ramp(2, 2, 10.0);
    let out = stack_horizontal(&a, &b);
    assert_eq!(out.plane_len(), 8);
    assert_eq!(
        out.plane(1)[0],
        a.plane(1)[0],
        "green plane must stay green"
    );
    assert_eq!(out.plane(2)[2], b.plane(2)[0], "blue plane must stay blue");
}

#[test]
fn resizing_to_the_same_size_changes_nothing() {
    let src = ramp(5, 4, 0.0);
    let out = resize(&src, 5, 4);
    for (i, (&a, &b)) in out.as_slice().iter().zip(src.as_slice()).enumerate() {
        assert!((a - b).abs() < 1e-4, "sample {i}: {a} vs {b}");
    }
}

#[test]
fn resizing_produces_the_requested_dimensions() {
    let out = resize(&FrameF32::new_rgb(16, 9), 40, 30);
    assert_eq!((out.width(), out.height(), out.channels()), (40, 30, 3));
}

#[test]
fn a_flat_field_survives_both_directions() {
    // Weights that do not sum to one would show up here as a brightness
    // shift or as dark edges.
    let src = FrameF32::filled(20, 20, 3, 0.6);
    for (w, h) in [(7, 7), (60, 45), (20, 3)] {
        let out = resize(&src, w, h);
        for (i, &s) in out.as_slice().iter().enumerate() {
            assert!((s - 0.6).abs() < 1e-4, "{w}x{h} sample {i} drifted to {s}");
        }
    }
}

#[test]
fn downscaling_averages_rather_than_dropping_pixels() {
    // A one-pixel-wide alternating pattern must average towards mid-grey,
    // not alias to whichever pixel happened to be sampled.
    let values: Vec<f32> = (0..32)
        .map(|i| if i % 2 == 0 { 0.0 } else { 1.0 })
        .collect();
    let mut data = values.clone();
    data.extend_from_slice(&values);
    data.extend_from_slice(&values);
    let src = FrameF32::from_planar(32, 1, 3, data);

    let out = resize(&src, 4, 1);
    for (i, &s) in out.plane(0).iter().enumerate() {
        assert!(
            (s - 0.5).abs() < 0.15,
            "sample {i} aliased to {s} instead of averaging to 0.5"
        );
    }
}

#[test]
fn upscaling_interpolates_between_neighbours() {
    let src = FrameF32::from_planar(2, 1, 3, vec![0.0, 1.0, 0.0, 1.0, 0.0, 1.0]);
    let out = resize(&src, 8, 1);
    let r = out.plane(0);
    assert!(r[0] < r[3] && r[3] < r[7], "must ramp across: {r:?}");
}

#[test]
fn resizing_a_grey_frame_keeps_it_grey() {
    let src = FrameF32::from_planar(4, 4, 1, vec![0.5; 16]);
    let out = resize(&src, 8, 8);
    assert_eq!(out.channels(), 1);
    assert_eq!(out.plane_len(), 64);
}

#[test]
fn a_crop_keeps_what_is_inside_it() {
    let src = FrameF32::from_planar(3, 2, 1, vec![1.0, 2.0, 3.0, 4.0, 5.0, 6.0]);
    let out = crop(&src, 1, 0, 2, 2);
    assert_eq!((out.width(), out.height()), (2, 2));
    assert_eq!(out.plane(0), &[2.0, 3.0, 5.0, 6.0]);
}

#[test]
fn convergence_gives_up_opposite_edges() {
    let row: Vec<f32> = (0..20).map(|i| i as f32).collect();
    let eye = FrameF32::from_planar(20, 1, 1, row);
    let (l, r) = converge(&eye, &eye, F32 { bits: 10.0f32.to_bits() });
    assert_eq!((l.width(), r.width()), (18, 18));
    assert_eq!(l.plane(0)[0], 2.0, "the left eye keeps its right-hand part");
    assert_eq!(r.plane(0)[17], 17.0, "the right eye keeps its left-hand part");
    let (l, r) = converge(&eye, &eye, F32 { bits: (-10.0f32).to_bits() });
    assert_eq!((l.plane(0)[0], r.plane(0)[0]), (0.0, 2.0));
    let (l, _) = converge(&eye, &eye, F32 { bits: 0 });
    assert_eq!(l.as_slice(), eye.as_slice());
    assert_eq!(converged_width(20, F32 { bits: 10.0f32.to_bits() }), 18);
}

#[test]
fn shapes_are_compared_not_sizes() {
    assert!(!aspect_differs((64, 48), (128, 96)));
    assert!(aspect_differs((128, 32), (128, 96)));
}

#[test]
fn conforming_to_its_own_size_changes_nothing() {
    let src = ramp(5, 4, 0.5);
    assert_eq!(conform_to(&src, 5, 4, &stretch).as_slice(), src.as_slice());
    assert_eq!(conform_to(&src, 9, 2, &stretch).width(), 9);
}

#[test]
fn taps_outside_a_picture_fold_onto_its_edge() {
    let doubling = ana_convert::compose::TapMath {
        zero: 0.0,
        reach: |_: usize, _: usize, _: usize| (-2isize, 3isize),
        weigh: |_: usize, _: usize, _: usize, s: isize| [1.0f32, 2.0, 4.0, 8.0, 16.0, 32.0][(s + 2) as usize],
        plus: |a: f32, b: f32| a + b,
        share: |w: f32, sum: f32| w * 63.0 / sum,
    };
    let taps = axis_taps(3, 1, &doubling);
    assert_eq!(taps[0].start, 0);
    assert_eq!(taps[0].weights, vec![7.0, 8.0, 48.0]);
    assert_eq!((clamp_index(-4, 3), clamp_index(1, 3), clamp_index(9, 3)), (0, 1, 2));
}

#[test]
fn stacked_halves_can_be_cut_apart_again() {
    let (a, b) = (ramp(3, 2, 0.0), ramp(3, 2, 7.0));
    let beside = stack_horizontal(&a, &b);
    assert_eq!(crop(&beside, 3, 0, 3, 2).as_slice(), b.as_slice());
    let above = stack_vertical(&a, &b);
    assert_eq!(crop(&above, 0, 0, 3, 2).as_slice(), a.as_slice());
}

#[test]
fn cropping_nothing_away_gives_the_picture() {
    let frame = FrameF32::tabulate(5, 3, 3, |c: usize, y: usize, x: usize| {
        (c * 15 + y * 5 + x) as f32
    });
    assert_eq!(crop(&frame, 0, 0, 5, 3).as_slice(), frame.as_slice());
}
