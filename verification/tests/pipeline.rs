//! The whole per-frame conversion.

use ana_convert::blur::BlurMath;
use ana_convert::compose::{EyeOrder, OutputLayout};
use ana_convert::compose::conform_to;
use ana_convert::extract::AnaglyphFormat;
use ana_convert::extract::EyeProjection;
use ana_convert::grade::Grade;
use ana_convert::packed::StereoPacking;
use ana_convert::params::ConvertParams;
use ana_convert::params::{InputMode, MonoEye};
use ana_convert::pipeline::{RecoveryMath, StrengthMath};
use ana_convert::restore::ColourRestore;
use ana_convert::scalar::F32;
use ana_convert::transfer::TransferFunction;

type FrameF32 = ana_convert::frame::FrameF32<f32>;
type StereoPair = ana_convert::pipeline::StereoPair<f32>;
type Sources<'a> = ana_convert::pipeline::Sources<'a, f32>;

fn compose_output(pair: &StereoPair, params: &ConvertParams) -> Vec<FrameF32> {
    ana_convert::pipeline::compose_output(pair, params, &stretch)
}

fn float(v: f32) -> F32 {
    F32 { bits: v.to_bits() }
}

fn value(v: F32) -> f32 {
    f32::from_bits(v.bits)
}

/// What an eye's filter passes of one pixel.
fn project(p: EyeProjection, r: f32, g: f32, b: f32) -> f32 {
    p.apply(r, g, b, &weights())
}

type Weights = ana_convert::extract::ProjectMath<
    fn(u32, u64) -> f32,
    fn(f32, f32) -> f32,
    fn(f32, f32) -> f32,
>;

fn weights() -> Weights {
    Weights {
        weight: |part: u32, total: u64| part as f32 / total as f32,
        times: |a: f32, b: f32| a * b,
        plus: |a: f32, b: f32| a + b,
    }
}

fn to_linear(tf: TransferFunction, encoded: f32) -> f32 {
    tf.to_linear(
        encoded,
        &ana_convert::transfer::CurveMath {
            negative: |v: f32| v < 0.0,
            mirror: |v: f32| -v,
            on_toe: |tf: TransferFunction, v: f32| match tf {
                TransferFunction::Srgb => v <= 0.040_448_237,
                _ => v < 0.081,
            },
            toe: |tf: TransferFunction, v: f32| match tf {
                TransferFunction::Srgb => v / 12.92,
                _ => v / 4.5,
            },
            power: |tf: TransferFunction, v: f32| match tf {
                TransferFunction::Srgb => ((v + 0.055) / 1.055).powf(2.4),
                _ => ((v + 0.099) / 1.099).powf(1.0 / 0.45),
            },
        },
    )
}

fn from_linear(tf: TransferFunction, linear: f32) -> f32 {
    tf.from_linear(
        linear,
        &ana_convert::transfer::CurveMath {
            negative: |v: f32| v < 0.0,
            mirror: |v: f32| -v,
            on_toe: |tf: TransferFunction, v: f32| match tf {
                TransferFunction::Srgb => v <= 0.003_130_8,
                _ => v < 0.018,
            },
            toe: |tf: TransferFunction, v: f32| match tf {
                TransferFunction::Srgb => v * 12.92,
                _ => v * 4.5,
            },
            power: |tf: TransferFunction, v: f32| match tf {
                TransferFunction::Srgb => 1.055 * v.powf(1.0 / 2.4) - 0.055,
                _ => 1.099 * v.powf(0.45) - 0.099,
            },
        },
    )
}

/// One sample freed of the other eye's leak, and rescaled.
fn free_of_leak(leak: F32, target: f32, other: f32) -> f32 {
    ana_convert::leak::free_of_leak(
        leak,
        target,
        other,
        &ana_convert::leak::LeakMath {
            leaking: |leak: F32, v: f32| value(leak) * v,
            minus: |a: f32, b: f32| a - b,
            floor: |v: f32| v.max(0.0),
            rescale: |leak: F32, v: f32| v * (1.0 / (1.0 - value(leak)).max(1e-3)),
        },
    )
}

/// One signal painted with a reference colour.
fn paint(mode: ColourRestore, p: EyeProjection, signal: f32, c: (f32, f32, f32)) -> (f32, f32, f32) {
    ana_convert::restore::paint(
        mode,
        p,
        signal,
        c,
        &ana_convert::restore::PaintMath {
            project,
            minus: |a: f32, b: f32| a - b,
            plus: |a: f32, b: f32| a + b,
            lift: |v: f32| v + 1e-4,
            over: |a: f32, b: f32| a / b,
            times: |a: f32, b: f32| a * b,
        },
    )
}

fn luminance(r: f32, g: f32, b: f32) -> f32 {
    ana_convert::extract::luminance(
        r,
        g,
        b,
        &ana_convert::extract::ProjectMath {
            weight: |part: u32, total: u64| part as f32 / total as f32,
            times: |a: f32, b: f32| a * b,
            plus: |a: f32, b: f32| a + b,
        },
    )
}

/// One pixel graded: contrast, then brightness, then saturation.
fn grade_pixel(grade: Grade, c: (f32, f32, f32)) -> (f32, f32, f32) {
    ana_convert::grade::grade_pixel(
        grade,
        c,
        &ana_convert::grade::GradeMath {
            contrast: |k: F32, v: f32| (v - 0.5) * value(k) + 0.5,
            brighten: |k: F32, v: f32| v + value(k),
            luminance,
            saturate: |k: F32, grey: f32, v: f32| grey + (v - grey) * value(k),
        },
    )
}

fn kernel(sigma: F32) -> Vec<f32> {
    let sigma = value(sigma);
    let radius = (sigma * 3.0).ceil() as usize;
    let raw: Vec<f32> = (0..=2 * radius)
        .map(|i| {
            let x = i as f32 - radius as f32;
            (-x * x / (2.0 * sigma * sigma)).exp()
        })
        .collect();
    let sum: f32 = raw.iter().sum();
    raw.iter().map(|w| w / sum).collect()
}

fn radii(sigma: F32) -> [usize; 3] {
    let sigma = value(sigma);
    let ideal = (4.0 * sigma * sigma + 1.0).sqrt();
    let mut lower = ideal.floor() as i32;
    if lower % 2 == 0 {
        lower -= 1;
    }
    let lower = lower.max(1);
    let l = lower as f32;
    let count = (12.0 * sigma * sigma - 3.0 * l * l - 12.0 * l - 9.0) / (-4.0 * l - 4.0);
    let narrow = count.round().clamp(0.0, 3.0) as usize;
    let mut radii = [0usize; 3];
    for (i, radius) in radii.iter_mut().enumerate() {
        let width = if i < narrow { lower } else { lower + 2 };
        *radius = ((width - 1) / 2) as usize;
    }
    radii
}

fn accumulate(sum: f32, weight: f32, sample: f32) -> f32 {
    sum + weight * sample
}

fn plus(a: f32, b: f32) -> f32 {
    a + b
}

fn slide(sum: f32, coming: f32, leaving: f32) -> f32 {
    sum + (coming - leaving)
}

fn mean(sum: f32, count: usize) -> f32 {
    sum / count as f32
}

type Sums =
    BlurMath<f32, fn(f32, f32, f32) -> f32, fn(f32, f32) -> f32, fn(f32, f32, f32) -> f32, fn(f32, usize) -> f32>;

fn sums() -> Sums {
    BlurMath { zero: 0.0, accumulate, plus, slide, mean }
}

/// Resamples with three Lanczos lobes, widened where the picture shrinks.
fn stretch(frame: &FrameF32, width: usize, height: usize) -> FrameF32 {
    let add = |sum: f32, weight: f32, sample: f32| sum + weight * sample;
    ana_convert::compose::resize(frame, width, height, &filter(), &add)
}

type Filter = ana_convert::compose::TapMath<
    f32,
    fn(usize, usize, usize) -> (isize, isize),
    fn(usize, usize, usize, isize) -> f32,
    fn(f32, f32) -> f32,
    fn(f32, f32) -> f32,
>;

/// How far the filter is widened where the picture shrinks, and where it is centred.
fn laid(src: usize, dst: usize, i: usize) -> (f32, f32) {
    let scale = dst as f32 / src as f32;
    (if scale < 1.0 { 1.0 / scale } else { 1.0 }, (i as f32 + 0.5) / scale - 0.5)
}

fn filter() -> Filter {
    Filter {
        zero: 0.0,
        reach: |src: usize, dst: usize, i: usize| {
            let (widened, at) = laid(src, dst, i);
            ((at - 3.0 * widened).ceil() as isize, (at + 3.0 * widened).floor() as isize)
        },
        weigh: |src: usize, dst: usize, i: usize, s: isize| {
            let (widened, at) = laid(src, dst, i);
            lanczos((s as f32 - at) / widened)
        },
        plus: |a: f32, b: f32| a + b,
        share: |w: f32, sum: f32| if sum != 0.0 { w / sum } else { w },
    }
}

fn lanczos(x: f32) -> f32 {
    if x.abs() < 1e-6 {
        return 1.0;
    }
    if x.abs() >= 3.0 {
        return 0.0;
    }
    let px = std::f32::consts::PI * x;
    3.0 * px.sin() * (px / 3.0).sin() / (px * px)
}

fn resize(frame: &FrameF32, width: usize, height: usize) -> FrameF32 {
    conform_to(frame, width, height, &stretch)
}

type Math = RecoveryMath<
    f32,
    fn(TransferFunction, f32) -> f32,
    fn(TransferFunction, f32) -> f32,
    fn(EyeProjection, f32, f32, f32) -> f32,
    fn(F32, f32, f32) -> f32,
    fn(ColourRestore, EyeProjection, f32, (f32, f32, f32)) -> (f32, f32, f32),
    fn(Grade, (f32, f32, f32)) -> (f32, f32, f32),
    fn(f32, f32, f32) -> f32,
    fn(f32, f32) -> f32,
    fn(f32, f32, f32) -> f32,
    fn(f32, usize) -> f32,
    fn(F32) -> Vec<f32>,
    fn(F32) -> [usize; 3],
>;

fn math() -> Math {
    RecoveryMath {
        to_linear,
        from_linear,
        project,
        correct: free_of_leak,
        restore: paint,
        grade: grade_pixel,
        blur: sums(),
        kernel,
        radii,
    }
}

type Strength = ana_convert::pipeline::StrengthMath<fn(F32) -> F32, fn(F32) -> F32, fn(F32) -> F32>;

fn strengths() -> Strength {
    StrengthMath {
        fraction: |percent| float(value(percent) / 100.0),
        factor: |percent| float(100.0 / value(percent)),
        spread: |factor| float((value(factor) - 1.0) / 2.0),
    }
}

fn process_frame(sources: Sources<'_>, params: &ConvertParams) -> StereoPair {
    ana_convert::pipeline::process_frame(sources, params, &strengths(), &math(), &stretch)
}

fn flat(w: usize, h: usize, rgb: [f32; 3]) -> FrameF32 {
    FrameF32::from_rgb_planes(
        w,
        h,
        &vec![rgb[0]; w * h],
        &vec![rgb[1]; w * h],
        &vec![rgb[2]; w * h],
    )
}

fn first_pixel(frame: &FrameF32) -> [f32; 3] {
    let (r, g, b) = frame.rgb_planes();
    [r[0], g[0], b[0]]
}

/// Defaults, but with colour blur disabled so flat-field expectations are
/// exact rather than approximate.
fn unblurred() -> ConvertParams {
    ConvertParams {
        decimate_horiz: float(100.0),
        decimate_vert: float(100.0),
        ..Default::default()
    }
}

#[test]
fn red_cyan_channels_reach_the_correct_eyes_through_the_whole_chain() {
    // A neutral colour reference means restoration cannot tint anything,
    // so each eye must come back at exactly the brightness its anaglyph
    // channel carried - 0.8 for the red left eye, 0.3 for the green right.
    let anaglyph = flat(4, 4, [0.8, 0.3, 0.3]);
    let colour = flat(4, 4, [0.5, 0.5, 0.5]);
    let pair = process_frame(
        Sources {
            primary: &anaglyph,
            right_eye: None,
            colour: Some(&colour),
            mono: None,
        },
        &unblurred(),
    );

    let left = first_pixel(&pair.left);
    let right = first_pixel(&pair.right);
    for c in 0..3 {
        assert!((left[c] - 0.8).abs() < 1e-3, "left channel {c}: {left:?}");
        assert!(
            (right[c] - 0.3).abs() < 1e-3,
            "right channel {c}: {right:?}"
        );
    }
}

#[test]
fn green_magenta_channels_reach_the_correct_eyes() {
    let anaglyph = flat(4, 4, [0.3, 0.8, 0.3]);
    let colour = flat(4, 4, [0.5, 0.5, 0.5]);
    let pair = process_frame(
        Sources {
            primary: &anaglyph,
            right_eye: None,
            colour: Some(&colour),
            mono: None,
        },
        &ConvertParams {
            input_format: AnaglyphFormat::GreenMagenta,
            ..unblurred()
        },
    );
    assert!(
        (first_pixel(&pair.left)[0] - 0.8).abs() < 1e-3,
        "green must feed the left eye, got {:?}",
        first_pixel(&pair.left)
    );
    assert!(
        (first_pixel(&pair.right)[0] - 0.3).abs() < 1e-3,
        "the magenta pair must feed the right eye, got {:?}",
        first_pixel(&pair.right)
    );
}

#[test]
fn the_anaglyph_supplies_colour_when_no_reference_is_given() {
    let anaglyph = flat(4, 4, [0.8, 0.3, 0.3]);
    let pair = process_frame(Sources::from_anaglyph(&anaglyph), &unblurred());
    let left = first_pixel(&pair.left);
    assert!(
        left[0] > left[1],
        "using the anaglyph for colour leaves its red cast, got {left:?}"
    );
}

#[test]
fn swapping_exchanges_the_two_eyes() {
    let anaglyph = flat(4, 4, [0.8, 0.3, 0.3]);
    let colour = flat(4, 4, [0.5, 0.5, 0.5]);
    let sources = Sources {
        primary: &anaglyph,
            right_eye: None,
        colour: Some(&colour),
        mono: None,
    };
    let normal = process_frame(sources, &unblurred());
    let swapped = process_frame(
        sources,
        &ConvertParams {
            swap_eyes: true,
            ..unblurred()
        },
    );
    assert_eq!(first_pixel(&swapped.left), first_pixel(&normal.right));
    assert_eq!(first_pixel(&swapped.right), first_pixel(&normal.left));
}

#[test]
fn a_mono_source_replaces_exactly_one_eye() {
    let anaglyph = flat(4, 4, [0.8, 0.3, 0.3]);
    let colour = flat(4, 4, [0.5, 0.5, 0.5]);
    let mono = flat(4, 4, [0.11, 0.22, 0.33]);
    let pair = process_frame(
        Sources {
            primary: &anaglyph,
            right_eye: None,
            colour: Some(&colour),
            mono: Some(&mono),
        },
        &ConvertParams {
            mono_eye: MonoEye::Left,
            ..unblurred()
        },
    );
    assert_eq!(
        first_pixel(&pair.left),
        [0.11, 0.22, 0.33],
        "left is the 2D copy"
    );
    assert!(
        (first_pixel(&pair.right)[0] - 0.3).abs() < 1e-3,
        "right is still recovered, got {:?}",
        first_pixel(&pair.right)
    );
}

#[test]
fn a_mono_source_bypasses_grading() {
    let anaglyph = flat(4, 4, [0.8, 0.3, 0.3]);
    let mono = flat(4, 4, [0.5, 0.5, 0.5]);
    let pair = process_frame(
        Sources {
            primary: &anaglyph,
            right_eye: None,
            colour: None,
            mono: Some(&mono),
        },
        &ConvertParams {
            mono_eye: MonoEye::Right,
            grade_right: Grade {
                brightness: float(0.3),
                ..Default::default()
            },
            ..unblurred()
        },
    );
    assert_eq!(first_pixel(&pair.right), [0.5, 0.5, 0.5]);
}

#[test]
fn grading_reaches_the_recovered_eyes() {
    let anaglyph = flat(4, 4, [0.5, 0.5, 0.5]);
    let colour = flat(4, 4, [0.5, 0.5, 0.5]);
    let sources = Sources {
        primary: &anaglyph,
            right_eye: None,
        colour: Some(&colour),
        mono: None,
    };
    let plain = process_frame(sources, &unblurred());
    let brightened = process_frame(
        sources,
        &ConvertParams {
            grade_left: Grade {
                brightness: float(0.2),
                ..Default::default()
            },
            ..unblurred()
        },
    );
    assert!(
        (first_pixel(&brightened.left)[0] - first_pixel(&plain.left)[0] - 0.2).abs() < 1e-4,
        "left should be 0.2 brighter"
    );
    assert_eq!(
        first_pixel(&brightened.right),
        first_pixel(&plain.right),
        "the right eye has its own grade and must not move"
    );
}

#[test]
fn cross_talk_correction_reaches_the_pipeline() {
    let anaglyph = flat(4, 4, [0.8, 0.3, 0.3]);
    let colour = flat(4, 4, [0.5, 0.5, 0.5]);
    let sources = Sources {
        primary: &anaglyph,
            right_eye: None,
        colour: Some(&colour),
        mono: None,
    };
    let plain = process_frame(sources, &unblurred());
    let corrected = process_frame(
        sources,
        &ConvertParams {
            leak_correct_left: float(25.0),
            ..unblurred()
        },
    );
    assert!(
        first_pixel(&corrected.left)[0] != first_pixel(&plain.left)[0],
        "a 25% correction must change the left eye"
    );
}

#[test]
fn recovered_eyes_keep_the_source_geometry() {
    let anaglyph = FrameF32::new_rgb(9, 5);
    let pair = process_frame(Sources::from_anaglyph(&anaglyph), &ConvertParams::default());
    for (name, f) in [("left", &pair.left), ("right", &pair.right)] {
        assert_eq!((f.width(), f.height(), f.channels()), (9, 5, 3), "{name}");
    }
}

#[test]
fn linear_light_and_gamma_space_give_different_results() {
    // If the toggle did nothing, the whole linear-light argument would be
    // decoration. The frame needs real contrast for the colour blur to
    // average across: on a flat field restoration is exact either way, so
    // the two spaces would legitimately agree.
    let split: Vec<f32> = (0..16)
        .map(|i| if i % 4 < 2 { 0.9 } else { 0.05 })
        .collect();
    let dim: Vec<f32> = split.iter().map(|v| v * 0.35).collect();
    let anaglyph = FrameF32::from_rgb_planes(4, 4, &split, &dim, &dim);
    let sources = Sources::from_anaglyph(&anaglyph);
    let linear = process_frame(
        sources,
        &ConvertParams {
            work_in_linear_light: true,
            ..ConvertParams::default()
        },
    );
    let gamma = process_frame(
        sources,
        &ConvertParams {
            work_in_linear_light: false,
            ..ConvertParams::default()
        },
    );
    // Compare green, not red: for a red/cyan left eye the red channel is
    // pinned to the extracted signal by the projection in either space, so
    // it agrees by construction. The colour blur's effect shows in the
    // channels restoration is free to move.
    assert!(
        (first_pixel(&linear.left)[1] - first_pixel(&gamma.left)[1]).abs() > 1e-3,
        "linear {:?} vs gamma {:?}",
        first_pixel(&linear.left),
        first_pixel(&gamma.left)
    );
}

// --- composition ---

fn pair_of(left: [f32; 3], right: [f32; 3]) -> StereoPair {
    StereoPair {
        left: flat(2, 2, left),
        right: flat(2, 2, right),
    }
}

#[test]
fn side_by_side_doubles_the_width_with_the_left_eye_first() {
    let pair = pair_of([1.0, 0.0, 0.0], [0.0, 0.0, 1.0]);
    let out = compose_output(&pair, &ConvertParams::default());
    assert_eq!(out.len(), 1);
    assert_eq!((out[0].width(), out[0].height()), (4, 2));
    assert_eq!(out[0].plane(0)[0], 1.0, "left eye occupies the left half");
    assert_eq!(out[0].plane(0)[2], 0.0, "right eye occupies the right half");
}

#[test]
fn right_first_ordering_puts_the_right_eye_on_the_left() {
    let pair = pair_of([1.0, 0.0, 0.0], [0.0, 0.0, 1.0]);
    let out = compose_output(
        &pair,
        &ConvertParams {
            eye_order: EyeOrder::RightFirst,
            ..Default::default()
        },
    );
    assert_eq!(out[0].plane(0)[0], 0.0, "right eye now leads");
    assert_eq!(out[0].plane(0)[2], 1.0);
}

#[test]
fn top_bottom_doubles_the_height() {
    let pair = pair_of([1.0, 0.0, 0.0], [0.0, 0.0, 1.0]);
    let out = compose_output(
        &pair,
        &ConvertParams {
            layout: OutputLayout::TopBottom,
            ..Default::default()
        },
    );
    assert_eq!(out.len(), 1);
    assert_eq!((out[0].width(), out[0].height()), (2, 4));
    assert_eq!(out[0].plane(0)[0], 1.0, "left eye on top");
}

#[test]
fn separate_layout_returns_two_frames_at_source_size() {
    let pair = pair_of([1.0, 0.0, 0.0], [0.0, 0.0, 1.0]);
    let out = compose_output(
        &pair,
        &ConvertParams {
            layout: OutputLayout::Separate,
            ..Default::default()
        },
    );
    assert_eq!(out.len(), 2);
    assert_eq!((out[0].width(), out[0].height()), (2, 2));
    assert_eq!(out[0].plane(0)[0], 1.0, "first frame is the left eye");
    assert_eq!(out[1].plane(2)[0], 1.0, "second frame is the right eye");
}

#[test]
fn separate_layout_ignores_eye_order_because_filenames_carry_it() {
    let pair = pair_of([1.0, 0.0, 0.0], [0.0, 0.0, 1.0]);
    let out = compose_output(
        &pair,
        &ConvertParams {
            layout: OutputLayout::Separate,
            eye_order: EyeOrder::RightFirst,
            ..Default::default()
        },
    );
    assert_eq!(out[0].plane(0)[0], 1.0, "left eye stays first");
}

#[test]
fn output_size_resizes_the_composed_result() {
    let pair = pair_of([0.5, 0.5, 0.5], [0.5, 0.5, 0.5]);
    let out = compose_output(
        &pair,
        &ConvertParams {
            output_size: Some((16, 9)),
            ..Default::default()
        },
    );
    assert_eq!((out[0].width(), out[0].height()), (16, 9));
}

#[test]
fn output_size_applies_to_each_separate_stream() {
    let pair = pair_of([0.5, 0.5, 0.5], [0.5, 0.5, 0.5]);
    let out = compose_output(
        &pair,
        &ConvertParams {
            layout: OutputLayout::Separate,
            output_size: Some((16, 9)),
            ..Default::default()
        },
    );
    assert_eq!(out.len(), 2);
    for f in &out {
        assert_eq!((f.width(), f.height()), (16, 9));
    }
}

#[test]
fn a_full_default_run_produces_a_sane_side_by_side_frame() {
    let anaglyph = flat(32, 24, [0.7, 0.4, 0.4]);
    let pair = process_frame(Sources::from_anaglyph(&anaglyph), &ConvertParams::default());
    let out = compose_output(&pair, &ConvertParams::default());
    assert_eq!((out[0].width(), out[0].height()), (64, 24));
    assert!(
        out[0].as_slice().iter().all(|s| s.is_finite()),
        "no NaNs may reach the encoder"
    );
    assert!(
        luminance(out[0].plane(0)[0], out[0].plane(1)[0], out[0].plane(2)[0]) > 0.0,
        "the frame must not be black"
    );
}

#[test]
fn two_files_are_simply_the_two_eyes() {
    let (a, b) = (flat(4, 4, [0.1, 0.2, 0.3]), flat(4, 4, [0.4, 0.5, 0.6]));
    let pair = process_frame(
        Sources { primary: &a, right_eye: Some(&b), colour: None, mono: None },
        &ConvertParams { input: InputMode::TwoFiles, ..unblurred() },
    );
    assert_eq!(first_pixel(&pair.left), [0.1, 0.2, 0.3]);
    assert_eq!(first_pixel(&pair.right), [0.4, 0.5, 0.6]);
}

#[test]
fn a_packed_source_is_taken_apart_and_graded() {
    let packed = ana_convert::compose::stack_horizontal(
        &flat(4, 4, [0.1, 0.2, 0.3]),
        &flat(4, 4, [0.4, 0.5, 0.6]),
    );
    let pair = process_frame(
        Sources::from_anaglyph(&packed),
        &ConvertParams {
            input: InputMode::packed(StereoPacking::SideBySide, false),
            grade_right: Grade { brightness: float(0.25), ..Default::default() },
            ..unblurred()
        },
    );
    assert_eq!(first_pixel(&pair.left), [0.1, 0.2, 0.3]);
    assert_eq!(first_pixel(&pair.right), [0.65, 0.75, 0.85]);
}

#[test]
fn a_converged_pair_has_the_promised_geometry() {
    for layout in OutputLayout::ALL {
        let params = ConvertParams { layout, convergence: float(5.0), ..unblurred() };
        let pair = process_frame(Sources::from_anaglyph(&flat(40, 20, [0.5, 0.5, 0.5])), &params);
        for frame in compose_output(&pair, &params) {
            assert_eq!((frame.width(), frame.height()), params.output_geometry((40, 20)));
        }
    }
}

#[test]
fn a_step_brings_every_source_to_the_films_size() {
    let film = flat(32, 16, [0.8, 0.3, 0.3]);
    let colour = flat(90, 50, [0.5, 0.5, 0.5]);
    let mono = flat(7, 5, [0.25, 0.25, 0.25]);
    let params = ConvertParams { mono_eye: MonoEye::Left, ..unblurred() };
    let given = Sources { primary: &film, right_eye: None, colour: Some(&colour), mono: Some(&mono) };
    let frames = ana_convert::render::convert_step(given, &params, &strengths(), &math(), &stretch);
    assert_eq!(frames.len(), 1);
    assert_eq!((frames[0].width(), frames[0].height()), (64, 16));
    assert!((frames[0].plane(0)[0] - 0.25).abs() < 1e-4, "the 2D eye, stretched");
    assert!((frames[0].plane(0)[40] - 0.3).abs() < 1e-3, "the recovered one");
}

fn converted(film: (usize, usize), other: (usize, usize), params: &ConvertParams, mono: bool) -> Vec<FrameF32> {
    let film = flat(film.0, film.1, [0.7, 0.4, 0.4]);
    let other = flat(other.0, other.1, [0.5, 0.6, 0.2]);
    let given = Sources {
        primary: &film,
        right_eye: None,
        colour: if mono { None } else { Some(&other) },
        mono: if mono { Some(&other) } else { None },
    };
    ana_convert::render::convert_step(given, params, &strengths(), &math(), &stretch)
}

#[test]
fn a_larger_colour_source_converts_instead_of_panicking() {
    let frames = converted((128, 64), (640, 480), &ConvertParams::default(), false);
    assert_eq!(frames.len(), 1);
    assert_eq!(
        (frames[0].width(), frames[0].height()),
        (256, 64),
        "the output keeps the anaglyph's geometry, side by side"
    );
    assert!(frames[0].as_slice().iter().all(|s| s.is_finite()));
}

#[test]
fn a_smaller_colour_source_also_converts() {
    let frames = converted((256, 128), (64, 32), &ConvertParams::default(), false);
    assert!(frames[0].as_slice().iter().all(|s| s.is_finite()));
}

#[test]
fn a_larger_2d_eye_source_converts() {
    let params = ConvertParams { mono_eye: MonoEye::Left, ..Default::default() };
    let frames = converted((128, 64), (640, 480), &params, true);
    assert_eq!((frames[0].width(), frames[0].height()), (256, 64));
}

#[test]
fn an_oddly_shaped_source_still_converts() {
    let frames = converted((320, 64), (64, 320), &ConvertParams::default(), false);
    assert!(frames[0].as_slice().iter().all(|s| s.is_finite()));
}

/// Recovery on whole numbers, where no sample's arithmetic rounds: a filter passes
/// the strongest channel it weighs, and a signal is that channel of its colour.
#[test]
fn a_perfect_reference_gives_its_eye_back_exactly() {
    let picture = |seed: i64| {
        ana_convert::frame::FrameF32::<i64>::tabulate(5, 4, 3, |c: usize, y: usize, x: usize| {
            seed + 100 * c as i64 + 7 * y as i64 + x as i64 * x as i64
        })
    };
    let strongest = |p: EyeProjection| {
        if p.g > 0 {
            1
        } else if p.r > 0 {
            0
        } else {
            2
        }
    };
    let exact = RecoveryMath {
        to_linear: |_: TransferFunction, s: i64| 3 * s,
        from_linear: |_: TransferFunction, s: i64| s / 3,
        project: |p: EyeProjection, r: i64, g: i64, b: i64| [r, g, b][strongest(p)],
        correct: |_: F32, target: i64, other: i64| target - other,
        restore: |_: ColourRestore, p: EyeProjection, signal: i64, c: (i64, i64, i64)| {
            let by = signal - [c.0, c.1, c.2][strongest(p)];
            (c.0 + by, c.1 + by, c.2 + by)
        },
        grade: |_: Grade, c: (i64, i64, i64)| c,
        blur: BlurMath {
            zero: 0i64,
            accumulate: |sum: i64, weight: i64, sample: i64| sum + weight * sample,
            plus: |a: i64, b: i64| a + b,
            slide: |sum: i64, coming: i64, leaving: i64| sum + coming - leaving,
            mean: |sum: i64, count: usize| sum / count as i64,
        },
        kernel: |_: F32| vec![1i64],
        radii: |_: F32| [1usize; 3],
    };
    let none = |_: &ana_convert::frame::FrameF32<i64>, w: usize, h: usize| {
        ana_convert::frame::FrameF32::<i64>::filled(w, h, 3, 0)
    };
    let (left, right) = (picture(10), picture(2000));
    for format in AnaglyphFormat::ALL {
        let params = ConvertParams { input_format: format, ..unblurred() };
        let film = ana_convert::extract::encode_anaglyph(&left, &right, format);
        for of_left in [true, false] {
            let reference = if of_left { &left } else { &right };
            let sources = ana_convert::pipeline::Sources {
                primary: &film,
                right_eye: None,
                colour: Some(reference),
                mono: None,
            };
            let pair = ana_convert::pipeline::process_frame(
                sources,
                &params,
                &strengths(),
                &exact,
                &none,
            );
            let (got, other) =
                if of_left { (&pair.left, &pair.right) } else { (&pair.right, &pair.left) };
            assert_eq!(got.as_slice(), reference.as_slice(), "{format:?}");
            assert_ne!(other.as_slice(), reference.as_slice(), "{format:?}");
        }
    }
}

#[test]
fn the_recovery_settings_do_not_touch_a_stereo_source() {
    let film = FrameF32::tabulate(8, 4, 3, |c: usize, y: usize, x: usize| {
        (c * 32 + y * 8 + x) as f32 / 100.0
    });
    let right = flat(8, 4, [0.1, 0.2, 0.3]);
    for input in [InputMode::packed(StereoPacking::SideBySide, false), InputMode::TwoFiles] {
        let plain = ConvertParams { input, ..Default::default() };
        let busy = ConvertParams {
            input_format: AnaglyphFormat::RedBlue,
            leak_correct_left: float(40.0),
            defringe_right: float(5.0),
            decimate_horiz: float(1.0),
            restore: ColourRestore::Scale,
            ..plain
        };
        let sources =
            Sources { primary: &film, right_eye: Some(&right), colour: None, mono: None };
        let (a, b) = (process_frame(sources, &plain), process_frame(sources, &busy));
        assert_eq!(a.left.as_slice(), b.left.as_slice());
        assert_eq!(a.right.as_slice(), b.right.as_slice());
    }
}

#[test]
fn a_stacked_pair_is_read_back_as_it_was() {
    let left = flat(4, 2, [0.1, 0.2, 0.3]);
    let right = flat(4, 2, [0.9, 0.8, 0.7]);
    for (layout, packing) in [
        (OutputLayout::SideBySide, StereoPacking::SideBySide),
        (OutputLayout::TopBottom, StereoPacking::TopBottom),
    ] {
        for eye_order in [EyeOrder::LeftFirst, EyeOrder::RightFirst] {
            let params = ConvertParams { layout, eye_order, ..Default::default() };
            let pair = StereoPair { left: left.clone(), right: right.clone() };
            let written = compose_output(&pair, &params);
            let read = ana_convert::packed::split_packed(
                &written[0],
                packing,
                eye_order,
                false,
                &stretch,
            );
            assert_eq!(read.left.as_slice(), left.as_slice());
            assert_eq!(read.right.as_slice(), right.as_slice());
        }
    }
}

/// A picture of which no two samples are alike.
fn gradient(w: usize, h: usize) -> FrameF32 {
    let plane = |from: usize| -> Vec<f32> {
        (0..w * h).map(|i| (from + i) as f32 / (3 * w * h) as f32).collect()
    };
    FrameF32::from_rgb_planes(w, h, &plane(0), &plane(w * h), &plane(2 * w * h))
}

fn samples(frame: &FrameF32) -> Vec<f32> {
    let (r, g, b) = frame.rgb_planes();
    [r, g, b].concat()
}

#[test]
fn swapping_exchanges_whole_pictures_at_either_zero() {
    let anaglyph = gradient(6, 4);
    let mono = flat(6, 4, [0.11, 0.22, 0.33]);
    for zero in [0.0, -0.0] {
        let params = ConvertParams {
            mono_eye: MonoEye::Left,
            convergence: float(zero),
            grade_right: Grade { brightness: float(0.1), ..Default::default() },
            ..Default::default()
        };
        let sources = Sources { mono: Some(&mono), ..Sources::from_anaglyph(&anaglyph) };
        let normal = process_frame(sources, &params);
        let swapped = process_frame(sources, &ConvertParams { swap_eyes: true, ..params });
        assert_eq!(samples(&swapped.left), samples(&normal.right));
        assert_eq!(samples(&swapped.right), samples(&normal.left));
        assert_eq!(samples(&swapped.right), samples(&mono));
    }
}

#[test]
fn a_mono_source_leaves_the_other_eye_as_it_was() {
    let anaglyph = gradient(6, 4);
    let mono = flat(6, 4, [0.11, 0.22, 0.33]);
    let bare = Sources::from_anaglyph(&anaglyph);
    let given = Sources { mono: Some(&mono), ..bare };
    for mono_eye in [MonoEye::Left, MonoEye::Right, MonoEye::Neither] {
        let params = ConvertParams {
            mono_eye,
            grade_left: Grade { contrast: float(1.5), ..Default::default() },
            ..Default::default()
        };
        let without = process_frame(bare, &params);
        let with = process_frame(given, &params);
        let (left, right) = match mono_eye {
            MonoEye::Left => (&mono, &without.right),
            MonoEye::Right => (&without.left, &mono),
            MonoEye::Neither => (&without.left, &without.right),
        };
        assert_eq!(samples(&with.left), samples(left));
        assert_eq!(samples(&with.right), samples(right));
    }
}

#[test]
fn right_first_delivers_the_exchanged_pair() {
    let pair = StereoPair { left: gradient(6, 4), right: flat(6, 4, [0.2, 0.4, 0.6]) };
    let exchanged = StereoPair { left: flat(6, 4, [0.2, 0.4, 0.6]), right: gradient(6, 4) };
    for layout in [OutputLayout::SideBySide, OutputLayout::TopBottom] {
        for output_size in [None, Some((7, 5))] {
            let left_first = ConvertParams { layout, output_size, ..Default::default() };
            let right_first = ConvertParams { eye_order: EyeOrder::RightFirst, ..left_first };
            let a = compose_output(&pair, &right_first);
            let b = compose_output(&exchanged, &left_first);
            assert_eq!((a.len(), b.len()), (1, 1));
            assert_eq!(samples(&a[0]), samples(&b[0]));
        }
    }
}
