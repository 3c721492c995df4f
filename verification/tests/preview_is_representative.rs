//! What the preview shows is what the render produces.

use ana_convert::blur::BlurMath;
use ana_convert::compose::conform_to;
use ana_convert::extract::EyeProjection;
use ana_convert::extract::{encode_anaglyph, AnaglyphFormat};
use ana_convert::grade::Grade;
use ana_convert::params::ConvertParams;
use ana_convert::pipeline::{RecoveryMath, StrengthMath};
use ana_convert::restore::ColourRestore;
use ana_convert::scalar::F32;
use ana_convert::transfer::TransferFunction;

type FrameF32 = ana_convert::frame::FrameF32<f32>;
type StereoPair = ana_convert::pipeline::StereoPair<f32>;
type Sources<'a> = ana_convert::pipeline::Sources<'a, f32>;

fn over_hundred(percent: F32) -> F32 {
    float(100.0 / value(percent))
}

fn ease(factor: F32, scale: F32) -> F32 {
    float(1.0 + (value(factor) - 1.0) * value(scale))
}

fn scale_params_for_preview(params: &ConvertParams, scale: f32) -> ConvertParams {
    ana_convert::preview::scale_params_for_preview(params, float(scale), &over_hundred, &ease)
}

fn float(v: f32) -> F32 {
    F32 { bits: v.to_bits() }
}

fn value(v: F32) -> f32 {
    f32::from_bits(v.bits)
}

/// What an eye's filter passes of one pixel.
fn project(p: EyeProjection, r: f32, g: f32, b: f32) -> f32 {
    p.apply(r, g, b, &weights())
}

type Weights = ana_convert::extract::ProjectMath<
    fn(u32, u64) -> f32,
    fn(f32, f32) -> f32,
    fn(f32, f32) -> f32,
>;

fn weights() -> Weights {
    Weights {
        weight: |part: u32, total: u64| part as f32 / total as f32,
        times: |a: f32, b: f32| a * b,
        plus: |a: f32, b: f32| a + b,
    }
}

fn to_linear(tf: TransferFunction, encoded: f32) -> f32 {
    tf.to_linear(
        encoded,
        &ana_convert::transfer::CurveMath {
            negative: |v: f32| v < 0.0,
            mirror: |v: f32| -v,
            on_toe: |tf: TransferFunction, v: f32| match tf {
                TransferFunction::Srgb => v <= 0.040_448_237,
                _ => v < 0.081,
            },
            toe: |tf: TransferFunction, v: f32| match tf {
                TransferFunction::Srgb => v / 12.92,
                _ => v / 4.5,
            },
            power: |tf: TransferFunction, v: f32| match tf {
                TransferFunction::Srgb => ((v + 0.055) / 1.055).powf(2.4),
                _ => ((v + 0.099) / 1.099).powf(1.0 / 0.45),
            },
        },
    )
}

fn from_linear(tf: TransferFunction, linear: f32) -> f32 {
    tf.from_linear(
        linear,
        &ana_convert::transfer::CurveMath {
            negative: |v: f32| v < 0.0,
            mirror: |v: f32| -v,
            on_toe: |tf: TransferFunction, v: f32| match tf {
                TransferFunction::Srgb => v <= 0.003_130_8,
                _ => v < 0.018,
            },
            toe: |tf: TransferFunction, v: f32| match tf {
                TransferFunction::Srgb => v * 12.92,
                _ => v * 4.5,
            },
            power: |tf: TransferFunction, v: f32| match tf {
                TransferFunction::Srgb => 1.055 * v.powf(1.0 / 2.4) - 0.055,
                _ => 1.099 * v.powf(0.45) - 0.099,
            },
        },
    )
}

/// One sample freed of the other eye's leak, and rescaled.
fn free_of_leak(leak: F32, target: f32, other: f32) -> f32 {
    ana_convert::leak::free_of_leak(
        leak,
        target,
        other,
        &ana_convert::leak::LeakMath {
            leaking: |leak: F32, v: f32| value(leak) * v,
            minus: |a: f32, b: f32| a - b,
            floor: |v: f32| v.max(0.0),
            rescale: |leak: F32, v: f32| v * (1.0 / (1.0 - value(leak)).max(1e-3)),
        },
    )
}

/// One signal painted with a reference colour.
fn paint(mode: ColourRestore, p: EyeProjection, signal: f32, c: (f32, f32, f32)) -> (f32, f32, f32) {
    ana_convert::restore::paint(
        mode,
        p,
        signal,
        c,
        &ana_convert::restore::PaintMath {
            project,
            minus: |a: f32, b: f32| a - b,
            plus: |a: f32, b: f32| a + b,
            lift: |v: f32| v + 1e-4,
            over: |a: f32, b: f32| a / b,
            times: |a: f32, b: f32| a * b,
        },
    )
}

fn luminance(r: f32, g: f32, b: f32) -> f32 {
    ana_convert::extract::luminance(
        r,
        g,
        b,
        &ana_convert::extract::ProjectMath {
            weight: |part: u32, total: u64| part as f32 / total as f32,
            times: |a: f32, b: f32| a * b,
            plus: |a: f32, b: f32| a + b,
        },
    )
}

/// One pixel graded: contrast, then brightness, then saturation.
fn grade_pixel(grade: Grade, c: (f32, f32, f32)) -> (f32, f32, f32) {
    ana_convert::grade::grade_pixel(
        grade,
        c,
        &ana_convert::grade::GradeMath {
            contrast: |k: F32, v: f32| (v - 0.5) * value(k) + 0.5,
            brighten: |k: F32, v: f32| v + value(k),
            luminance,
            saturate: |k: F32, grey: f32, v: f32| grey + (v - grey) * value(k),
        },
    )
}

fn kernel(sigma: F32) -> Vec<f32> {
    let sigma = value(sigma);
    let radius = (sigma * 3.0).ceil() as usize;
    let raw: Vec<f32> = (0..=2 * radius)
        .map(|i| {
            let x = i as f32 - radius as f32;
            (-x * x / (2.0 * sigma * sigma)).exp()
        })
        .collect();
    let sum: f32 = raw.iter().sum();
    raw.iter().map(|w| w / sum).collect()
}

fn radii(sigma: F32) -> [usize; 3] {
    let sigma = value(sigma);
    let ideal = (4.0 * sigma * sigma + 1.0).sqrt();
    let mut lower = ideal.floor() as i32;
    if lower % 2 == 0 {
        lower -= 1;
    }
    let lower = lower.max(1);
    let l = lower as f32;
    let count = (12.0 * sigma * sigma - 3.0 * l * l - 12.0 * l - 9.0) / (-4.0 * l - 4.0);
    let narrow = count.round().clamp(0.0, 3.0) as usize;
    let mut radii = [0usize; 3];
    for (i, radius) in radii.iter_mut().enumerate() {
        let width = if i < narrow { lower } else { lower + 2 };
        *radius = ((width - 1) / 2) as usize;
    }
    radii
}

fn accumulate(sum: f32, weight: f32, sample: f32) -> f32 {
    sum + weight * sample
}

fn plus(a: f32, b: f32) -> f32 {
    a + b
}

fn slide(sum: f32, coming: f32, leaving: f32) -> f32 {
    sum + (coming - leaving)
}

fn mean(sum: f32, count: usize) -> f32 {
    sum / count as f32
}

type Sums =
    BlurMath<f32, fn(f32, f32, f32) -> f32, fn(f32, f32) -> f32, fn(f32, f32, f32) -> f32, fn(f32, usize) -> f32>;

fn sums() -> Sums {
    BlurMath { zero: 0.0, accumulate, plus, slide, mean }
}

/// Resamples with three Lanczos lobes, widened where the picture shrinks.
fn stretch(frame: &FrameF32, width: usize, height: usize) -> FrameF32 {
    let add = |sum: f32, weight: f32, sample: f32| sum + weight * sample;
    ana_convert::compose::resize(frame, width, height, &filter(), &add)
}

type Filter = ana_convert::compose::TapMath<
    f32,
    fn(usize, usize, usize) -> (isize, isize),
    fn(usize, usize, usize, isize) -> f32,
    fn(f32, f32) -> f32,
    fn(f32, f32) -> f32,
>;

/// How far the filter is widened where the picture shrinks, and where it is centred.
fn laid(src: usize, dst: usize, i: usize) -> (f32, f32) {
    let scale = dst as f32 / src as f32;
    (if scale < 1.0 { 1.0 / scale } else { 1.0 }, (i as f32 + 0.5) / scale - 0.5)
}

fn filter() -> Filter {
    Filter {
        zero: 0.0,
        reach: |src: usize, dst: usize, i: usize| {
            let (widened, at) = laid(src, dst, i);
            ((at - 3.0 * widened).ceil() as isize, (at + 3.0 * widened).floor() as isize)
        },
        weigh: |src: usize, dst: usize, i: usize, s: isize| {
            let (widened, at) = laid(src, dst, i);
            lanczos((s as f32 - at) / widened)
        },
        plus: |a: f32, b: f32| a + b,
        share: |w: f32, sum: f32| if sum != 0.0 { w / sum } else { w },
    }
}

fn lanczos(x: f32) -> f32 {
    if x.abs() < 1e-6 {
        return 1.0;
    }
    if x.abs() >= 3.0 {
        return 0.0;
    }
    let px = std::f32::consts::PI * x;
    3.0 * px.sin() * (px / 3.0).sin() / (px * px)
}

fn resize(frame: &FrameF32, width: usize, height: usize) -> FrameF32 {
    conform_to(frame, width, height, &stretch)
}

type Math = RecoveryMath<
    f32,
    fn(TransferFunction, f32) -> f32,
    fn(TransferFunction, f32) -> f32,
    fn(EyeProjection, f32, f32, f32) -> f32,
    fn(F32, f32, f32) -> f32,
    fn(ColourRestore, EyeProjection, f32, (f32, f32, f32)) -> (f32, f32, f32),
    fn(Grade, (f32, f32, f32)) -> (f32, f32, f32),
    fn(f32, f32, f32) -> f32,
    fn(f32, f32) -> f32,
    fn(f32, f32, f32) -> f32,
    fn(f32, usize) -> f32,
    fn(F32) -> Vec<f32>,
    fn(F32) -> [usize; 3],
>;

fn math() -> Math {
    RecoveryMath {
        to_linear,
        from_linear,
        project,
        correct: free_of_leak,
        restore: paint,
        grade: grade_pixel,
        blur: sums(),
        kernel,
        radii,
    }
}

type Strength = ana_convert::pipeline::StrengthMath<fn(F32) -> F32, fn(F32) -> F32, fn(F32) -> F32>;

fn strengths() -> Strength {
    StrengthMath {
        fraction: |percent| float(value(percent) / 100.0),
        factor: |percent| float(100.0 / value(percent)),
        spread: |factor| float((value(factor) - 1.0) / 2.0),
    }
}

fn process_frame(sources: Sources<'_>, params: &ConvertParams) -> StereoPair {
    ana_convert::pipeline::process_frame(sources, params, &strengths(), &math(), &stretch)
}

const WIDTH: usize = 480;
const HEIGHT: usize = 320;

/// A scene with hard edges, saturated blocks and real disparity - the content
/// that punishes a blur mismatch hardest.
fn stereo_pair() -> (FrameF32, FrameF32) {
    let blocks: [(isize, isize, isize, isize, [f32; 3], isize); 5] = [
        (40, 40, 120, 90, [0.85, 0.18, 0.15], -14),
        (200, 60, 110, 120, [0.15, 0.70, 0.25], 9),
        (340, 30, 100, 80, [0.20, 0.30, 0.90], 18),
        (90, 190, 140, 100, [0.90, 0.80, 0.20], 12),
        (280, 200, 130, 90, [0.75, 0.35, 0.80], -10),
    ];

    let render = |shift: isize| {
        let mut planes = [
            vec![0.0f32; WIDTH * HEIGHT],
            vec![0.0f32; WIDTH * HEIGHT],
            vec![0.0f32; WIDTH * HEIGHT],
        ];
        for y in 0..HEIGHT {
            for x in 0..WIDTH {
                let i = y * WIDTH + x;
                let v = y as f32 / HEIGHT as f32;
                planes[0][i] = 0.12 + 0.22 * v;
                planes[1][i] = 0.16 + 0.18 * (1.0 - v);
                planes[2][i] = 0.28 + 0.28 * v;
            }
        }
        for (bx, by, bw, bh, colour, disparity) in blocks {
            for dy in 0..bh {
                for dx in 0..bw {
                    let (px, py) = (bx + dx + disparity * shift, by + dy);
                    if px < 0 || py < 0 || px >= WIDTH as isize || py >= HEIGHT as isize {
                        continue;
                    }
                    let i = py as usize * WIDTH + px as usize;
                    for c in 0..3 {
                        planes[c][i] = colour[c];
                    }
                }
            }
        }
        FrameF32::from_rgb_planes(WIDTH, HEIGHT, &planes[0], &planes[1], &planes[2])
    };

    (render(0), render(1))
}

fn anaglyph() -> FrameF32 {
    let (left, right) = stereo_pair();
    encode_anaglyph(&left, &right, AnaglyphFormat::RedCyan)
}

/// Converts at full size, then reduces the result - what the render produces,
/// seen small.
fn full_then_shrink(params: &ConvertParams, scale: f32) -> FrameF32 {
    let source = anaglyph();
    let pair = process_frame(Sources::from_anaglyph(&source), params);
    let (w, h) = target_size(scale);
    resize(&pair.left, w, h)
}

/// Converts at preview size with rescaled blur - what the app shows.
fn shrink_then_convert(params: &ConvertParams, scale: f32) -> FrameF32 {
    let (w, h) = target_size(scale);
    let small = resize(&anaglyph(), w, h);
    let scaled = scale_params_for_preview(params, scale);
    process_frame(Sources::from_anaglyph(&small), &scaled).left
}

fn target_size(scale: f32) -> (usize, usize) {
    (
        (WIDTH as f32 * scale).round() as usize,
        (HEIGHT as f32 * scale).round() as usize,
    )
}

/// Mean absolute luminance difference, which is what an eye judging a preview
/// is actually comparing.
fn mean_luma_difference(a: &FrameF32, b: &FrameF32) -> f32 {
    assert_eq!((a.width(), a.height()), (b.width(), b.height()));
    let (ar, ag, ab) = a.rgb_planes();
    let (br, bg, bb) = b.rgb_planes();
    let total: f32 = (0..a.plane_len())
        .map(|i| {
            let x = luminance(ar[i], ag[i], ab[i]).clamp(0.0, 1.0);
            let y = luminance(br[i], bg[i], bb[i]).clamp(0.0, 1.0);
            (x - y).abs()
        })
        .sum();
    total / a.plane_len() as f32
}

#[test]
fn a_half_size_preview_matches_the_full_render() {
    let params = ConvertParams::default();
    let shown = shrink_then_convert(&params, 0.5);
    let truth = full_then_shrink(&params, 0.5);
    let error = mean_luma_difference(&shown, &truth);
    println!("half size: mean luma difference {error:.4}");
    assert!(
        error < 0.04,
        "preview drifted from the render by {error:.4} - tuning against it would mislead"
    );
}

#[test]
fn a_quarter_size_preview_still_matches() {
    let params = ConvertParams::default();
    let shown = shrink_then_convert(&params, 0.25);
    let truth = full_then_shrink(&params, 0.25);
    let error = mean_luma_difference(&shown, &truth);
    println!("quarter size: mean luma difference {error:.4}");
    assert!(error < 0.05, "preview drifted by {error:.4}");
}

#[test]
fn rescaling_the_blur_is_what_makes_it_match() {
    // Without the rescale a half-size preview shows half the blur, and the
    // whole arrangement quietly lies. This is the test that would catch it.
    let params = ConvertParams::default();
    let truth = full_then_shrink(&params, 0.5);

    let corrected = mean_luma_difference(&shrink_then_convert(&params, 0.5), &truth);

    let (w, h) = target_size(0.5);
    let naive_frame = process_frame(
        Sources::from_anaglyph(&resize(&anaglyph(), w, h)),
        &params, // deliberately not rescaled
    )
    .left;
    let naive = mean_luma_difference(&naive_frame, &truth);

    println!("rescaled {corrected:.4} vs unrescaled {naive:.4}");
    assert!(
        corrected < naive,
        "rescaling must improve the match: {corrected:.4} vs {naive:.4}"
    );
}

#[test]
fn a_full_size_preview_is_the_render_exactly() {
    let params = ConvertParams::default();
    let shown = shrink_then_convert(&params, 1.0);
    let truth = full_then_shrink(&params, 1.0);
    assert_eq!(
        shown.as_slice(),
        truth.as_slice(),
        "at full size the preview must be the render itself"
    );
}

#[test]
fn heavier_blur_settings_also_survive_the_preview() {
    // The blur control is the one most likely to be dragged to an extreme, so
    // the agreement has to hold across its range, not just at the default.
    for decimate in [1.0, 2.0, 5.0, 25.0] {
        let params = ConvertParams {
            decimate_horiz: float(decimate),
            decimate_vert: float(decimate),
            ..Default::default()
        };
        let error = mean_luma_difference(
            &shrink_then_convert(&params, 0.5),
            &full_then_shrink(&params, 0.5),
        );
        println!("decimate {decimate}: mean luma difference {error:.4}");
        assert!(error < 0.05, "decimate {decimate} drifted by {error:.4}");
    }
}
