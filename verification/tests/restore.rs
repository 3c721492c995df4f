//! Painting colour back onto an eye.

use ana_convert::extract::{projections, AnaglyphFormat, EyeProjection};
use ana_convert::restore::ColourRestore;

type FrameF32 = ana_convert::frame::FrameF32<f32>;

fn restore_colour(
    eye: &FrameF32,
    colour: &FrameF32,
    projection: EyeProjection,
    mode: ColourRestore,
) -> FrameF32 {
    ana_convert::restore::restore_colour(eye, colour, projection, mode, &painting())
}

/// What an eye's filter passes of one pixel.
fn project(p: EyeProjection, r: f32, g: f32, b: f32) -> f32 {
    p.apply(r, g, b, &weights())
}

type Weights = ana_convert::extract::ProjectMath<
    fn(u32, u64) -> f32,
    fn(f32, f32) -> f32,
    fn(f32, f32) -> f32,
>;

fn weights() -> Weights {
    Weights {
        weight: |part: u32, total: u64| part as f32 / total as f32,
        times: |a: f32, b: f32| a * b,
        plus: |a: f32, b: f32| a + b,
    }
}

/// One signal painted with a reference colour.
fn painting() -> ana_convert::restore::PaintMath<
    fn(EyeProjection, f32, f32, f32) -> f32,
    fn(f32, f32) -> f32,
    fn(f32, f32) -> f32,
    fn(f32) -> f32,
    fn(f32, f32) -> f32,
    fn(f32, f32) -> f32,
> {
    ana_convert::restore::PaintMath {
        project,
        minus: |a: f32, b: f32| a - b,
        plus: |a: f32, b: f32| a + b,
        lift: |v: f32| v + 1e-4,
        over: |a: f32, b: f32| a / b,
        times: |a: f32, b: f32| a * b,
    }
}

const BOTH: [ColourRestore; 2] = [ColourRestore::Scale, ColourRestore::Offset];

fn rc_left() -> EyeProjection {
    projections(AnaglyphFormat::RedCyan).0
}

fn restore_one(
    signal: f32,
    c: [f32; 3],
    projection: EyeProjection,
    mode: ColourRestore,
) -> [f32; 3] {
    let eye = FrameF32::from_planar(1, 1, 1, vec![signal]);
    let colour = FrameF32::from_rgb_planes(1, 1, &[c[0]], &[c[1]], &[c[2]]);
    let out = restore_colour(&eye, &colour, projection, mode);
    let (r, g, b) = out.rgb_planes();
    [r[0], g[0], b[0]]
}

#[test]
fn output_always_projects_back_to_the_eye_signal() {
    // The defining contract. Extraction read this value out of the
    // anaglyph; restoration must put a frame back that would yield it
    // again, or the recovered eye is simply the wrong brightness.
    for format in [
        AnaglyphFormat::RedCyan,
        AnaglyphFormat::GreenMagenta,
        AnaglyphFormat::RedBlue,
    ] {
        for (name, p) in [
            ("left", projections(format).0),
            ("right", projections(format).1),
        ] {
            for mode in BOTH {
                for signal in [0.05, 0.4, 0.95] {
                    let out = restore_one(signal, [0.8, 0.4, 0.2], p, mode);
                    let back = project(p, out[0], out[1], out[2]);
                    assert!(
                        (back - signal).abs() < 1e-4,
                        "{format:?} {name} {mode:?}: {signal} came back as {back}"
                    );
                }
            }
        }
    }
}

#[test]
fn a_perfect_reference_reconstructs_the_original_exactly() {
    // With an accurate colour reference the eye's own channel already
    // agrees with it, so nothing should move at all.
    let truth = [0.85, 0.15, 0.15];
    for mode in BOTH {
        let p = rc_left();
        let signal = project(p, truth[0], truth[1], truth[2]);
        let out = restore_one(signal, truth, p, mode);
        for c in 0..3 {
            assert!(
                (out[c] - truth[c]).abs() < 1e-3,
                "{mode:?} channel {c}: expected {}, got {} ({out:?})",
                truth[c],
                out[c]
            );
        }
    }
}

#[test]
fn a_saturated_colour_is_not_rendered_at_channel_brightness() {
    // The bug the ground-truth test caught: treating an eye's red channel
    // as its luminance renders a red box several times too bright.
    let truth = [0.85, 0.15, 0.15];
    let p = rc_left();
    let out = restore_one(
        project(p, truth[0], truth[1], truth[2]),
        truth,
        p,
        ColourRestore::Scale,
    );
    assert!(
        (out[1] - 0.15).abs() < 1e-3,
        "green must stay dark in a red object, got {out:?}"
    );
}

#[test]
fn scale_mode_preserves_the_reference_chromaticity() {
    let out = restore_one(0.4, [0.8, 0.4, 0.2], rc_left(), ColourRestore::Scale);
    assert!(
        (out[0] / out[1] - 2.0).abs() < 1e-3 && (out[1] / out[2] - 2.0).abs() < 1e-3,
        "channel ratios must stay 4:2:1, got {out:?}"
    );
}

#[test]
fn scale_mode_is_linear_in_the_eye_signal() {
    let dim = restore_one(0.2, [0.8, 0.4, 0.2], rc_left(), ColourRestore::Scale);
    let bright = restore_one(0.4, [0.8, 0.4, 0.2], rc_left(), ColourRestore::Scale);
    for c in 0..3 {
        assert!(
            (bright[c] - 2.0 * dim[c]).abs() < 1e-4,
            "channel {c}: {} vs 2x{}",
            bright[c],
            dim[c]
        );
    }
}

#[test]
fn offset_mode_preserves_colour_differences() {
    let c = [0.8, 0.4, 0.2];
    let out = restore_one(0.5, c, rc_left(), ColourRestore::Offset);
    assert!(
        ((out[0] - out[1]) - (c[0] - c[1])).abs() < 1e-5,
        "differences must survive, got {out:?}"
    );
}

#[test]
fn the_two_modes_disagree_away_from_the_exact_case() {
    let scale = restore_one(0.4, [0.8, 0.4, 0.2], rc_left(), ColourRestore::Scale);
    let offset = restore_one(0.4, [0.8, 0.4, 0.2], rc_left(), ColourRestore::Offset);
    assert!(
        (scale[1] - offset[1]).abs() > 0.01,
        "modes should not coincide: {scale:?} vs {offset:?}"
    );
}

#[test]
fn a_black_reference_falls_back_to_neutral_grey() {
    let out = restore_one(0.4, [0.0, 0.0, 0.0], rc_left(), ColourRestore::Scale);
    for c in 0..3 {
        assert!(
            (out[c] - 0.4).abs() < 1e-2,
            "black reference must not swallow the eye, got {out:?}"
        );
    }
}

#[test]
fn a_black_reference_produces_no_nan_or_infinity() {
    for mode in BOTH {
        let out = restore_one(0.4, [0.0, 0.0, 0.0], rc_left(), mode);
        assert!(
            out.iter().all(|v| v.is_finite()),
            "{mode:?} produced {out:?}"
        );
    }
}

#[test]
fn a_black_eye_produces_black_output_in_scale_mode() {
    let out = restore_one(0.0, [0.8, 0.4, 0.2], rc_left(), ColourRestore::Scale);
    assert!(out.iter().all(|v| v.abs() < 1e-3), "got {out:?}");
}

#[test]
fn highlights_keep_their_headroom_rather_than_clipping() {
    let out = restore_one(1.5, [0.8, 0.8, 0.8], rc_left(), ColourRestore::Scale);
    assert!(
        out[0] > 1.0,
        "restore must not clamp; output quantisation does that. Got {out:?}"
    );
}

#[test]
fn geometry_and_channel_count_are_correct() {
    let eye = FrameF32::new_grey(5, 4);
    let colour = FrameF32::new_rgb(5, 4);
    let out = restore_colour(&eye, &colour, rc_left(), ColourRestore::Scale);
    assert_eq!((out.width(), out.height(), out.channels()), (5, 4, 3));
}

#[test]
fn restoration_runs_per_pixel_across_a_plane() {
    let eye = FrameF32::from_planar(2, 1, 1, vec![0.2, 0.8]);
    let colour = FrameF32::from_rgb_planes(2, 1, &[0.5, 0.5], &[0.5, 0.5], &[0.5, 0.5]);
    let out = restore_colour(&eye, &colour, rc_left(), ColourRestore::Scale);
    let r = out.plane(0);
    assert!(
        (r[0] - 0.2).abs() < 1e-3 && (r[1] - 0.8).abs() < 1e-3,
        "got {r:?}"
    );
}
