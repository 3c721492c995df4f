//! Per-eye brightness, contrast and saturation.

use ana_convert::grade::Grade;
use ana_convert::scalar::F32;

type FrameF32 = ana_convert::frame::FrameF32<f32>;

fn apply_grade(frame: &mut FrameF32, grade: &Grade) {
    ana_convert::grade::apply_grade(frame, grade, &tinting());
}

fn float(v: f32) -> F32 {
    F32 { bits: v.to_bits() }
}

fn value(v: F32) -> f32 {
    f32::from_bits(v.bits)
}

fn luminance(r: f32, g: f32, b: f32) -> f32 {
    ana_convert::extract::luminance(
        r,
        g,
        b,
        &ana_convert::extract::ProjectMath {
            weight: |part: u32, total: u64| part as f32 / total as f32,
            times: |a: f32, b: f32| a * b,
            plus: |a: f32, b: f32| a + b,
        },
    )
}

/// One pixel graded: contrast, then brightness, then saturation.
fn tinting() -> ana_convert::grade::GradeMath<
    fn(F32, f32) -> f32,
    fn(F32, f32) -> f32,
    fn(f32, f32, f32) -> f32,
    fn(F32, f32, f32) -> f32,
> {
    ana_convert::grade::GradeMath {
        contrast: |k: F32, v: f32| (v - 0.5) * value(k) + 0.5,
        brighten: |k: F32, v: f32| v + value(k),
        luminance,
        saturate: |k: F32, grey: f32, v: f32| grey + (v - grey) * value(k),
    }
}

fn grade_one(c: [f32; 3], grade: &Grade) -> [f32; 3] {
    let mut frame = FrameF32::from_rgb_planes(1, 1, &[c[0]], &[c[1]], &[c[2]]);
    apply_grade(&mut frame, grade);
    let (r, g, b) = frame.rgb_planes();
    [r[0], g[0], b[0]]
}

fn assert_close(actual: [f32; 3], expected: [f32; 3], what: &str) {
    for c in 0..3 {
        assert!(
            (actual[c] - expected[c]).abs() < 1e-5,
            "{what}: channel {c} expected {}, got {} (full {actual:?})",
            expected[c],
            actual[c]
        );
    }
}

#[test]
fn the_default_grade_is_a_no_op() {
    let grade = Grade::default();
    assert!(grade.is_identity());
    assert_close(
        grade_one([0.8, 0.4, 0.2], &grade),
        [0.8, 0.4, 0.2],
        "default",
    );
}

#[test]
fn brightness_offsets_every_channel_equally() {
    let grade = Grade {
        brightness: float(0.1),
        ..Default::default()
    };
    assert_close(
        grade_one([0.8, 0.4, 0.2], &grade),
        [0.9, 0.5, 0.3],
        "brightness",
    );
}

#[test]
fn negative_brightness_darkens() {
    let grade = Grade {
        brightness: float(-0.2),
        ..Default::default()
    };
    assert_close(
        grade_one([0.5, 0.5, 0.5], &grade),
        [0.3, 0.3, 0.3],
        "darken",
    );
}

#[test]
fn contrast_pivots_around_mid_grey() {
    let grade = Grade {
        contrast: float(2.0),
        ..Default::default()
    };
    assert_close(
        grade_one([0.5, 0.5, 0.5], &grade),
        [0.5, 0.5, 0.5],
        "pivot holds",
    );
    assert_close(
        grade_one([0.6, 0.4, 0.5], &grade),
        [0.7, 0.3, 0.5],
        "expansion",
    );
}

#[test]
fn zero_contrast_flattens_everything_to_mid_grey() {
    let grade = Grade {
        contrast: float(0.0),
        ..Default::default()
    };
    assert_close(grade_one([0.9, 0.1, 0.4], &grade), [0.5, 0.5, 0.5], "flat");
}

#[test]
fn zero_saturation_leaves_neutral_grey_at_the_same_luminance() {
    let grade = Grade {
        saturation: float(0.0),
        ..Default::default()
    };
    let out = grade_one([0.8, 0.4, 0.2], &grade);
    let grey = luminance(0.8, 0.4, 0.2);
    assert_close(out, [grey, grey, grey], "desaturated");
}

#[test]
fn saturation_scales_the_distance_from_neutral() {
    let grade = Grade {
        saturation: float(2.0),
        ..Default::default()
    };
    let out = grade_one([0.8, 0.4, 0.2], &grade);
    let grey = luminance(0.8, 0.4, 0.2);
    assert_close(
        out,
        [
            grey + 2.0 * (0.8 - grey),
            grey + 2.0 * (0.4 - grey),
            grey + 2.0 * (0.2 - grey),
        ],
        "boosted",
    );
}

#[test]
fn saturation_does_not_change_luminance() {
    for sat in [0.0, 0.5, 1.4, 2.0] {
        let grade = Grade {
            saturation: float(sat),
            ..Default::default()
        };
        let out = grade_one([0.8, 0.4, 0.2], &grade);
        let before = luminance(0.8, 0.4, 0.2);
        let after = luminance(out[0], out[1], out[2]);
        assert!(
            (before - after).abs() < 1e-5,
            "saturation {sat} moved luminance {before} -> {after}"
        );
    }
}

#[test]
fn contrast_is_applied_before_brightness() {
    // Reversing the order would give 0.9 rather than 0.8 here.
    let grade = Grade {
        brightness: float(0.1),
        contrast: float(2.0),
        saturation: float(1.0),
    };
    let out = grade_one([0.6, 0.6, 0.6], &grade);
    assert_close(out, [0.8, 0.8, 0.8], "contrast then brightness");
}

#[test]
fn grading_keeps_headroom_instead_of_clamping() {
    let grade = Grade {
        brightness: float(0.5),
        ..Default::default()
    };
    let out = grade_one([0.9, 0.9, 0.9], &grade);
    assert!(out[0] > 1.0, "expected headroom above white, got {out:?}");
}

#[test]
fn an_identity_grade_leaves_a_whole_frame_untouched() {
    let before = FrameF32::from_rgb_planes(3, 1, &[0.1, 0.5, 0.9], &[0.2; 3], &[0.3; 3]);
    let mut frame = before.clone();
    apply_grade(&mut frame, &Grade::default());
    assert_eq!(frame.as_slice(), before.as_slice());
}

#[test]
fn grading_applies_across_a_whole_plane() {
    let mut frame = FrameF32::from_rgb_planes(2, 1, &[0.1, 0.5], &[0.1, 0.5], &[0.1, 0.5]);
    apply_grade(
        &mut frame,
        &Grade {
            brightness: float(0.25),
            ..Default::default()
        },
    );
    let r = frame.plane(0);
    assert!(
        (r[0] - 0.35).abs() < 1e-5 && (r[1] - 0.75).abs() < 1e-5,
        "got {r:?}"
    );
}

#[test]
fn grade_geometry_is_preserved() {
    let mut frame = FrameF32::new_rgb(6, 4);
    apply_grade(
        &mut frame,
        &Grade {
            contrast: float(1.5),
            ..Default::default()
        },
    );
    assert_eq!((frame.width(), frame.height(), frame.channels()), (6, 4, 3));
}

#[test]
fn saturation_alone_keeps_every_pixels_luminance() {
    let (r, g, b) = ([0.0, 1.0, 0.3, 0.9], [1.0, 0.2, 0.3, 0.1], [0.5, 0.0, 0.3, 0.7]);
    for sat in [0.0, 0.25, 1.0, 1.6, 2.0] {
        let mut frame = FrameF32::from_rgb_planes(2, 2, &r, &g, &b);
        apply_grade(&mut frame, &Grade { saturation: float(sat), ..Default::default() });
        assert_eq!((frame.width(), frame.height(), frame.channels()), (2, 2, 3));
        let (x, y, z) = frame.rgb_planes();
        for i in 0..4 {
            let before = luminance(r[i], g[i], b[i]);
            assert!((luminance(x[i], y[i], z[i]) - before).abs() < 1e-5, "{sat} at {i}");
            if sat == 0.0 {
                assert_eq!((x[i], y[i], z[i]), (before, before, before));
            }
            if sat == 1.0 {
                assert_eq!((x[i], y[i], z[i]), (r[i], g[i], b[i]));
            }
        }
    }
}
