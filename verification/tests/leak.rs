//! Freeing each eye of the other.

use ana_convert::scalar::F32;

type FrameF32 = ana_convert::frame::FrameF32<f32>;

fn correct_crosstalk(left: &mut FrameF32, right: &mut FrameF32, leak_left: f32, leak_right: f32) {
    ana_convert::leak::correct_crosstalk(
        left,
        right,
        float(leak_left),
        float(leak_right),
        &freeing(),
    );
}

fn float(v: f32) -> F32 {
    F32 { bits: v.to_bits() }
}

fn value(v: F32) -> f32 {
    f32::from_bits(v.bits)
}

/// Freeing one sample of the other eye's leak.
fn freeing() -> ana_convert::leak::LeakMath<
    fn(F32, f32) -> f32,
    fn(f32, f32) -> f32,
    fn(f32) -> f32,
    fn(F32, f32) -> f32,
> {
    ana_convert::leak::LeakMath {
        leaking: |leak: F32, v: f32| value(leak) * v,
        minus: |a: f32, b: f32| a - b,
        floor: |v: f32| v.max(0.0),
        rescale: |leak: F32, v: f32| v * (1.0 / (1.0 - value(leak)).max(1e-3)),
    }
}

fn grey(values: &[f32]) -> FrameF32 {
    FrameF32::from_planar(values.len(), 1, 1, values.to_vec())
}

fn correct(l: f32, r: f32, leak_left: f32, leak_right: f32) -> (f32, f32) {
    let (mut left, mut right) = (grey(&[l]), grey(&[r]));
    correct_crosstalk(&mut left, &mut right, leak_left, leak_right);
    (left.plane(0)[0], right.plane(0)[0])
}

fn assert_close(actual: f32, expected: f32, what: &str) {
    assert!(
        (actual - expected).abs() < 1e-6,
        "{what}: expected {expected}, got {actual}"
    );
}

#[test]
fn zero_leak_leaves_both_eyes_untouched() {
    let (l, r) = correct(0.6, 0.4, 0.0, 0.0);
    assert_close(l, 0.6, "left");
    assert_close(r, 0.4, "right");
}

#[test]
fn left_loses_a_fraction_of_the_right_eye_then_rescales() {
    let (l, _) = correct(0.5, 0.4, 0.1, 0.0);
    assert_close(l, (0.5 - 0.1 * 0.4) / 0.9, "left after 10% correction");
}

#[test]
fn right_loses_a_fraction_of_the_left_eye_then_rescales() {
    let (_, r) = correct(0.4, 0.5, 0.0, 0.1);
    assert_close(r, (0.5 - 0.1 * 0.4) / 0.9, "right after 10% correction");
}

#[test]
fn correlated_content_keeps_its_full_range() {
    // Both eyes at full white must stay at full white, otherwise correction
    // would darken every bright scene.
    let (l, r) = correct(1.0, 1.0, 0.2, 0.3);
    assert_close(l, 1.0, "left white");
    assert_close(r, 1.0, "right white");
}

#[test]
fn right_is_corrected_against_the_already_corrected_left() {
    let (_, r) = correct(0.6, 0.5, 0.2, 0.2);
    let corrected_left = (0.6 - 0.2 * 0.5) / 0.8;
    assert_close(r, (0.5 - 0.2 * corrected_left) / 0.8, "right");
}

#[test]
fn subtraction_clamps_at_black_rather_than_going_negative() {
    let (l, _) = correct(0.1, 1.0, 0.5, 0.0);
    assert_close(l, 0.0, "left driven below black");
}

#[test]
fn negative_leak_adds_the_opposite_eye_back() {
    let (l, _) = correct(0.4, 0.2, -0.25, 0.0);
    assert_close(l, (0.4 + 0.25 * 0.2) / 1.25, "left with negative leak");
}

#[test]
fn total_leak_stays_finite() {
    let (l, r) = correct(0.5, 0.5, 1.0, 1.0);
    assert!(l.is_finite() && r.is_finite(), "got left={l}, right={r}");
}

#[test]
fn correction_applies_across_the_whole_plane() {
    let (mut left, mut right) = (grey(&[0.5, 0.5, 0.5]), grey(&[0.0, 0.5, 1.0]));
    correct_crosstalk(&mut left, &mut right, 0.2, 0.0);
    let l = left.plane(0);
    assert!(
        l[0] > l[1] && l[1] > l[2],
        "more right-eye signal must remove more from the left: {l:?}"
    );
}

#[test]
fn leak_geometry_is_preserved() {
    let (mut left, mut right) = (FrameF32::new_grey(4, 3), FrameF32::new_grey(4, 3));
    correct_crosstalk(&mut left, &mut right, 0.1, 0.1);
    assert_eq!((left.width(), left.height()), (4, 3));
    assert_eq!((right.width(), right.height()), (4, 3));
}
