//! Between gamma-encoded samples and light.

use ana_convert::transfer::TransferFunction;

type FrameF32 = ana_convert::frame::FrameF32<f32>;

fn to_linear_frame(frame: &mut FrameF32, tf: TransferFunction) {
    ana_convert::transfer::to_linear_frame(frame, tf, &there());
}

fn from_linear_frame(frame: &mut FrameF32, tf: TransferFunction) {
    ana_convert::transfer::from_linear_frame(frame, tf, &back());
}

type Curves = ana_convert::transfer::CurveMath<
    fn(f32) -> bool,
    fn(f32) -> f32,
    fn(TransferFunction, f32) -> bool,
    fn(TransferFunction, f32) -> f32,
    fn(TransferFunction, f32) -> f32,
>;

/// The curves to linear light.
fn there() -> Curves {
    Curves {
        negative: |v: f32| v < 0.0,
        mirror: |v: f32| -v,
        on_toe: |tf: TransferFunction, v: f32| match tf {
            TransferFunction::Srgb => v <= 0.040_448_237,
            _ => v < 0.081,
        },
        toe: |tf: TransferFunction, v: f32| match tf {
            TransferFunction::Srgb => v / 12.92,
            _ => v / 4.5,
        },
        power: |tf: TransferFunction, v: f32| match tf {
            TransferFunction::Srgb => ((v + 0.055) / 1.055).powf(2.4),
            _ => ((v + 0.099) / 1.099).powf(1.0 / 0.45),
        },
    }
}

/// The curves from linear light.
fn back() -> Curves {
    Curves {
        negative: |v: f32| v < 0.0,
        mirror: |v: f32| -v,
        on_toe: |tf: TransferFunction, v: f32| match tf {
            TransferFunction::Srgb => v <= 0.003_130_8,
            _ => v < 0.018,
        },
        toe: |tf: TransferFunction, v: f32| match tf {
            TransferFunction::Srgb => v * 12.92,
            _ => v * 4.5,
        },
        power: |tf: TransferFunction, v: f32| match tf {
            TransferFunction::Srgb => 1.055 * v.powf(1.0 / 2.4) - 0.055,
            _ => 1.099 * v.powf(0.45) - 0.099,
        },
    }
}

fn to_linear(tf: TransferFunction, encoded: f32) -> f32 {
    tf.to_linear(encoded, &there())
}

fn from_linear(tf: TransferFunction, linear: f32) -> f32 {
    tf.from_linear(linear, &back())
}

#[test]
fn frame_conversion_changes_samples_and_round_trips() {
    let before = FrameF32::from_rgb_planes(2, 1, &[0.5, 0.2], &[0.8, 0.1], &[0.3, 0.9]);
    let mut frame = before.clone();

    to_linear_frame(&mut frame, TransferFunction::Srgb);
    assert!(
        frame.plane(0)[0] < before.plane(0)[0] - 0.1,
        "linearising must actually darken mid tones, got {}",
        frame.plane(0)[0]
    );

    from_linear_frame(&mut frame, TransferFunction::Srgb);
    for (a, b) in frame.as_slice().iter().zip(before.as_slice()) {
        assert!((a - b).abs() < 1e-4, "frame round trip: {a} vs {b}");
    }
}

#[test]
fn frame_conversion_is_skipped_for_linear() {
    let mut frame = FrameF32::filled(2, 2, 3, 0.5);
    to_linear_frame(&mut frame, TransferFunction::Linear);
    assert!(frame.as_slice().iter().all(|&s| s == 0.5));
}

#[test]
fn linear_transfer_is_the_identity() {
    for v in [-2.0, 0.0, 0.37, 1.0, 4.2] {
        assert_close(to_linear(TransferFunction::Linear, v), v, "to_linear");
        assert_close(from_linear(TransferFunction::Linear, v), v, "from_linear");
        let mut frame = FrameF32::filled(1, 1, 3, v);
        to_linear_frame(&mut frame, TransferFunction::Linear);
        assert_eq!(frame.plane(0)[0], v, "to_linear");
        from_linear_frame(&mut frame, TransferFunction::Linear);
        assert_eq!(frame.plane(0)[0], v, "from_linear");
    }
    assert!(TransferFunction::Linear.is_identity());
    assert!(!TransferFunction::Srgb.is_identity() && !TransferFunction::Bt709.is_identity());
}

const EPS: f32 = 1e-5;

fn assert_close(actual: f32, expected: f32, what: &str) {
    assert!((actual - expected).abs() < EPS, "{what}: expected {expected}, got {actual}");
}

#[test]
fn srgb_maps_endpoints_to_themselves() {
    assert_close(to_linear(TransferFunction::Srgb, 0.0), 0.0, "black");
    assert_close(to_linear(TransferFunction::Srgb, 1.0), 1.0, "white");
}

#[test]
fn srgb_mid_grey_is_about_twenty_one_percent_light() {
    // The defining property of a gamma-encoded signal: perceptual mid-grey carries
    // roughly a fifth of the light of white.
    assert_close(to_linear(TransferFunction::Srgb, 0.5), 0.214_041, "0.5 encoded");
}

#[test]
fn srgb_uses_the_linear_toe_below_the_breakpoint() {
    assert_close(to_linear(TransferFunction::Srgb, 0.02), 0.02 / 12.92, "toe segment");
}

#[test]
fn bt709_mid_grey_differs_from_srgb() {
    let bt = to_linear(TransferFunction::Bt709, 0.5);
    assert_close(bt, 0.259_589, "0.5 encoded under bt709");
    assert!(
        (bt - to_linear(TransferFunction::Srgb, 0.5)).abs() > 0.04,
        "the two curves must not be interchangeable"
    );
}

#[test]
fn bt709_uses_the_linear_toe_below_the_breakpoint() {
    assert_close(from_linear(TransferFunction::Bt709, 0.01), 0.045, "toe");
}

#[test]
fn every_curve_round_trips_within_tolerance() {
    for tf in [TransferFunction::Srgb, TransferFunction::Bt709, TransferFunction::Linear] {
        for step in 0..=100 {
            let encoded = step as f32 / 100.0;
            let back = from_linear(tf, to_linear(tf, encoded));
            assert!((back - encoded).abs() < 1e-4, "{tf:?} round trip at {encoded}: got {back}");
        }
    }
}

#[test]
fn negative_headroom_survives_conversion() {
    // Cross-talk subtraction can drive samples below zero before rescaling; clamping
    // here would destroy information the next stage still needs.
    let tf = TransferFunction::Srgb;
    assert_close(to_linear(tf, -0.5), -to_linear(tf, 0.5), "odd symmetry");
    assert_close(from_linear(tf, to_linear(tf, -0.5)), -0.5, "negative round trip");
}

#[test]
fn above_white_headroom_survives_conversion() {
    let tf = TransferFunction::Srgb;
    assert!(to_linear(tf, 1.5) > 1.0, "superwhite must stay above white");
    assert_close(from_linear(tf, to_linear(tf, 1.5)), 1.5, "superwhite round trip");
}

#[test]
fn luminance_weights_sum_to_one() {
    let luminance = |r: f32, g: f32, b: f32| {
        ana_convert::extract::luminance(
            r,
            g,
            b,
            &ana_convert::extract::ProjectMath {
                weight: |part: u32, total: u64| part as f32 / total as f32,
                times: |a: f32, b: f32| a * b,
                plus: |a: f32, b: f32| a + b,
            },
        )
    };
    assert_close(luminance(1.0, 1.0, 1.0), 1.0, "white luminance");
    assert!(
        luminance(0.0, 1.0, 0.0) > luminance(1.0, 0.0, 0.0),
        "green must carry more luminance than red"
    );
}
