//! The conversion settings: geometry, shape, trims and what is refused.

use ana_convert::compose::{EyeOrder, OutputLayout};
use ana_convert::extract::AnaglyphFormat;
use ana_convert::packed::StereoPacking;
use ana_convert::params::{
    ConvertParams, InputMode, MonoEye, ParamsError, Ratio, SourceTrim, MAX_DIMENSION,
};
use ana_convert::restore::ColourRestore;
use ana_convert::scalar::F32;

/// The real transfer that exposed this: 708x276 stored with 8:9 pixels, so it is
/// meant to be seen at 2.28:1 rather than the 2.57:1 its stored dimensions suggest.
const REAL_DAR: f64 = 472.0 / 207.0;

/// Aspect is independent of frame size unless convergence crops it, so tests that
/// are not about convergence can pass any size.
const ANY_SIZE: (usize, usize) = (1920, 1080);

fn float(v: f32) -> F32 {
    F32 { bits: v.to_bits() }
}

fn value(v: F32) -> f32 {
    f32::from_bits(v.bits)
}

fn fraction(percent: F32) -> F32 {
    float(value(percent) / 100.0)
}

fn factor(percent: F32) -> F32 {
    float(100.0 / value(percent))
}

fn spread(factor: F32) -> F32 {
    float((value(factor) - 1.0) / 2.0)
}

fn times(shape: f64, by: Ratio) -> f64 {
    shape * by.num as f64 / by.den as f64
}

fn eye_aspect(p: &ConvertParams, shape: f64, source: (usize, usize)) -> f64 {
    times(shape, p.eye_display_aspect(source))
}

fn output_aspect(p: &ConvertParams, shape: f64, source: (usize, usize)) -> f64 {
    times(shape, p.output_display_aspect(source))
}

#[test]
fn convergence_narrows_the_output() {
    let params = ConvertParams {
        convergence: float(4.0),
        layout: OutputLayout::LeftOnly,
        ..Default::default()
    };
    assert_eq!(params.output_geometry((100, 50)), (96, 50));
}

#[test]
fn convergence_narrows_the_display_aspect_by_exactly_what_it_crops() {
    let params = ConvertParams {
        convergence: float(6.0),
        layout: OutputLayout::LeftOnly,
        ..Default::default()
    };
    let source = (1000, 500);
    let (out_w, _) = params.output_geometry(source);
    let plain = ConvertParams { layout: OutputLayout::LeftOnly, ..Default::default() };
    let pixel_ratio = out_w as f64 / plain.output_geometry(source).0 as f64;
    let aspect_ratio =
        output_aspect(&params, REAL_DAR, source) / output_aspect(&plain, REAL_DAR, source);
    assert!(
        (pixel_ratio - aspect_ratio).abs() < 1e-9,
        "cropped {pixel_ratio}x the pixels but {aspect_ratio}x the shape"
    );
}

#[test]
fn convergence_leaves_a_side_by_side_pair_stackable() {
    // 3% of 800 is 24px of overlap given up in total, leaving 776.
    let params = ConvertParams {
        convergence: float(-3.0),
        layout: OutputLayout::SideBySide,
        ..Default::default()
    };
    let (w, h) = params.output_geometry((800, 400));
    assert_eq!((w, h), (2 * 776, 400));
}

#[test]
fn zero_convergence_changes_no_geometry() {
    let params = ConvertParams { layout: OutputLayout::LeftOnly, ..Default::default() };
    assert_eq!(params.output_geometry((640, 480)), (640, 480));
    assert_eq!(output_aspect(&params, REAL_DAR, (640, 480)), REAL_DAR);
}

#[test]
fn convergence_past_the_limit_is_rejected() {
    let params = ConvertParams { convergence: float(25.0), ..Default::default() };
    assert!(params.validate().is_err(), "25% should be out of range");
}

#[test]
fn an_explicit_output_size_still_shows_the_right_shape() {
    let p = ConvertParams {
        output_size: Some((1920, 1080)),
        layout: OutputLayout::LeftOnly,
        ..Default::default()
    };
    assert_eq!(p.output_geometry((708, 276)), (1920, 1080));
    assert!(
        (output_aspect(&p, REAL_DAR, ANY_SIZE) - REAL_DAR).abs() < 1e-9,
        "the shape must survive the resize"
    );
}

#[test]
fn an_anaglyph_eye_keeps_the_whole_frames_shape() {
    let p = ConvertParams::default();
    assert!((eye_aspect(&p, REAL_DAR, ANY_SIZE) - REAL_DAR).abs() < 1e-9);
}

#[test]
fn stacking_two_eyes_side_by_side_doubles_the_shape() {
    let p = ConvertParams { layout: OutputLayout::SideBySide, ..Default::default() };
    assert!((output_aspect(&p, REAL_DAR, ANY_SIZE) - REAL_DAR * 2.0).abs() < 1e-9);
}

#[test]
fn stacking_top_and_bottom_halves_the_shape() {
    let p = ConvertParams { layout: OutputLayout::TopBottom, ..Default::default() };
    assert!((output_aspect(&p, REAL_DAR, ANY_SIZE) - REAL_DAR / 2.0).abs() < 1e-9);
}

#[test]
fn a_single_eye_output_keeps_the_eyes_shape() {
    for layout in [
        OutputLayout::Anaglyph,
        OutputLayout::LeftOnly,
        OutputLayout::RightOnly,
        OutputLayout::Separate,
    ] {
        let p = ConvertParams { layout, ..Default::default() };
        assert!(
            (output_aspect(&p, REAL_DAR, ANY_SIZE) - REAL_DAR).abs() < 1e-9,
            "{layout:?}"
        );
    }
}

#[test]
fn a_full_resolution_packed_eye_is_half_the_packed_shape() {
    // A 3840x1080 frame at 32:9 holds two 16:9 eyes.
    let p = ConvertParams {
        input: InputMode::packed(StereoPacking::SideBySide, false),
        ..Default::default()
    };
    assert!((eye_aspect(&p, 32.0 / 9.0, ANY_SIZE) - 16.0 / 9.0).abs() < 1e-9);
}

#[test]
fn a_squeezed_packed_eye_fills_the_packed_shape() {
    let p = ConvertParams {
        input: InputMode::packed(StereoPacking::SideBySide, true),
        ..Default::default()
    };
    assert!((eye_aspect(&p, 16.0 / 9.0, ANY_SIZE) - 16.0 / 9.0).abs() < 1e-9);
}

#[test]
fn a_full_resolution_top_bottom_eye_is_twice_the_packed_shape() {
    // A 1920x2160 frame at 8:9 holds two 16:9 eyes.
    let p = ConvertParams {
        input: InputMode::packed(StereoPacking::TopBottom, false),
        ..Default::default()
    };
    assert!((eye_aspect(&p, 8.0 / 9.0, ANY_SIZE) - 16.0 / 9.0).abs() < 1e-9);
}

#[test]
fn unpacking_and_repacking_returns_the_original_shape() {
    let p = ConvertParams {
        input: InputMode::packed(StereoPacking::SideBySide, false),
        layout: OutputLayout::SideBySide,
        ..Default::default()
    };
    assert!((output_aspect(&p, 32.0 / 9.0, ANY_SIZE) - 32.0 / 9.0).abs() < 1e-9);
}

#[test]
fn an_untrimmed_source_yields_every_frame() {
    let trim = SourceTrim::whole();
    assert!(trim.is_whole());
    assert_eq!(trim.length(500), 500);
    assert_eq!(trim.frame_at(0), 0);
}

#[test]
fn a_start_point_drops_the_frames_before_it() {
    let trim = SourceTrim { start: 100, end: None };
    assert_eq!(trim.length(500), 400);
    assert_eq!(trim.frame_at(0), 100, "the first converted frame is the start");
    assert_eq!(trim.frame_at(7), 107);
}

#[test]
fn an_end_point_is_inclusive() {
    let trim = SourceTrim { start: 10, end: Some(19) };
    assert_eq!(trim.length(500), 10);
}

#[test]
fn an_end_beyond_the_file_is_clamped_to_it() {
    let trim = SourceTrim { start: 0, end: Some(9_999) };
    assert_eq!(trim.length(100), 100);
}

#[test]
fn a_range_that_starts_past_the_end_yields_nothing() {
    assert_eq!(SourceTrim { start: 900, end: None }.length(100), 0);
    assert_eq!(SourceTrim { start: 50, end: Some(20) }.length(100), 0);
    assert_eq!(SourceTrim::whole().length(0), 0);
}

#[test]
fn a_frame_maps_into_the_trim_and_back() {
    let trim = SourceTrim { start: 60, end: Some(120) };
    assert_eq!(trim.offset_of(60), Some(0));
    assert_eq!(trim.offset_of(75), Some(15));
    assert_eq!(trim.offset_of(59), None, "before the start");
    assert_eq!(trim.offset_of(121), None, "past the end");
}

#[test]
fn two_sources_starting_at_different_points_align() {
    let params = ConvertParams {
        anaglyph_trim: SourceTrim { start: 100, end: None },
        mono_trim: SourceTrim { start: 340, end: None },
        ..Default::default()
    };
    assert_eq!(params.aligned_frame(&params.mono_trim, 100), 340);
    assert_eq!(params.aligned_frame(&params.mono_trim, 105), 345);
}

#[test]
fn a_source_that_needs_no_shift_maps_one_to_one() {
    let params = ConvertParams::default();
    assert_eq!(params.aligned_frame(&params.colour_trim, 42), 42);
}

#[test]
fn defaults_are_valid_and_do_nothing_but_recover() {
    let p = ConvertParams::default();
    assert!(p.validate().is_ok());
    assert_eq!(value(p.leak_left_fraction(&fraction)), 0.0, "no cross-talk correction");
    assert_eq!(value(p.defringe_sigma_left(&spread)), 0.0, "no de-fringe");
    assert!(p.grade_left.is_identity(), "no grading");
    assert!(!p.swap_eyes);
}

#[test]
fn out_of_range_decimate_is_rejected() {
    let p = ConvertParams { decimate_horiz: float(150.0), ..Default::default() };
    assert!(matches!(
        p.validate(),
        Err(ParamsError::OutOfRange { name: "decimate_horiz", .. })
    ));
}

#[test]
fn out_of_range_leak_is_rejected() {
    let p = ConvertParams { leak_correct_right: float(250.0), ..Default::default() };
    assert!(p.validate().is_err());
}

#[test]
fn a_non_finite_parameter_is_rejected() {
    let p = ConvertParams { decimate_vert: float(f32::NAN), ..Default::default() };
    assert!(p.validate().is_err(), "NaN must not slip through");
}

#[test]
fn a_zero_output_dimension_is_rejected() {
    let p = ConvertParams { output_size: Some((1920, 0)), ..Default::default() };
    assert!(matches!(p.validate(), Err(ParamsError::EmptyOutputSize(1920, 0))));
}

#[test]
fn an_absurd_output_dimension_is_rejected() {
    let p = ConvertParams { output_size: Some((usize::MAX, 1080)), ..Default::default() };
    assert!(matches!(
        p.validate(),
        Err(ParamsError::OutputSizeTooLarge(usize::MAX, 1080))
    ));
}

#[test]
fn the_largest_allowed_output_size_is_accepted() {
    let p = ConvertParams {
        output_size: Some((MAX_DIMENSION, MAX_DIMENSION)),
        ..Default::default()
    };
    assert!(p.validate().is_ok());
}

#[test]
fn the_settings_a_film_starts_from() {
    let p = ConvertParams::default();
    assert!(p.decimate_horiz == float(5.0));
    assert!(p.decimate_vert == float(20.0));
    assert_eq!(p.input, InputMode::Anaglyph);
    assert_eq!(p.input_format, AnaglyphFormat::RedCyan);
    assert_eq!(p.restore, ColourRestore::Offset);
    assert_eq!(p.layout, OutputLayout::SideBySide);
    assert_eq!(p.eye_order, EyeOrder::LeftFirst);
    assert_eq!(p.mono_eye, MonoEye::Neither);
    assert!(p.work_in_linear_light);
}

#[test]
fn settings_are_equal_as_their_floats_are() {
    let p = ConvertParams::default();
    assert!(p == ConvertParams::default());
    let negative_zero = ConvertParams { convergence: float(-0.0), ..Default::default() };
    assert!(p == negative_zero, "minus zero is zero");
    let nan = ConvertParams { convergence: float(f32::NAN), ..Default::default() };
    assert!(nan != nan, "a NaN is equal to nothing");
    assert!(p != ConvertParams { swap_eyes: true, ..Default::default() });
}

#[test]
fn every_range_is_checked_at_both_ends() {
    let bad = [
        ConvertParams { decimate_vert: float(0.05), ..Default::default() },
        ConvertParams { leak_correct_left: float(-100.5), ..Default::default() },
        ConvertParams { defringe_left: float(33.0), ..Default::default() },
        ConvertParams { convergence: float(-10.5), ..Default::default() },
        ConvertParams { convergence: float(f32::INFINITY), ..Default::default() },
    ];
    for p in bad {
        assert!(p.validate().is_err());
    }
    let good = [
        ConvertParams { decimate_vert: float(0.1), ..Default::default() },
        ConvertParams { decimate_vert: float(100.0), ..Default::default() },
        ConvertParams { leak_correct_left: float(-100.0), ..Default::default() },
        ConvertParams { convergence: float(10.0), ..Default::default() },
    ];
    for p in good {
        assert!(p.validate().is_ok());
    }
}

#[test]
fn what_is_refused_says_what_and_why() {
    let show = |v: F32| format!("{}", f32::from_bits(v.bits));
    let p = ConvertParams { decimate_horiz: float(150.0), ..Default::default() };
    let text = p.validate().unwrap_err().message(&show);
    assert!(text.starts_with("decimate_horiz must be between 0.1 and 100"), "{text}");
    assert!(text.contains("150"), "{text}");
    let p = ConvertParams { output_size: Some((0, 7)), ..Default::default() };
    let text = p.validate().unwrap_err().message(&show);
    assert!(text.contains("0x7"), "{text}");
    let p = ConvertParams { output_size: Some((40000, 7)), ..Default::default() };
    let text = p.validate().unwrap_err().message(&show);
    assert!(text.contains("40000x7") && text.contains("32768"), "{text}");
}

#[test]
fn a_shift_rounds_half_a_pixel_up() {
    // 2.5% of 20 is half a pixel past nothing: one pixel is given up.
    let p = ConvertParams {
        convergence: float(2.5),
        layout: OutputLayout::LeftOnly,
        ..Default::default()
    };
    assert_eq!(p.output_geometry((20, 10)), (19, 10));
    assert_eq!(p.output_geometry((19, 10)), (19, 10));
}

#[test]
fn defaults_blur_colour_harder_horizontally_than_vertically() {
    // The whole reason the two axes are separate controls.
    let p = ConvertParams::default();
    let x = value(p.colour_sigma_x(&factor, &spread));
    let y = value(p.colour_sigma_y(&factor, &spread));
    assert!(x > y, "{x} vs {y}");
}

#[test]
fn leak_percentages_become_fractions() {
    let p = ConvertParams {
        leak_correct_left: float(10.0),
        leak_correct_right: float(-25.0),
        ..Default::default()
    };
    assert!((value(p.leak_left_fraction(&fraction)) - 0.1).abs() < 1e-6);
    assert!((value(p.leak_right_fraction(&fraction)) + 0.25).abs() < 1e-6);
}

#[test]
fn defringe_of_exactly_one_means_no_blur() {
    let p = ConvertParams {
        defringe_left: float(1.0),
        defringe_right: float(2.0),
        ..Default::default()
    };
    assert_eq!(value(p.defringe_sigma_left(&spread)), 0.0);
    assert!(value(p.defringe_sigma_right(&spread)) > 0.0);
}
