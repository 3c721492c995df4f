//! Keeping the preview fast and honest.

use ana_convert::params::{ConvertParams, SourceTrim};
use ana_convert::preview::{even, Playback, PreviewCache, PreviewWork};
use ana_convert::scalar::F32;

type FrameF32 = ana_convert::frame::FrameF32<f32>;

fn over_hundred(percent: F32) -> F32 {
    float(100.0 / value(percent))
}

fn ease(factor: F32, scale: F32) -> F32 {
    float(1.0 + (value(factor) - 1.0) * value(scale))
}

fn scale_params_for_preview(params: &ConvertParams, scale: f32) -> ConvertParams {
    ana_convert::preview::scale_params_for_preview(params, float(scale), &over_hundred, &ease)
}

fn downscale(frame: &FrameF32, scale: f32) -> FrameF32 {
    let round = |n: usize, s: F32| (n as f32 * value(s)).round() as usize;
    ana_convert::preview::downscale(frame, float(scale), &round, &stretch)
}
fn sigma_from_shrink(factor: f32) -> f32 {
    value(ana_convert::blur::sigma_from_shrink(float(factor), &spread))
}

fn spread(factor: F32) -> F32 {
    float((value(factor) - 1.0) / 2.0)
}

fn sigma_from_decimate(percent: f32) -> f32 {
    let factor = |percent: F32| float(100.0 / value(percent));
    value(ana_convert::blur::sigma_from_decimate(float(percent), &factor, &spread))
}

fn float(v: f32) -> F32 {
    F32 { bits: v.to_bits() }
}

fn value(v: F32) -> f32 {
    f32::from_bits(v.bits)
}

/// Resamples with three Lanczos lobes, widened where the picture shrinks.
fn stretch(frame: &FrameF32, width: usize, height: usize) -> FrameF32 {
    let add = |sum: f32, weight: f32, sample: f32| sum + weight * sample;
    ana_convert::compose::resize(frame, width, height, &filter(), &add)
}

type Filter = ana_convert::compose::TapMath<
    f32,
    fn(usize, usize, usize) -> (isize, isize),
    fn(usize, usize, usize, isize) -> f32,
    fn(f32, f32) -> f32,
    fn(f32, f32) -> f32,
>;

/// How far the filter is widened where the picture shrinks, and where it is centred.
fn laid(src: usize, dst: usize, i: usize) -> (f32, f32) {
    let scale = dst as f32 / src as f32;
    (if scale < 1.0 { 1.0 / scale } else { 1.0 }, (i as f32 + 0.5) / scale - 0.5)
}

fn filter() -> Filter {
    Filter {
        zero: 0.0,
        reach: |src: usize, dst: usize, i: usize| {
            let (widened, at) = laid(src, dst, i);
            ((at - 3.0 * widened).ceil() as isize, (at + 3.0 * widened).floor() as isize)
        },
        weigh: |src: usize, dst: usize, i: usize, s: isize| {
            let (widened, at) = laid(src, dst, i);
            lanczos((s as f32 - at) / widened)
        },
        plus: |a: f32, b: f32| a + b,
        share: |w: f32, sum: f32| if sum != 0.0 { w / sum } else { w },
    }
}

fn lanczos(x: f32) -> f32 {
    if x.abs() < 1e-6 {
        return 1.0;
    }
    if x.abs() >= 3.0 {
        return 0.0;
    }
    let px = std::f32::consts::PI * x;
    3.0 * px.sin() * (px / 3.0).sin() / (px * px)
}

fn other_params() -> ConvertParams {
    ConvertParams {
        leak_correct_left: float(12.0),
        ..Default::default()
    }
}

// --- cache ---

#[test]
fn a_fresh_cache_must_decode() {
    let cache = PreviewCache::new();
    assert_eq!(
        cache.work_for(0, &ConvertParams::default()),
        PreviewWork::DecodeAndProcess
    );
}

#[test]
fn nothing_is_needed_once_a_frame_is_decoded_and_processed() {
    let params = ConvertParams::default();
    let mut cache = PreviewCache::new();
    cache.record_decode(7);
    cache.record_process(7, &params);
    assert_eq!(cache.work_for(7, &params), PreviewWork::Nothing);
}

#[test]
fn changing_a_parameter_reprocesses_without_decoding_again() {
    // The whole point: dragging a slider must not relaunch ffmpeg.
    let mut cache = PreviewCache::new();
    cache.record_decode(7);
    cache.record_process(7, &ConvertParams::default());
    assert_eq!(cache.work_for(7, &other_params()), PreviewWork::Reprocess);
}

#[test]
fn scrubbing_to_another_frame_decodes() {
    let params = ConvertParams::default();
    let mut cache = PreviewCache::new();
    cache.record_decode(7);
    cache.record_process(7, &params);
    assert_eq!(cache.work_for(8, &params), PreviewWork::DecodeAndProcess);
}

#[test]
fn a_decoded_but_unprocessed_frame_still_needs_processing() {
    let mut cache = PreviewCache::new();
    cache.record_decode(3);
    assert_eq!(
        cache.work_for(3, &ConvertParams::default()),
        PreviewWork::Reprocess
    );
}

#[test]
fn invalidating_forces_a_decode() {
    let params = ConvertParams::default();
    let mut cache = PreviewCache::new();
    cache.record_decode(2);
    cache.record_process(2, &params);
    cache.invalidate();
    assert_eq!(cache.work_for(2, &params), PreviewWork::DecodeAndProcess);
}

// --- preview scaling ---

#[test]
fn full_scale_changes_nothing() {
    let params = other_params();
    assert!(scale_params_for_preview(&params, 1.0) == params);
}

#[test]
fn half_scale_halves_the_effective_colour_blur() {
    // Measured as sigma, because that is what the blur actually applies.
    let params = ConvertParams::default();
    let scaled = scale_params_for_preview(&params, 0.5);
    for (full, small) in [
        (params.decimate_horiz, scaled.decimate_horiz),
        (params.decimate_vert, scaled.decimate_vert),
    ] {
        let want = sigma_from_decimate(value(full)) * 0.5;
        let got = sigma_from_decimate(value(small));
        assert!(
            (got - want).abs() < 1e-3,
            "decimate {full:?} -> {small:?}: sigma {got}, wanted {want}"
        );
    }
}

#[test]
fn a_quarter_scale_quarters_the_effective_colour_blur() {
    let params = ConvertParams::default();
    let scaled = scale_params_for_preview(&params, 0.25);
    let want = sigma_from_decimate(value(params.decimate_horiz)) * 0.25;
    let got = sigma_from_decimate(value(scaled.decimate_horiz));
    assert!((got - want).abs() < 1e-3, "sigma {got}, wanted {want}");
}

#[test]
fn de_fringe_scales_the_same_way() {
    let params = ConvertParams {
        defringe_left: float(3.0),
        defringe_right: float(2.0),
        ..Default::default()
    };
    let scaled = scale_params_for_preview(&params, 0.5);
    for (full, small) in [
        (params.defringe_left, scaled.defringe_left),
        (params.defringe_right, scaled.defringe_right),
    ] {
        let want = sigma_from_shrink(value(full)) * 0.5;
        let got = sigma_from_shrink(value(small));
        assert!((got - want).abs() < 1e-3, "defringe {full:?} -> {small:?}");
    }
}

#[test]
fn de_fringe_that_is_off_stays_off() {
    // Exactly 1.0 means disabled, and scaling must not switch it on.
    let scaled = scale_params_for_preview(&ConvertParams::default(), 0.3);
    assert!(scaled.defringe_left == float(1.0));
    assert!(scaled.defringe_right == float(1.0));
}

#[test]
fn settings_unrelated_to_blur_are_left_alone() {
    let params = ConvertParams {
        leak_correct_left: float(12.0),
        leak_correct_right: float(-5.0),
        swap_eyes: true,
        mono_trim: SourceTrim {
            start: 40,
            end: Some(900),
        },
        ..Default::default()
    };
    let scaled = scale_params_for_preview(&params, 0.5);
    assert!(scaled.leak_correct_left == float(12.0));
    assert!(scaled.leak_correct_right == float(-5.0));
    assert!(scaled.swap_eyes);
    assert_eq!(
        scaled.mono_trim, params.mono_trim,
        "alignment is not a blur setting"
    );
    assert_eq!(scaled.input_format, params.input_format);
    assert_eq!(scaled.restore, params.restore);
}

#[test]
fn scaled_settings_are_still_valid() {
    // The conversion must accept whatever this produces, at any scale and
    // for the extremes of both controls.
    for scale in [0.05, 0.1, 0.5, 0.99, 1.0] {
        for decimate in [0.1, 1.0, 5.0, 50.0, 100.0] {
            let params = ConvertParams {
                decimate_horiz: float(decimate),
                decimate_vert: float(decimate),
                defringe_left: float(4.0),
                ..Default::default()
            };
            let scaled = scale_params_for_preview(&params, scale);
            assert!(
                scaled.validate().is_ok(),
                "scale {scale}, decimate {decimate} produced {:?}: {:?}",
                scaled.decimate_horiz,
                scaled.validate()
            );
        }
    }
}

#[test]
fn downscaling_at_full_size_is_a_no_op() {
    let frame = FrameF32::new_rgb(8, 6);
    let out = downscale(&frame, 1.0);
    assert_eq!((out.width(), out.height()), (8, 6));
}

#[test]
fn downscaling_halves_the_dimensions() {
    let out = downscale(&FrameF32::new_rgb(80, 60), 0.5);
    assert_eq!((out.width(), out.height()), (40, 30));
}

#[test]
fn downscaling_always_lands_on_an_even_size() {
    // A packed source is split down the middle, and an odd frame has no
    // middle. Keeping preview frames even stops the preview and the render
    // disagreeing about which column is the seam.
    for scale in [0.13, 0.27, 0.41, 0.5, 0.63, 0.77, 0.91] {
        let out = downscale(&FrameF32::new_rgb(1280, 576), scale);
        assert_eq!(out.width() % 2, 0, "width {} at {scale}", out.width());
        assert_eq!(out.height() % 2, 0, "height {} at {scale}", out.height());
    }
}

#[test]
fn downscaling_never_collapses_a_frame_to_nothing() {
    // A tiny source in a large window must still produce something the
    // texture upload can accept.
    let out = downscale(&FrameF32::new_rgb(4, 4), 0.01);
    assert!(
        out.width() >= 2 && out.height() >= 2,
        "got {}x{}",
        out.width(),
        out.height()
    );
}

#[test]
fn playing_advances_the_frame() {
    let mut p = Playback { playing: false };
    assert_eq!(p.label(), "Play");
    p.toggle();
    assert_eq!(p.label(), "Pause");
    let mut frame = 0;
    for _ in 0..4 {
        frame = p.advance(frame, 29, true);
    }
    assert!(frame >= 3, "four frames' worth of playback moved the preview only to frame {frame}");
}

#[test]
fn pausing_leaves_the_frame_where_it_is() {
    let mut p = Playback { playing: true };
    let frame = p.advance(0, 29, true);
    let frame = p.advance(frame, 29, true);
    p.toggle();
    for _ in 0..3 {
        assert_eq!(p.advance(frame, 29, true), frame, "the preview kept advancing after Pause");
    }
}

#[test]
fn playback_does_not_outrun_the_source() {
    let mut p = Playback { playing: true };
    let mut frame = 0;
    for pass in 0..30 {
        frame = p.advance(frame, 29, pass % 10 == 9);
    }
    assert!(frame <= 5, "30 passes in barely any time advanced to frame {frame}");
}

#[test]
fn playback_stops_at_the_end_rather_than_looping() {
    let mut p = Playback { playing: true };
    let mut frame = 0;
    for _ in 0..8 {
        frame = p.advance(frame, 3, true);
    }
    assert_eq!(frame, 3, "playback should have come to rest on the last frame");
    assert_eq!(p.label(), "Play", "the button still offers Pause");
}

#[test]
fn numbers_are_evened_downwards_but_never_to_nothing() {
    assert_eq!([0, 1, 2, 3, 4, 601].map(even), [2, 2, 2, 2, 4, 600]);
}

#[test]
fn every_preview_sigma_is_the_scale_times_the_renders() {
    for scale in [0.01, 0.07, 0.37, 0.5, 0.93, 1.0] {
        for (decimate, defringe) in [(0.1, 1.0), (0.7, 1.5), (5.0, 9.0), (61.0, 32.0), (100.0, 2.0)] {
            let params = ConvertParams {
                decimate_horiz: float(decimate),
                decimate_vert: float(101.0 - decimate.max(1.0)),
                defringe_left: float(defringe),
                defringe_right: float(1.0),
                ..Default::default()
            };
            let small = scale_params_for_preview(&params, scale);
            assert!(small.validate().is_ok());
            for (full, small) in [
                (params.decimate_horiz, small.decimate_horiz),
                (params.decimate_vert, small.decimate_vert),
            ] {
                let want = sigma_from_decimate(value(full)) * scale;
                let got = sigma_from_decimate(value(small));
                assert!((got - want).abs() <= 2e-3, "{full:?} at {scale}: {got}, wanted {want}");
            }
            let want = sigma_from_shrink(defringe) * scale;
            let got = sigma_from_shrink(value(small.defringe_left));
            assert!((got - want).abs() <= 2e-3, "{defringe} at {scale}: {got}, wanted {want}");
            assert!(small.defringe_right == float(1.0));
        }
    }
}

#[test]
fn the_arithmetic_of_the_preview_is_close() {
    for step in 0..=4000 {
        let factor = 1.0 + step as f32 * 999.0 / 4000.0;
        let percent = value(over_hundred(float(factor))).clamp(0.1, 100.0);
        let back = value(over_hundred(float(percent)));
        assert!((back - factor).abs() <= 1e-3, "{factor} came back as {back}");
        for scale in [0.01, 0.3, 0.77, 1.0] {
            let eased = value(ease(float(factor), float(scale)));
            assert!(1.0 <= eased && eased <= factor, "{factor} at {scale} is {eased}");
            assert!((eased - 1.0 - (factor - 1.0) * scale).abs() <= 1e-3);
        }
    }
}

#[test]
fn a_scale_below_a_hundredth_counts_as_a_hundredth() {
    let params = other_params();
    assert!(scale_params_for_preview(&params, 0.0) == scale_params_for_preview(&params, 0.01));
    assert!(scale_params_for_preview(&params, 3.0) == params);
}
