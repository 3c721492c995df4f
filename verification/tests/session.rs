//! What the window holds and what is done in it.

use ana_convert::blur::BlurMath;
use ana_convert::choices::{Role, SecondaryRole, SourceKind};
use ana_convert::compose::OutputLayout;
use ana_convert::encode::{EncodeSettings, VideoCodec};
use ana_convert::extract::AnaglyphFormat;
use ana_convert::extract::EyeProjection;
use ana_convert::grade::Grade;
use ana_convert::locate::{FfmpegTools, ToolSource};
use ana_convert::media::MediaError;
use ana_convert::panels::{about_line, encoding_dialog, toggle_end, write_offset, SourceDetail, Transport};
use ana_convert::params::ConvertParams;
use ana_convert::params::{MonoEye, SourceTrim};
use ana_convert::pipeline::{RecoveryMath, StrengthMath};
use ana_convert::probe::VideoInfo;
use ana_convert::progress::Finished;
use ana_convert::render::{check_job, Progress};
use ana_convert::restore::ColourRestore;
use ana_convert::scalar::F32;
use ana_convert::scalar::F64;
use ana_convert::session::{AnaApp, PreviewMath, Source, VERSION};
use ana_convert::transfer::TransferFunction;
use ana_convert::view::ViewMode;

type FrameF32 = ana_convert::frame::FrameF32<f32>;

fn double(v: f64) -> F64 {
    F64 { bits: v.to_bits() }
}

fn float(v: f32) -> F32 {
    F32 { bits: v.to_bits() }
}

fn value(v: F32) -> f32 {
    f32::from_bits(v.bits)
}

/// What an eye's filter passes of one pixel.
fn project(p: EyeProjection, r: f32, g: f32, b: f32) -> f32 {
    p.apply(r, g, b, &weights())
}

type Weights = ana_convert::extract::ProjectMath<
    fn(u32, u64) -> f32,
    fn(f32, f32) -> f32,
    fn(f32, f32) -> f32,
>;

fn weights() -> Weights {
    Weights {
        weight: |part: u32, total: u64| part as f32 / total as f32,
        times: |a: f32, b: f32| a * b,
        plus: |a: f32, b: f32| a + b,
    }
}

fn to_linear(tf: TransferFunction, encoded: f32) -> f32 {
    tf.to_linear(
        encoded,
        &ana_convert::transfer::CurveMath {
            negative: |v: f32| v < 0.0,
            mirror: |v: f32| -v,
            on_toe: |tf: TransferFunction, v: f32| match tf {
                TransferFunction::Srgb => v <= 0.040_448_237,
                _ => v < 0.081,
            },
            toe: |tf: TransferFunction, v: f32| match tf {
                TransferFunction::Srgb => v / 12.92,
                _ => v / 4.5,
            },
            power: |tf: TransferFunction, v: f32| match tf {
                TransferFunction::Srgb => ((v + 0.055) / 1.055).powf(2.4),
                _ => ((v + 0.099) / 1.099).powf(1.0 / 0.45),
            },
        },
    )
}

fn from_linear(tf: TransferFunction, linear: f32) -> f32 {
    tf.from_linear(
        linear,
        &ana_convert::transfer::CurveMath {
            negative: |v: f32| v < 0.0,
            mirror: |v: f32| -v,
            on_toe: |tf: TransferFunction, v: f32| match tf {
                TransferFunction::Srgb => v <= 0.003_130_8,
                _ => v < 0.018,
            },
            toe: |tf: TransferFunction, v: f32| match tf {
                TransferFunction::Srgb => v * 12.92,
                _ => v * 4.5,
            },
            power: |tf: TransferFunction, v: f32| match tf {
                TransferFunction::Srgb => 1.055 * v.powf(1.0 / 2.4) - 0.055,
                _ => 1.099 * v.powf(0.45) - 0.099,
            },
        },
    )
}

/// One sample freed of the other eye's leak, and rescaled.
fn free_of_leak(leak: F32, target: f32, other: f32) -> f32 {
    ana_convert::leak::free_of_leak(
        leak,
        target,
        other,
        &ana_convert::leak::LeakMath {
            leaking: |leak: F32, v: f32| value(leak) * v,
            minus: |a: f32, b: f32| a - b,
            floor: |v: f32| v.max(0.0),
            rescale: |leak: F32, v: f32| v * (1.0 / (1.0 - value(leak)).max(1e-3)),
        },
    )
}

/// One signal painted with a reference colour.
fn paint(mode: ColourRestore, p: EyeProjection, signal: f32, c: (f32, f32, f32)) -> (f32, f32, f32) {
    ana_convert::restore::paint(
        mode,
        p,
        signal,
        c,
        &ana_convert::restore::PaintMath {
            project,
            minus: |a: f32, b: f32| a - b,
            plus: |a: f32, b: f32| a + b,
            lift: |v: f32| v + 1e-4,
            over: |a: f32, b: f32| a / b,
            times: |a: f32, b: f32| a * b,
        },
    )
}

fn luminance(r: f32, g: f32, b: f32) -> f32 {
    ana_convert::extract::luminance(
        r,
        g,
        b,
        &ana_convert::extract::ProjectMath {
            weight: |part: u32, total: u64| part as f32 / total as f32,
            times: |a: f32, b: f32| a * b,
            plus: |a: f32, b: f32| a + b,
        },
    )
}

/// One pixel graded: contrast, then brightness, then saturation.
fn grade_pixel(grade: Grade, c: (f32, f32, f32)) -> (f32, f32, f32) {
    ana_convert::grade::grade_pixel(
        grade,
        c,
        &ana_convert::grade::GradeMath {
            contrast: |k: F32, v: f32| (v - 0.5) * value(k) + 0.5,
            brighten: |k: F32, v: f32| v + value(k),
            luminance,
            saturate: |k: F32, grey: f32, v: f32| grey + (v - grey) * value(k),
        },
    )
}

fn kernel(sigma: F32) -> Vec<f32> {
    let sigma = value(sigma);
    let radius = (sigma * 3.0).ceil() as usize;
    let raw: Vec<f32> = (0..=2 * radius)
        .map(|i| {
            let x = i as f32 - radius as f32;
            (-x * x / (2.0 * sigma * sigma)).exp()
        })
        .collect();
    let sum: f32 = raw.iter().sum();
    raw.iter().map(|w| w / sum).collect()
}

fn radii(sigma: F32) -> [usize; 3] {
    let sigma = value(sigma);
    let ideal = (4.0 * sigma * sigma + 1.0).sqrt();
    let mut lower = ideal.floor() as i32;
    if lower % 2 == 0 {
        lower -= 1;
    }
    let lower = lower.max(1);
    let l = lower as f32;
    let count = (12.0 * sigma * sigma - 3.0 * l * l - 12.0 * l - 9.0) / (-4.0 * l - 4.0);
    let narrow = count.round().clamp(0.0, 3.0) as usize;
    let mut radii = [0usize; 3];
    for (i, radius) in radii.iter_mut().enumerate() {
        let width = if i < narrow { lower } else { lower + 2 };
        *radius = ((width - 1) / 2) as usize;
    }
    radii
}

fn accumulate(sum: f32, weight: f32, sample: f32) -> f32 {
    sum + weight * sample
}

fn plus(a: f32, b: f32) -> f32 {
    a + b
}

fn slide(sum: f32, coming: f32, leaving: f32) -> f32 {
    sum + (coming - leaving)
}

fn mean(sum: f32, count: usize) -> f32 {
    sum / count as f32
}

type Sums =
    BlurMath<f32, fn(f32, f32, f32) -> f32, fn(f32, f32) -> f32, fn(f32, f32, f32) -> f32, fn(f32, usize) -> f32>;

fn sums() -> Sums {
    BlurMath { zero: 0.0, accumulate, plus, slide, mean }
}

/// Resamples with three Lanczos lobes, widened where the picture shrinks.
fn stretch(frame: &FrameF32, width: usize, height: usize) -> FrameF32 {
    let add = |sum: f32, weight: f32, sample: f32| sum + weight * sample;
    ana_convert::compose::resize(frame, width, height, &filter(), &add)
}

type Filter = ana_convert::compose::TapMath<
    f32,
    fn(usize, usize, usize) -> (isize, isize),
    fn(usize, usize, usize, isize) -> f32,
    fn(f32, f32) -> f32,
    fn(f32, f32) -> f32,
>;

/// How far the filter is widened where the picture shrinks, and where it is centred.
fn laid(src: usize, dst: usize, i: usize) -> (f32, f32) {
    let scale = dst as f32 / src as f32;
    (if scale < 1.0 { 1.0 / scale } else { 1.0 }, (i as f32 + 0.5) / scale - 0.5)
}

fn filter() -> Filter {
    Filter {
        zero: 0.0,
        reach: |src: usize, dst: usize, i: usize| {
            let (widened, at) = laid(src, dst, i);
            ((at - 3.0 * widened).ceil() as isize, (at + 3.0 * widened).floor() as isize)
        },
        weigh: |src: usize, dst: usize, i: usize, s: isize| {
            let (widened, at) = laid(src, dst, i);
            lanczos((s as f32 - at) / widened)
        },
        plus: |a: f32, b: f32| a + b,
        share: |w: f32, sum: f32| if sum != 0.0 { w / sum } else { w },
    }
}

fn lanczos(x: f32) -> f32 {
    if x.abs() < 1e-6 {
        return 1.0;
    }
    if x.abs() >= 3.0 {
        return 0.0;
    }
    let px = std::f32::consts::PI * x;
    3.0 * px.sin() * (px / 3.0).sin() / (px * px)
}

type Math = RecoveryMath<
    f32,
    fn(TransferFunction, f32) -> f32,
    fn(TransferFunction, f32) -> f32,
    fn(EyeProjection, f32, f32, f32) -> f32,
    fn(F32, f32, f32) -> f32,
    fn(ColourRestore, EyeProjection, f32, (f32, f32, f32)) -> (f32, f32, f32),
    fn(Grade, (f32, f32, f32)) -> (f32, f32, f32),
    fn(f32, f32, f32) -> f32,
    fn(f32, f32) -> f32,
    fn(f32, f32, f32) -> f32,
    fn(f32, usize) -> f32,
    fn(F32) -> Vec<f32>,
    fn(F32) -> [usize; 3],
>;

fn math() -> Math {
    RecoveryMath {
        to_linear,
        from_linear,
        project,
        correct: free_of_leak,
        restore: paint,
        grade: grade_pixel,
        blur: sums(),
        kernel,
        radii,
    }
}

type Strength = ana_convert::pipeline::StrengthMath<fn(F32) -> F32, fn(F32) -> F32, fn(F32) -> F32>;

fn strengths() -> Strength {
    StrengthMath {
        fraction: |percent| float(value(percent) / 100.0),
        factor: |percent| float(100.0 / value(percent)),
        spread: |factor| float((value(factor) - 1.0) / 2.0),
    }
}

fn info(width: usize, height: usize, frames: u64, has_audio: bool) -> VideoInfo {
    VideoInfo {
        width,
        height,
        fps: double(10.0),
        frame_count: Some(frames),
        duration_secs: None,
        sample_aspect: double(1.0),
        bit_depth: 8,
        pix_fmt: "yuv420p".to_string(),
        has_audio,
    }
}

fn tools() -> FfmpegTools {
    FfmpegTools { ffmpeg: "/b/ffmpeg".to_string(), ffprobe: "/b/ffprobe".to_string() }
}

/// A film, its 2D release, the other eye and something broken.
fn probe(_: &FfmpegTools, path: &str) -> Result<VideoInfo, MediaError> {
    match path {
        "/f/film.mkv" => Ok(info(64, 48, 30, true)),
        "/f/flat.mp4" => Ok(info(128, 96, 40, false)),
        "/f/right.mkv" => Ok(info(64, 48, 30, false)),
        _ => Err(MediaError::NoVideoStream { path: path.to_string() }),
    }
}

/// A frame as flat as the file is, a little brighter at each index.
fn grab(source: &Source, index: u64) -> Result<FrameF32, MediaError> {
    if source.path == "/f/flat.mp4" && index == 13 {
        return Err(MediaError::Io { path: source.path.clone(), source: "scratched".to_string() });
    }
    let base = match source.path.as_str() {
        "/f/film.mkv" => 0.2,
        "/f/right.mkv" => 0.4,
        _ => 0.6,
    };
    Ok(FrameF32::filled(source.info.width, source.info.height, 3, base + index as f32 / 1000.0))
}

fn app() -> AnaApp<f32> {
    AnaApp::new(Ok((tools(), ToolSource::Bundled)), false)
}

fn app_with_film() -> AnaApp<f32> {
    let mut a = app();
    a.open(Role::Anaglyph, "/f/film.mkv", &probe);
    a
}

fn refresh(a: &mut AnaApp<f32>, scale: f32) -> bool {
    let by = PreviewMath {
        differs: |a: F32, b: F32| (value(a) - value(b)).abs() > 0.01,
        ease: |v: F32, s: F32| float(1.0 + (value(v) - 1.0) * value(s)),
        grab,
        round: |n: usize, s: F32| (n as f32 * value(s)).round() as usize,
        strengths: strengths(),
    };
    a.refresh_preview(float(scale), &by, &math(), &stretch)
}

fn count(_: F64, _: F64) -> u64 {
    0
}

fn per(n: u64, t: F64) -> F64 {
    double(n as f64 / f64::from_bits(t.bits))
}

fn seconds(t: F64) -> u64 {
    f64::from_bits(t.bits) as u64
}

fn show64(v: F64) -> String {
    format!("{:.3}", f64::from_bits(v.bits))
}

fn show(v: F32) -> String {
    format!("{}", value(v))
}

fn hundredths(frame: u64, fps: F64) -> u64 {
    (frame as f64 / f64::from_bits(fps.bits) * 100.0).round() as u64
}

fn differ(a: f32, b: f32) -> f32 {
    ((a - b).abs() * 4.0).min(1.0)
}

#[test]
fn opening_a_film_puts_its_output_beside_it() {
    let a = app_with_film();
    assert_eq!(a.output.as_deref(), Some("/f/film-stereo.mkv"));
    assert_eq!(a.audio.as_deref(), Some("/f/film.mkv"), "it has a track");
    assert_eq!(a.frame, 0);
    assert_eq!(a.frame_count(&count), 30);
    assert_eq!(app().frame_count(&count), 1);
    assert!(a.problem.is_none());
}

#[test]
fn a_file_that_cannot_be_opened_is_named() {
    let mut a = app_with_film();
    a.open(Role::Secondary, "/f/broken.mkv", &probe);
    assert_eq!(a.problem.as_deref(), Some("/f/broken.mkv: /f/broken.mkv has no video stream"));
    assert!(a.secondary.is_none() && a.anaglyph.is_some());
    a.open(Role::Secondary, "/f/flat.mp4", &probe);
    assert!(a.problem.is_none() && a.secondary.is_some());
}

#[test]
fn without_tools_nothing_opens() {
    let mut a: AnaApp<f32> = AnaApp::new(Err(MediaError::ToolsNotFound), false);
    a.open(Role::Anaglyph, "/f/film.mkv", &probe);
    assert!(a.anaglyph.is_none() && a.problem.is_none());
    assert!(a.empty_state().contains("ffmpeg was not found"));
    assert!(a.top_bar(&show64).trouble.is_some());
    assert!(a.start_render(&show).is_none());
}

#[test]
fn dropped_files_fill_the_film_and_then_the_2d_release() {
    let mut a = app();
    a.take_dropped_files(
        &["/f/film.mkv".to_string(), "/f/notes.txt".to_string(), "/f/flat.mp4".to_string()],
        &probe,
    );
    assert_eq!(a.anaglyph.as_ref().map(|s| s.path.as_str()), Some("/f/film.mkv"));
    assert_eq!(a.secondary.as_ref().map(|s| s.path.as_str()), Some("/f/flat.mp4"));
    a.take_dropped_files(&["/f/notes.txt".to_string()], &probe);
    assert_eq!(a.problem.as_deref(), Some("notes.txt does not look like a video file"));
}

#[test]
fn the_preview_decodes_and_converts_only_what_changed() {
    let mut a = app_with_film();
    assert!(refresh(&mut a, 1.0), "a first picture");
    assert!(!refresh(&mut a, 1.0), "nothing changed");
    a.params.swap_eyes = true;
    assert!(refresh(&mut a, 1.0), "other settings");
    a.frame = 5;
    assert!(refresh(&mut a, 1.0), "another frame");
    assert!((a.decoded.anaglyph.as_ref().unwrap().plane(0)[0] - 0.205).abs() < 1e-6);
    assert!(refresh(&mut a, 0.5), "another size");
    assert_eq!(a.decoded.anaglyph.as_ref().unwrap().width(), 32);
    assert!(!refresh(&mut a, 0.505), "too small a difference to matter");
    let mut empty = app();
    assert!(!refresh(&mut empty, 1.0), "no film");
}

#[test]
fn the_2d_release_is_read_through_its_alignment() {
    let mut a = app_with_film();
    a.open(Role::Secondary, "/f/flat.mp4", &probe);
    a.params.anaglyph_trim.start = 10;
    a.params.colour_trim.start = 3;
    a.frame = 12;
    assert!(refresh(&mut a, 1.0));
    let colour = a.decoded.colour.as_ref().unwrap();
    assert_eq!((colour.width(), colour.height()), (64, 48), "brought to the film's size");
    assert!((colour.plane(0)[0] - 0.605).abs() < 1e-3, "frame 5 of the 2D release");
    assert!(a.decoded.mono.is_none());
    a.choose_role(SecondaryRole::IsLeftEye);
    assert!(refresh(&mut a, 1.0));
    assert!(a.decoded.mono.is_some());
    assert!((a.pair.as_ref().unwrap().left.plane(0)[0] - 0.605).abs() < 1e-3);
}

#[test]
fn a_frame_that_cannot_be_read_is_a_problem_not_a_picture() {
    let mut a = app_with_film();
    a.open(Role::Secondary, "/f/flat.mp4", &probe);
    a.frame = 13;
    assert!(!refresh(&mut a, 1.0));
    assert!(a.problem.as_deref().unwrap().starts_with("/f/flat.mp4: "));
    a.frame = 14;
    assert!(refresh(&mut a, 1.0));
}

#[test]
fn two_files_wait_for_the_second_one() {
    let mut a = app_with_film();
    a.choose_source(SourceKind::TwoFiles, false);
    assert!(!refresh(&mut a, 1.0), "there is no pair yet");
    a.open(Role::RightEye, "/f/right.mkv", &probe);
    assert!(refresh(&mut a, 1.0));
    let pair = a.pair.as_ref().unwrap();
    assert!((pair.left.plane(0)[0] - 0.2).abs() < 1e-6);
    assert!((pair.right.plane(0)[0] - 0.4).abs() < 1e-6);
}

#[test]
fn the_preview_stays_on_screen_when_the_view_changes() {
    let mut a = app_with_film();
    assert!(!a.needs_picture());
    assert!(a.picture(&differ).is_none(), "nothing to show yet");
    refresh(&mut a, 1.0);
    assert!(a.needs_picture());
    assert!(a.picture(&differ).is_some());
    assert!(!a.needs_picture());
    for view in [ViewMode::Difference, ViewMode::Anaglyph, ViewMode::Difference] {
        a.set_view(view);
        assert!(a.needs_picture(), "the preview went blank on switching to {view:?}");
        assert!(!refresh(&mut a, 1.0), "nothing has to be converted for it");
        assert!(a.picture(&differ).is_some());
    }
}

#[test]
fn the_format_picker_belongs_to_the_anaglyph_view() {
    let mut a = app_with_film();
    refresh(&mut a, 1.0);
    let mode = |a: &AnaApp<f32>| a.bottom_bar(double(0.0), &count, &per, &seconds, &show64).anaglyph_mode;
    assert_eq!(mode(&a), None, "a plain eye view is selected");
    a.set_view(ViewMode::Anaglyph);
    assert_eq!(mode(&a), Some("Red / cyan"));
    a.set_view(ViewMode::Difference);
    assert_eq!(mode(&a), None, "the picker outstayed the view it belongs to");
}

#[test]
fn the_preview_picker_is_a_separate_control_from_the_source_setting() {
    let mut a = app_with_film();
    a.params.input_format = AnaglyphFormat::RedBlue;
    a.set_view(ViewMode::Anaglyph);
    refresh(&mut a, 1.0);
    a.picture(&differ);
    a.set_preview_format(AnaglyphFormat::GreenMagenta);
    assert_eq!(a.params.input_format, AnaglyphFormat::RedBlue);
    assert!(a.needs_picture(), "another encoding is another picture");
    assert!(!refresh(&mut a, 1.0), "but the conversion is not touched");
    match a.source_section().detail {
        SourceDetail::ColourMode(name) => assert_eq!(name, "Red / blue"),
        other => panic!("{other:?}"),
    }
}

#[test]
fn switching_to_the_anaglyph_view_keeps_the_preview_on_screen() {
    let mut a = app_with_film();
    refresh(&mut a, 1.0);
    a.set_view(ViewMode::Anaglyph);
    let shown = a.picture(&differ).expect("the anaglyph view drew nothing");
    assert_eq!((shown.width(), shown.height()), (64, 48));
}

#[test]
fn a_job_is_what_the_window_shows() {
    let mut a = app_with_film();
    a.open(Role::Secondary, "/f/flat.mp4", &probe);
    a.params.colour_trim = SourceTrim { start: 4, end: None };
    let job = a.job().expect("a film and an output");
    assert_eq!(job.colour.as_deref(), Some("/f/flat.mp4"));
    assert_eq!((job.mono, job.params.mono_eye), (None, MonoEye::Neither));
    a.choose_role(SecondaryRole::IsRightEye);
    let job = a.job().unwrap();
    assert_eq!(job.mono.as_deref(), Some("/f/flat.mp4"));
    assert_eq!(job.params.mono_eye, MonoEye::Right);
    assert_eq!(job.params.mono_trim, a.params.colour_trim, "one file, one alignment");
    assert_eq!(job.encode.fps.bits, 10.0f64.to_bits());
    assert!(check_job(&job).is_ok());
    a.output = None;
    assert!(a.job().is_none());
}

#[test]
fn a_render_starts_only_when_it_can() {
    let mut a = app();
    assert!(a.start_render(&show).is_none());
    assert_eq!(a.problem.as_deref(), Some("choose an anaglyph file and an output first"));
    let mut a = app_with_film();
    a.params.decimate_horiz = float(500.0);
    assert!(a.start_render(&show).is_none());
    assert!(a.problem.as_deref().unwrap().contains("decimate_horiz"));
    a.reset_settings();
    a.outcome = Some("old news".to_string());
    let (t, job) = a.start_render(&show).expect("it can");
    assert_eq!((t.ffmpeg.as_str(), job.anaglyph.as_str()), ("/b/ffmpeg", "/f/film.mkv"));
    assert!(a.running.is_some() && a.problem.is_none() && a.outcome.is_none());
}

#[test]
fn an_ended_render_is_reported_and_the_preview_decoded_anew() {
    let mut a = app_with_film();
    refresh(&mut a, 1.0);
    a.start_render(&show);
    a.settle(Finished::Failed("disk full".to_string()));
    assert!(a.running.is_none());
    assert_eq!(a.outcome.as_deref(), Some("render failed"));
    assert_eq!(a.problem.as_deref(), Some("disk full"));
    assert!(refresh(&mut a, 1.0), "decoded anew");
}

#[test]
fn marking_a_moment_sets_both_ranges() {
    let mut a = app_with_film();
    a.open(Role::Secondary, "/f/flat.mp4", &probe);
    a.frame = 7;
    a.toggle_align(Role::Secondary, false);
    assert_eq!((a.aligning, a.align_frame), (Some(Role::Secondary), 7));
    a.align_frame = 19;
    a.mark_start(Role::Secondary);
    assert_eq!((a.params.anaglyph_trim.start, a.params.colour_trim.start), (7, 19));
    a.frame = 20;
    a.align_frame = 32;
    a.mark_end(Role::Secondary);
    assert_eq!(a.params.anaglyph_trim, SourceTrim { start: 7, end: Some(20) });
    assert_eq!(a.params.colour_trim, SourceTrim { start: 19, end: Some(32) });
    let pane = a.alignment_pane(Role::Secondary, &count, &hundredths).expect("two sources");
    assert_eq!(pane.offset, "offset +12 frames");
    assert_eq!((pane.last, pane.other_last, pane.other_label), (29, 39, "2D source"));
    assert_eq!((pane.film_time.as_str(), pane.other_time.as_str()), ("0:02.00", "0:03.20"));
    a.clear_range(Role::Secondary);
    assert!(a.params.anaglyph_trim.is_whole() && a.params.colour_trim.is_whole());
    a.toggle_align(Role::Secondary, true);
    assert_eq!(a.aligning, None);
    a.aligning = Some(Role::RightEye);
    assert!(a.alignment_pane(Role::RightEye, &count, &hundredths).is_none());
    assert_eq!(a.aligning, None, "there is nothing to align");
    assert_eq!(write_offset(9, 4), "offset -5 frames");
}

#[test]
fn presets_are_taken_in_and_reported() {
    let mut a = app_with_film();
    a.preset_loaded("/p/look.json", Ok(ConvertParams { swap_eyes: true, ..Default::default() }));
    assert!(a.params.swap_eyes);
    assert_eq!(a.outcome.as_deref(), Some("loaded /p/look.json"));
    a.preset_loaded("/p/bad.json", Err("not json".to_string()));
    assert_eq!(a.problem.as_deref(), Some("/p/bad.json: not json"));
    assert!(a.params.swap_eyes, "kept");
    a.preset_saved("/p/new.json", Ok(()));
    assert_eq!(a.outcome.as_deref(), Some("saved /p/new.json"));
    a.preset_saved("/p/new.json", Err("read-only".to_string()));
    assert_eq!(a.problem.as_deref(), Some("/p/new.json: read-only"));
}

#[test]
fn the_preview_plays_to_its_last_frame() {
    let mut a = app_with_film();
    a.frame = 27;
    a.playback.toggle();
    for _ in 0..5 {
        a.play(true, &count);
    }
    assert_eq!((a.frame, a.playback.playing), (29, false));
}

#[test]
fn the_top_bar_says_what_is_open() {
    let mut a = app();
    let bar = a.top_bar(&show64);
    assert_eq!(bar.open_label, "Open Source…");
    assert_eq!(bar.prompt, Some("Open a film, or drop one on the window."));
    a.open(Role::Anaglyph, "/f/film.mkv", &probe);
    a.open(Role::Secondary, "/f/flat.mp4", &probe);
    let bar = a.top_bar(&show64);
    assert_eq!(
        bar.film.as_deref(),
        Some("film.mkv   ·   Anaglyph (Red / cyan)   ·   64×48 at 10.000 fps")
    );
    assert_eq!(bar.second.as_deref(), Some("2D:  flat.mp4   ·   Colour reference only"));
    assert_eq!(bar.align, Some("Align sources…"));
    assert!(bar.secondary && !bar.right_eye);
    a.choose_source(SourceKind::TwoFiles, false);
    let bar = a.top_bar(&show64);
    assert_eq!(bar.open_label, "Open Left Eye…");
    assert!(!bar.secondary && bar.right_eye);
}

#[test]
fn the_bottom_bar_follows_a_run() {
    let mut a = app_with_film();
    let bar = a.bottom_bar(double(0.0), &count, &per, &seconds, &show64);
    assert_eq!((bar.last, bar.scrub, bar.play_label), (29, true, "Play"));
    match bar.transport {
        Transport::Idle { convert, destination } => {
            assert!(convert);
            assert_eq!(destination.as_deref(), Some("→ /f/film-stereo.mkv"));
        },
        other => panic!("{other:?}"),
    }
    a.start_render(&show);
    let run = a.running.as_mut().unwrap();
    run.pump(vec![Progress::Frame { done: 4, total: Some(30) }]);
    run.cancel();
    match a.bottom_bar(double(2.0), &count, &per, &seconds, &show64).transport {
        Transport::Running { stopping, share, status } => {
            assert_eq!(stopping, Some("stopping after this frame…"));
            assert_eq!(share, Some((4, 30)));
            assert_eq!(status, "4 / 30  ·  2.000 fps  ·  13s left");
        },
        other => panic!("{other:?}"),
    }
}

#[test]
fn the_sections_offer_what_applies() {
    let mut a = app_with_film();
    let d = a.destination_section();
    assert_eq!((d.colour_mode, d.eye_order), (None, Some("Left eye on the left")));
    a.params.layout = OutputLayout::Anaglyph;
    assert_eq!(a.destination_section().colour_mode, Some("Red / cyan"));
    a.params.layout = OutputLayout::TopBottom;
    assert_eq!(a.destination_section().eye_order, Some("Left eye on top"));
    a.params.layout = OutputLayout::Separate;
    let files = a.destination_section().files.unwrap();
    assert!(files.ends_with("film-stereo-left.mkv and film-stereo-right.mkv"), "{files}");
    assert!(a.source_section().recovery);
    a.choose_source(SourceKind::SideBySide, true);
    let section = a.source_section();
    assert!(!section.recovery && section.kind == SourceKind::SideBySide);
    assert!(matches!(section.detail, SourceDetail::Squeezed(true)));
    a.choose_source(SourceKind::TwoFiles, true);
    assert!(matches!(a.source_section().detail, SourceDetail::RightEye { missing: true, .. }));
    assert!(a.secondary_section().is_none());
    let row = a.trim_row(Role::Anaglyph, &count, &hundredths).unwrap();
    assert_eq!((row.last, row.start.as_str(), row.align), (29, "0:00.00", None));
    assert_eq!(row.end, "to the end of the file");
    assert!(a.trim_row(Role::Secondary, &count, &hundredths).is_none());
    let mut trim = SourceTrim { start: 2, end: None };
    toggle_end(&mut trim, true, 29);
    assert_eq!(trim, SourceTrim { start: 2, end: Some(29) });
    toggle_end(&mut trim, false, 29);
    assert_eq!(trim.end, None);
}

#[test]
fn choosing_a_fixed_bitrate_replaces_the_quality_slider() {
    let mut s = EncodeSettings::default();
    let dialog = encoding_dialog(&s);
    assert!(dialog.quality && !dialog.bitrate);
    s.bitrate_kbps = Some(8000);
    let dialog = encoding_dialog(&s);
    assert!(dialog.bitrate, "asking for a bitrate should offer somewhere to put it");
    assert!(!dialog.quality, "the quality slider stayed alongside the bitrate");
    s.codec = VideoCodec::ProRes;
    let dialog = encoding_dialog(&s);
    assert!(dialog.profile && !dialog.bitrate && !dialog.quality);
}

#[test]
fn the_keyframe_interval_is_opt_in() {
    let mut s = EncodeSettings::default();
    assert!(!encoding_dialog(&s).interval);
    s.keyframe_interval = Some(48);
    assert!(encoding_dialog(&s).interval);
}

#[test]
fn about_states_the_version_the_app_was_built_as() {
    assert_eq!(about_line(), format!("Version {VERSION} Beta"));
}

#[test]
fn the_preview_is_drawn_at_the_shape_of_its_view() {
    let shape = |w: usize, pixel: F64, h: usize| {
        double(w as f64 * f64::from_bits(pixel.bits) / h as f64)
    };
    let widen = |a: F64, by: ana_convert::params::Ratio| {
        double(f64::from_bits(a.bits) * by.num as f64 / by.den as f64)
    };
    let drawn = |a: &AnaApp<f32>| {
        f64::from_bits(a.preview_display_aspect(double(1.0), &shape, &widen).bits)
    };
    assert_eq!(drawn(&app()), 1.0, "square without a film");
    let mut a = app_with_film();
    let film = 64.0 / 48.0;
    assert_eq!(drawn(&a), film);
    a.set_view(ViewMode::SideBySide);
    assert_eq!(drawn(&a), film * 2.0);
    a.choose_source(SourceKind::SideBySide, false);
    assert_eq!(drawn(&a), film, "each eye is half the packed frame");
    a.choose_source(SourceKind::SideBySide, true);
    assert_eq!(drawn(&a), film * 2.0, "a squeezed eye fills the frame");
}
