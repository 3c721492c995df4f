//! A whole conversion's decisions: what is refused, what is read, when it stops.

use ana_convert::compose::OutputLayout;
use ana_convert::encode::EncodeSettings;
use ana_convert::encode::VideoCodec;
use ana_convert::media::MediaError;
use ana_convert::params::{ConvertParams, InputMode, MonoEye, Ratio, SourceTrim};
use ana_convert::probe::VideoInfo;
use ana_convert::render::{
    check_job, file_label, next_or_hold, opening_frames, output_paths, prepare, NextStep,
    PipelineError, Prepared, Progress, RenderJob, RenderPlan, RenderRun, RenderSummary, Surveyor,
    Turn,
};
use ana_convert::scalar::{F32, F64};

fn float(v: f64) -> F64 {
    F64 { bits: v.to_bits() }
}

fn value(v: F64) -> f64 {
    f64::from_bits(v.bits)
}

fn show(v: F32) -> String {
    format!("{}", f32::from_bits(v.bits))
}

fn clip(width: usize, height: usize, frames: u64, has_audio: bool) -> VideoInfo {
    VideoInfo {
        width,
        height,
        fps: float(10.0),
        frame_count: Some(frames),
        duration_secs: None,
        sample_aspect: float(1.0),
        bit_depth: 8,
        pix_fmt: "yuv420p".to_string(),
        has_audio,
    }
}

fn job(input: &str, output: &str) -> RenderJob {
    RenderJob {
        anaglyph: input.to_string(),
        right_eye: None,
        colour: None,
        mono: None,
        audio: None,
        output: output.to_string(),
        params: ConvertParams::default(),
        encode: EncodeSettings { codec: VideoCodec::H264, fps: float(10.0), ..Default::default() },
    }
}

/// Prepares a job against a shelf of files.
fn survey(job: &RenderJob, shelf: &[(&str, VideoInfo)]) -> Prepared {
    let by = Surveyor {
        windows: false,
        probe: |path: &str| match shelf.iter().find(|(name, _)| *name == path) {
            Some((_, info)) => Ok(info.clone()),
            None => Err(MediaError::NoVideoStream { path: path.to_string() }),
        },
        frames: |d: F64, fps: F64| (value(d) * value(fps)).round() as u64,
        shape: |w: usize, a: F64, h: usize| float(w as f64 * value(a) / h as f64),
        widen: |a: F64, by: Ratio| float(value(a) * by.num as f64 / by.den as f64),
    };
    prepare(job, &by)
}

fn plan(job: &RenderJob, shelf: &[(&str, VideoInfo)]) -> RenderPlan {
    survey(job, shelf).outcome.expect("should be prepared")
}

/// Runs a plan to its end, with as many frames as there are to read.
fn run(span: u64, frames_there: u64, cancel_after: Option<u64>) -> (Vec<Progress>, RenderSummary) {
    let mut events = Vec::new();
    let mut run = RenderRun::new(span);
    let mut read = 0;
    loop {
        let turn = Turn {
            got_frame: read < frames_there,
            cancel: cancel_after.is_some_and(|n| run.frames >= n),
        };
        match run.after_read(turn) {
            NextStep::Convert => {
                read += 1;
                events.push(run.after_convert());
            },
            NextStep::Finish => break,
        }
    }
    events.push(run.finished());
    (events, run.summary(vec!["out.mp4".to_string()]))
}

#[test]
fn a_stacked_layout_writes_the_named_file() {
    let paths = output_paths("/tmp/out.mkv", OutputLayout::SideBySide, false);
    assert_eq!(paths, vec!["/tmp/out.mkv".to_string()]);
}

#[test]
fn separate_streams_derive_a_file_per_eye() {
    let paths = output_paths("/tmp/movie.mkv", OutputLayout::Separate, false);
    assert_eq!(
        paths,
        vec!["/tmp/movie-left.mkv".to_string(), "/tmp/movie-right.mkv".to_string()]
    );
}

#[test]
fn derived_names_survive_a_dotted_stem() {
    let paths = output_paths("/tmp/my.movie.2160p.mkv", OutputLayout::Separate, false);
    assert_eq!(paths[0], "/tmp/my.movie.2160p-left.mkv");
}

#[test]
fn a_path_without_an_extension_still_splits() {
    let paths = output_paths("/tmp/movie", OutputLayout::Separate, false);
    assert_eq!(paths[0], "/tmp/movie-left");
    assert_eq!(paths[1], "/tmp/movie-right");
}

#[test]
fn a_side_by_side_render_produces_one_double_width_file() {
    let p = plan(&job("in.mp4", "out.mp4"), &[("in.mp4", clip(64, 48, 6, true))]);
    assert_eq!(p.span, 6);
    assert_eq!(p.outputs.len(), 1);
    assert_eq!((p.width, p.height), (128, 48));
    let (_, summary) = run(p.span, 6, None);
    assert_eq!(summary.frames, 6);
    assert!(!summary.cancelled);
}

#[test]
fn a_separate_render_writes_both_eyes_at_source_size() {
    let mut j = job("in.mp4", "eyes.mp4");
    j.params.layout = OutputLayout::Separate;
    let p = plan(&j, &[("in.mp4", clip(64, 48, 4, true))]);
    assert_eq!(p.outputs, ["eyes-left.mp4", "eyes-right.mp4"]);
    assert_eq!((p.width, p.height), (64, 48));
}

#[test]
fn progress_counts_every_frame_and_ends_once() {
    let p = plan(&job("in.mp4", "out.mp4"), &[("in.mp4", clip(32, 32, 5, true))]);
    assert!(matches!(p.started(), Progress::Started { .. }));
    let (events, _) = run(p.span, 5, None);
    let frames: Vec<u64> = events
        .iter()
        .filter_map(|e| match e {
            Progress::Frame { done, .. } => Some(*done),
            _ => None,
        })
        .collect();
    assert_eq!(frames, vec![1, 2, 3, 4, 5], "frame counts must be 1-based and complete");
    assert!(matches!(
        events.last(),
        Some(Progress::Finished { frames: 5, cancelled: false })
    ));
}

#[test]
fn progress_reports_a_total_when_the_container_knows_one() {
    let p = plan(&job("in.mp4", "out.mp4"), &[("in.mp4", clip(32, 32, 5, true))]);
    match p.started() {
        Progress::Started { total_frames, .. } => assert_eq!(total_frames, Some(5)),
        other => panic!("{other:?}"),
    }
}

#[test]
fn cancelling_stops_early_and_says_so() {
    let (_, summary) = run(40, 40, Some(3));
    assert!(summary.cancelled, "should report having been cancelled");
    assert!(summary.frames < 40, "should not have converted every frame, got {}", summary.frames);
    assert_eq!(summary.frames, 3);
}

#[test]
fn audio_is_carried_through_from_the_named_source() {
    let mut j = job("in.mp4", "out.mp4");
    j.audio = Some("in.mp4".to_string());
    let p = plan(&j, &[("in.mp4", clip(32, 32, 6, true))]);
    assert_eq!(p.settings.audio_from.as_deref(), Some("in.mp4"));
}

#[test]
fn an_audio_source_with_no_audio_is_refused_by_name() {
    let mut j = job("/d/silent.mp4", "out.mp4");
    j.audio = Some("/d/silent.mp4".to_string());
    let err = survey(&j, &[("/d/silent.mp4", clip(32, 32, 4, false))])
        .outcome
        .expect_err("should refuse");
    let message = err.message(&show);
    assert!(
        message.contains("silent.mp4") && message.contains("audio"),
        "the error must name the file and the problem, got: {message}"
    );
}

#[test]
fn a_silent_source_converts_when_no_audio_is_asked_for() {
    let p = plan(&job("silent.mp4", "out.mp4"), &[("silent.mp4", clip(32, 32, 4, false))]);
    assert_eq!(run(p.span, 4, None).1.frames, 4);
    assert_eq!(p.settings.audio_from, None);
}

#[test]
fn a_colour_source_at_another_resolution_is_used_anyway() {
    let mut j = job("in.mp4", "out.mp4");
    j.colour = Some("big.mp4".to_string());
    let shelf = [("in.mp4", clip(64, 48, 4, true)), ("big.mp4", clip(128, 96, 4, true))];
    let p = plan(&j, &shelf);
    assert_eq!(p.span, 4);
    assert_eq!((p.width, p.height), (128, 48), "the output keeps the anaglyph's geometry");
    assert!(survey(&j, &shelf).notes.is_empty(), "the same shape needs no mention");
}

#[test]
fn a_differently_shaped_source_is_reported_but_still_used() {
    let mut j = job("in.mp4", "out.mp4");
    j.colour = Some("wide.mp4".to_string());
    let done = survey(
        &j,
        &[("in.mp4", clip(128, 32, 4, true)), ("wide.mp4", clip(128, 96, 4, true))],
    );
    assert!(
        done.notes.iter().any(|n| n.contains("shape")),
        "should have mentioned the aspect difference, got {:?}",
        done.notes
    );
    assert_eq!(done.outcome.expect("render").span, 4);
}

#[test]
fn matching_sources_produce_no_notes() {
    let mut j = job("in.mp4", "out.mp4");
    j.colour = Some("in.mp4".to_string());
    let done = survey(&j, &[("in.mp4", clip(64, 48, 3, true))]);
    assert!(done.notes.is_empty(), "nothing to report, got {:?}", done.notes);
    assert!(done.outcome.is_ok());
}

#[test]
fn naming_a_mono_source_without_choosing_an_eye_is_refused() {
    let mut j = job("in.mp4", "out.mp4");
    j.mono = Some("in.mp4".to_string());
    assert!(matches!(check_job(&j), Err(PipelineError::MonoSourceUnused)));
    assert!(matches!(
        survey(&j, &[("in.mp4", clip(32, 32, 4, true))]).outcome,
        Err(PipelineError::MonoSourceUnused)
    ));
}

#[test]
fn choosing_a_mono_eye_without_a_source_is_refused() {
    let mut j = job("in.mp4", "out.mp4");
    j.params.mono_eye = MonoEye::Left;
    assert!(matches!(
        survey(&j, &[("in.mp4", clip(32, 32, 4, true))]).outcome,
        Err(PipelineError::MonoSourceMissing(MonoEye::Left))
    ));
}

#[test]
fn invalid_parameters_are_refused_before_any_work_starts() {
    let mut j = job("in.mp4", "out.mp4");
    j.params.decimate_horiz = F32 { bits: 500.0f32.to_bits() };
    // Nothing is on the shelf: the file is not even looked at.
    assert!(matches!(survey(&j, &[]).outcome, Err(PipelineError::Params(_))));
}

#[test]
fn a_non_square_source_is_not_rendered_square() {
    let wide = VideoInfo { sample_aspect: float(8.0 / 9.0), ..clip(64, 48, 4, true) };
    let p = plan(&job("wide.mp4", "out.mkv"), &[("wide.mp4", wide)]);
    let want = 64.0 * 8.0 / 9.0 / 48.0 * 2.0;
    let got = value(p.settings.display_aspect.expect("a shape"));
    assert!((got - want).abs() < 0.02, "expected a {want:.3}:1 frame, got {got:.3}:1");
}

#[test]
fn a_single_eye_from_a_non_square_source_keeps_its_shape() {
    let wide = VideoInfo { sample_aspect: float(8.0 / 9.0), ..clip(64, 48, 4, true) };
    let mut j = job("wide.mp4", "eye.mkv");
    j.params.layout = OutputLayout::LeftOnly;
    let p = plan(&j, &[("wide.mp4", wide)]);
    let got = value(p.settings.display_aspect.expect("a shape"));
    assert!((got - 64.0 * 8.0 / 9.0 / 48.0).abs() < 0.02, "got {got:.3}");
}

#[test]
fn a_square_source_stays_square() {
    let mut j = job("in.mp4", "out.mkv");
    j.params.layout = OutputLayout::LeftOnly;
    let p = plan(&j, &[("in.mp4", clip(64, 48, 4, true))]);
    let got = value(p.settings.display_aspect.expect("a shape"));
    assert!((got - 64.0 / 48.0).abs() < 0.02, "got {got:.3}");
}

#[test]
fn a_start_point_skips_the_frames_before_it() {
    let mut j = job("in.mp4", "out.mp4");
    j.params.anaglyph_trim = SourceTrim { start: 12, end: None };
    let p = plan(&j, &[("in.mp4", clip(48, 32, 20, true))]);
    assert_eq!(run(p.span, 8, None).1.frames, 8, "20 frames from 12 leaves 8");
    assert_eq!(opening_frames(&j.params).0, 12);
}

#[test]
fn start_and_end_points_select_exactly_that_range() {
    let mut j = job("in.mp4", "out.mp4");
    j.params.anaglyph_trim = SourceTrim { start: 5, end: Some(14) };
    let p = plan(&j, &[("in.mp4", clip(48, 32, 30, true))]);
    assert_eq!(run(p.span, 25, None).1.frames, 10, "frames 5..=14 inclusive");
}

#[test]
fn progress_totals_count_the_trim_not_the_whole_file() {
    let mut j = job("in.mp4", "out.mp4");
    j.params.anaglyph_trim = SourceTrim { start: 10, end: Some(19) };
    let p = plan(&j, &[("in.mp4", clip(32, 32, 40, true))]);
    match p.started() {
        Progress::Started { total_frames, .. } => {
            assert_eq!(total_frames, Some(10), "should report the trimmed length")
        },
        other => panic!("{other:?}"),
    }
}

#[test]
fn a_trim_that_selects_nothing_is_refused() {
    let mut j = job("in.mp4", "out.mp4");
    j.params.anaglyph_trim = SourceTrim { start: 500, end: None };
    let err = survey(&j, &[("in.mp4", clip(32, 32, 10, true))]).outcome.expect_err("should refuse");
    let text = err.message(&show);
    assert!(
        text.contains("no frames"),
        "the message should say the range is empty, got: {text}"
    );
}

#[test]
fn a_misaligned_2d_source_is_read_from_its_own_start() {
    let mut j = job("ana.mp4", "out.mp4");
    j.mono = Some("mono.mp4".to_string());
    j.params.mono_eye = MonoEye::Left;
    j.params.layout = OutputLayout::Separate;
    j.params.anaglyph_trim = SourceTrim { start: 10, end: Some(15) };
    j.params.mono_trim = SourceTrim { start: 3, end: None };
    let p = plan(
        &j,
        &[("ana.mp4", clip(64, 48, 30, true)), ("mono.mp4", clip(64, 48, 30, true))],
    );
    assert_eq!(run(p.span, 20, None).1.frames, 6);
    let (main, _, _, mono) = opening_frames(&j.params);
    assert_eq!((main, mono), (10, 3), "frame 10 is paired with frame 3");
}

#[test]
fn a_mono_source_reaches_the_output() {
    let mut j = job("in.mp4", "out.mp4");
    j.mono = Some("in.mp4".to_string());
    j.params.mono_eye = MonoEye::Left;
    j.params.layout = OutputLayout::Separate;
    let p = plan(&j, &[("in.mp4", clip(64, 48, 4, true))]);
    assert_eq!(p.outputs.len(), 2);
    assert!(p.mono.is_some());
}

#[test]
fn two_files_need_the_second_one() {
    let mut j = job("left.mp4", "out.mp4");
    j.params.input = InputMode::TwoFiles;
    let shelf = [("left.mp4", clip(64, 48, 4, true)), ("right.mp4", clip(64, 48, 4, true))];
    assert!(matches!(survey(&j, &shelf).outcome, Err(PipelineError::RightEyeMissing)));
    j.right_eye = Some("right.mp4".to_string());
    assert!(plan(&j, &shelf).right_eye.is_some());
    j.right_eye = Some("lost.mp4".to_string());
    assert!(matches!(survey(&j, &shelf).outcome, Err(PipelineError::Media(_))));
}

#[test]
fn every_refusal_has_words() {
    let messages = [
        PipelineError::MonoSourceUnused.message(&show),
        PipelineError::MonoSourceMissing(MonoEye::Right).message(&show),
        PipelineError::RightEyeMissing.message(&show),
        PipelineError::NoAudioInSource("a.mkv".to_string()).message(&show),
        PipelineError::TrimSelectsNoFrames { name: "a.mkv".to_string(), start: 9, total: 3 }
            .message(&show),
    ];
    assert_eq!(messages[1], "mono_eye is set to Right but no 2D source was given");
    assert_eq!(
        messages[4],
        "the chosen range selects no frames from a.mkv: it starts at 9 and the file has 3 frames"
    );
    assert!(messages.iter().all(|m| !m.is_empty()));
}

#[test]
fn a_source_running_short_holds_its_last_frame() {
    let mut held = None;
    next_or_hold(&mut held, Some(1));
    next_or_hold(&mut held, Some(2));
    next_or_hold(&mut held, None);
    assert_eq!(held, Some(2));
}

#[test]
fn a_run_ends_with_its_source_when_that_is_short() {
    let (events, summary) = run(40, 7, None);
    assert_eq!(summary.frames, 7);
    assert!(!summary.cancelled);
    assert_eq!(events.len(), 8);
}

#[test]
fn a_path_that_names_nothing_is_shown_whole() {
    assert_eq!(file_label("/a/b.mkv", false), "b.mkv");
    assert_eq!(file_label("/a/..", false), "/a/..");
}

#[test]
fn separate_streams_on_windows_stay_in_their_directory() {
    let paths = output_paths("D:\\my.out\\movie", OutputLayout::Separate, true);
    assert_eq!(paths, vec!["D:\\my.out\\movie-left".to_string(), "D:\\my.out\\movie-right".to_string()]);
    assert_eq!(file_label("D:\\a\\b.mkv", true), "b.mkv");
    assert_eq!(file_label("D:\\", true), "D:\\");
}
