//! What the command line asks for and says back.

use ana_convert::choices::SourceKind;
use ana_convert::cli::{
    build_params, closing_line, exit_status, format_duration, make_job, parse_size, probe_lines,
    report_tools, Line, ProbeFacts, ProgressReporter, RenderArgs, ReportMath, Trial,
};
use ana_convert::compose::{EyeOrder, OutputLayout};
use ana_convert::encode::VideoCodec;
use ana_convert::extract::AnaglyphFormat;
use ana_convert::locate::{FfmpegTools, ToolSource};
use ana_convert::packed::StereoPacking;
use ana_convert::params::{ConvertParams, InputMode, MonoEye};
use ana_convert::probe::VideoInfo;
use ana_convert::render::{Progress, RenderSummary};
use ana_convert::scalar::{F32, F64};
use ana_convert::timecode::TimeMath;

fn f32_bits(v: f32) -> F32 {
    F32 { bits: v.to_bits() }
}

fn float(v: f64) -> F64 {
    F64 { bits: v.to_bits() }
}

fn value(v: F64) -> f64 {
    f64::from_bits(v.bits)
}

fn seconds(text: &str) -> Option<F64> {
    text.parse::<f64>().ok().map(float)
}

fn total(h: u64, m: u64, s: F64) -> F64 {
    float(h as f64 * 3600.0 + m as f64 * 60.0 + value(s))
}

fn frames(t: F64, fps: F64) -> u64 {
    (value(t) * value(fps)).round() as u64
}

fn show(v: F32) -> String {
    format!("{}", f32::from_bits(v.bits))
}

fn round(t: F64) -> u64 {
    value(t).round() as u64
}

fn args() -> RenderArgs {
    RenderArgs {
        input: "in.mkv".to_string(),
        out: "out.mkv".to_string(),
        right_eye: None,
        colour: None,
        mono: None,
        mono_eye: MonoEye::Neither,
        start: None,
        end: None,
        colour_start: None,
        colour_end: None,
        mono_start: None,
        mono_end: None,
        audio: None,
        source: None,
        anamorphic: false,
        format: None,
        output_format: None,
        layout: None,
        eye_order: None,
        swap_eyes: false,
        decimate_horiz: None,
        decimate_vert: None,
        leak_left: None,
        leak_right: None,
        convergence: None,
        codec: VideoCodec::H264,
        quality: 75,
        size: None,
    }
}

fn build(args: &RenderArgs) -> Result<ConvertParams, String> {
    let math = TimeMath { seconds, total, frames };
    build_params(args, &ConvertParams::default(), float(10.0), &math, &show)
}

fn info() -> VideoInfo {
    VideoInfo {
        width: 640,
        height: 360,
        fps: float(25.0),
        frame_count: Some(250),
        duration_secs: None,
        sample_aspect: float(1.0),
        bit_depth: 8,
        pix_fmt: "yuv420p".to_string(),
        has_audio: true,
    }
}

#[test]
fn size_is_parsed_from_either_separator() {
    assert_eq!(parse_size("1920x1080"), Ok((1920, 1080)));
    assert_eq!(parse_size("640X480"), Ok((640, 480)));
}

#[test]
fn a_malformed_size_explains_itself() {
    assert!(parse_size("1920").unwrap_err().contains("WxH"));
    assert!(parse_size("axb").unwrap_err().contains("not a number"));
}

#[test]
fn main_durations_read_naturally_at_every_scale() {
    assert_eq!(format_duration(float(45.0), &round), "45s");
    assert_eq!(format_duration(float(125.0), &round), "2m05s");
    assert_eq!(format_duration(float(7325.0), &round), "2h02m");
    assert_eq!(format_duration(float(f64::INFINITY), &round), "?");
}

#[test]
fn durations_that_make_no_sense_are_not_shown() {
    assert_eq!(format_duration(float(f64::NAN), &round), "?");
    assert_eq!(format_duration(float(-1.0), &round), "?");
    assert_eq!(format_duration(float(-0.0), &round), "0s");
}

#[test]
fn sizes_name_what_is_wrong_with_them() {
    assert_eq!(parse_size(" 12 x +7 "), Ok((12, 7)));
    assert_eq!(parse_size("1920").unwrap_err(), "--size wants WxH, got \"1920\"");
    assert_eq!(parse_size("ax5").unwrap_err(), "--size width is not a number: \"a\"");
    assert_eq!(parse_size("5x").unwrap_err(), "--size height is not a number: \"\"");
    assert_eq!(parse_size("5x6x7").unwrap_err(), "--size height is not a number: \"6x7\"");
    assert_eq!(parse_size("say \"x\" 4").unwrap_err(), "--size width is not a number: \"say \\\"\"");
    assert!(parse_size("99999999999999999999x1").is_err(), "too large to hold");
}

#[test]
fn a_size_survives_being_written_down() {
    for (w, h) in [(0, 0), (1, 2), (1920, 1080), (usize::MAX, 10)] {
        assert_eq!(parse_size(&format!("{w}x{h}")), Ok((w, h)));
    }
}

#[test]
fn flags_that_say_nothing_leave_the_preset_alone() {
    assert!(build(&args()).unwrap() == ConvertParams::default());
}

#[test]
fn flags_override_the_preset() {
    let mut a = args();
    a.source = Some(SourceKind::SideBySide);
    a.anamorphic = true;
    a.format = Some(AnaglyphFormat::GreenMagenta);
    a.layout = Some(OutputLayout::TopBottom);
    a.eye_order = Some(EyeOrder::RightFirst);
    a.swap_eyes = true;
    a.decimate_horiz = Some(f32_bits(12.0));
    a.leak_right = Some(f32_bits(-3.0));
    a.mono_eye = MonoEye::Right;
    a.start = Some("0:02".to_string());
    a.end = Some("90f".to_string());
    a.mono_start = Some("1.5".to_string());
    a.size = Some("800x600".to_string());
    let p = build(&a).unwrap();
    assert!(matches!(p.input, InputMode::Packed { anamorphic: true, .. }));
    assert_eq!(p.input_format, AnaglyphFormat::GreenMagenta);
    assert_eq!(p.output_format, AnaglyphFormat::RedCyan, "not asked for");
    assert_eq!(p.layout, OutputLayout::TopBottom);
    assert_eq!(p.eye_order, EyeOrder::RightFirst);
    assert!(p.swap_eyes);
    assert!(p.decimate_horiz == f32_bits(12.0));
    assert!(p.decimate_vert == f32_bits(20.0));
    assert!(p.leak_correct_right == f32_bits(-3.0));
    assert_eq!(p.mono_eye, MonoEye::Right);
    assert_eq!((p.anaglyph_trim.start, p.anaglyph_trim.end), (20, Some(90)));
    assert_eq!((p.mono_trim.start, p.mono_trim.end), (15, None));
    assert!(p.colour_trim.is_whole());
    assert_eq!(p.output_size, Some((800, 600)));
}

#[test]
fn a_bad_position_is_reported_under_its_range() {
    let mut a = args();
    a.colour_end = Some("tomorrow".to_string());
    let e = build(&a).unwrap_err();
    assert!(e.starts_with("--colour-start: \"tomorrow\""), "{e}");
    a.start = Some("-5".to_string());
    let e = build(&a).unwrap_err();
    assert!(e.starts_with("--start: "), "the first mistake is named: {e}");
}

#[test]
fn settings_out_of_range_are_refused_by_the_flags_too() {
    let mut a = args();
    a.leak_left = Some(f32_bits(250.0));
    assert!(build(&a).unwrap_err().contains("leak_correct_left"));
    let mut a = args();
    a.size = Some("0x5".to_string());
    assert!(build(&a).is_err());
}

#[test]
fn a_job_takes_its_audio_from_the_film_when_it_has_any() {
    let mut a = args();
    a.mono = Some("flat.mkv".to_string());
    let job = make_job(&a, &info(), ConvertParams::default());
    assert_eq!(job.audio.as_deref(), Some("in.mkv"));
    assert_eq!(job.colour.as_deref(), Some("flat.mkv"), "an eye is a colour reference too");
    assert_eq!(job.mono.as_deref(), Some("flat.mkv"));
    assert_eq!(job.output, "out.mkv");
    assert_eq!(job.encode.fps.bits, 25.0f64.to_bits());
    assert_eq!(job.encode.codec, VideoCodec::H264);

    a.colour = Some("colour.mkv".to_string());
    a.audio = Some("sound.mka".to_string());
    let silent = VideoInfo { has_audio: false, fps: float(0.0), ..info() };
    let job = make_job(&a, &silent, ConvertParams::default());
    assert_eq!(job.colour.as_deref(), Some("colour.mkv"));
    assert_eq!(job.audio.as_deref(), Some("sound.mka"));
    assert_eq!(job.encode.fps.bits, 24.0f64.to_bits(), "the rate of cinema");
    a.audio = None;
    assert_eq!(make_job(&a, &silent, ConvertParams::default()).audio, None);
}

#[test]
fn a_cancelled_run_does_not_look_like_success() {
    let mut s = RenderSummary { frames: 40, outputs: vec![], cancelled: false };
    assert_eq!(exit_status(&s), 0);
    assert_eq!(closing_line(&s, "2.0", "20.0"), "converted 40 frames in 2.0s (20.0 fps)");
    s.cancelled = true;
    assert_eq!(exit_status(&s), 130);
    assert_eq!(closing_line(&s, "2.0", "20.0"), "stopped after 40 frames in 2.0s (20.0 fps)");
}

#[test]
fn the_progress_line_is_not_redrawn_for_every_frame() {
    let math = ReportMath {
        rate: |n: u64, ms: u64| float(n as f64 * 1000.0 / ms as f64),
        percent: |a: u64, b: u64| format!("{:.0}", a as f64 / b as f64 * 100.0),
        show: |v: F64| format!("{:.1}", value(v)),
        left: |n: u64, v: F64| float(n as f64 / value(v)),
        round,
    };
    let mut r = ProgressReporter::new(1000);
    let frame = |done, total| Progress::Frame { done, total };
    assert!(r.report(&frame(1, Some(100)), 1050, &math).is_none());
    match r.report(&frame(10, Some(100)), 2000, &math) {
        Some(Line::Redrawn(text)) => assert_eq!(text, "  10/100 (10%) 10.0 fps, 9s left    "),
        other => panic!("{other:?}"),
    }
    assert!(r.report(&frame(11, Some(100)), 2099, &math).is_none());
    match r.report(&frame(12, None), 2100, &math) {
        Some(Line::Redrawn(text)) => assert_eq!(text, "  12 frames, 10.9 fps    "),
        other => panic!("{other:?}"),
    }
    let started = Progress::Started { total_frames: Some(7), width: 64, height: 48 };
    match r.report(&started, 2101, &math) {
        Some(Line::Whole(text)) => assert_eq!(text, "64x48, 7 frames"),
        other => panic!("{other:?}"),
    }
    let started = Progress::Started { total_frames: None, width: 64, height: 48 };
    match r.report(&started, 2101, &math) {
        Some(Line::Whole(text)) => assert_eq!(text, "64x48, length unknown"),
        other => panic!("{other:?}"),
    }
    match r.report(&Progress::Note("odd shape".to_string()), 2101, &math) {
        Some(Line::Whole(text)) => assert_eq!(text, "note: odd shape"),
        other => panic!("{other:?}"),
    }
    assert!(r.report(&Progress::Finished { frames: 7, cancelled: false }, 9000, &math).is_none());
}

#[test]
fn a_probe_says_what_a_conversion_would_write() {
    let facts = ProbeFacts {
        frame_rate: "25.000".to_string(),
        frames: Some(250),
        pixel_shape: "1.00000".to_string(),
        square: true,
        displays: "1.7778".to_string(),
        square_width: "640".to_string(),
        side_by_side: "3.5556".to_string(),
        top_bottom: "0.8889".to_string(),
        left_only: "1.7778".to_string(),
        length: "0:10.00".to_string(),
    };
    let lines = probe_lines("/f/in.mkv", &info(), &facts);
    assert_eq!(lines[0], "/f/in.mkv");
    assert_eq!(lines[1], "  size        640x360");
    assert_eq!(lines[3], "  frames      250");
    assert_eq!(lines[4], "  pixels      yuv420p (8-bit)");
    assert_eq!(lines[5], "  pixel shape 1.00000 (square)");
    assert_eq!(lines[6], "  displays at 1.7778:1  (640x360 of square pixels)");
    assert_eq!(
        lines[7],
        format!("    as {:<14} 1280x360 displaying 3.5556:1", OutputLayout::SideBySide.label())
    );
    assert_eq!(
        lines[8],
        format!("    as {:<14} 640x720 displaying 0.8889:1", OutputLayout::TopBottom.label())
    );
    assert_eq!(lines[10], "  audio       yes");
    assert_eq!(lines[11], "  length      0:10.00");
    let unknown = ProbeFacts { frames: None, square: false, ..facts };
    let lines = probe_lines("/f/in.mkv", &info(), &unknown);
    assert_eq!(lines.len(), 11);
    assert_eq!(lines[3], "  frames      unknown");
    assert_eq!(lines[5], "  pixel shape 1.00000 (not square)");
}

#[test]
fn the_tools_are_reported_with_whether_they_run() {
    let tools = FfmpegTools { ffmpeg: "/b/ffmpeg".to_string(), ffprobe: "/b/ffprobe".to_string() };
    let ran = Trial::Ran("ffmpeg version 7\r\nbuilt with love\n".to_string());
    let r = report_tools(&tools, ToolSource::Bundled, &ran);
    assert_eq!(
        r.lines,
        ["ffmpeg   /b/ffmpeg", "ffprobe  /b/ffprobe", "found as Bundled", "running  ffmpeg version 7"]
    );
    assert_eq!((r.trouble, r.status), (None, 0));
    let r = report_tools(&tools, ToolSource::SystemPath, &Trial::Ran(String::new()));
    assert_eq!(r.lines[3], "running  ?");
    let r = report_tools(&tools, ToolSource::Override, &Trial::Refused(" no such codec \n".to_string()));
    assert_eq!(r.trouble.as_deref(), Some("it will not run: no such codec"));
    assert_eq!(r.status, 1);
    let r = report_tools(&tools, ToolSource::Override, &Trial::Failed("not found".to_string()));
    assert_eq!(r.trouble.as_deref(), Some("it will not run: not found"));
    assert_eq!(r.lines.len(), 3);
}

#[test]
fn a_packed_preset_renders_unchanged_without_a_source_flag() {
    let math = TimeMath { seconds, total, frames };
    let input = InputMode::Packed {
        packing: StereoPacking::SideBySide,
        order: EyeOrder::LeftFirst,
        anamorphic: true,
    };
    let preset = ConvertParams { input, ..Default::default() };
    let p = build_params(&args(), &preset, float(10.0), &math, &show).unwrap();
    assert_eq!(p.input, input);
    assert!(p == preset);

    let mut a = args();
    a.source = Some(SourceKind::Anaglyph);
    let p = build_params(&a, &preset, float(10.0), &math, &show).unwrap();
    assert_eq!(p.input, InputMode::Anaglyph, "a flag that is given wins");

    let mut a = args();
    a.anamorphic = true;
    let preset = ConvertParams {
        input: InputMode::packed(StereoPacking::TopBottom, false),
        ..Default::default()
    };
    let p = build_params(&a, &preset, float(10.0), &math, &show).unwrap();
    assert_eq!(p.input, InputMode::packed(StereoPacking::TopBottom, true));
    assert_eq!(build(&a).unwrap().input, InputMode::Anaglyph, "nothing is packed here");
}

#[test]
fn convergence_can_be_given_as_a_flag() {
    let mut a = args();
    a.convergence = Some(f32_bits(-2.5));
    assert!(build(&a).unwrap().convergence == f32_bits(-2.5));
    a.convergence = Some(f32_bits(12.0));
    assert!(build(&a).unwrap_err().contains("convergence"));
}
