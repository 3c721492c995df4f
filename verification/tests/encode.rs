//! The command line that reaches the encoder, and the bytes that follow it.

use ana_convert::encode::{
    encoder_args, frame_to_bytes, judge_tool, video_args, EncodeSettings, ProResProfile, VideoCodec,
};
use ana_convert::frame::FrameF32;
use ana_convert::media::{file_arg, MediaError};
use ana_convert::scalar::F64;

fn float(v: f64) -> F64 {
    F64 { bits: v.to_bits() }
}

fn show(v: F64) -> String {
    format!("{}", f64::from_bits(v.bits))
}

type Quantising = ana_convert::frame::QuantiseMath<
    fn(f32, u32) -> f32,
    fn(f32) -> bool,
    fn(f32, u32) -> bool,
    fn(f32) -> u32,
>;

fn quantising() -> Quantising {
    Quantising {
        round: |v: f32, limit: u32| (v * limit as f32).round(),
        below: |v: f32| v.is_nan() || v < 0.0,
        above: |v: f32, limit: u32| v > limit as f32,
        whole: |v: f32| v as u32,
    }
}

fn solid(width: usize, height: usize, rgb: [f32; 3]) -> FrameF32<f32> {
    FrameF32::from_rgb_planes(
        width,
        height,
        &vec![rgb[0]; width * height],
        &vec![rgb[1]; width * height],
        &vec![rgb[2]; width * height],
    )
}

/// The arguments as one string, for asserting on what reaches ffmpeg.
fn args_for(settings: &EncodeSettings) -> String {
    video_args(settings).join(" ")
}

fn whole_command(settings: &EncodeSettings, path: &str) -> String {
    encoder_args(path, 64, 48, settings, &show, &show).join(" ")
}

#[test]
fn quality_is_the_default_rate_control() {
    let args = args_for(&EncodeSettings {
        codec: VideoCodec::H264,
        quality: 100,
        ..Default::default()
    });
    assert!(args.contains("-crf 14"), "got {args}");
    assert!(!args.contains("-b:v"), "a bitrate was set without being asked for");
}

#[test]
fn a_bitrate_replaces_the_quality_setting() {
    let args = args_for(&EncodeSettings {
        codec: VideoCodec::H264,
        bitrate_kbps: Some(4500),
        ..Default::default()
    });
    assert!(args.contains("-b:v 4500k"), "got {args}");
    assert!(!args.contains("-crf"), "quality was sent alongside a bitrate: {args}");
}

#[test]
fn a_keyframe_interval_reaches_ffmpeg() {
    let args = args_for(&EncodeSettings { keyframe_interval: Some(48), ..Default::default() });
    assert!(args.contains("-g 48"), "got {args}");
}

#[test]
fn no_keyframe_interval_leaves_the_encoder_to_decide() {
    assert!(!args_for(&EncodeSettings::default()).contains("-g "));
}

#[test]
fn the_prores_profile_is_chosen_rather_than_fixed() {
    for (profile, number) in [
        (ProResProfile::Proxy, "0"),
        (ProResProfile::Lt, "1"),
        (ProResProfile::Standard, "2"),
        (ProResProfile::Hq, "3"),
        (ProResProfile::Quad, "4"),
    ] {
        let args = args_for(&EncodeSettings {
            codec: VideoCodec::ProRes,
            prores_profile: profile,
            ..Default::default()
        });
        assert!(
            args.contains(&format!("-profile:v {number}")),
            "{profile:?} should be profile {number}, got {args}"
        );
    }
}

#[test]
fn prores_ignores_a_bitrate() {
    let args = args_for(&EncodeSettings {
        codec: VideoCodec::ProRes,
        bitrate_kbps: Some(4500),
        ..Default::default()
    });
    assert!(!args.contains("-b:v"), "got {args}");
}

#[test]
fn the_defaults_are_what_the_app_shipped_with() {
    let args = args_for(&EncodeSettings::default());
    assert!(args.contains("-c:v h264_videotoolbox"), "got {args}");
    assert!(args.contains("-q:v 75"), "got {args}");
    assert!(args.contains("-pix_fmt yuv420p"), "got {args}");
}

#[test]
fn crf_runs_backwards_from_the_quality_scale() {
    let best = VideoCodec::H264.quality_args(100);
    let worst = VideoCodec::H264.quality_args(0);
    assert_eq!(best, vec!["-crf".to_string(), "14".to_string()]);
    assert_eq!(worst, vec!["-crf".to_string(), "35".to_string()]);
}

#[test]
fn videotoolbox_takes_the_quality_scale_directly() {
    assert_eq!(
        VideoCodec::H264VideoToolbox.quality_args(80),
        vec!["-q:v".to_string(), "80".to_string()]
    );
}

#[test]
fn every_quality_is_the_nearest_crf() {
    for quality in 0..=100u8 {
        let want = 35 - (f32::from(quality) * 0.21).round() as i32;
        let args = VideoCodec::Hevc.quality_args(quality);
        assert_eq!(args, vec!["-crf".to_string(), want.to_string()], "quality {quality}");
    }
}

#[test]
fn a_frame_of_the_wrong_size_is_rejected() {
    let err = frame_to_bytes(&solid(32, 32, [0.5, 0.5, 0.5]), 64, 48, &quantising());
    assert!(err.is_err(), "a mismatched frame must be refused");
    match err {
        Err(MediaError::FrameSizeMismatch { .. }) => {},
        other => panic!("{other:?}"),
    }
}

#[test]
fn a_frame_is_written_little_end_first() {
    let bytes = frame_to_bytes(&solid(2, 1, [1.0, 0.0, 0.5]), 2, 1, &quantising()).unwrap();
    assert_eq!(bytes, [255, 255, 0, 0, 0, 128, 255, 255, 0, 0, 0, 128]);
}

#[test]
fn an_audio_source_is_never_taken_as_an_ffmpeg_protocol() {
    let command = whole_command(
        &EncodeSettings { audio_from: Some("cache:file:/tmp/a.mp4".to_string()), ..Default::default() },
        "out.mp4",
    );
    assert!(command.contains("file:cache:file:/tmp/a.mp4"), "{command}");
}

#[test]
fn a_path_containing_a_colon_can_still_be_written() {
    assert_eq!(file_arg("my:film.mkv"), "file:my:film.mkv");
    let command = whole_command(&EncodeSettings::default(), "my:film.mkv");
    assert!(command.ends_with("file:my:film.mkv"), "{command}");
}

#[test]
fn audio_is_carried_over_from_the_nominated_source() {
    let with = whole_command(
        &EncodeSettings { audio_from: Some("/f/source.mp4".to_string()), ..Default::default() },
        "out.mp4",
    );
    assert!(with.contains("file:/f/source.mp4") && with.contains("-map 1:a"), "{with}");
}

#[test]
fn no_audio_source_means_no_audio_track() {
    let without = whole_command(&EncodeSettings::default(), "out.mp4");
    assert!(!without.contains("1:a"), "{without}");
}

#[test]
fn a_display_aspect_reaches_the_written_file() {
    let command = whole_command(
        &EncodeSettings { display_aspect: Some(float(2.0)), ..Default::default() },
        "wide.mkv",
    );
    assert!(command.contains("-aspect 2"), "{command}");
}

#[test]
fn no_display_aspect_leaves_square_pixels() {
    let plain = whole_command(&EncodeSettings::default(), "square.mkv");
    assert!(!plain.contains("-aspect"), "{plain}");
    for nonsense in [0.0, -1.0, f64::NAN, f64::INFINITY] {
        let command = whole_command(
            &EncodeSettings { display_aspect: Some(float(nonsense)), ..Default::default() },
            "square.mkv",
        );
        assert!(!command.contains("-aspect"), "{command}");
    }
}

#[test]
fn every_prores_profile_has_a_number_and_a_name() {
    for (i, profile) in ProResProfile::ALL.iter().enumerate() {
        assert_eq!(profile.number() as usize, i);
        assert!(!profile.label().is_empty());
    }
    assert!(VideoCodec::H264VideoToolbox.is_apple_only());
    assert!(!VideoCodec::H264.is_apple_only());
    assert!(!VideoCodec::ProRes.takes_a_bitrate());
}

#[test]
fn a_tool_that_fails_is_quoted() {
    assert!(judge_tool("ffmpeg", true, "warning").is_ok());
    let e = judge_tool("ffmpeg", false, "  no space left \n").unwrap_err();
    let text = e.message();
    assert!(text.contains("ffmpeg") && text.contains("no space left"), "{text}");
}
