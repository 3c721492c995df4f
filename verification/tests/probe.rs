//! What a file says of itself.

use ana_convert::decode::probe_args;
use ana_convert::media::MediaError;
use ana_convert::probe::{self, bit_depth_of, ProbeMath, SourceDepth, VideoInfo};
use ana_convert::scalar::F64;

fn float(v: f64) -> F64 {
    F64 { bits: v.to_bits() }
}

fn value(v: F64) -> f64 {
    f64::from_bits(v.bits)
}

fn number(text: &str) -> Option<F64> {
    text.parse::<f64>().ok().map(float)
}

fn divide(a: F64, b: F64) -> F64 {
    float(value(a) / value(b))
}

/// The shape of a pixel in a picture of a size that is seen at some shape.
fn pixel(shape: F64, height: usize, width: usize) -> F64 {
    float(value(shape) * height as f64 / width as f64)
}

fn frames(duration: F64, fps: F64) -> u64 {
    (value(duration) * value(fps)).round() as u64
}

fn display_aspect(info: &VideoInfo) -> f64 {
    let shape = |w: usize, a: F64, h: usize| float(w as f64 * value(a) / h as f64);
    value(info.display_aspect(float(1.0), &shape))
}

fn parse_probe_json(json: &str) -> Result<VideoInfo, MediaError> {
    probe::parse_probe_json(json, &ProbeMath { number, divide, pixel })
}

fn video_stream(extra: &str) -> String {
    format!(
        r#"{{"streams":[{{"index":0,"codec_type":"video","codec_name":"h264",
           "width":1920,"height":1080,"pix_fmt":"yuv420p",
           "r_frame_rate":"24/1","avg_frame_rate":"24/1"{extra}}}],
           "format":{{"duration":"10.000000"}}}}"#
    )
}

#[test]
fn dimensions_and_frame_rate_are_read_from_the_video_stream() {
    let info = parse_probe_json(&video_stream(r#","nb_frames":"240""#)).expect("parse");
    assert_eq!((info.width, info.height), (1920, 1080));
    assert_eq!(value(info.fps), 24.0);
    assert_eq!(info.frame_count, Some(240));
}

#[test]
fn a_fractional_frame_rate_is_evaluated() {
    // 23.976 arrives as a rational and must not be truncated to 23.
    let json = video_stream("").replace(
        r#""avg_frame_rate":"24/1""#,
        r#""avg_frame_rate":"24000/1001""#,
    );
    let info = parse_probe_json(&json).expect("parse");
    assert!((value(info.fps) - 23.976).abs() < 0.001, "got {}", value(info.fps));
}

#[test]
fn a_missing_frame_count_is_estimated_from_the_duration() {
    // Matroska routinely omits nb_frames, and progress reporting needs a
    // total from somewhere.
    let info = parse_probe_json(&video_stream("")).expect("parse");
    assert_eq!(info.frame_count, None, "nothing was reported");
    assert_eq!(info.estimated_frame_count(&frames), Some(240), "10s at 24fps");
}

#[test]
fn an_unusable_frame_rate_falls_back_to_the_other_field() {
    let json =
        video_stream("").replace(r#""avg_frame_rate":"24/1""#, r#""avg_frame_rate":"0/0""#);
    let info = parse_probe_json(&json).expect("parse");
    assert_eq!(value(info.fps), 24.0, "should have fallen back to r_frame_rate");
}

#[test]
fn the_average_rate_wins_when_the_two_disagree() {
    // Taken from a real disc rip: r_frame_rate claims a round 30 while the
    // file actually runs at 29.9687. r_frame_rate is the lowest rate that
    // can represent every timestamp, not the rate the film runs at, so
    // trusting it puts frame 5850 nearly six frames early - enough to seek
    // to the wrong shot and to drift the audio over a feature.
    let json = video_stream("")
        .replace(r#""r_frame_rate":"24/1""#, r#""r_frame_rate":"30/1""#)
        .replace(
            r#""avg_frame_rate":"24/1""#,
            r#""avg_frame_rate":"181650000/6061319""#,
        );
    let info = parse_probe_json(&json).expect("parse");
    assert!(
        (value(info.fps) - 29.9687).abs() < 0.001,
        "expected the true 29.9687, got {}",
        value(info.fps)
    );
}

#[test]
fn an_eight_bit_source_decodes_as_rgb24() {
    let info = parse_probe_json(&video_stream("")).expect("parse");
    assert_eq!(info.bit_depth, 8);
    assert_eq!(info.source_depth(), SourceDepth::Eight);
    assert_eq!(info.source_depth().pix_fmt(), "rgb24");
}

#[test]
fn a_ten_bit_source_decodes_as_rgb48() {
    // Losing the extra bits at the front door would undo the point of a
    // float pipeline.
    let json = video_stream("").replace(r#""pix_fmt":"yuv420p""#, r#""pix_fmt":"yuv420p10le""#);
    let info = parse_probe_json(&json).expect("parse");
    assert_eq!(info.bit_depth, 10);
    assert_eq!(info.source_depth(), SourceDepth::Sixteen);
    assert_eq!(info.source_depth().pix_fmt(), "rgb48le");
}

#[test]
fn a_twelve_bit_source_is_recognised() {
    let json = video_stream("").replace(r#""pix_fmt":"yuv420p""#, r#""pix_fmt":"yuv444p12le""#);
    assert_eq!(parse_probe_json(&json).expect("parse").bit_depth, 12);
}

#[test]
fn frame_size_follows_the_chosen_depth() {
    let info = parse_probe_json(&video_stream("")).expect("parse");
    assert_eq!(info.frame_bytes(SourceDepth::Eight), 1920 * 1080 * 3);
    assert_eq!(info.frame_bytes(SourceDepth::Sixteen), 1920 * 1080 * 6);
}

#[test]
fn square_pixels_are_assumed_when_nothing_says_otherwise() {
    let info = parse_probe_json(&video_stream("")).expect("parse");
    assert_eq!(value(info.sample_aspect), 1.0);
    assert!((display_aspect(&info) - 16.0 / 9.0).abs() < 1e-6);
}

#[test]
fn non_square_pixels_are_read_and_change_the_display_shape() {
    // Straight from a real transfer: 708x276 stored, 8:9 pixels, so it
    // displays at 2.28:1 rather than the 2.57:1 the stored size implies.
    let json = video_stream(r#","sample_aspect_ratio":"8:9""#)
        .replace(r#""width":1920"#, r#""width":708"#)
        .replace(r#""height":1080"#, r#""height":276"#);
    let info = parse_probe_json(&json).expect("parse");
    assert!(
        (value(info.sample_aspect) - 8.0 / 9.0).abs() < 1e-6,
        "got {}",
        value(info.sample_aspect)
    );
    assert!(
        (display_aspect(&info) - 472.0 / 207.0).abs() < 1e-3,
        "expected 2.28:1, got {}",
        display_aspect(&info)
    );
}

#[test]
fn a_declared_display_shape_is_used_when_the_pixel_shape_is_missing() {
    // Some containers state only what the picture should look like, not
    // what shape its pixels are. Assuming square in that case gets the
    // whole frame wrong - a 720x480 transfer meant to be seen at 4:3 has
    // 8:9 pixels, and treating them as square makes it 11% too wide.
    let json = video_stream(r#","display_aspect_ratio":"4:3""#)
        .replace(r#""width":1920"#, r#""width":720"#)
        .replace(r#""height":1080"#, r#""height":480"#);
    let info = parse_probe_json(&json).expect("parse");
    assert!(
        (value(info.sample_aspect) - 8.0 / 9.0).abs() < 1e-6,
        "expected 8:9 pixels derived from the 4:3 display shape, got {}",
        value(info.sample_aspect)
    );
    assert!((display_aspect(&info) - 4.0 / 3.0).abs() < 1e-6);
}

#[test]
fn a_stated_pixel_shape_wins_over_a_stated_display_shape() {
    // Both present and disagreeing: the pixel shape is the primary fact.
    let json = video_stream(r#","sample_aspect_ratio":"1:1","display_aspect_ratio":"4:3""#);
    let info = parse_probe_json(&json).expect("parse");
    assert_eq!(value(info.sample_aspect), 1.0);
}

#[test]
fn an_unset_pixel_aspect_falls_back_to_square() {
    for extra in [
        r#","sample_aspect_ratio":"0:1""#,
        r#","sample_aspect_ratio":"N/A""#,
    ] {
        let info = parse_probe_json(&video_stream(extra)).expect("parse");
        assert_eq!(value(info.sample_aspect), 1.0, "for {extra}");
    }
}

#[test]
fn audio_presence_is_reported() {
    let video_only = parse_probe_json(&video_stream("")).expect("parse");
    assert!(!video_only.has_audio);

    let with_audio = r#"{"streams":[
        {"index":0,"codec_type":"video","width":64,"height":48,"pix_fmt":"yuv420p",
         "r_frame_rate":"10/1","avg_frame_rate":"10/1"},
        {"index":1,"codec_type":"audio","codec_name":"aac"}],
        "format":{"duration":"1.0"}}"#;
    assert!(parse_probe_json(with_audio).expect("parse").has_audio);
}

#[test]
fn a_file_with_no_video_stream_is_an_error() {
    let audio_only = r#"{"streams":[{"index":0,"codec_type":"audio","codec_name":"aac"}],
                         "format":{"duration":"1.0"}}"#;
    assert!(parse_probe_json(audio_only).is_err());
}

#[test]
fn an_implausible_frame_size_is_refused_rather_than_believed() {
    // These numbers come out of the file's own metadata, so a corrupt or
    // hostile container can claim anything - and whatever it claims becomes
    // the size of every buffer the decode allocates.
    let json = video_stream("").replace(r#""width":1920"#, r#""width":4000000000"#);
    assert!(
        parse_probe_json(&json).is_err(),
        "a four-billion-pixel width was taken at face value"
    );
}

#[test]
fn an_eight_k_frame_is_still_accepted() {
    // The bound must sit well above anything a real transfer contains.
    let json = video_stream("")
        .replace(r#""width":1920"#, r#""width":7680"#)
        .replace(r#""height":1080"#, r#""height":4320"#);
    let info = parse_probe_json(&json).expect("8K is a real size");
    assert_eq!((info.width, info.height), (7680, 4320));
}

#[test]
fn malformed_output_is_an_error_rather_than_a_panic() {
    assert!(parse_probe_json("not json at all").is_err());
    assert!(parse_probe_json("{}").is_err());
}

#[test]
fn probe_a_filename_is_never_taken_as_an_ffmpeg_protocol() {
    let args = probe_args("cache:file:/tmp/clip.mkv");
    assert_eq!(args.last().map(String::as_str), Some("file:cache:file:/tmp/clip.mkv"));
}

#[test]
fn a_path_containing_a_colon_still_probes() {
    let args = probe_args("/d/my:film.mkv");
    assert_eq!(args.last().map(String::as_str), Some("file:/d/my:film.mkv"));
    assert!(args.iter().any(|a| a == "json"));
}

#[test]
fn the_video_stream_is_found_behind_others() {
    let json = r#"{"streams":[
        {"index":0,"codec_type":"audio","codec_name":"aac"},
        {"index":1,"codec_type":"data"},
        {"index":2,"codec_type":"video","width":64,"height":48,"pix_fmt":"yuv420p",
         "r_frame_rate":"10/1","avg_frame_rate":"10/1","nb_frames":"7"}],
        "format":{"duration":"0.7"}}"#;
    let info = parse_probe_json(json).expect("parse");
    assert_eq!((info.width, info.height, info.frame_count), (64, 48, Some(7)));
    assert!(info.has_audio);
    assert_eq!(value(info.duration_secs.unwrap()), 0.7);
}

#[test]
fn what_cannot_be_read_is_quoted() {
    match parse_probe_json("not json at all") {
        Err(e @ MediaError::ProbeParse(_)) => assert!(e.message().contains("expected"), "{}", e.message()),
        other => panic!("{other:?}"),
    }
    match parse_probe_json(&video_stream("").replace(r#""width":1920"#, r#""width":4000000000"#)) {
        Err(MediaError::ImplausibleGeometry { .. }) => {},
        other => panic!("{other:?}"),
    }
}

#[test]
fn a_pixel_format_names_its_depth() {
    assert_eq!(bit_depth_of("yuv420p"), None);
    assert_eq!(bit_depth_of("yuv420p10le"), Some(10));
    assert_eq!(bit_depth_of("yuv444p12be"), Some(12));
    assert_eq!(bit_depth_of("gray16le"), Some(16));
    assert_eq!(bit_depth_of("p010le"), Some(10));
    assert_eq!(bit_depth_of("nv12"), None, "twelve bits per pixel, of eight each");
    assert_eq!(bit_depth_of("nv16"), None);
    assert_eq!(bit_depth_of("12"), None);
}
