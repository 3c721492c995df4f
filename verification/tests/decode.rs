//! Reading frames: where to start, what the bytes hold, when the stream ends.

use ana_convert::decode::{
    decode_args, decode_frame_bytes, seek_args, take_frame, DecoderState, ReadOutcome,
};
use ana_convert::encode::frame_to_bytes;
use ana_convert::frame::FrameF32;
use ana_convert::media::MediaError;
use ana_convert::probe::{SourceDepth, VideoInfo};
use ana_convert::scalar::F64;

fn float(v: f64) -> F64 {
    F64 { bits: v.to_bits() }
}

fn from_byte(v: u8) -> f32 {
    f32::from(v) / 255.0
}

fn from_word(v: u16) -> f32 {
    f32::from(v) / 65535.0
}

type Quantising = ana_convert::frame::QuantiseMath<
    fn(f32, u32) -> f32,
    fn(f32) -> bool,
    fn(f32, u32) -> bool,
    fn(f32) -> u32,
>;

fn quantising() -> Quantising {
    Quantising {
        round: |v: f32, limit: u32| (v * limit as f32).round(),
        below: |v: f32| v.is_nan() || v < 0.0,
        above: |v: f32, limit: u32| v > limit as f32,
        whole: |v: f32| v as u32,
    }
}

/// Seeks to a second before the frame, and says how many frames are left to skip.
fn seek(index: u64, fps: F64) -> (String, u64) {
    let fps = f64::from_bits(fps.bits);
    let skip = index.min(fps.round() as u64);
    (format!("{:.3}", (index - skip) as f64 / fps), skip)
}

fn info(width: usize, height: usize, bit_depth: u8) -> VideoInfo {
    VideoInfo {
        width,
        height,
        fps: float(10.0),
        frame_count: Some(1),
        duration_secs: Some(float(0.1)),
        sample_aspect: float(1.0),
        bit_depth,
        pix_fmt: "yuv420p".to_string(),
        has_audio: false,
    }
}

#[test]
fn eight_bit_bytes_become_normalised_floats() {
    let bytes = [255u8, 0, 0, 0, 128, 255];
    let frame = decode_frame_bytes(&bytes, 2, 1, SourceDepth::Eight, &from_byte, &from_word);
    let (r, g, b) = frame.rgb_planes();
    assert_eq!(r, &[1.0, 0.0]);
    assert_eq!(g, &[0.0, 128.0 / 255.0]);
    assert_eq!(b, &[0.0, 1.0]);
}

#[test]
fn sixteen_bit_bytes_are_read_little_endian() {
    let bytes = [0xFF, 0xFF, 0x00, 0x00, 0x00, 0x80];
    let frame = decode_frame_bytes(&bytes, 1, 1, SourceDepth::Sixteen, &from_byte, &from_word);
    let (r, g, b) = frame.rgb_planes();
    assert_eq!(r, &[1.0], "0xFFFF is white");
    assert_eq!(g, &[0.0]);
    assert!((b[0] - 0x8000 as f32 / 65535.0).abs() < 1e-6, "got {}", b[0]);
}

#[test]
fn bytes_survive_being_decoded_and_written_again() {
    let bytes: Vec<u8> = (0..3 * 5 * 6).map(|i| (i * 37 % 251) as u8).collect();
    let frame = decode_frame_bytes(&bytes, 5, 3, SourceDepth::Sixteen, &from_byte, &from_word);
    assert_eq!(frame_to_bytes(&frame, 5, 3, &quantising()).unwrap(), bytes);
}

#[test]
fn decode_a_filename_is_never_taken_as_an_ffmpeg_protocol() {
    let args = decode_args("cache:file:/tmp/clip.mkv", &info(64, 48, 8), 0, true, &seek);
    assert!(args.iter().any(|a| a == "file:cache:file:/tmp/clip.mkv"), "{args:?}");
    assert!(!args.iter().any(|a| a.starts_with("cache:")), "{args:?}");
}

#[test]
fn a_path_containing_a_colon_still_decodes() {
    let args = decode_args("/d/my:film.mkv", &info(64, 48, 8), 1, false, &seek);
    assert!(args.iter().any(|a| a == "file:/d/my:film.mkv"), "{args:?}");
}

#[test]
fn a_start_is_sought_only_when_there_is_one() {
    let plain = seek_args("a.mkv", float(10.0), 0, &seek).join(" ");
    assert_eq!(plain, "-i file:a.mkv");
    let later = seek_args("a.mkv", float(10.0), 25, &seek).join(" ");
    assert!(later.starts_with("-ss 1.500 -i file:a.mkv"), "{later}");
    let no_rate = seek_args("a.mkv", float(0.0), 25, &seek).join(" ");
    assert_eq!(no_rate, "-i file:a.mkv");
}

#[test]
fn the_depth_chooses_the_pixel_format() {
    let eight = decode_args("a.mkv", &info(64, 48, 8), 0, false, &seek).join(" ");
    assert!(eight.contains("-pix_fmt rgb24"), "{eight}");
    let ten = decode_args("a.mkv", &info(64, 48, 10), 0, false, &seek).join(" ");
    assert!(ten.contains("-pix_fmt rgb48le"), "{ten}");
    let one = decode_args("a.mkv", &info(64, 48, 8), 0, true, &seek).join(" ");
    assert!(one.contains("-frames:v 1") && !eight.contains("-frames:v"), "{one}");
}

#[test]
fn decoded_frames_have_the_probed_geometry() {
    let bytes = vec![9u8; 64 * 48 * 3];
    let frame = take_frame(&bytes, "", &info(64, 48, 8), 0, &from_byte, &from_word).expect("decode");
    assert_eq!((frame.width(), frame.height(), frame.channels()), (64, 48, 3));
}

#[test]
fn a_grab_that_came_short_is_an_error() {
    let r: Result<FrameF32<f32>, MediaError> =
        take_frame(&vec![0u8; 7], "no such frame\n", &info(64, 48, 8), 3, &from_byte, &from_word);
    let text = r.err().expect("too few bytes").message();
    assert!(text.contains("no such frame"), "{text}");
}

#[test]
fn a_clip_decodes_the_number_of_frames_it_contains() {
    let mut d = DecoderState::new("clip.mp4");
    for _ in 0..10 {
        assert_eq!(d.after_read(ReadOutcome::Full).ok(), Some(true));
    }
    assert_eq!(d.after_read(ReadOutcome::Ended).ok(), Some(false));
    assert_eq!(d.frames_read, 10);
}

#[test]
fn decoding_stops_cleanly_at_the_end() {
    let mut d = DecoderState::new("clip.mp4");
    assert_eq!(d.after_read(ReadOutcome::Full).ok(), Some(true));
    assert_eq!(d.after_read(ReadOutcome::Ended).ok(), Some(false));
    assert_eq!(
        d.after_read(ReadOutcome::Full).ok(),
        Some(false),
        "reading past the end must keep returning None, not error"
    );
    assert_eq!(d.frames_read, 1);
}

#[test]
fn a_failed_read_names_the_file() {
    let mut d = DecoderState::new("/f/clip.mp4");
    let text = d.after_read(ReadOutcome::Failed("pipe burst".to_string())).unwrap_err().message();
    assert!(text.contains("/f/clip.mp4") && text.contains("pipe burst"), "{text}");
}

#[test]
fn a_raw_sixteen_bit_frame_survives_decoding_and_encoding() {
    let bytes: Vec<u8> = (0..3 * 2 * 6).map(|i| (i * 37 % 251) as u8).collect();
    let frame = decode_frame_bytes(&bytes, 3, 2, SourceDepth::Sixteen, &from_byte, &from_word);
    let back = frame_to_bytes(&frame, 3, 2, &quantising());
    assert_eq!(back.unwrap(), bytes);
}

#[test]
fn a_stream_cut_in_mid_frame_is_a_failure() {
    let mut state = DecoderState::new("cut.mkv");
    assert!(matches!(state.after_read(ReadOutcome::of(24, 24)), Ok(true)));
    match state.after_read(ReadOutcome::of(7, 24)) {
        Err(MediaError::Io { path, source }) => {
            assert_eq!(path, "cut.mkv");
            assert_eq!(source, "the stream was cut after 7 of a frame's 24 bytes");
        }
        _ => panic!("a cut must not pass for an end"),
    }
    assert_eq!(state.frames_read, 1);
    assert!(matches!(state.after_read(ReadOutcome::of(0, 24)), Ok(false)));
    assert!(!state.open);
}
