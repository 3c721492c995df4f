//! Between frame numbers and the times people read.

use ana_convert::scalar::F64;
use ana_convert::timecode::{self, TimeMath};

fn float(v: f64) -> F64 {
    F64 { bits: v.to_bits() }
}

fn value(v: F64) -> f64 {
    f64::from_bits(v.bits)
}

fn hundredths(frame: u64, fps: F64) -> u64 {
    (frame as f64 / value(fps) * 100.0).round() as u64
}

fn seconds(text: &str) -> Option<F64> {
    text.parse::<f64>().ok().map(float)
}

fn total(h: u64, m: u64, s: F64) -> F64 {
    float(h as f64 * 3600.0 + m as f64 * 60.0 + value(s))
}

fn frames(t: F64, fps: F64) -> u64 {
    (value(t) * value(fps)).round() as u64
}

fn format_timecode(frame: u64, fps: f64) -> String {
    timecode::format_timecode(frame, float(fps), &hundredths)
}

fn parse_timecode(text: &str, fps: f64) -> Result<u64, String> {
    timecode::parse_timecode(text, float(fps), &TimeMath { seconds, total, frames })
}

fn parse_position(text: &str, fps: f64) -> Result<u64, String> {
    timecode::parse_position(text, float(fps), &TimeMath { seconds, total, frames })
}

#[test]
fn seconds_and_hundredths_are_shown() {
    assert_eq!(format_timecode(0, 24.0), "0:00.00");
    assert_eq!(format_timecode(12, 24.0), "0:00.50");
    assert_eq!(format_timecode(24, 24.0), "0:01.00");
}

#[test]
fn minutes_appear_without_a_leading_hour() {
    assert_eq!(format_timecode(24 * 95, 24.0), "1:35.00");
}

#[test]
fn hours_appear_once_there_are_any() {
    assert_eq!(format_timecode(24 * 3725, 24.0), "1:02:05.00");
}

#[test]
fn a_broken_frame_rate_does_not_produce_nonsense() {
    // A container that reports no frame rate must not make the display
    // read "NaN" or panic.
    let shown = format_timecode(100, 0.0);
    assert!(
        !shown.contains("NaN") && !shown.contains("inf"),
        "got {shown}"
    );
}

#[test]
fn bare_seconds_are_accepted() {
    assert_eq!(parse_timecode("5", 24.0), Ok(120));
    assert_eq!(parse_timecode("5.5", 24.0), Ok(132));
}

#[test]
fn minutes_and_seconds_are_accepted() {
    assert_eq!(parse_timecode("1:35", 24.0), Ok(24 * 95));
}

#[test]
fn hours_minutes_and_seconds_are_accepted() {
    assert_eq!(parse_timecode("1:02:05", 24.0), Ok(24 * 3725));
}

#[test]
fn surrounding_space_is_ignored() {
    assert_eq!(parse_timecode("  1:35  ", 24.0), Ok(24 * 95));
}

#[test]
fn a_fractional_frame_rate_round_trips() {
    // 23.976 and 29.97 are the two that actually turn up on discs.
    for fps in [23.976, 29.97] {
        for frame in [0u64, 1, 500, 18_164] {
            let text = format_timecode(frame, fps);
            let back = parse_timecode(&text, fps).expect("should parse what we printed");
            assert!(
                back.abs_diff(frame) <= 1,
                "{fps} fps frame {frame} printed {text} and came back {back}"
            );
        }
    }
}

#[test]
fn nonsense_is_rejected_with_something_readable() {
    for bad in ["", "abc", "1:2:3:4", "1:xx"] {
        let err = parse_timecode(bad, 24.0).expect_err("{bad} should be rejected");
        assert!(!err.is_empty(), "{bad} produced an empty message");
    }
}

#[test]
fn a_trailing_f_means_an_exact_frame() {
    assert_eq!(parse_position("900f", 24.0), Ok(900));
    assert_eq!(parse_position("0f", 24.0), Ok(0));
}

#[test]
fn anything_else_is_read_as_a_time() {
    assert_eq!(parse_position("1:35", 24.0), Ok(24 * 95));
    assert_eq!(
        parse_position("5", 24.0),
        Ok(120),
        "a bare number is seconds"
    );
}

#[test]
fn a_frame_position_ignores_the_frame_rate() {
    // The point of the suffix: frame 900 is frame 900 whatever the rate.
    assert_eq!(parse_position("900f", 24.0), parse_position("900f", 29.97));
}

#[test]
fn a_malformed_frame_is_rejected() {
    assert!(parse_position("abcf", 24.0).is_err());
    assert!(parse_position("-4f", 24.0).is_err());
}

#[test]
fn a_negative_time_is_rejected_rather_than_wrapping() {
    assert!(parse_timecode("-5", 24.0).is_err());
}

#[test]
fn what_is_wrong_with_a_time_is_quoted() {
    assert_eq!(parse_timecode("1:xx", 24.0).unwrap_err(), "\"1:xx\" is not a time like 1:35 or 1:02:05");
    assert_eq!(parse_timecode("-5", 24.0).unwrap_err(), "\"-5\" is before the start of the file");
    assert_eq!(parse_timecode("  ", 24.0).unwrap_err(), "expected a time like 1:35 or 1:02:05");
    assert_eq!(
        parse_timecode("5", 0.0).unwrap_err(),
        "this file reports no frame rate, so times cannot be used"
    );
    assert_eq!(parse_position("abcf", 24.0).unwrap_err(), "\"abcf\" is not a frame number like 900f");
    assert!(parse_timecode("inf", 24.0).is_err() && parse_timecode("NaN", 24.0).is_err());
    assert_eq!(parse_position(" 12 F ", 0.0), Ok(12));
}

#[test]
fn a_clock_counts_hundredths() {
    assert_eq!(timecode::clock(0), "0:00.00");
    assert_eq!(timecode::clock(359_999), "59:59.99");
    assert_eq!(timecode::clock(360_000), "1:00:00.00");
}

#[test]
fn a_written_time_reads_back_within_a_frame_whatever_stands_around_it() {
    for fps in [1.0, 23.976, 24.0, 25.0, 29.97, 59.94, 60.0] {
        for frame in [0, 1, 23, 24, 1439, 86_399, 172_800, 16_777_217, u32::MAX as u64] {
            let text = format_timecode(frame, fps);
            let back = parse_timecode(&text, fps).unwrap();
            assert!(back.abs_diff(frame) <= 1, "{frame} at {fps} is {text}, read as {back}");
            let padded = format!(" \t{text}\u{a0}\n ");
            assert_eq!(parse_timecode(&padded, fps), Ok(back));
        }
    }
}

#[test]
fn a_written_time_has_two_digits_of_seconds_and_of_hundredths() {
    assert_eq!(timecode::clock(360_000 + 2 * 6_000 + 305), "1:02:03.05");
    assert_eq!(timecode::clock(59 * 6_000 + 5_999), "59:59.99");
    assert_eq!(timecode::clock(7), "0:00.07");
}
