//! Finding the conversion tools.

use ana_convert::locate::{exe_name, locate, FfmpegTools, ToolSource};

fn holds(files: &'static [&'static str]) -> impl Fn(&str) -> bool {
    move |path: &str| files.contains(&path)
}

#[test]
fn a_directory_with_both_binaries_is_accepted() {
    let there = holds(&["/t/ffmpeg", "/t/ffprobe"]);
    let found = FfmpegTools::in_directory("/t", false, &there).expect("should find both");
    assert_eq!(found.ffmpeg, "/t/ffmpeg");
    assert_eq!(found.ffprobe, "/t/ffprobe");
}

#[test]
fn a_directory_with_only_ffmpeg_is_rejected() {
    assert!(FfmpegTools::in_directory("/t", false, &holds(&["/t/ffmpeg"])).is_none());
}

#[test]
fn an_empty_directory_is_rejected() {
    assert!(FfmpegTools::in_directory("/t", false, &holds(&[])).is_none());
}

#[test]
fn an_override_directory_wins() {
    let there = holds(&["/o/ffmpeg", "/o/ffprobe", "/b/ffmpeg", "/b/ffprobe"]);
    let (tools, source) =
        locate(Some("/o"), Some("/b"), &vec![], false, &there).expect("override should be used");
    assert_eq!(source, ToolSource::Override);
    assert_eq!(tools.ffmpeg, "/o/ffmpeg");
}

#[test]
fn a_bad_override_reports_the_directory_it_tried() {
    let there = holds(&["/b/ffmpeg", "/b/ffprobe"]);
    let err = locate(Some("/o/nowhere"), Some("/b"), &vec!["/b".to_string()], false, &there)
        .expect_err("should not fall through");
    let message = err.message();
    assert!(
        message.contains("/o/nowhere"),
        "error must name the directory, got: {message}"
    );
}

#[test]
fn the_system_path_is_used_when_there_is_no_override() {
    let there = holds(&["/usr/bin/ffmpeg", "/usr/bin/ffprobe", "/usr/local/bin/ffmpeg"]);
    let path = vec!["/usr/local/bin".to_string(), "/usr/bin".to_string()];
    let (tools, source) = locate(None, None, &path, false, &there)
        .expect("ffmpeg must be installed to run these tests");
    assert!(
        matches!(source, ToolSource::SystemPath | ToolSource::Bundled),
        "unexpected source {source:?}"
    );
    assert!(there(&tools.ffmpeg), "{:?} should exist", tools.ffmpeg);
    assert!(there(&tools.ffprobe), "{:?} should exist", tools.ffprobe);
    assert_eq!(tools.ffmpeg, "/usr/bin/ffmpeg", "half a toolchain is passed over");
}

#[test]
fn the_bundled_tools_come_before_the_system_path() {
    let there = holds(&["/b/ffmpeg.exe", "/b/ffprobe.exe", "/p/ffmpeg.exe", "/p/ffprobe.exe"]);
    let (tools, source) = locate(None, Some("/b"), &vec!["/p".to_string()], true, &there).unwrap();
    assert_eq!(source, ToolSource::Bundled);
    assert_eq!(tools.ffprobe, "/b/ffprobe.exe");
}

#[test]
fn no_tools_anywhere_is_said_plainly() {
    let err = locate(None, None, &vec!["/p".to_string()], false, &holds(&[])).unwrap_err();
    assert!(err.message().contains("ffmpeg"), "{}", err.message());
}

#[test]
fn a_program_has_its_platforms_name() {
    assert_eq!(exe_name("ffmpeg", false), "ffmpeg");
    assert_eq!(exe_name("ffmpeg", true), "ffmpeg.exe");
}
