//! What the window offers and how it is worded.

use ana_convert::choices::{
    codec_name, default_output_for, describe_source, eye_order_name, format_name, looks_like_video,
    output_format_hint, restore_hint, restore_name, role_for_drop, transfer_name, DropTarget, Role,
    SecondaryRole, SourceKind,
};
use ana_convert::compose::{EyeOrder, OutputLayout};
use ana_convert::encode::VideoCodec;
use ana_convert::extract::AnaglyphFormat;
use ana_convert::packed::StereoPacking;
use ana_convert::params::{ConvertParams, InputMode, MonoEye};
use ana_convert::restore::ColourRestore;
use ana_convert::session::VERSION;
use ana_convert::transfer::TransferFunction;

#[test]
fn eye_order_reads_left_and_right_when_side_by_side() {
    assert_eq!(eye_order_name(EyeOrder::LeftFirst, false), "Left eye on the left");
    assert_eq!(eye_order_name(EyeOrder::RightFirst, false), "Right eye on the left");
}

#[test]
fn eye_order_reads_top_and_bottom_when_stacked() {
    assert_eq!(eye_order_name(EyeOrder::LeftFirst, true), "Left eye on top");
    assert_eq!(eye_order_name(EyeOrder::RightFirst, true), "Right eye on top");
}

#[test]
fn every_eye_order_label_names_a_position() {
    for stacked in [false, true] {
        for order in [EyeOrder::LeftFirst, EyeOrder::RightFirst] {
            let label = eye_order_name(order, stacked);
            let position = if stacked { "top" } else { "left" };
            assert!(
                label.contains(position),
                "{label:?} should say where the eye goes for stacked={stacked}"
            );
        }
    }
}

#[test]
fn a_colour_only_2d_source_replaces_neither_eye() {
    assert_eq!(SecondaryRole::ColourOnly.mono_eye(), MonoEye::Neither);
    assert!(!SecondaryRole::ColourOnly.supplies_an_eye());
}

#[test]
fn a_2d_source_that_is_an_eye_replaces_that_eye() {
    assert_eq!(SecondaryRole::IsLeftEye.mono_eye(), MonoEye::Left);
    assert_eq!(SecondaryRole::IsRightEye.mono_eye(), MonoEye::Right);
    assert!(SecondaryRole::IsLeftEye.supplies_an_eye());
    assert!(SecondaryRole::IsRightEye.supplies_an_eye());
}

#[test]
fn every_2d_role_explains_itself() {
    for role in SecondaryRole::ALL {
        assert!(!role.label().is_empty(), "{role:?} needs a label");
        assert!(role.hint().len() > 40, "{role:?} needs an explanation worth reading");
    }
}

#[test]
fn the_first_dropped_file_becomes_the_film() {
    assert_eq!(role_for_drop(false), DropTarget::Source);
}

#[test]
fn a_later_dropped_file_becomes_the_2d_release() {
    assert_eq!(role_for_drop(true), DropTarget::Secondary);
}

#[test]
fn video_files_are_recognised_whatever_the_case() {
    for name in ["a.mkv", "B.MP4", "c.Mov", "d.avi", "e.m4v", "f.mpg", "g.ts", "h.wmv"] {
        assert!(looks_like_video(name, false), "{name} should be accepted");
    }
}

#[test]
fn other_files_are_not_mistaken_for_video() {
    for name in ["preset.json", "notes.txt", "frame.png", "noextension"] {
        assert!(!looks_like_video(name, false), "{name} should be ignored");
    }
}

#[test]
fn the_default_output_never_lands_on_the_input() {
    let input = "/films/comin-at-ya.mkv";
    let output = default_output_for(input, false);
    assert_ne!(output, input);
    assert_eq!(output, "/films/comin-at-ya-stereo.mkv");
}

#[test]
fn the_default_output_keeps_a_dotted_name_intact() {
    assert_eq!(default_output_for("/f/my.film.1981.mp4", false), "/f/my.film.1981-stereo.mp4");
}

#[test]
fn an_extensionless_input_still_gets_a_container() {
    assert_eq!(default_output_for("/f/movie", false), "/f/movie-stereo.mkv");
}

#[test]
fn every_enum_the_ui_offers_has_a_name() {
    for f in [AnaglyphFormat::RedCyan, AnaglyphFormat::GreenMagenta, AnaglyphFormat::RedBlue] {
        assert!(!format_name(f).is_empty());
    }
    for c in [
        VideoCodec::H264VideoToolbox,
        VideoCodec::HevcVideoToolbox,
        VideoCodec::H264,
        VideoCodec::Hevc,
        VideoCodec::ProRes,
    ] {
        assert!(!codec_name(c).is_empty());
    }
    for l in OutputLayout::ALL {
        assert!(!l.label().is_empty());
    }
    for r in [ColourRestore::Offset, ColourRestore::Scale] {
        assert!(!restore_name(r).is_empty() && !restore_hint(r).is_empty());
    }
}

#[test]
fn the_version_is_the_one_in_the_manifest() {
    assert_eq!(VERSION, "0.10.0");
    assert!(VERSION.starts_with("0.10."), "expected the 0.10 series, got {VERSION}");
}

#[test]
fn an_input_without_a_name_still_gets_an_output() {
    assert_eq!(default_output_for("..", false), "../output-stereo.mkv");
    assert_eq!(default_output_for("/f/.hidden", false), "/f/.hidden-stereo.mkv");
}

#[test]
fn a_source_kind_survives_becoming_a_setting() {
    for kind in SourceKind::ALL {
        for squeezed in [false, true] {
            assert_eq!(SourceKind::of(kind.to_input(squeezed)), kind);
        }
        assert!(!kind.label().is_empty() && !kind.hint().is_empty());
    }
    assert_eq!(
        SourceKind::TopBottom.to_input(true),
        InputMode::packed(StereoPacking::TopBottom, true)
    );
}

#[test]
fn a_source_is_described_in_plain_words() {
    let mut p = ConvertParams::default();
    assert_eq!(describe_source(&p), "Anaglyph (Red / cyan)");
    p.input = InputMode::packed(StereoPacking::SideBySide, false);
    let plain = describe_source(&p);
    p.input = InputMode::packed(StereoPacking::SideBySide, true);
    assert_eq!(describe_source(&p), format!("{plain}, anamorphic"));
    p.input = InputMode::TwoFiles;
    assert_eq!(describe_source(&p), "Left eye of a two-file pair");
}

#[test]
fn roles_are_named() {
    assert!(!Role::Anaglyph.is_secondary());
    assert!(Role::Secondary.is_secondary() && Role::RightEye.is_secondary());
    assert_eq!(Role::RightEye.label(), "Right eye file");
    assert_eq!(transfer_name(TransferFunction::Bt709), "BT.709");
    for f in AnaglyphFormat::ALL {
        assert!(!output_format_hint(f).is_empty());
    }
}

#[test]
fn windows_paths_are_parted_at_either_slash() {
    assert_eq!(default_output_for("C:\\my.films\\movie", true), "C:\\my.films\\movie-stereo.mkv");
    assert_eq!(default_output_for("C:/f\\a.b.mp4", true), "C:/f\\a.b-stereo.mp4");
    assert_eq!(default_output_for("C:movie.mp4", true), "C:movie-stereo.mp4");
    assert_eq!(default_output_for("C:\\a.mkv", true), "C:\\a-stereo.mkv");
    assert_eq!(default_output_for("C:", true), "C:output-stereo.mkv");
    assert_eq!(
        default_output_for("\\\\server\\films\\a.mkv", true),
        "\\\\server\\films\\a-stereo.mkv"
    );
    assert_eq!(
        default_output_for("\\\\server\\films.old", true),
        "\\\\server\\films.old\\output-stereo.mkv",
        "a share is no file"
    );
    assert_eq!(
        default_output_for("\\\\?\\C:\\f\\a.mkv", true),
        "\\\\?\\C:\\f\\a-stereo.mkv"
    );
    assert!(!looks_like_video("C:\\clips.mkv\\notes", true));
    assert!(looks_like_video("C:\\clips\\a.MKV", true));
}

#[test]
fn elsewhere_a_backslash_is_part_of_a_name() {
    assert_eq!(default_output_for("/f/a\\b.mkv", false), "/f/a\\b-stereo.mkv");
    assert!(looks_like_video("C:\\clips.mkv\\a.mp4", false));
    assert_eq!(default_output_for("C:", false), "C:-stereo.mkv");
}
