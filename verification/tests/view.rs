//! The five ways of looking at a pair.

use ana_convert::compose::EyeOrder;
use ana_convert::extract::AnaglyphFormat;
use ana_convert::view::ViewMode;

type FrameF32 = ana_convert::frame::FrameF32<f32>;
type StereoPair = ana_convert::pipeline::StereoPair<f32>;

fn compose_view(pair: &StereoPair, mode: ViewMode, format: AnaglyphFormat, order: EyeOrder) -> FrameF32 {
    let differ = |a: f32, b: f32| ((a - b).abs() * 4.0).min(1.0);
    ana_convert::view::compose_view(pair, mode, format, order, &differ)
}

fn aspect(mode: ViewMode, eye: f64) -> f64 {
    let by = mode.display_aspect();
    eye * by.num as f64 / by.den as f64
}

fn luminance(r: f32, g: f32, b: f32) -> f32 {
    ana_convert::extract::luminance(
        r,
        g,
        b,
        &ana_convert::extract::ProjectMath {
            weight: |part: u32, total: u64| part as f32 / total as f32,
            times: |a: f32, b: f32| a * b,
            plus: |a: f32, b: f32| a + b,
        },
    )
}

fn flat(w: usize, h: usize, rgb: [f32; 3]) -> FrameF32 {
    FrameF32::from_rgb_planes(
        w,
        h,
        &vec![rgb[0]; w * h],
        &vec![rgb[1]; w * h],
        &vec![rgb[2]; w * h],
    )
}

fn pair() -> StereoPair {
    StereoPair {
        left: flat(4, 3, [0.8, 0.2, 0.2]),
        right: flat(4, 3, [0.2, 0.6, 0.9]),
    }
}

fn view(mode: ViewMode) -> FrameF32 {
    compose_view(&pair(), mode, AnaglyphFormat::RedCyan, EyeOrder::LeftFirst)
}

fn first_pixel(f: &FrameF32) -> [f32; 3] {
    let (r, g, b) = f.rgb_planes();
    [r[0], g[0], b[0]]
}

#[test]
fn the_single_eye_views_show_that_eye_untouched() {
    assert_eq!(first_pixel(&view(ViewMode::Left)), [0.8, 0.2, 0.2]);
    assert_eq!(first_pixel(&view(ViewMode::Right)), [0.2, 0.6, 0.9]);
}

#[test]
fn single_eye_views_keep_the_source_size() {
    let v = view(ViewMode::Left);
    assert_eq!((v.width(), v.height()), (4, 3));
}

#[test]
fn side_by_side_is_twice_as_wide_with_the_left_eye_first() {
    let v = view(ViewMode::SideBySide);
    assert_eq!((v.width(), v.height()), (8, 3));
    assert_eq!(v.plane(0)[0], 0.8, "left eye on the left");
    assert_eq!(v.plane(0)[4], 0.2, "right eye on the right");
}

#[test]
fn side_by_side_honours_the_eye_order() {
    let v = compose_view(
        &pair(),
        ViewMode::SideBySide,
        AnaglyphFormat::RedCyan,
        EyeOrder::RightFirst,
    );
    assert_eq!(v.plane(0)[0], 0.2, "right eye now leads");
}

#[test]
fn the_anaglyph_view_muxes_the_pair_back_together() {
    // Red from the left eye, cyan from the right - what the glasses expect.
    let v = view(ViewMode::Anaglyph);
    assert_eq!((v.width(), v.height()), (4, 3));
    assert_eq!(first_pixel(&v), [0.8, 0.6, 0.9]);
}

#[test]
fn the_anaglyph_view_follows_the_chosen_format() {
    let v = compose_view(
        &pair(),
        ViewMode::Anaglyph,
        AnaglyphFormat::GreenMagenta,
        EyeOrder::LeftFirst,
    );
    assert_eq!(
        first_pixel(&v),
        [0.2, 0.2, 0.9],
        "green from left, magenta from right"
    );
}

#[test]
fn identical_eyes_produce_a_black_difference() {
    let same = StereoPair {
        left: flat(2, 2, [0.5, 0.5, 0.5]),
        right: flat(2, 2, [0.5, 0.5, 0.5]),
    };
    let v = compose_view(
        &same,
        ViewMode::Difference,
        AnaglyphFormat::RedCyan,
        EyeOrder::LeftFirst,
    );
    assert!(
        v.as_slice().iter().all(|&s| s.abs() < 1e-6),
        "no disparity should read as black"
    );
}

#[test]
fn differing_eyes_light_the_difference_up() {
    let v = view(ViewMode::Difference);
    assert!(
        luminance(v.plane(0)[0], v.plane(1)[0], v.plane(2)[0]) > 0.1,
        "a real difference must be visible, got {:?}",
        first_pixel(&v)
    );
}

#[test]
fn the_difference_is_symmetric_and_never_negative() {
    // Which eye is subtracted from which must not change the picture, and
    // a negative sample would be clipped to black and read as agreement.
    let swapped = StereoPair {
        left: pair().right,
        right: pair().left,
    };
    let a = view(ViewMode::Difference);
    let b = compose_view(
        &swapped,
        ViewMode::Difference,
        AnaglyphFormat::RedCyan,
        EyeOrder::LeftFirst,
    );
    for (x, y) in a.as_slice().iter().zip(b.as_slice()) {
        assert!((x - y).abs() < 1e-6, "asymmetric difference: {x} vs {y}");
        assert!(*x >= 0.0, "negative difference sample: {x}");
    }
}

#[test]
fn a_larger_difference_reads_brighter() {
    let small = StereoPair {
        left: flat(2, 2, [0.5, 0.5, 0.5]),
        right: flat(2, 2, [0.55, 0.5, 0.5]),
    };
    let big = StereoPair {
        left: flat(2, 2, [0.5, 0.5, 0.5]),
        right: flat(2, 2, [0.9, 0.5, 0.5]),
    };
    let f = |p: &StereoPair| {
        compose_view(
            p,
            ViewMode::Difference,
            AnaglyphFormat::RedCyan,
            EyeOrder::LeftFirst,
        )
        .plane(0)[0]
    };
    assert!(
        f(&big) > f(&small),
        "{} should exceed {}",
        f(&big),
        f(&small)
    );
}

#[test]
fn side_by_side_is_drawn_twice_as_wide_as_one_eye() {
    assert!((aspect(ViewMode::SideBySide, 2.28) - 4.56).abs() < 1e-9);
}

#[test]
fn every_other_view_is_drawn_at_one_eyes_shape() {
    for mode in [
        ViewMode::Left,
        ViewMode::Right,
        ViewMode::Anaglyph,
        ViewMode::Difference,
    ] {
        assert!((aspect(mode, 2.28) - 2.28).abs() < 1e-9, "{mode:?}");
    }
}

#[test]
fn every_mode_has_a_label_and_a_hint() {
    for mode in ViewMode::ALL {
        assert!(!mode.label().is_empty(), "{mode:?} needs a label");
        assert!(!mode.hint().is_empty(), "{mode:?} needs a hint");
    }
}
