//! Taking a packed pair apart.

use ana_convert::compose::{stack_horizontal, stack_vertical, EyeOrder};
use ana_convert::extract::{encode_anaglyph, AnaglyphFormat};
use ana_convert::packed::{eye_size, StereoPacking};

type FrameF32 = ana_convert::frame::FrameF32<f32>;
type StereoPair = ana_convert::pipeline::StereoPair<f32>;

fn split_packed(frame: &FrameF32, packing: StereoPacking, order: EyeOrder, squeezed: bool) -> StereoPair {
    ana_convert::packed::split_packed(frame, packing, order, squeezed, &stretch)
}

/// Resamples with three Lanczos lobes, widened where the picture shrinks.
fn stretch(frame: &FrameF32, width: usize, height: usize) -> FrameF32 {
    let add = |sum: f32, weight: f32, sample: f32| sum + weight * sample;
    ana_convert::compose::resize(frame, width, height, &filter(), &add)
}

type Filter = ana_convert::compose::TapMath<
    f32,
    fn(usize, usize, usize) -> (isize, isize),
    fn(usize, usize, usize, isize) -> f32,
    fn(f32, f32) -> f32,
    fn(f32, f32) -> f32,
>;

/// How far the filter is widened where the picture shrinks, and where it is centred.
fn laid(src: usize, dst: usize, i: usize) -> (f32, f32) {
    let scale = dst as f32 / src as f32;
    (if scale < 1.0 { 1.0 / scale } else { 1.0 }, (i as f32 + 0.5) / scale - 0.5)
}

fn filter() -> Filter {
    Filter {
        zero: 0.0,
        reach: |src: usize, dst: usize, i: usize| {
            let (widened, at) = laid(src, dst, i);
            ((at - 3.0 * widened).ceil() as isize, (at + 3.0 * widened).floor() as isize)
        },
        weigh: |src: usize, dst: usize, i: usize, s: isize| {
            let (widened, at) = laid(src, dst, i);
            lanczos((s as f32 - at) / widened)
        },
        plus: |a: f32, b: f32| a + b,
        share: |w: f32, sum: f32| if sum != 0.0 { w / sum } else { w },
    }
}

fn lanczos(x: f32) -> f32 {
    if x.abs() < 1e-6 {
        return 1.0;
    }
    if x.abs() >= 3.0 {
        return 0.0;
    }
    let px = std::f32::consts::PI * x;
    3.0 * px.sin() * (px / 3.0).sin() / (px * px)
}

/// A frame whose left and right halves are told apart by their red channel.
fn halves(w: usize, h: usize, left: f32, right: f32) -> FrameF32 {
    let mut r = vec![0.0f32; w * h];
    for y in 0..h {
        for x in 0..w {
            r[y * w + x] = if x < w / 2 { left } else { right };
        }
    }
    FrameF32::from_rgb_planes(w, h, &r, &vec![0.5; w * h], &vec![0.25; w * h])
}

fn first(frame: &FrameF32) -> f32 {
    frame.plane(0)[0]
}

#[test]
fn side_by_side_splits_across_the_middle() {
    let packed = halves(8, 4, 0.9, 0.1);
    let pair = split_packed(
        &packed,
        StereoPacking::SideBySide,
        EyeOrder::LeftFirst,
        false,
    );
    assert_eq!((pair.left.width(), pair.left.height()), (4, 4));
    assert_eq!(first(&pair.left), 0.9, "left eye came from the left half");
    assert_eq!(first(&pair.right), 0.1);
}

#[test]
fn side_by_side_honours_a_reversed_eye_order() {
    let packed = halves(8, 4, 0.9, 0.1);
    let pair = split_packed(
        &packed,
        StereoPacking::SideBySide,
        EyeOrder::RightFirst,
        false,
    );
    assert_eq!(first(&pair.left), 0.1, "the right eye was stored first");
    assert_eq!(first(&pair.right), 0.9);
}

#[test]
fn top_bottom_splits_across_the_middle() {
    // Build it by stacking, so the test does not depend on the split's own
    // idea of where the middle is.
    let top = FrameF32::filled(6, 3, 3, 0.8);
    let bottom = FrameF32::filled(6, 3, 3, 0.2);
    let packed = stack_vertical(&top, &bottom);
    let pair = split_packed(
        &packed,
        StereoPacking::TopBottom,
        EyeOrder::LeftFirst,
        false,
    );
    assert_eq!((pair.left.width(), pair.left.height()), (6, 3));
    assert_eq!(first(&pair.left), 0.8);
    assert_eq!(first(&pair.right), 0.2);
}

#[test]
fn splitting_undoes_stacking_exactly() {
    // The strongest statement available: this is the inverse of compose.
    let left =
        FrameF32::from_rgb_planes(3, 2, &[0.1, 0.2, 0.3, 0.4, 0.5, 0.6], &[0.0; 6], &[0.0; 6]);
    let right =
        FrameF32::from_rgb_planes(3, 2, &[0.9, 0.8, 0.7, 0.6, 0.5, 0.4], &[0.0; 6], &[0.0; 6]);

    let pair = split_packed(
        &stack_horizontal(&left, &right),
        StereoPacking::SideBySide,
        EyeOrder::LeftFirst,
        false,
    );
    assert_eq!(pair.left.as_slice(), left.as_slice());
    assert_eq!(pair.right.as_slice(), right.as_slice());

    let pair = split_packed(
        &stack_vertical(&left, &right),
        StereoPacking::TopBottom,
        EyeOrder::LeftFirst,
        false,
    );
    assert_eq!(pair.left.as_slice(), left.as_slice());
    assert_eq!(pair.right.as_slice(), right.as_slice());
}

#[test]
fn anamorphic_side_by_side_stretches_each_eye_back_to_full_width() {
    // A 1920x1080 frame holding two 960x1080 eyes: each one has to come
    // back out at 1920x1080 or everybody is half as wide as they should be.
    let packed = FrameF32::new_rgb(1920, 1080);
    let pair = split_packed(
        &packed,
        StereoPacking::SideBySide,
        EyeOrder::LeftFirst,
        true,
    );
    assert_eq!((pair.left.width(), pair.left.height()), (1920, 1080));
    assert_eq!((pair.right.width(), pair.right.height()), (1920, 1080));
}

#[test]
fn anamorphic_top_bottom_stretches_each_eye_back_to_full_height() {
    let packed = FrameF32::new_rgb(1920, 1080);
    let pair = split_packed(&packed, StereoPacking::TopBottom, EyeOrder::LeftFirst, true);
    assert_eq!((pair.left.width(), pair.left.height()), (1920, 1080));
}

#[test]
fn anamorphic_stretching_keeps_the_content_in_place() {
    // Stretching must not also shuffle which eye is which.
    let packed = halves(8, 4, 0.9, 0.1);
    let pair = split_packed(
        &packed,
        StereoPacking::SideBySide,
        EyeOrder::LeftFirst,
        true,
    );
    assert!(
        (first(&pair.left) - 0.9).abs() < 0.05,
        "got {}",
        first(&pair.left)
    );
    assert!(
        (first(&pair.right) - 0.1).abs() < 0.05,
        "got {}",
        first(&pair.right)
    );
}

#[test]
fn a_flat_field_survives_the_anamorphic_stretch() {
    let packed = FrameF32::filled(64, 16, 3, 0.6);
    let pair = split_packed(
        &packed,
        StereoPacking::SideBySide,
        EyeOrder::LeftFirst,
        true,
    );
    for &s in pair.left.as_slice() {
        assert!((s - 0.6).abs() < 1e-4, "drifted to {s}");
    }
}

#[test]
fn eye_size_matches_what_splitting_produces() {
    // The pipeline sizes its encoders from eye_size before decoding a
    // frame, so the two must never disagree.
    for packing in [StereoPacking::SideBySide, StereoPacking::TopBottom] {
        for anamorphic in [false, true] {
            let packed = FrameF32::new_rgb(64, 32);
            let pair = split_packed(&packed, packing, EyeOrder::LeftFirst, anamorphic);
            assert_eq!(
                eye_size((64, 32), packing, anamorphic),
                (pair.left.width(), pair.left.height()),
                "{packing:?} anamorphic={anamorphic}"
            );
        }
    }
}

#[test]
fn an_odd_size_still_splits_into_two_equal_eyes() {
    for w in [9usize, 599, 601, 1279] {
        let pair = split_packed(
            &FrameF32::new_rgb(w, 5),
            StereoPacking::SideBySide,
            EyeOrder::LeftFirst,
            false,
        );
        assert_eq!(
            pair.left.width(),
            pair.right.width(),
            "width {w} split unevenly"
        );
        assert!(pair.left.width() >= 1, "width {w} lost an eye entirely");
        assert_eq!(pair.left.height(), 5);
    }

    for h in [9usize, 599, 601] {
        let pair = split_packed(
            &FrameF32::new_rgb(5, h),
            StereoPacking::TopBottom,
            EyeOrder::LeftFirst,
            false,
        );
        assert_eq!(
            pair.left.height(),
            pair.right.height(),
            "height {h} split unevenly"
        );
    }
}

#[test]
fn an_oddly_sized_pair_can_be_muxed_back_into_an_anaglyph() {
    // The exact path that crashed: split a packed frame, then re-mux it.
    for w in [601usize, 1279] {
        let pair = split_packed(
            &FrameF32::new_rgb(w, 33),
            StereoPacking::SideBySide,
            EyeOrder::LeftFirst,
            false,
        );
        let out = encode_anaglyph(&pair.left, &pair.right, AnaglyphFormat::RedCyan);
        assert_eq!(out.height(), 33, "width {w}");
    }
}

#[test]
fn an_odd_split_drops_the_seam_rather_than_the_picture_edge() {
    // With no clean middle, the ambiguous column is the one straddling the
    // seam. Losing that is far better than losing a column of picture.
    let mut r = vec![0.0f32; 5];
    r[0] = 0.1; // first column of the left eye
    r[2] = 0.5; // the straddling middle
    r[4] = 0.9; // last column of the right eye
    let packed = FrameF32::from_rgb_planes(5, 1, &r, &[0.0; 5], &[0.0; 5]);
    let pair = split_packed(
        &packed,
        StereoPacking::SideBySide,
        EyeOrder::LeftFirst,
        false,
    );
    assert_eq!(
        pair.left.plane(0)[0],
        0.1,
        "left eye keeps its first column"
    );
    assert_eq!(
        pair.right.plane(0)[pair.right.width() - 1],
        0.9,
        "right eye keeps its last column"
    );
}
