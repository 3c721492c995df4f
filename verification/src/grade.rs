//! Per-eye brightness, contrast and saturation.
//!
//! Recovery routinely leaves one eye darker or flatter than the other, since the
//! two anaglyph channels never carried equal energy to begin with, so each eye
//! gets its own correction.
//!
//! Unlike the rest of the pipeline this stage runs on *gamma-encoded* samples.
//! Brightness as a linear-light offset would crush shadows.

use crate::frame::{FrameF32, Image};
use crate::scalar::{float, lemma_constants, unit32, F32, ONE, ZERO};
use vstd::arithmetic::power2::lemma_pow2_pos;
use vstd::prelude::*;
use vstd::std_specs::cmp::PartialEqSpecImpl;

verus! {

/// One eye's correction. Defaults are the no-op.
#[derive(Debug, Clone, Copy)]
pub struct Grade {
    /// Added to every channel, on the scale where white is 1.
    pub brightness: F32,
    /// Multiplier about mid-grey. 1 is unchanged.
    pub contrast: F32,
    /// Multiplier on the distance from neutral. 1 is unchanged, 0 is grey.
    pub saturation: F32,
}

impl Default for Grade {
    fn default() -> (r: Self)
        ensures
            r == no_grade(),
            r.identity(),
    {
        proof {
            lemma_constants();
        }
        Grade {
            brightness: F32 { bits: ZERO },
            contrast: F32 { bits: ONE },
            saturation: F32 { bits: ONE },
        }
    }
}

/// The grade that changes nothing.
pub open spec fn no_grade() -> Grade {
    Grade { brightness: float(ZERO), contrast: float(ONE), saturation: float(ONE) }
}

impl Grade {
    pub open spec fn identity(self) -> bool {
        &&& self.brightness.equals(float(ZERO))
        &&& self.contrast.equals(float(ONE))
        &&& self.saturation.equals(float(ONE))
    }

    /// Equality of settings, as floats compare.
    pub open spec fn equals(self, other: Grade) -> bool {
        &&& self.brightness.equals(other.brightness)
        &&& self.contrast.equals(other.contrast)
        &&& self.saturation.equals(other.saturation)
    }

    /// True when the grade would leave every sample untouched.
    pub fn is_identity(&self) -> (r: bool)
        ensures
            r == self.identity(),
    {
        self.brightness == F32 { bits: ZERO } && self.contrast == F32 { bits: ONE }
            && self.saturation == F32 { bits: ONE }
    }
}

impl PartialEq for Grade {
    fn eq(&self, other: &Grade) -> (r: bool) {
        self.brightness == other.brightness && self.contrast == other.contrast && self.saturation
            == other.saturation
    }
}

impl PartialEqSpecImpl for Grade {
    open spec fn obeys_eq_spec() -> bool {
        true
    }

    open spec fn eq_spec(&self, other: &Grade) -> bool {
        self.equals(*other)
    }
}

/// `out` is `image` with every pixel graded.
pub open spec fn graded<S, G: Fn(Grade, (S, S, S)) -> (S, S, S)>(
    pixel: G,
    grade: Grade,
    image: Image<S>,
    out: Image<S>,
) -> bool {
    if grade.identity() {
        out == image
    } else {
        &&& out.wf()
        &&& out.same_size(image)
        &&& out.channels == 3
        &&& forall|i: int|
            0 <= i < image.width * image.height ==> call_ensures(
                pixel,
                (grade, image.pixel(i)),
                #[trigger] out.pixel(i),
            )
    }
}

/// `pixel` takes every pixel under every grade.
pub open spec fn grades_all<S, G: Fn(Grade, (S, S, S)) -> (S, S, S)>(pixel: &G) -> bool {
    forall|grade: Grade, px: (S, S, S)| #[trigger] call_requires(*pixel, (grade, px))
}

/// `pixel` may turn `px` into `out`.
pub open spec fn grades_to<S, G: Fn(Grade, (S, S, S)) -> (S, S, S)>(
    pixel: &G,
    grade: Grade,
    px: (S, S, S),
    out: (S, S, S),
) -> bool {
    call_ensures(*pixel, (grade, px), out)
}

/// Grades a frame in place by what `pixel` makes of one pixel.
pub fn grade_by<S: Copy, G: Fn(Grade, (S, S, S)) -> (S, S, S)>(
    frame: &mut FrameF32<S>,
    grade: &Grade,
    pixel: &G,
)
    requires
        old(frame)@.wf(),
        old(frame)@.channels == 3,
        grades_all(pixel),
    ensures
        graded(*pixel, *grade, old(frame)@, final(frame)@),
        final(frame)@.wf(),
        final(frame)@.channels == 3,
        final(frame)@.same_size(old(frame)@),
{
    if grade.is_identity() {
        return;
    }
    let source = &*frame;
    let with: Grade = *grade;
    proof {
        source.lemma_fits();
    }
    let one = |i: usize| -> (px: (S, S, S))
        requires
            source@.wf(),
            source@.channels == 3,
            i < source@.width * source@.height,
            grades_all(pixel),
        ensures
            grades_to(pixel, with, source@.pixel(i as int), px),
        { pixel(with, source.pixel(i)) };
    let out = FrameF32::from_pixels(source.width(), source.height(), one);
    assert forall|i: int| 0 <= i < source@.width * source@.height implies call_ensures(
        *pixel,
        (with, source@.pixel(i)),
        #[trigger] out@.pixel(i),
    ) by {
        assert(call_ensures(one, (i as usize,), out@.pixel(i as usize as int)));
    }
    *frame = out;
}

/// The arithmetic that grading a pixel is made of.
pub struct GradeMath<C, B, L, T> {
    /// A sample's distance from mid-grey multiplied.
    pub contrast: C,
    /// A sample with a brightness added.
    pub brighten: B,
    /// The luminance of a pixel.
    pub luminance: L,
    /// A sample's distance from a neutral multiplied.
    pub saturate: T,
}

/// The arithmetic takes every sample and every setting.
pub open spec fn tints_all<
    S,
    C: Fn(F32, S) -> S,
    B: Fn(F32, S) -> S,
    L: Fn(S, S, S) -> S,
    T: Fn(F32, S, S) -> S,
>(math: &GradeMath<C, B, L, T>) -> bool {
    &&& forall|k: F32, s: S| #[trigger] call_requires(math.contrast, (k, s))
    &&& forall|k: F32, s: S| #[trigger] call_requires(math.brighten, (k, s))
    &&& forall|r: S, g: S, b: S| #[trigger] call_requires(math.luminance, (r, g, b))
    &&& forall|k: F32, grey: S, s: S| #[trigger] call_requires(math.saturate, (k, grey, s))
}

/// `out` is each channel of a pixel moved by a setting, or the pixel itself where the
/// setting is the one that changes nothing.
pub open spec fn each_moved<S, F: Fn(F32, S) -> S>(
    by: F,
    setting: F32,
    neutral: F32,
    px: (S, S, S),
    out: (S, S, S),
) -> bool {
    if setting.equals(neutral) {
        out == px
    } else {
        &&& call_ensures(by, (setting, px.0), out.0)
        &&& call_ensures(by, (setting, px.1), out.1)
        &&& call_ensures(by, (setting, px.2), out.2)
    }
}

/// `out` is a pixel with the distance of each channel from the pixel's own luminance
/// multiplied.
pub open spec fn saturated_to<S, L: Fn(S, S, S) -> S, T: Fn(F32, S, S) -> S>(
    luminance: L,
    saturate: T,
    setting: F32,
    px: (S, S, S),
    out: (S, S, S),
) -> bool {
    if setting.equals(float(ONE)) {
        out == px
    } else {
        exists|grey: S| #[trigger]
            call_ensures(luminance, (px.0, px.1, px.2), grey) && call_ensures(
                saturate,
                (setting, grey, px.0),
                out.0,
            ) && call_ensures(saturate, (setting, grey, px.1), out.1) && call_ensures(
                saturate,
                (setting, grey, px.2),
                out.2,
            )
    }
}

/// `out` is a pixel under a grade: its contrast, then its brightness, then its
/// saturation.
pub open spec fn tinted<
    S,
    C: Fn(F32, S) -> S,
    B: Fn(F32, S) -> S,
    L: Fn(S, S, S) -> S,
    T: Fn(F32, S, S) -> S,
>(math: &GradeMath<C, B, L, T>, grade: Grade, px: (S, S, S), out: (S, S, S)) -> bool {
    exists|steep: (S, S, S), bright: (S, S, S)| #[trigger]
        each_moved(math.contrast, grade.contrast, float(ONE), px, steep) && #[trigger] each_moved(
            math.brighten,
            grade.brightness,
            float(ZERO),
            steep,
            bright,
        ) && saturated_to(math.luminance, math.saturate, grade.saturation, bright, out)
}

/// Grades one pixel.
pub fn grade_pixel<
    S: Copy,
    C: Fn(F32, S) -> S,
    B: Fn(F32, S) -> S,
    L: Fn(S, S, S) -> S,
    T: Fn(F32, S, S) -> S,
>(grade: Grade, px: (S, S, S), math: &GradeMath<C, B, L, T>) -> (out: (S, S, S))
    requires
        tints_all(math),
    ensures
        tinted(math, grade, px, out),
{
    let steep = if grade.contrast == (F32 { bits: ONE }) {
        px
    } else {
        (
            (math.contrast)(grade.contrast, px.0),
            (math.contrast)(grade.contrast, px.1),
            (math.contrast)(grade.contrast, px.2),
        )
    };
    assert(each_moved(math.contrast, grade.contrast, float(ONE), px, steep));
    let bright = if grade.brightness == (F32 { bits: ZERO }) {
        steep
    } else {
        (
            (math.brighten)(grade.brightness, steep.0),
            (math.brighten)(grade.brightness, steep.1),
            (math.brighten)(grade.brightness, steep.2),
        )
    };
    assert(each_moved(math.brighten, grade.brightness, float(ZERO), steep, bright));
    if grade.saturation == (F32 { bits: ONE }) {
        bright
    } else {
        let grey = (math.luminance)(bright.0, bright.1, bright.2);
        assert(call_ensures(math.luminance, (bright.0, bright.1, bright.2), grey));
        let out = (
            (math.saturate)(grade.saturation, grey, bright.0),
            (math.saturate)(grade.saturation, grey, bright.1),
            (math.saturate)(grade.saturation, grey, bright.2),
        );
        assert(saturated_to(math.luminance, math.saturate, grade.saturation, bright, out));
        out
    }
}

/// `out` is `image` with every pixel under a grade, and `image` itself where the grade
/// changes nothing.
pub open spec fn frame_tinted<
    S,
    C: Fn(F32, S) -> S,
    B: Fn(F32, S) -> S,
    L: Fn(S, S, S) -> S,
    T: Fn(F32, S, S) -> S,
>(math: &GradeMath<C, B, L, T>, grade: Grade, image: Image<S>, out: Image<S>) -> bool {
    if grade.identity() {
        out == image
    } else {
        &&& out.wf()
        &&& out.same_size(image)
        &&& out.channels == 3
        &&& forall|i: int|
            0 <= i < image.width * image.height ==> tinted(
                math,
                grade,
                image.pixel(i),
                #[trigger] out.pixel(i),
            )
    }
}

/// Grades a frame in place, pixel by pixel.
///
/// Nothing is clamped: headroom is kept until output quantisation.
pub fn apply_grade<
    S: Copy,
    C: Fn(F32, S) -> S,
    B: Fn(F32, S) -> S,
    L: Fn(S, S, S) -> S,
    T: Fn(F32, S, S) -> S,
>(frame: &mut FrameF32<S>, grade: &Grade, math: &GradeMath<C, B, L, T>)
    requires
        old(frame)@.wf(),
        old(frame)@.channels == 3,
        tints_all(math),
    ensures
        frame_tinted(math, *grade, old(frame)@, final(frame)@),
        final(frame)@.wf(),
{
    let ghost before = frame@;
    let one = |grade: Grade, px: (S, S, S)| -> (out: (S, S, S))
        requires
            tints_all(math),
        ensures
            tinted(math, grade, px, out),
        { grade_pixel(grade, px, math) };
    grade_by(frame, grade, &one);
    proof {
        if !grade.identity() {
            assert forall|i: int| 0 <= i < before.width * before.height implies tinted(
                math,
                *grade,
                before.pixel(i),
                #[trigger] frame@.pixel(i),
            ) by {
                assert(call_ensures(one, (*grade, before.pixel(i)), frame@.pixel(i)));
            }
        }
    }
}

/// The grade that changes nothing leaves a pixel as it is.
pub proof fn law_no_grade_no_change<
    S,
    C: Fn(F32, S) -> S,
    B: Fn(F32, S) -> S,
    L: Fn(S, S, S) -> S,
    T: Fn(F32, S, S) -> S,
>(math: &GradeMath<C, B, L, T>, grade: Grade, px: (S, S, S), out: (S, S, S))
    requires
        grade.identity(),
        tinted(math, grade, px, out),
    ensures
        out == px,
{
}

/// A grade of nothing but saturation: contrast and brightness change nothing.
pub open spec fn only_saturates(grade: Grade) -> bool {
    grade.contrast.equals(float(ONE)) && grade.brightness.equals(float(ZERO))
}

/// Moving each channel of a pixel about its own luminance leaves that luminance close to
/// what it was; `close` says what close is.
pub open spec fn keeps_luminance<
    S,
    C: Fn(F32, S) -> S,
    B: Fn(F32, S) -> S,
    L: Fn(S, S, S) -> S,
    T: Fn(F32, S, S) -> S,
>(
    math: &GradeMath<C, B, L, T>,
    close: spec_fn(S, S) -> bool,
    setting: F32,
    px: (S, S, S),
) -> bool {
    forall|grey: S, out: (S, S, S), after: S| #[trigger]
        moved_about(math, setting, grey, px, out) && call_ensures(
            math.luminance,
            (px.0, px.1, px.2),
            grey,
        ) && #[trigger] call_ensures(math.luminance, (out.0, out.1, out.2), after) ==> close(
            after,
            grey,
        )
}

/// `out` is a pixel with the distance of each channel from `grey` multiplied.
pub open spec fn moved_about<
    S,
    C: Fn(F32, S) -> S,
    B: Fn(F32, S) -> S,
    L: Fn(S, S, S) -> S,
    T: Fn(F32, S, S) -> S,
>(math: &GradeMath<C, B, L, T>, setting: F32, grey: S, px: (S, S, S), out: (S, S, S)) -> bool {
    &&& call_ensures(math.saturate, (setting, grey, px.0), out.0)
    &&& call_ensures(math.saturate, (setting, grey, px.1), out.1)
    &&& call_ensures(math.saturate, (setting, grey, px.2), out.2)
}

/// A pixel has one luminance.
pub open spec fn one_luminance<
    S,
    C: Fn(F32, S) -> S,
    B: Fn(F32, S) -> S,
    L: Fn(S, S, S) -> S,
    T: Fn(F32, S, S) -> S,
>(math: &GradeMath<C, B, L, T>) -> bool {
    forall|r: S, g: S, b: S, x: S, y: S| #[trigger]
        call_ensures(math.luminance, (r, g, b), x) && #[trigger] call_ensures(
            math.luminance,
            (r, g, b),
            y,
        ) ==> x == y
}

/// Saturation does not change luminance: under a grade of nothing else, every pixel of
/// a frame keeps its own, as closely as moving channels about it does.
pub proof fn law_saturation_keeps_the_luminance<
    S,
    C: Fn(F32, S) -> S,
    B: Fn(F32, S) -> S,
    L: Fn(S, S, S) -> S,
    T: Fn(F32, S, S) -> S,
>(
    math: &GradeMath<C, B, L, T>,
    close: spec_fn(S, S) -> bool,
    grade: Grade,
    image: Image<S>,
    out: Image<S>,
    i: int,
    before: S,
    after: S,
)
    requires
        only_saturates(grade),
        one_luminance(math),
        close(before, before),
        frame_tinted(math, grade, image, out),
        0 <= i < image.width * image.height,
        keeps_luminance(math, close, grade.saturation, image.pixel(i)),
        call_ensures(math.luminance, (image.pixel(i).0, image.pixel(i).1, image.pixel(i).2), before),
        call_ensures(math.luminance, (out.pixel(i).0, out.pixel(i).1, out.pixel(i).2), after),
    ensures
        close(after, before),
        out.same_size(image),
{
    lemma_only_saturated(math, grade, image, out, i);
    let (px, o) = (image.pixel(i), out.pixel(i));
    if !grade.saturation.equals(float(ONE)) {
        let grey = choose|grey: S| #[trigger]
            call_ensures(math.luminance, (px.0, px.1, px.2), grey) && call_ensures(
                math.saturate,
                (grade.saturation, grey, px.0),
                o.0,
            ) && call_ensures(math.saturate, (grade.saturation, grey, px.1), o.1) && call_ensures(
                math.saturate,
                (grade.saturation, grey, px.2),
                o.2,
            );
        assert(moved_about(math, grade.saturation, grey, px, o));
    }
}

/// Saturation zero makes every pixel of a frame grey: its three channels are all its
/// luminance, where a distance multiplied by zero is none.
pub proof fn law_no_saturation_is_grey<
    S,
    C: Fn(F32, S) -> S,
    B: Fn(F32, S) -> S,
    L: Fn(S, S, S) -> S,
    T: Fn(F32, S, S) -> S,
>(
    math: &GradeMath<C, B, L, T>,
    grade: Grade,
    image: Image<S>,
    out: Image<S>,
    i: int,
    grey: S,
)
    requires
        only_saturates(grade),
        grade.saturation.equals(float(ZERO)),
        one_luminance(math),
        frame_tinted(math, grade, image, out),
        0 <= i < image.width * image.height,
        forall|o: (S, S, S)| #[trigger]
            moved_about(math, grade.saturation, grey, image.pixel(i), o) ==> o == (grey, grey, grey),
        call_ensures(math.luminance, (image.pixel(i).0, image.pixel(i).1, image.pixel(i).2), grey),
    ensures
        out.pixel(i) == (grey, grey, grey),
{
    lemma_constants();
    assert(unit32() > 0) by {
        lemma_pow2_pos(149);
    }
    lemma_only_saturated(math, grade, image, out, i);
    assert(moved_about(math, grade.saturation, grey, image.pixel(i), out.pixel(i)));
}

/// Under a grade of nothing but saturation a pixel is saturated as it stands.
proof fn lemma_only_saturated<
    S,
    C: Fn(F32, S) -> S,
    B: Fn(F32, S) -> S,
    L: Fn(S, S, S) -> S,
    T: Fn(F32, S, S) -> S,
>(math: &GradeMath<C, B, L, T>, grade: Grade, image: Image<S>, out: Image<S>, i: int)
    requires
        only_saturates(grade),
        frame_tinted(math, grade, image, out),
        0 <= i < image.width * image.height,
    ensures
        saturated_to(
            math.luminance,
            math.saturate,
            grade.saturation,
            image.pixel(i),
            out.pixel(i),
        ),
{
    if !grade.identity() {
        assert(tinted(math, grade, image.pixel(i), out.pixel(i)));
    }
}

/// A setting of one, exactly.
pub open spec fn is_one(x: F32) -> bool {
    x.value() == unit32() && !x.nan()
}

/// A setting of zero, of either sign.
pub open spec fn is_zero(x: F32) -> bool {
    x.value() == 0 && !x.nan()
}

/// `q` is what `by` makes of each channel of `p` under a setting.
pub open spec fn each_by<S, F: Fn(F32, S) -> S>(by: F, setting: F32, p: (S, S, S), q: (S, S, S)) -> bool {
    &&& call_ensures(by, (setting, p.0), q.0)
    &&& call_ensures(by, (setting, p.1), q.1)
    &&& call_ensures(by, (setting, p.2), q.2)
}

/// Contrast comes first, then brightness, then saturation, each by its own setting and
/// each left out where its setting changes nothing; saturation moves every channel about
/// the luminance that the pixel has by then.
pub proof fn law_contrast_then_brightness_then_saturation<
    S: Copy,
    C: Fn(F32, S) -> S,
    B: Fn(F32, S) -> S,
    L: Fn(S, S, S) -> S,
    T: Fn(F32, S, S) -> S,
>(
    grade: Grade,
    px: (S, S, S),
    math: &GradeMath<C, B, L, T>,
    out: (S, S, S),
)
    requires
        call_ensures(grade_pixel::<S, C, B, L, T>, (grade, px, math), out),
    ensures
        is_zero(grade.brightness) && is_one(grade.contrast) && is_one(grade.saturation) ==> out == px,
        is_zero(grade.brightness) && !is_one(grade.contrast) && is_one(grade.saturation) ==> each_by(
            math.contrast,
            grade.contrast,
            px,
            out,
        ),
        !is_zero(grade.brightness) && is_one(grade.contrast) && is_one(grade.saturation) ==> each_by(
            math.brighten,
            grade.brightness,
            px,
            out,
        ),
        !is_zero(grade.brightness) && !is_one(grade.contrast) && is_one(grade.saturation) ==> exists|
            steep: (S, S, S),
        | #[trigger]
            each_by(math.contrast, grade.contrast, px, steep) && each_by(
                math.brighten,
                grade.brightness,
                steep,
                out,
            ),
        !is_one(grade.saturation) ==> exists|before: (S, S, S), grey: S| #[trigger]
            call_ensures(math.luminance, (before.0, before.1, before.2), grey) && (if is_one(
                grade.contrast,
            ) && is_zero(grade.brightness) {
                before == px
            } else if is_zero(grade.brightness) {
                each_by(math.contrast, grade.contrast, px, before)
            } else if is_one(grade.contrast) {
                each_by(math.brighten, grade.brightness, px, before)
            } else {
                exists|steep: (S, S, S)| #[trigger]
                    each_by(math.contrast, grade.contrast, px, steep) && each_by(
                        math.brighten,
                        grade.brightness,
                        steep,
                        before,
                    )
            }) && call_ensures(math.saturate, (grade.saturation, grey, before.0), out.0)
                && call_ensures(math.saturate, (grade.saturation, grey, before.1), out.1)
                && call_ensures(math.saturate, (grade.saturation, grey, before.2), out.2),
{
    lemma_constants();
    let (steep, bright) = choose|steep: (S, S, S), bright: (S, S, S)| #[trigger]
        each_moved(math.contrast, grade.contrast, float(ONE), px, steep) && #[trigger] each_moved(
            math.brighten,
            grade.brightness,
            float(ZERO),
            steep,
            bright,
        ) && saturated_to(math.luminance, math.saturate, grade.saturation, bright, out);
    if !is_one(grade.contrast) {
        assert(each_by(math.contrast, grade.contrast, px, steep));
    }
    if !is_zero(grade.brightness) {
        assert(each_by(math.brighten, grade.brightness, steep, bright));
    }
    if !is_one(grade.saturation) {
        let grey = choose|grey: S| #[trigger]
            call_ensures(math.luminance, (bright.0, bright.1, bright.2), grey) && call_ensures(
                math.saturate,
                (grade.saturation, grey, bright.0),
                out.0,
            ) && call_ensures(math.saturate, (grade.saturation, grey, bright.1), out.1)
                && call_ensures(math.saturate, (grade.saturation, grey, bright.2), out.2);
        assert(call_ensures(math.luminance, (bright.0, bright.1, bright.2), grey));
    }
}

/// A frame is graded pixel by pixel in place, and left alone by the grade that changes
/// nothing: no brightness, and contrast and saturation of one.
pub proof fn law_every_pixel_is_graded_in_place<
    S: Copy,
    C: Fn(F32, S) -> S,
    B: Fn(F32, S) -> S,
    L: Fn(S, S, S) -> S,
    T: Fn(F32, S, S) -> S,
>(
    frame: &mut FrameF32<S>,
    grade: &Grade,
    math: &GradeMath<C, B, L, T>,
    i: int,
)
    requires
        call_ensures(apply_grade::<S, C, B, L, T>, (frame, grade, math), ()),
        0 <= i < old(frame)@.width * old(frame)@.height,
    ensures
        is_zero(grade.brightness) && is_one(grade.contrast) && is_one(grade.saturation)
            ==> final(frame)@ == old(frame)@,
        !(is_zero(grade.brightness) && is_one(grade.contrast) && is_one(grade.saturation)) ==> tinted(
            math,
            *grade,
            old(frame)@.pixel(i),
            final(frame)@.pixel(i),
        ),
{
    lemma_constants();
}

/// The grade that a film starts with changes nothing.
pub proof fn law_the_first_grade_is_none()
    ensures
        is_zero(no_grade().brightness),
        is_one(no_grade().contrast),
        is_one(no_grade().saturation),
{
    lemma_constants();
}

} // verus!
