//! What holds of two conversions of the same sources.
//!
//! Arithmetic gives one result for what it is given, so a conversion does too, and two
//! conversions whose settings differ in one thing can be held against each other.

use crate::blur::{gaussian_blurred, law_a_blur_has_one_result, plans_one_way, sums_one_way};
use crate::compose::{
    converged_left, converged_right, resizable, stretched, stretches, EyeOrder, OutputLayout,
};
use crate::extract::{filters, projected, EyeProjection};
use crate::frame::{FrameF32, Image};
use crate::grade::Grade;
use crate::leak::corrected;
use crate::packed::{halves, stretchable, StereoPacking};
use crate::params::{ConvertParams, InputMode, MonoEye};
use crate::pipeline::{
    above_zero, arranged, defringed, delivered, eyes_corrected, eyes_graded, eyes_in_display_space,
    eyes_painted, eyes_separated, finished, frame_processed, in_working_space, laid_out,
    law_right_first_is_the_exchanged_pair, law_swapping_exchanges_the_eyes, lemma_unconverged,
    processed, recovered, sized, sources_fit, strengths_of, swapped, taken, Eyes, RecoveryMath, Shown, Sources,
    StrengthMath, Strengths,
};
use crate::restore::{restored, ColourRestore};
use crate::scalar::{float, F32, ZERO};
use crate::transfer::{converted, TransferFunction};
use vstd::prelude::*;

verus! {

/// A curve gives one value for a sample.
pub open spec fn curves_one_way<S, F: Fn(TransferFunction, S) -> S>(curve: &F) -> bool {
    forall|tf: TransferFunction, s: S, x: S, y: S| #[trigger]
        call_ensures(*curve, (tf, s), x) && #[trigger] call_ensures(*curve, (tf, s), y) ==> x == y
}

/// A filter passes one value of a pixel.
pub open spec fn projects_one_way<S, P: Fn(EyeProjection, S, S, S) -> S>(project: &P) -> bool {
    forall|e: EyeProjection, r: S, g: S, b: S, x: S, y: S| #[trigger]
        call_ensures(*project, (e, r, g, b), x) && #[trigger] call_ensures(
            *project,
            (e, r, g, b),
            y,
        ) ==> x == y
}

/// A leak leaves one value of a sample.
pub open spec fn corrects_one_way<S, C: Fn(F32, S, S) -> S>(correct: &C) -> bool {
    forall|leak: F32, s: S, o: S, x: S, y: S| #[trigger]
        call_ensures(*correct, (leak, s, o), x) && #[trigger] call_ensures(*correct, (leak, s, o), y)
            ==> x == y
}

/// A signal is painted one way with a colour.
pub open spec fn paints_one_way<
    S,
    R: Fn(ColourRestore, EyeProjection, S, (S, S, S)) -> (S, S, S),
>(restore: &R) -> bool {
    forall|
        mode: ColourRestore,
        e: EyeProjection,
        s: S,
        c: (S, S, S),
        x: (S, S, S),
        y: (S, S, S),
    | #[trigger]
        call_ensures(*restore, (mode, e, s, c), x) && #[trigger] call_ensures(
            *restore,
            (mode, e, s, c),
            y,
        ) ==> x == y
}

/// A pixel is graded one way.
pub open spec fn grades_one_way<S, G: Fn(Grade, (S, S, S)) -> (S, S, S)>(grade: &G) -> bool {
    forall|g: Grade, c: (S, S, S), x: (S, S, S), y: (S, S, S)| #[trigger]
        call_ensures(*grade, (g, c), x) && #[trigger] call_ensures(*grade, (g, c), y) ==> x == y
}

/// A picture is resampled one way.
pub open spec fn stretches_one_way<S, V: Fn(&FrameF32<S>, usize, usize) -> FrameF32<S>>(
    stretch: &V,
) -> bool {
    forall|
        f: &FrameF32<S>,
        g: &FrameF32<S>,
        w: usize,
        h: usize,
        x: FrameF32<S>,
        y: FrameF32<S>,
    | #[trigger]
        call_ensures(*stretch, (f, w, h), x) && #[trigger] call_ensures(*stretch, (g, w, h), y)
            && f@ == g@ ==> x@ == y@
}

/// A setting has one strength.
pub open spec fn measures_one_way<I: Fn(F32) -> F32, D: Fn(F32) -> F32, O: Fn(F32) -> F32>(
    by: &StrengthMath<I, D, O>,
) -> bool {
    &&& forall|p: F32, x: F32, y: F32| #[trigger]
        call_ensures(by.fraction, (p,), x) && #[trigger] call_ensures(by.fraction, (p,), y) ==> x
            == y
    &&& forall|p: F32, x: F32, y: F32| #[trigger]
        call_ensures(by.factor, (p,), x) && #[trigger] call_ensures(by.factor, (p,), y) ==> x == y
    &&& forall|f: F32, x: F32, y: F32| #[trigger]
        call_ensures(by.spread, (f,), x) && #[trigger] call_ensures(by.spread, (f,), y) ==> x == y
}

/// Settings that agree in what the strengths are made of ask for one set of strengths.
proof fn lemma_one_strength<I: Fn(F32) -> F32, D: Fn(F32) -> F32, O: Fn(F32) -> F32>(
    by: &StrengthMath<I, D, O>,
    params: ConvertParams,
    other: ConvertParams,
    s: Strengths,
    t: Strengths,
)
    requires
        measures_one_way(by),
        other.leak_correct_left == params.leak_correct_left,
        other.leak_correct_right == params.leak_correct_right,
        other.defringe_left == params.defringe_left,
        other.defringe_right == params.defringe_right,
        other.decimate_horiz == params.decimate_horiz,
        other.decimate_vert == params.decimate_vert,
        strengths_of(by, params, s),
        strengths_of(by, other, t),
    ensures
        s == t,
{
}

/// The recovery arithmetic gives one result for what it is given, as arithmetic does.
pub open spec fn recovers_one_way<
    S,
    T: Fn(TransferFunction, S) -> S,
    U: Fn(TransferFunction, S) -> S,
    P: Fn(EyeProjection, S, S, S) -> S,
    C: Fn(F32, S, S) -> S,
    R: Fn(ColourRestore, EyeProjection, S, (S, S, S)) -> (S, S, S),
    G: Fn(Grade, (S, S, S)) -> (S, S, S),
    A: Fn(S, S, S) -> S,
    Q: Fn(S, S) -> S,
    L: Fn(S, S, S) -> S,
    M: Fn(S, usize) -> S,
    K: Fn(F32) -> Vec<S>,
    B: Fn(F32) -> [usize; 3],
>(math: &RecoveryMath<S, T, U, P, C, R, G, A, Q, L, M, K, B>) -> bool {
    &&& curves_one_way(&math.to_linear)
    &&& curves_one_way(&math.from_linear)
    &&& projects_one_way(&math.project)
    &&& corrects_one_way(&math.correct)
    &&& paints_one_way(&math.restore)
    &&& grades_one_way(&math.grade)
    &&& sums_one_way(&math.blur)
    &&& plans_one_way::<S, K, B>(&math.kernel, &math.radii)
}

/// Two RGB pictures of one size that agree at every pixel are equal.
proof fn lemma_same_pixels<S>(a: Image<S>, b: Image<S>)
    requires
        a.wf() && b.wf(),
        a.same_size(b),
        a.channels == 3 && b.channels == 3,
        forall|i: int| 0 <= i < a.width * a.height ==> #[trigger] a.pixel(i) == b.pixel(i),
    ensures
        a == b,
{
    let n = a.width * a.height;
    assert forall|j: int| 0 <= j < a.samples.len() implies a.samples[j] == b.samples[j] by {
        let i = if j < n {
            j
        } else if j < n + n {
            j - n
        } else {
            j - n - n
        };
        assert(a.pixel(i) == b.pixel(i));
    }
    assert(a.samples =~= b.samples);
}

/// A picture has one form on the other side of a curve.
proof fn lemma_one_conversion<S, F: Fn(TransferFunction, S) -> S>(
    curve: &F,
    tf: TransferFunction,
    image: Image<S>,
    x: Image<S>,
    y: Image<S>,
)
    requires
        curves_one_way(curve),
        converted(*curve, tf, image, x),
        converted(*curve, tf, image, y),
    ensures
        x == y,
{
    assert(x.samples =~= y.samples);
}

/// A filter passes one signal.
proof fn lemma_one_signal<S, P: Fn(EyeProjection, S, S, S) -> S>(
    project: &P,
    projection: EyeProjection,
    image: Image<S>,
    x: Image<S>,
    y: Image<S>,
)
    requires
        projects_one_way(project),
        projected(*project, projection, image, x),
        projected(*project, projection, image, y),
    ensures
        x == y,
{
    assert(x.samples =~= y.samples);
}

/// A signal is freed of a leak one way.
proof fn lemma_one_correction<S, C: Fn(F32, S, S) -> S>(
    correct: &C,
    leak: F32,
    target: Image<S>,
    other: Image<S>,
    x: Image<S>,
    y: Image<S>,
)
    requires
        corrects_one_way(correct),
        target.channels == 1,
        corrected(*correct, leak, target, other, x),
        corrected(*correct, leak, target, other, y),
    ensures
        x == y,
        x.channels == 1,
{
    if !leak.equals(float(ZERO)) {
        assert(x.samples =~= y.samples);
    }
}

/// An anaglyph is taken apart one way.
proof fn lemma_one_separation<
    S,
    T: Fn(TransferFunction, S) -> S,
    U: Fn(TransferFunction, S) -> S,
    P: Fn(EyeProjection, S, S, S) -> S,
    C: Fn(F32, S, S) -> S,
    R: Fn(ColourRestore, EyeProjection, S, (S, S, S)) -> (S, S, S),
    G: Fn(Grade, (S, S, S)) -> (S, S, S),
    A: Fn(S, S, S) -> S,
    Q: Fn(S, S) -> S,
    L: Fn(S, S, S) -> S,
    M: Fn(S, usize) -> S,
    K: Fn(F32) -> Vec<S>,
    B: Fn(F32) -> [usize; 3],
>(
    math: &RecoveryMath<S, T, U, P, C, R, G, A, Q, L, M, K, B>,
    params: ConvertParams,
    strengths: Strengths,
    anaglyph: Image<S>,
    x: Eyes<S>,
    y: Eyes<S>,
)
    requires
        recovers_one_way(math),
        eyes_separated(
            &math.to_linear,
            &math.from_linear,
            &math.project,
            &math.correct,
            params,
            strengths,
            anaglyph,
            x,
        ),
        eyes_separated(
            &math.to_linear,
            &math.from_linear,
            &math.project,
            &math.correct,
            params,
            strengths,
            anaglyph,
            y,
        ),
    ensures
        x == y,
{
    let (passed_x, shown_x, clean_x) = choose|
        passed_x: Eyes<S>,
        shown_x: Eyes<S>,
        clean_x: Eyes<S>,
    |
        projected(math.project, filters(params.input_format).0, anaglyph, passed_x.left)
            && projected(
            math.project,
            filters(params.input_format).1,
            anaglyph,
            passed_x.right,
        ) && #[trigger] eyes_in_display_space(&math.from_linear, params, passed_x, shown_x)
            && #[trigger] eyes_corrected(&math.correct, strengths, shown_x, clean_x)
            && in_working_space(&math.to_linear, params, clean_x.left, x.left)
            && in_working_space(&math.to_linear, params, clean_x.right, x.right);
    let (passed_y, shown_y, clean_y) = choose|
        passed_y: Eyes<S>,
        shown_y: Eyes<S>,
        clean_y: Eyes<S>,
    |
        projected(math.project, filters(params.input_format).0, anaglyph, passed_y.left)
            && projected(
            math.project,
            filters(params.input_format).1,
            anaglyph,
            passed_y.right,
        ) && #[trigger] eyes_in_display_space(&math.from_linear, params, passed_y, shown_y)
            && #[trigger] eyes_corrected(&math.correct, strengths, shown_y, clean_y)
            && in_working_space(&math.to_linear, params, clean_y.left, y.left)
            && in_working_space(&math.to_linear, params, clean_y.right, y.right);
    let (left, right) = filters(params.input_format);
    lemma_one_signal(&math.project, left, anaglyph, passed_x.left, passed_y.left);
    lemma_one_signal(&math.project, right, anaglyph, passed_x.right, passed_y.right);
    if params.work_in_linear_light {
        let (tf, back) = (params.transfer, &math.from_linear);
        lemma_one_conversion(back, tf, passed_x.left, shown_x.left, shown_y.left);
        lemma_one_conversion(back, tf, passed_x.right, shown_x.right, shown_y.right);
    }
    let (l, r) = (strengths.leak_left, strengths.leak_right);
    lemma_one_correction(&math.correct, l, shown_x.left, shown_x.right, clean_x.left, clean_y.left);
    lemma_one_correction(
        &math.correct,
        r,
        shown_x.right,
        clean_x.left,
        clean_x.right,
        clean_y.right,
    );
    if params.work_in_linear_light {
        let (tf, forth) = (params.transfer, &math.to_linear);
        lemma_one_conversion(forth, tf, clean_x.left, x.left, y.left);
        lemma_one_conversion(forth, tf, clean_x.right, x.right, y.right);
    }
}

/// Two signals are painted with a colour one way.
proof fn lemma_one_painting<
    S,
    T: Fn(TransferFunction, S) -> S,
    U: Fn(TransferFunction, S) -> S,
    P: Fn(EyeProjection, S, S, S) -> S,
    C: Fn(F32, S, S) -> S,
    R: Fn(ColourRestore, EyeProjection, S, (S, S, S)) -> (S, S, S),
    G: Fn(Grade, (S, S, S)) -> (S, S, S),
    A: Fn(S, S, S) -> S,
    Q: Fn(S, S) -> S,
    L: Fn(S, S, S) -> S,
    M: Fn(S, usize) -> S,
    K: Fn(F32) -> Vec<S>,
    B: Fn(F32) -> [usize; 3],
>(
    math: &RecoveryMath<S, T, U, P, C, R, G, A, Q, L, M, K, B>,
    params: ConvertParams,
    eyes: Eyes<S>,
    colour: Image<S>,
    x: Eyes<S>,
    y: Eyes<S>,
)
    requires
        recovers_one_way(math),
        eyes_painted(&math.from_linear, &math.restore, params, eyes, colour, x),
        eyes_painted(&math.from_linear, &math.restore, params, eyes, colour, y),
    ensures
        x == y,
{
    let (left, right) = filters(params.input_format);
    let painted_x = choose|painted_x: Eyes<S>|
        restored(math.restore, params.restore, left, eyes.left, colour, painted_x.left)
            && restored(
            math.restore,
            params.restore,
            right,
            eyes.right,
            colour,
            painted_x.right,
        ) && #[trigger] eyes_in_display_space(&math.from_linear, params, painted_x, x);
    let painted_y = choose|painted_y: Eyes<S>|
        restored(math.restore, params.restore, left, eyes.left, colour, painted_y.left)
            && restored(
            math.restore,
            params.restore,
            right,
            eyes.right,
            colour,
            painted_y.right,
        ) && #[trigger] eyes_in_display_space(&math.from_linear, params, painted_y, y);
    lemma_same_pixels(painted_x.left, painted_y.left);
    lemma_same_pixels(painted_x.right, painted_y.right);
    if params.work_in_linear_light {
        let (tf, back) = (params.transfer, &math.from_linear);
        lemma_one_conversion(back, tf, painted_x.left, x.left, y.left);
        lemma_one_conversion(back, tf, painted_x.right, x.right, y.right);
    }
}

/// An anaglyph is recovered one way.
proof fn lemma_one_recovery<
    S,
    T: Fn(TransferFunction, S) -> S,
    U: Fn(TransferFunction, S) -> S,
    P: Fn(EyeProjection, S, S, S) -> S,
    C: Fn(F32, S, S) -> S,
    R: Fn(ColourRestore, EyeProjection, S, (S, S, S)) -> (S, S, S),
    G: Fn(Grade, (S, S, S)) -> (S, S, S),
    A: Fn(S, S, S) -> S,
    Q: Fn(S, S) -> S,
    L: Fn(S, S, S) -> S,
    M: Fn(S, usize) -> S,
    K: Fn(F32) -> Vec<S>,
    B: Fn(F32) -> [usize; 3],
>(
    math: &RecoveryMath<S, T, U, P, C, R, G, A, Q, L, M, K, B>,
    params: ConvertParams,
    strengths: Strengths,
    anaglyph: Image<S>,
    colour: Image<S>,
    x: Eyes<S>,
    y: Eyes<S>,
)
    requires
        recovers_one_way(math),
        recovered(math, params, strengths, anaglyph, colour, x),
        recovered(math, params, strengths, anaglyph, colour, y),
    ensures
        x == y,
{
    let (work_x, ref_x, apart_x, soft_x, smeared_x) = choose|
        work_x: Image<S>,
        ref_x: Image<S>,
        apart_x: Eyes<S>,
        soft_x: Eyes<S>,
        smeared_x: Image<S>,
    |
        in_working_space(&math.to_linear, params, anaglyph, work_x) && in_working_space(
            &math.to_linear,
            params,
            colour,
            ref_x,
        ) && #[trigger] eyes_separated(
            &math.to_linear,
            &math.from_linear,
            &math.project,
            &math.correct,
            params,
            strengths,
            work_x,
            apart_x,
        ) && defringed(
            &math.blur,
            &math.kernel,
            &math.radii,
            strengths.defringe_left,
            apart_x.left,
            soft_x.left,
        ) && defringed(
            &math.blur,
            &math.kernel,
            &math.radii,
            strengths.defringe_right,
            apart_x.right,
            soft_x.right,
        ) && #[trigger] gaussian_blurred(
            &math.blur,
            &math.kernel,
            &math.radii,
            strengths.colour_x,
            strengths.colour_y,
            ref_x,
            smeared_x,
        ) && #[trigger] eyes_painted(
            &math.from_linear,
            &math.restore,
            params,
            soft_x,
            smeared_x,
            x,
        );
    let (work_y, ref_y, apart_y, soft_y, smeared_y) = choose|
        work_y: Image<S>,
        ref_y: Image<S>,
        apart_y: Eyes<S>,
        soft_y: Eyes<S>,
        smeared_y: Image<S>,
    |
        in_working_space(&math.to_linear, params, anaglyph, work_y) && in_working_space(
            &math.to_linear,
            params,
            colour,
            ref_y,
        ) && #[trigger] eyes_separated(
            &math.to_linear,
            &math.from_linear,
            &math.project,
            &math.correct,
            params,
            strengths,
            work_y,
            apart_y,
        ) && defringed(
            &math.blur,
            &math.kernel,
            &math.radii,
            strengths.defringe_left,
            apart_y.left,
            soft_y.left,
        ) && defringed(
            &math.blur,
            &math.kernel,
            &math.radii,
            strengths.defringe_right,
            apart_y.right,
            soft_y.right,
        ) && #[trigger] gaussian_blurred(
            &math.blur,
            &math.kernel,
            &math.radii,
            strengths.colour_x,
            strengths.colour_y,
            ref_y,
            smeared_y,
        ) && #[trigger] eyes_painted(
            &math.from_linear,
            &math.restore,
            params,
            soft_y,
            smeared_y,
            y,
        );
    if params.work_in_linear_light {
        let (tf, forth) = (params.transfer, &math.to_linear);
        lemma_one_conversion(forth, tf, anaglyph, work_x, work_y);
        lemma_one_conversion(forth, tf, colour, ref_x, ref_y);
    }
    lemma_one_separation(math, params, strengths, work_x, apart_x, apart_y);
    let none = float(ZERO);
    let (dl, dr) = (strengths.defringe_left, strengths.defringe_right);
    let (blur, kernel, radii) = (&math.blur, &math.kernel, &math.radii);
    if above_zero(dl) {
        law_a_blur_has_one_result(
            blur,
            kernel,
            radii,
            dl,
            none,
            apart_x.left,
            soft_x.left,
            soft_y.left,
        );
    }
    if above_zero(dr) {
        law_a_blur_has_one_result(
            blur,
            kernel,
            radii,
            dr,
            none,
            apart_x.right,
            soft_x.right,
            soft_y.right,
        );
    }
    law_a_blur_has_one_result(
        blur,
        kernel,
        radii,
        strengths.colour_x,
        strengths.colour_y,
        ref_x,
        smeared_x,
        smeared_y,
    );
    assert(soft_x == soft_y);
    lemma_one_painting(math, params, soft_x, smeared_x, x, y);
}

/// Only the format, the curve and how colour is restored have a say in what is
/// recovered, beside the strengths.
proof fn lemma_recovery_minds_its_own<
    S,
    T: Fn(TransferFunction, S) -> S,
    U: Fn(TransferFunction, S) -> S,
    P: Fn(EyeProjection, S, S, S) -> S,
    C: Fn(F32, S, S) -> S,
    R: Fn(ColourRestore, EyeProjection, S, (S, S, S)) -> (S, S, S),
    G: Fn(Grade, (S, S, S)) -> (S, S, S),
    A: Fn(S, S, S) -> S,
    Q: Fn(S, S) -> S,
    L: Fn(S, S, S) -> S,
    M: Fn(S, usize) -> S,
    K: Fn(F32) -> Vec<S>,
    B: Fn(F32) -> [usize; 3],
>(
    math: &RecoveryMath<S, T, U, P, C, R, G, A, Q, L, M, K, B>,
    params: ConvertParams,
    other: ConvertParams,
    strengths: Strengths,
    anaglyph: Image<S>,
    colour: Image<S>,
    out: Eyes<S>,
)
    requires
        other.work_in_linear_light == params.work_in_linear_light,
        other.transfer == params.transfer,
        other.input_format == params.input_format,
        other.restore == params.restore,
        recovered(math, params, strengths, anaglyph, colour, out),
    ensures
        recovered(math, other, strengths, anaglyph, colour, out),
{
    let (work_x, ref_x, apart_x, soft_x, smeared_x) = choose|
        work_x: Image<S>,
        ref_x: Image<S>,
        apart_x: Eyes<S>,
        soft_x: Eyes<S>,
        smeared_x: Image<S>,
    |
        in_working_space(&math.to_linear, params, anaglyph, work_x) && in_working_space(
            &math.to_linear,
            params,
            colour,
            ref_x,
        ) && #[trigger] eyes_separated(
            &math.to_linear,
            &math.from_linear,
            &math.project,
            &math.correct,
            params,
            strengths,
            work_x,
            apart_x,
        ) && defringed(
            &math.blur,
            &math.kernel,
            &math.radii,
            strengths.defringe_left,
            apart_x.left,
            soft_x.left,
        ) && defringed(
            &math.blur,
            &math.kernel,
            &math.radii,
            strengths.defringe_right,
            apart_x.right,
            soft_x.right,
        ) && #[trigger] gaussian_blurred(
            &math.blur,
            &math.kernel,
            &math.radii,
            strengths.colour_x,
            strengths.colour_y,
            ref_x,
            smeared_x,
        ) && #[trigger] eyes_painted(
            &math.from_linear,
            &math.restore,
            params,
            soft_x,
            smeared_x,
            out,
        );
    assert(eyes_separated(
        &math.to_linear,
        &math.from_linear,
        &math.project,
        &math.correct,
        other,
        strengths,
        work_x,
        apart_x,
    )) by {
        let (anaglyph, x) = (work_x, apart_x);
        let (passed_x, shown_x, clean_x) = choose|
            passed_x: Eyes<S>,
            shown_x: Eyes<S>,
            clean_x: Eyes<S>,
        |
            projected(math.project, filters(params.input_format).0, anaglyph, passed_x.left)
                && projected(
                math.project,
                filters(params.input_format).1,
                anaglyph,
                passed_x.right,
            ) && #[trigger] eyes_in_display_space(&math.from_linear, params, passed_x, shown_x)
                && #[trigger] eyes_corrected(&math.correct, strengths, shown_x, clean_x)
                && in_working_space(&math.to_linear, params, clean_x.left, x.left)
                && in_working_space(&math.to_linear, params, clean_x.right, x.right);
        assert(eyes_in_display_space(&math.from_linear, other, passed_x, shown_x));
        assert(eyes_corrected(&math.correct, strengths, shown_x, clean_x));
    }
    assert(eyes_painted(&math.from_linear, &math.restore, other, soft_x, smeared_x, out)) by {
        let (eyes, colour) = (soft_x, smeared_x);
        let (left, right) = filters(params.input_format);
        let painted_x = choose|painted_x: Eyes<S>|
            restored(math.restore, params.restore, left, eyes.left, colour, painted_x.left)
                && restored(
                math.restore,
                params.restore,
                right,
                eyes.right,
                colour,
                painted_x.right,
            ) && #[trigger] eyes_in_display_space(&math.from_linear, params, painted_x, out);
        assert(eyes_in_display_space(&math.from_linear, other, painted_x, out));
    }
}

/// Sources hold one pair.
proof fn lemma_one_pair<
    S,
    T: Fn(TransferFunction, S) -> S,
    U: Fn(TransferFunction, S) -> S,
    P: Fn(EyeProjection, S, S, S) -> S,
    C: Fn(F32, S, S) -> S,
    R: Fn(ColourRestore, EyeProjection, S, (S, S, S)) -> (S, S, S),
    G: Fn(Grade, (S, S, S)) -> (S, S, S),
    A: Fn(S, S, S) -> S,
    Q: Fn(S, S) -> S,
    L: Fn(S, S, S) -> S,
    M: Fn(S, usize) -> S,
    K: Fn(F32) -> Vec<S>,
    B: Fn(F32) -> [usize; 3],
    V: Fn(&FrameF32<S>, usize, usize) -> FrameF32<S>,
>(
    math: &RecoveryMath<S, T, U, P, C, R, G, A, Q, L, M, K, B>,
    stretch: &V,
    sources: Shown<S>,
    params: ConvertParams,
    strengths: Strengths,
    x: Eyes<S>,
    y: Eyes<S>,
)
    requires
        recovers_one_way(math),
        stretches_one_way(stretch),
        taken(math, stretch, sources, params, strengths, x),
        taken(math, stretch, sources, params, strengths, y),
    ensures
        x == y,
{
    match params.input {
        InputMode::Anaglyph => {
            let colour = match sources.colour {
                Some(f) => f,
                None => sources.primary,
            };
            lemma_one_recovery(math, params, strengths, sources.primary, colour, x, y);
        },
        _ => {},
    }
}

/// A pair is finished one way.
proof fn lemma_one_finish<S, G: Fn(Grade, (S, S, S)) -> (S, S, S)>(
    grade: &G,
    params: ConvertParams,
    mono: Option<Image<S>>,
    eyes: Eyes<S>,
    x: Eyes<S>,
    y: Eyes<S>,
)
    requires
        grades_one_way(grade),
        finished(grade, params, mono, eyes, x),
        finished(grade, params, mono, eyes, y),
    ensures
        x == y,
{
    let a = choose|a: Eyes<S>| #[trigger]
        eyes_graded(grade, params, eyes, a) && x == arranged(params, mono, a);
    let b = choose|b: Eyes<S>| #[trigger]
        eyes_graded(grade, params, eyes, b) && y == arranged(params, mono, b);
    lemma_one_grading(grade, params, eyes, a, b);
}

/// A pair is graded one way.
proof fn lemma_one_grading<S, G: Fn(Grade, (S, S, S)) -> (S, S, S)>(
    grade: &G,
    params: ConvertParams,
    eyes: Eyes<S>,
    x: Eyes<S>,
    y: Eyes<S>,
)
    requires
        grades_one_way(grade),
        eyes_graded(grade, params, eyes, x),
        eyes_graded(grade, params, eyes, y),
    ensures
        x == y,
{
    if !params.grade_left.identity() {
        lemma_same_pixels(x.left, y.left);
    }
    if !params.grade_right.identity() {
        lemma_same_pixels(x.right, y.right);
    }
}

/// A step has one result at given strengths.
proof fn lemma_one_step<
    S,
    T: Fn(TransferFunction, S) -> S,
    U: Fn(TransferFunction, S) -> S,
    P: Fn(EyeProjection, S, S, S) -> S,
    C: Fn(F32, S, S) -> S,
    R: Fn(ColourRestore, EyeProjection, S, (S, S, S)) -> (S, S, S),
    G: Fn(Grade, (S, S, S)) -> (S, S, S),
    A: Fn(S, S, S) -> S,
    Q: Fn(S, S) -> S,
    L: Fn(S, S, S) -> S,
    M: Fn(S, usize) -> S,
    K: Fn(F32) -> Vec<S>,
    B: Fn(F32) -> [usize; 3],
    V: Fn(&FrameF32<S>, usize, usize) -> FrameF32<S>,
>(
    math: &RecoveryMath<S, T, U, P, C, R, G, A, Q, L, M, K, B>,
    stretch: &V,
    sources: Shown<S>,
    params: ConvertParams,
    strengths: Strengths,
    x: Eyes<S>,
    y: Eyes<S>,
)
    requires
        recovers_one_way(math),
        stretches_one_way(stretch),
        processed(math, stretch, sources, params, strengths, x),
        processed(math, stretch, sources, params, strengths, y),
    ensures
        x == y,
{
    let a = choose|a: Eyes<S>| #[trigger]
        taken(math, stretch, sources, params, strengths, a) && finished(
            &math.grade,
            params,
            sources.mono,
            a,
            x,
        );
    let b = choose|b: Eyes<S>| #[trigger]
        taken(math, stretch, sources, params, strengths, b) && finished(
            &math.grade,
            params,
            sources.mono,
            b,
            y,
        );
    lemma_one_pair(math, stretch, sources, params, strengths, a, b);
    lemma_one_finish(&math.grade, params, sources.mono, a, x, y);
}

/// A step has one result: the same sources under the same settings give the same pair.
pub proof fn law_a_step_has_one_result<
    S,
    T: Fn(TransferFunction, S) -> S,
    U: Fn(TransferFunction, S) -> S,
    P: Fn(EyeProjection, S, S, S) -> S,
    C: Fn(F32, S, S) -> S,
    R: Fn(ColourRestore, EyeProjection, S, (S, S, S)) -> (S, S, S),
    G: Fn(Grade, (S, S, S)) -> (S, S, S),
    A: Fn(S, S, S) -> S,
    Q: Fn(S, S) -> S,
    L: Fn(S, S, S) -> S,
    M: Fn(S, usize) -> S,
    K: Fn(F32) -> Vec<S>,
    B: Fn(F32) -> [usize; 3],
    V: Fn(&FrameF32<S>, usize, usize) -> FrameF32<S>,
    I: Fn(F32) -> F32,
    D: Fn(F32) -> F32,
    O: Fn(F32) -> F32,
>(
    by: &StrengthMath<I, D, O>,
    math: &RecoveryMath<S, T, U, P, C, R, G, A, Q, L, M, K, B>,
    stretch: &V,
    sources: Shown<S>,
    params: ConvertParams,
    x: Eyes<S>,
    y: Eyes<S>,
)
    requires
        measures_one_way(by),
        recovers_one_way(math),
        stretches_one_way(stretch),
        frame_processed(by, math, stretch, sources, params, x),
        frame_processed(by, math, stretch, sources, params, y),
    ensures
        x == y,
{
    let s = choose|s: Strengths| #[trigger]
        strengths_of(by, params, s) && processed(math, stretch, sources, params, s, x);
    let t = choose|t: Strengths| #[trigger]
        strengths_of(by, params, t) && processed(math, stretch, sources, params, t, y);
    lemma_one_strength(by, params, params, s, t);
    lemma_one_step(math, stretch, sources, params, s, x, y);
}

/// A 2D source replaces exactly one eye, at given strengths.
proof fn lemma_one_eye_is_replaced<
    S,
    T: Fn(TransferFunction, S) -> S,
    U: Fn(TransferFunction, S) -> S,
    P: Fn(EyeProjection, S, S, S) -> S,
    C: Fn(F32, S, S) -> S,
    R: Fn(ColourRestore, EyeProjection, S, (S, S, S)) -> (S, S, S),
    G: Fn(Grade, (S, S, S)) -> (S, S, S),
    A: Fn(S, S, S) -> S,
    Q: Fn(S, S) -> S,
    L: Fn(S, S, S) -> S,
    M: Fn(S, usize) -> S,
    K: Fn(F32) -> Vec<S>,
    B: Fn(F32) -> [usize; 3],
    V: Fn(&FrameF32<S>, usize, usize) -> FrameF32<S>,
>(
    math: &RecoveryMath<S, T, U, P, C, R, G, A, Q, L, M, K, B>,
    stretch: &V,
    sources: Shown<S>,
    flat: Image<S>,
    params: ConvertParams,
    strengths: Strengths,
    put_in: Eyes<S>,
    left_out: Eyes<S>,
)
    requires
        recovers_one_way(math),
        stretches_one_way(stretch),
        sources.mono is None,
        processed(
            math,
            stretch,
            Shown { mono: Some(flat), ..sources },
            params,
            strengths,
            put_in,
        ),
        processed(math, stretch, sources, params, strengths, left_out),
    ensures
        params.mono_eye == MonoEye::Neither ==> put_in == left_out,
        params.mono_eye == (if params.swap_eyes {
            MonoEye::Right
        } else {
            MonoEye::Left
        }) ==> put_in.left == converged_left(flat, params.convergence) && put_in.right
            == left_out.right,
        params.mono_eye == (if params.swap_eyes {
            MonoEye::Left
        } else {
            MonoEye::Right
        }) ==> put_in.right == converged_right(flat, params.convergence) && put_in.left
            == left_out.left,
        flat.wf() && params.convergence.equals(float(ZERO)) ==> converged_left(
            flat,
            params.convergence,
        ) == flat && converged_right(flat, params.convergence) == flat,
{
    let given = Shown { mono: Some(flat), ..sources };
    let a = choose|a: Eyes<S>| #[trigger]
        taken(math, stretch, given, params, strengths, a) && finished(
            &math.grade,
            params,
            given.mono,
            a,
            put_in,
        );
    let b = choose|b: Eyes<S>| #[trigger]
        taken(math, stretch, sources, params, strengths, b) && finished(
            &math.grade,
            params,
            sources.mono,
            b,
            left_out,
        );
    assert(taken(math, stretch, sources, params, strengths, a));
    lemma_one_pair(math, stretch, sources, params, strengths, a, b);
    let c = choose|c: Eyes<S>| #[trigger]
        eyes_graded(&math.grade, params, a, c) && put_in == arranged(params, given.mono, c);
    let d = choose|d: Eyes<S>| #[trigger]
        eyes_graded(&math.grade, params, a, d) && left_out == arranged(params, sources.mono, d);
    lemma_one_grading(&math.grade, params, a, c, d);
    if flat.wf() && params.convergence.equals(float(ZERO)) {
        lemma_unconverged(flat, params.convergence);
    }
}

/// A 2D source replaces exactly one eye: of two conversions of the same sources, one
/// with a 2D frame and one without, the eye that the frame stands in for is that frame,
/// ungraded and cropped only by convergence, and the other eye is the same in both.
/// With neither eye chosen the frame has no effect.
pub proof fn law_a_mono_source_replaces_exactly_one_eye<
    S,
    T: Fn(TransferFunction, S) -> S,
    U: Fn(TransferFunction, S) -> S,
    P: Fn(EyeProjection, S, S, S) -> S,
    C: Fn(F32, S, S) -> S,
    R: Fn(ColourRestore, EyeProjection, S, (S, S, S)) -> (S, S, S),
    G: Fn(Grade, (S, S, S)) -> (S, S, S),
    A: Fn(S, S, S) -> S,
    Q: Fn(S, S) -> S,
    L: Fn(S, S, S) -> S,
    M: Fn(S, usize) -> S,
    K: Fn(F32) -> Vec<S>,
    B: Fn(F32) -> [usize; 3],
    V: Fn(&FrameF32<S>, usize, usize) -> FrameF32<S>,
    I: Fn(F32) -> F32,
    D: Fn(F32) -> F32,
    O: Fn(F32) -> F32,
>(
    by: &StrengthMath<I, D, O>,
    math: &RecoveryMath<S, T, U, P, C, R, G, A, Q, L, M, K, B>,
    stretch: &V,
    sources: Shown<S>,
    flat: Image<S>,
    params: ConvertParams,
    put_in: Eyes<S>,
    left_out: Eyes<S>,
)
    requires
        measures_one_way(by),
        recovers_one_way(math),
        stretches_one_way(stretch),
        sources.mono is None,
        frame_processed(
            by,
            math,
            stretch,
            Shown { mono: Some(flat), ..sources },
            params,
            put_in,
        ),
        frame_processed(by, math, stretch, sources, params, left_out),
    ensures
        params.mono_eye == MonoEye::Neither ==> put_in == left_out,
        params.mono_eye == (if params.swap_eyes {
            MonoEye::Right
        } else {
            MonoEye::Left
        }) ==> put_in.left == converged_left(flat, params.convergence) && put_in.right
            == left_out.right,
        params.mono_eye == (if params.swap_eyes {
            MonoEye::Left
        } else {
            MonoEye::Right
        }) ==> put_in.right == converged_right(flat, params.convergence) && put_in.left
            == left_out.left,
        flat.wf() && params.convergence.equals(float(ZERO)) ==> converged_left(
            flat,
            params.convergence,
        ) == flat && converged_right(flat, params.convergence) == flat,
{
    let given = Shown { mono: Some(flat), ..sources };
    let s = choose|s: Strengths| #[trigger]
        strengths_of(by, params, s) && processed(math, stretch, given, params, s, put_in);
    let t = choose|t: Strengths| #[trigger]
        strengths_of(by, params, t) && processed(math, stretch, sources, params, t, left_out);
    lemma_one_strength(by, params, params, s, t);
    lemma_one_eye_is_replaced(math, stretch, sources, flat, params, s, put_in, left_out);
}

/// The pair that fitting sources hold is two well-formed pictures.
proof fn lemma_taken_is_wf<
    S: Copy,
    T: Fn(TransferFunction, S) -> S,
    U: Fn(TransferFunction, S) -> S,
    P: Fn(EyeProjection, S, S, S) -> S,
    C: Fn(F32, S, S) -> S,
    R: Fn(ColourRestore, EyeProjection, S, (S, S, S)) -> (S, S, S),
    G: Fn(Grade, (S, S, S)) -> (S, S, S),
    A: Fn(S, S, S) -> S,
    Q: Fn(S, S) -> S,
    L: Fn(S, S, S) -> S,
    M: Fn(S, usize) -> S,
    K: Fn(F32) -> Vec<S>,
    B: Fn(F32) -> [usize; 3],
    V: Fn(&FrameF32<S>, usize, usize) -> FrameF32<S>,
>(
    math: &RecoveryMath<S, T, U, P, C, R, G, A, Q, L, M, K, B>,
    stretch: &V,
    sources: Sources<S>,
    params: ConvertParams,
    strengths: Strengths,
    eyes: Eyes<S>,
)
    requires
        sources_fit(sources@, params),
        stretches(stretch),
        taken(math, stretch, sources@, params, strengths, eyes),
    ensures
        eyes.left.wf(),
        eyes.right.wf(),
{
    match params.input {
        InputMode::Packed { packing, order, anamorphic } => {
            if anamorphic {
                lemma_halves_resize(sources.primary, packing);
                let (a, b) = halves(sources.primary@, packing);
                let (w, h) = (sources.primary@.width as usize, sources.primary@.height as usize);
                let (first, second) = match order {
                    EyeOrder::LeftFirst => (eyes.left, eyes.right),
                    EyeOrder::RightFirst => (eyes.right, eyes.left),
                };
                assert(stretched(*stretch, a, w, h, first));
                assert(stretched(*stretch, b, w, h, second));
            }
        },
        _ => {},
    }
}

/// Half of a frame can be stretched to the size of the whole.
proof fn lemma_halves_resize<S: Copy>(frame: &FrameF32<S>, packing: StereoPacking)
    requires
        frame@.wf(),
        stretchable(frame@, packing),
    ensures
        resizable(halves(frame@, packing).0, frame@.width as int, frame@.height as int),
        resizable(halves(frame@, packing).1, frame@.width as int, frame@.height as int),
        frame@.width as usize == frame@.width,
        frame@.height as usize == frame@.height,
{
    frame.lemma_fits();
    let (w, h, c) = (frame@.width as int, frame@.height as int, frame@.channels as int);
    assert(w * (h / 2) * c <= w * h * c) by (nonlinear_arith)
        requires
            0 <= w,
            0 <= h,
            0 <= c,
    ;
}

/// Swapping exchanges the finished eyes, at given strengths.
proof fn lemma_eyes_are_exchanged<
    S: Copy,
    T: Fn(TransferFunction, S) -> S,
    U: Fn(TransferFunction, S) -> S,
    P: Fn(EyeProjection, S, S, S) -> S,
    C: Fn(F32, S, S) -> S,
    R: Fn(ColourRestore, EyeProjection, S, (S, S, S)) -> (S, S, S),
    G: Fn(Grade, (S, S, S)) -> (S, S, S),
    A: Fn(S, S, S) -> S,
    Q: Fn(S, S) -> S,
    L: Fn(S, S, S) -> S,
    M: Fn(S, usize) -> S,
    K: Fn(F32) -> Vec<S>,
    B: Fn(F32) -> [usize; 3],
    V: Fn(&FrameF32<S>, usize, usize) -> FrameF32<S>,
>(
    math: &RecoveryMath<S, T, U, P, C, R, G, A, Q, L, M, K, B>,
    stretch: &V,
    sources: Sources<S>,
    params: ConvertParams,
    exchanged: ConvertParams,
    strengths: Strengths,
    a: Eyes<S>,
    b: Eyes<S>,
)
    requires
        sources_fit(sources@, params),
        stretches(stretch),
        recovers_one_way(math),
        stretches_one_way(stretch),
        params.convergence.equals(float(ZERO)),
        exchanged == (ConvertParams { swap_eyes: !params.swap_eyes, ..params }),
        processed(math, stretch, sources@, params, strengths, a),
        processed(math, stretch, sources@, exchanged, strengths, b),
    ensures
        b.left == a.right,
        b.right == a.left,
{
    let shown = sources@;
    let eyes = choose|eyes: Eyes<S>| #[trigger]
        taken(math, stretch, shown, params, strengths, eyes) && finished(
            &math.grade,
            params,
            shown.mono,
            eyes,
            a,
        );
    lemma_taken_is_wf(math, stretch, sources, params, strengths, eyes);
    if params.input is Anaglyph {
        let colour = match shown.colour {
            Some(f) => f,
            None => shown.primary,
        };
        lemma_recovery_minds_its_own(
            math,
            params,
            exchanged,
            strengths,
            shown.primary,
            colour,
            eyes,
        );
    }
    assert(taken(math, stretch, shown, exchanged, strengths, eyes));
    law_swapping_exchanges_the_eyes(&math.grade, params, exchanged, shown.mono, eyes, a);
    assert(processed(math, stretch, shown, exchanged, strengths, swapped(true, a)));
    lemma_one_step(math, stretch, shown, exchanged, strengths, b, swapped(true, a));
}

/// Swapping exchanges the finished eyes and changes nothing else: of two conversions of
/// the same sources whose settings differ in the swap alone, and that do not converge,
/// each has for its left eye the right eye of the other, a 2D eye among them.
pub proof fn law_a_swap_exchanges_the_finished_eyes<
    S: Copy,
    T: Fn(TransferFunction, S) -> S,
    U: Fn(TransferFunction, S) -> S,
    P: Fn(EyeProjection, S, S, S) -> S,
    C: Fn(F32, S, S) -> S,
    R: Fn(ColourRestore, EyeProjection, S, (S, S, S)) -> (S, S, S),
    G: Fn(Grade, (S, S, S)) -> (S, S, S),
    A: Fn(S, S, S) -> S,
    Q: Fn(S, S) -> S,
    L: Fn(S, S, S) -> S,
    M: Fn(S, usize) -> S,
    K: Fn(F32) -> Vec<S>,
    B: Fn(F32) -> [usize; 3],
    V: Fn(&FrameF32<S>, usize, usize) -> FrameF32<S>,
    I: Fn(F32) -> F32,
    D: Fn(F32) -> F32,
    O: Fn(F32) -> F32,
>(
    by: &StrengthMath<I, D, O>,
    math: &RecoveryMath<S, T, U, P, C, R, G, A, Q, L, M, K, B>,
    stretch: &V,
    sources: Sources<S>,
    params: ConvertParams,
    exchanged: ConvertParams,
    a: Eyes<S>,
    b: Eyes<S>,
)
    requires
        sources_fit(sources@, params),
        stretches(stretch),
        measures_one_way(by),
        recovers_one_way(math),
        stretches_one_way(stretch),
        params.convergence.equals(float(ZERO)),
        exchanged == (ConvertParams { swap_eyes: !params.swap_eyes, ..params }),
        frame_processed(by, math, stretch, sources@, params, a),
        frame_processed(by, math, stretch, sources@, exchanged, b),
    ensures
        b.left == a.right,
        b.right == a.left,
{
    let s = choose|s: Strengths| #[trigger]
        strengths_of(by, params, s) && processed(math, stretch, sources@, params, s, a);
    let t = choose|t: Strengths| #[trigger]
        strengths_of(by, exchanged, t) && processed(math, stretch, sources@, exchanged, t, b);
    lemma_one_strength(by, params, exchanged, s, t);
    lemma_eyes_are_exchanged(math, stretch, sources, params, exchanged, s, a, b);
}

/// Putting the right eye first delivers what putting the left eye first delivers of the
/// exchanged pair, in a stacked layout and at any output size.
pub proof fn law_right_first_delivers_the_exchanged_pair<
    S,
    V: Fn(&FrameF32<S>, usize, usize) -> FrameF32<S>,
>(
    stretch: &V,
    eyes: Eyes<S>,
    params: ConvertParams,
    left_first: ConvertParams,
    a: Seq<FrameF32<S>>,
    b: Seq<FrameF32<S>>,
)
    requires
        stretches_one_way(stretch),
        params.layout == OutputLayout::SideBySide || params.layout == OutputLayout::TopBottom,
        params.eye_order == EyeOrder::RightFirst,
        left_first == (ConvertParams { eye_order: EyeOrder::LeftFirst, ..params }),
        delivered(stretch, params, eyes, a),
        delivered(stretch, left_first, swapped(true, eyes), b),
    ensures
        a.len() == 1 && b.len() == 1,
        a[0]@ == b[0]@,
{
    law_right_first_is_the_exchanged_pair(eyes, params, left_first);
    let image = laid_out(eyes, params)[0];
    assert(sized(*stretch, params, image, a[0]@));
    assert(sized(*stretch, left_first, image, b[0]@));
}

} // verus!
