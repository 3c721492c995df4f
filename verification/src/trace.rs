//! What becomes of one pixel, one setting and one pair on the way through a conversion.
//!
//! The steps of a conversion are stated picture by picture elsewhere. Here they are
//! followed from end to end: which sample of which source an output sample comes of, by
//! which setting, and which eye ends up where.

use crate::blur::{gaussian_blurred, law_no_sigma_no_blur, spreads_percent};
use crate::compose::{
    above, beside, conformed, lemma_above_at, lemma_beside_at, lemma_cropped_at, EyeOrder,
    OutputLayout,
};
use crate::extract::{filters, lemma_muxed_pixel, projected, AnaglyphFormat, EyeProjection};
use crate::frame::{FrameF32, Image};
use crate::grade::Grade;
use crate::packed::{halves, StereoPacking};
use crate::params::{ConvertParams, InputMode, MonoEye};
use crate::pipeline::{
    arranged, compose_output, defringed, delivered, eyes_corrected, eyes_graded,
    eyes_in_display_space, eyes_painted, eyes_separated, finished, in_working_space,
    lemma_unconverged, process_frame, processed, recovered, sized, sources_fit, strengths_of,
    substituted, swapped, taken, Eyes, RecoveryMath, Sources, StereoPair, StrengthMath, Strengths,
};
use crate::repeat::{measures_one_way, stretches_one_way};
use crate::restore::{restored, ColourRestore};
use crate::scalar::{float, lemma_constants, F32, HUNDRED, ONE, TENTH};
use crate::transfer::TransferFunction;
use vstd::prelude::*;

verus! {

/// Each strength is what the arithmetic gives for the setting it is named after: the
/// fraction of each eye's own leak, the spread of each eye's own de-fringe, and the
/// spread of how far each colour percentage shrinks, the horizontal one across and the
/// vertical one down.
pub proof fn law_each_strength_has_its_own_setting<
    I: Fn(F32) -> F32,
    D: Fn(F32) -> F32,
    O: Fn(F32) -> F32,
>(params: &ConvertParams, by: &StrengthMath<I, D, O>, s: Strengths)
    requires
        call_ensures(Strengths::of::<I, D, O>, (params, by), s),
    ensures
        call_ensures(by.fraction, (params.leak_correct_left,), s.leak_left),
        call_ensures(by.fraction, (params.leak_correct_right,), s.leak_right),
        float(ONE).at_most(params.defringe_left) ==> call_ensures(
            by.spread,
            (params.defringe_left,),
            s.defringe_left,
        ),
        float(ONE).at_most(params.defringe_right) ==> call_ensures(
            by.spread,
            (params.defringe_right,),
            s.defringe_right,
        ),
        !float(ONE).at_most(params.defringe_left) ==> call_ensures(
            by.spread,
            (float(ONE),),
            s.defringe_left,
        ),
        !float(ONE).at_most(params.defringe_right) ==> call_ensures(
            by.spread,
            (float(ONE),),
            s.defringe_right,
        ),
        params.decimate_horiz.value() > float(TENTH).value() && params.decimate_horiz.value()
            < float(HUNDRED).value() && params.decimate_horiz.finite() ==> exists|f: F32| #[trigger]
            call_ensures(by.factor, (params.decimate_horiz,), f) && call_ensures(
                by.spread,
                (if float(ONE).at_most(f) { f } else { float(ONE) },),
                s.colour_x,
            ),
        params.decimate_vert.value() > float(TENTH).value() && params.decimate_vert.value()
            < float(HUNDRED).value() && params.decimate_vert.finite() ==> exists|f: F32| #[trigger]
            call_ensures(by.factor, (params.decimate_vert,), f) && call_ensures(
                by.spread,
                (if float(ONE).at_most(f) { f } else { float(ONE) },),
                s.colour_y,
            ),
{
}

/// A strength depends on its own setting alone: of two conversions that agree in one
/// setting, whatever else differs, the strength of that setting is the same. So moving
/// the left leak leaves the right strength where it was, and the other way round.
pub proof fn law_a_strength_depends_on_its_own_setting_alone<
    I: Fn(F32) -> F32,
    D: Fn(F32) -> F32,
    O: Fn(F32) -> F32,
>(params: &ConvertParams, other: &ConvertParams, by: &StrengthMath<I, D, O>, s: Strengths, t: Strengths)
    requires
        measures_one_way(by),
        call_ensures(Strengths::of::<I, D, O>, (params, by), s),
        call_ensures(Strengths::of::<I, D, O>, (other, by), t),
    ensures
        params.leak_correct_left == other.leak_correct_left ==> s.leak_left == t.leak_left,
        params.leak_correct_right == other.leak_correct_right ==> s.leak_right == t.leak_right,
        params.defringe_left == other.defringe_left ==> s.defringe_left == t.defringe_left,
        params.defringe_right == other.defringe_right ==> s.defringe_right == t.defringe_right,
        params.decimate_horiz == other.decimate_horiz ==> s.colour_x == t.colour_x,
        params.decimate_vert == other.decimate_vert ==> s.colour_y == t.colour_y,
        params.leak_correct_left == other.leak_correct_right ==> s.leak_left == t.leak_right,
        params.defringe_left == other.defringe_right ==> s.defringe_left == t.defringe_right,
        params.decimate_horiz == other.decimate_vert ==> s.colour_x == t.colour_y,
{
}

/// What one pixel is on its way through recovery.
pub struct Way<S> {
    /// The film's pixel in the working space.
    pub work: (S, S, S),
    /// The reference colour there.
    pub reference: (S, S, S),
    /// What each eye's filter passes.
    pub passed: (S, S),
    /// The two signals as they were mastered.
    pub mastered: (S, S),
    /// The same without each other's leak.
    pub clean: (S, S),
    /// The two signals in the working space.
    pub signal: (S, S),
    /// Each eye painted.
    pub painted: ((S, S, S), (S, S, S)),
}

/// `t` is `s` moved along a curve, or `s` itself where there is nothing to convert.
pub open spec fn bends<S, F: Fn(TransferFunction, S) -> S>(
    curve: F,
    params: ConvertParams,
    s: S,
    t: S,
) -> bool {
    if params.work_in_linear_light && params.transfer != TransferFunction::Linear {
        call_ensures(curve, (params.transfer, s), t)
    } else {
        t == s
    }
}

/// Each channel of `q` is that of `p` moved along a curve.
pub open spec fn bends_pixel<S, F: Fn(TransferFunction, S) -> S>(
    curve: F,
    params: ConvertParams,
    p: (S, S, S),
    q: (S, S, S),
) -> bool {
    &&& bends(curve, params, p.0, q.0)
    &&& bends(curve, params, p.1, q.1)
    &&& bends(curve, params, p.2, q.2)
}

/// `out` is a signal without so much of another, or itself where nothing leaks.
pub open spec fn cleans<S, C: Fn(F32, S, S) -> S>(correct: C, leak: F32, s: S, other: S, out: S) -> bool {
    if leak.value() == 0 && !leak.nan() {
        out == s
    } else {
        call_ensures(correct, (leak, s, other), out)
    }
}

/// `way` is how a film's pixel and its reference colour become the two eyes' pixels.
pub open spec fn goes<
    S,
    T: Fn(TransferFunction, S) -> S,
    U: Fn(TransferFunction, S) -> S,
    P: Fn(EyeProjection, S, S, S) -> S,
    C: Fn(F32, S, S) -> S,
    R: Fn(ColourRestore, EyeProjection, S, (S, S, S)) -> (S, S, S),
    G: Fn(Grade, (S, S, S)) -> (S, S, S),
    A: Fn(S, S, S) -> S,
    Q: Fn(S, S) -> S,
    L: Fn(S, S, S) -> S,
    M: Fn(S, usize) -> S,
    K: Fn(F32) -> Vec<S>,
    B: Fn(F32) -> [usize; 3],
>(
    math: &RecoveryMath<S, T, U, P, C, R, G, A, Q, L, M, K, B>,
    params: ConvertParams,
    seen: (EyeProjection, EyeProjection),
    leaks: (F32, F32),
    film: (S, S, S),
    colour: (S, S, S),
    way: Way<S>,
    left: (S, S, S),
    right: (S, S, S),
) -> bool {
    &&& bends_pixel(math.to_linear, params, film, way.work)
    &&& bends_pixel(math.to_linear, params, colour, way.reference)
    &&& call_ensures(math.project, (seen.0, way.work.0, way.work.1, way.work.2), way.passed.0)
    &&& call_ensures(math.project, (seen.1, way.work.0, way.work.1, way.work.2), way.passed.1)
    &&& bends(math.from_linear, params, way.passed.0, way.mastered.0)
    &&& bends(math.from_linear, params, way.passed.1, way.mastered.1)
    &&& cleans(math.correct, leaks.0, way.mastered.0, way.mastered.1, way.clean.0)
    &&& cleans(math.correct, leaks.1, way.mastered.1, way.clean.0, way.clean.1)
    &&& bends(math.to_linear, params, way.clean.0, way.signal.0)
    &&& bends(math.to_linear, params, way.clean.1, way.signal.1)
    &&& call_ensures(
        math.restore,
        (params.restore, seen.0, way.signal.0, way.reference),
        way.painted.0,
    )
    &&& call_ensures(
        math.restore,
        (params.restore, seen.1, way.signal.1, way.reference),
        way.painted.1,
    )
    &&& bends_pixel(math.from_linear, params, way.painted.0, left)
    &&& bends_pixel(math.from_linear, params, way.painted.1, right)
}

/// Where nothing is softened or blurred, recovery takes every pixel its way.
proof fn lemma_recovered_pixel<
    S,
    T: Fn(TransferFunction, S) -> S,
    U: Fn(TransferFunction, S) -> S,
    P: Fn(EyeProjection, S, S, S) -> S,
    C: Fn(F32, S, S) -> S,
    R: Fn(ColourRestore, EyeProjection, S, (S, S, S)) -> (S, S, S),
    G: Fn(Grade, (S, S, S)) -> (S, S, S),
    A: Fn(S, S, S) -> S,
    Q: Fn(S, S) -> S,
    L: Fn(S, S, S) -> S,
    M: Fn(S, usize) -> S,
    K: Fn(F32) -> Vec<S>,
    B: Fn(F32) -> [usize; 3],
>(
    math: &RecoveryMath<S, T, U, P, C, R, G, A, Q, L, M, K, B>,
    params: ConvertParams,
    strengths: Strengths,
    film: Image<S>,
    colour: Image<S>,
    out: Eyes<S>,
    i: int,
) -> (way: Way<S>)
    requires
        film.wf() && film.channels == 3,
        colour.wf() && colour.channels == 3,
        colour.same_size(film),
        0 <= i < film.width * film.height,
        strengths.defringe_left.value() == 0 && strengths.defringe_right.value() == 0,
        strengths.colour_x.value() == 0 && !strengths.colour_x.nan(),
        strengths.colour_y.value() == 0 && !strengths.colour_y.nan(),
        recovered(math, params, strengths, film, colour, out),
    ensures
        goes(
            math,
            params,
            filters(params.input_format),
            (strengths.leak_left, strengths.leak_right),
            film.pixel(i),
            colour.pixel(i),
            way,
            out.left.pixel(i),
            out.right.pixel(i),
        ),
        out.left.wf() && out.right.wf(),
        out.left.channels == 3 && out.right.channels == 3,
        out.left.same_size(film) && out.right.same_size(film),
{
    lemma_constants();
    crate::scalar::lemma_magnitude_order(0, crate::blur::NO_BLUR as int);
    let (work, reference, apart, soft, smeared) = choose|
        work: Image<S>,
        reference: Image<S>,
        apart: Eyes<S>,
        soft: Eyes<S>,
        smeared: Image<S>,
    |
        in_working_space(&math.to_linear, params, film, work) && in_working_space(
            &math.to_linear,
            params,
            colour,
            reference,
        ) && #[trigger] eyes_separated(
            &math.to_linear,
            &math.from_linear,
            &math.project,
            &math.correct,
            params,
            strengths,
            work,
            apart,
        ) && defringed(
            &math.blur,
            &math.kernel,
            &math.radii,
            strengths.defringe_left,
            apart.left,
            soft.left,
        ) && defringed(
            &math.blur,
            &math.kernel,
            &math.radii,
            strengths.defringe_right,
            apart.right,
            soft.right,
        ) && #[trigger] gaussian_blurred(
            &math.blur,
            &math.kernel,
            &math.radii,
            strengths.colour_x,
            strengths.colour_y,
            reference,
            smeared,
        ) && #[trigger] eyes_painted(
            &math.from_linear,
            &math.restore,
            params,
            soft,
            smeared,
            out,
        );
    let (p, q) = filters(params.input_format);
    let (passed, shown, clean) = choose|passed: Eyes<S>, shown: Eyes<S>, clean: Eyes<S>|
        projected(math.project, p, work, passed.left) && projected(
            math.project,
            q,
            work,
            passed.right,
        ) && #[trigger] eyes_in_display_space(&math.from_linear, params, passed, shown)
            && #[trigger] eyes_corrected(&math.correct, strengths, shown, clean) && in_working_space(
            &math.to_linear,
            params,
            clean.left,
            apart.left,
        ) && in_working_space(&math.to_linear, params, clean.right, apart.right);
    assert(soft == apart);
    law_no_sigma_no_blur(
        &math.blur,
        &math.kernel,
        &math.radii,
        strengths.colour_x,
        strengths.colour_y,
        reference,
        smeared,
    );
    let painted = choose|painted: Eyes<S>|
        restored(math.restore, params.restore, p, soft.left, smeared, painted.left) && restored(
            math.restore,
            params.restore,
            q,
            soft.right,
            smeared,
            painted.right,
        ) && #[trigger] eyes_in_display_space(&math.from_linear, params, painted, out);
    let len = film.width * film.height;
    assert(film.width * film.height * 3 == len + len + len);
    assert(film.width * film.height * 1 == len);
    let way = Way {
        work: work.pixel(i),
        reference: reference.pixel(i),
        passed: (passed.left.samples[i], passed.right.samples[i]),
        mastered: (shown.left.samples[i], shown.right.samples[i]),
        clean: (clean.left.samples[i], clean.right.samples[i]),
        signal: (apart.left.samples[i], apart.right.samples[i]),
        painted: (painted.left.pixel(i), painted.right.pixel(i)),
    };
    assert(bends_pixel(math.to_linear, params, film.pixel(i), way.work)) by {
        let (a, b, c) = (work.samples[i], work.samples[len + i], work.samples[len + len + i]);
    }
    assert(bends_pixel(math.to_linear, params, colour.pixel(i), way.reference)) by {
        let (a, b, c) = (
            reference.samples[i],
            reference.samples[len + i],
            reference.samples[len + len + i],
        );
    }
    assert(bends_pixel(math.from_linear, params, way.painted.0, out.left.pixel(i))) by {
        let (a, b, c) = (
            out.left.samples[i],
            out.left.samples[len + i],
            out.left.samples[len + len + i],
        );
    }
    assert(bends_pixel(math.from_linear, params, way.painted.1, out.right.pixel(i))) by {
        let (a, b, c) = (
            out.right.samples[i],
            out.right.samples[len + i],
            out.right.samples[len + len + i],
        );
    }
    way
}

/// A grade that changes nothing: no brightness, and contrast and saturation of one.
pub open spec fn plain(grade: Grade) -> bool {
    &&& grade.brightness.value() == 0 && !grade.brightness.nan()
    &&& grade.contrast.value() == crate::scalar::unit32() && !grade.contrast.nan()
    &&& grade.saturation.value() == crate::scalar::unit32() && !grade.saturation.nan()
}

/// `out` is a pixel under a grade.
pub open spec fn grades<S, G: Fn(Grade, (S, S, S)) -> (S, S, S)>(
    by: G,
    grade: Grade,
    px: (S, S, S),
    out: (S, S, S),
) -> bool {
    if plain(grade) {
        out == px
    } else {
        call_ensures(by, (grade, px), out)
    }
}

/// The pair as it is before it is swapped: the left eye first.
pub open spec fn unswapped<S>(params: ConvertParams, pair: StereoPair<S>) -> (Image<S>, Image<S>) {
    if params.swap_eyes {
        (pair.right@, pair.left@)
    } else {
        (pair.left@, pair.right@)
    }
}

/// What finishing does to one pixel of each eye of a pair that is not converged: the left
/// grade and the 2D release for the left eye, the right grade and the 2D release for the
/// right eye, and the eyes exchanged last.
pub open spec fn finishes<S, G: Fn(Grade, (S, S, S)) -> (S, S, S)>(
    by: G,
    params: ConvertParams,
    mono: Option<&FrameF32<S>>,
    left: (S, S, S),
    right: (S, S, S),
    pair: StereoPair<S>,
    i: int,
) -> bool {
    let (first, second) = unswapped(params, pair);
    &&& match (mono, params.mono_eye) {
        (Some(flat), MonoEye::Left) => first.pixel(i) == flat@.pixel(i),
        _ => grades(by, params.grade_left, left, first.pixel(i)),
    }
    &&& match (mono, params.mono_eye) {
        (Some(flat), MonoEye::Right) => second.pixel(i) == flat@.pixel(i),
        _ => grades(by, params.grade_right, right, second.pixel(i)),
    }
}

proof fn lemma_finished_pixel<S, G: Fn(Grade, (S, S, S)) -> (S, S, S)>(
    by: &G,
    params: ConvertParams,
    mono: Option<&FrameF32<S>>,
    eyes: Eyes<S>,
    pair: StereoPair<S>,
    i: int,
)
    requires
        eyes.left.wf() && eyes.right.wf(),
        eyes.left.same_size(eyes.right),
        mono matches Some(flat) ==> flat@.wf() && flat@.same_size(eyes.left),
        0 <= i < eyes.left.width * eyes.left.height,
        params.convergence.value() == 0 && !params.convergence.nan(),
        finished(
            by,
            params,
            crate::pipeline::shows(mono),
            eyes,
            (Eyes { left: pair.left@, right: pair.right@ }),
        ),
    ensures
        finishes(*by, params, mono, eyes.left.pixel(i), eyes.right.pixel(i), pair, i),
{
    lemma_constants();
    let flat = crate::pipeline::shows(mono);
    let out = Eyes { left: pair.left@, right: pair.right@ };
    let even = choose|even: Eyes<S>| #[trigger]
        eyes_graded(by, params, eyes, even) && out == arranged(params, flat, even);
    let seen = substituted(params.mono_eye, flat, even);
    lemma_unconverged(seen.left, params.convergence);
    lemma_unconverged(seen.right, params.convergence);
    let (a, b) = (even.left.pixel(i), even.right.pixel(i));
}

/// Recovery takes every pixel its way: what comes out of a step at one place is made of
/// the film's pixel and the reference colour's at that place alone, each eye through its
/// own filter, freed of the other by its own leak, the left first and the right of the
/// cleaned left, painted with the reference colour, graded by its own grade; and the
/// left eye is on the left unless the eyes are swapped. Without a colour source the film
/// is its own. (Softening and blurring, which mix places, are off.)
pub proof fn law_a_pixel_goes_its_way<
    S: Copy + Send + Sync,
    T: Fn(TransferFunction, S) -> S + Sync + Send,
    U: Fn(TransferFunction, S) -> S + Sync + Send,
    P: Fn(EyeProjection, S, S, S) -> S + Sync + Send,
    C: Fn(F32, S, S) -> S,
    R: Fn(ColourRestore, EyeProjection, S, (S, S, S)) -> (S, S, S),
    G: Fn(Grade, (S, S, S)) -> (S, S, S),
    A: Fn(S, S, S) -> S + Sync + Send,
    Q: Fn(S, S) -> S + Sync + Send,
    L: Fn(S, S, S) -> S + Sync + Send,
    M: Fn(S, usize) -> S + Sync + Send,
    K: Fn(F32) -> Vec<S>,
    B: Fn(F32) -> [usize; 3],
    V: Fn(&FrameF32<S>, usize, usize) -> FrameF32<S>,
    I: Fn(F32) -> F32,
    D: Fn(F32) -> F32,
    O: Fn(F32) -> F32,
>(
    sources: Sources<'_, S>,
    params: &ConvertParams,
    by: &StrengthMath<I, D, O>,
    math: &RecoveryMath<S, T, U, P, C, R, G, A, Q, L, M, K, B>,
    stretch: &V,
    pair: StereoPair<S>,
    seen: (EyeProjection, EyeProjection),
    reference: Image<S>,
    i: int,
)
    requires
        sources_fit(sources@, *params),
        params.input is Anaglyph,
        reference == (match sources.colour {
            Some(colour) => colour@,
            None => sources.primary@,
        }),
        params.convergence.value() == 0 && !params.convergence.nan(),
        forall|f: F32, s: F32| #[trigger]
            call_ensures(by.spread, (f,), s) ==> s.value() == 0 && !s.nan(),
        call_ensures(crate::extract::projections, (params.input_format,), seen),
        call_ensures(
            process_frame::<S, T, U, P, C, R, G, A, Q, L, M, K, B, V, I, D, O>,
            (sources, params, by, math, stretch),
            pair,
        ),
        0 <= i < sources.primary@.width * sources.primary@.height,
    ensures
        pair.left@.same_size(sources.primary@) && pair.right@.same_size(sources.primary@),
        exists|leaks: (F32, F32), way: Way<S>, left: (S, S, S), right: (S, S, S)| #[trigger]
            goes(
                math,
                *params,
                seen,
                leaks,
                sources.primary@.pixel(i),
                reference.pixel(i),
                way,
                left,
                right,
            ) && call_ensures(by.fraction, (params.leak_correct_left,), leaks.0) && call_ensures(
                by.fraction,
                (params.leak_correct_right,),
                leaks.1,
            ) && finishes(math.grade, *params, sources.mono, left, right, pair, i),
{
    let shown = sources@;
    let out = Eyes { left: pair.left@, right: pair.right@ };
    let strengths = choose|strengths: Strengths| #[trigger]
        strengths_of(by, *params, strengths) && processed(
            math,
            stretch,
            shown,
            *params,
            strengths,
            out,
        );
    let eyes = choose|eyes: Eyes<S>| #[trigger]
        taken(math, stretch, shown, *params, strengths, eyes) && finished(
            &math.grade,
            *params,
            shown.mono,
            eyes,
            out,
        );
    let colour = match shown.colour {
        Some(f) => f,
        None => shown.primary,
    };
    let way = lemma_recovered_pixel(math, *params, strengths, shown.primary, colour, eyes, i);
    lemma_finished_pixel(&math.grade, *params, sources.mono, eyes, pair, i);
    let leaks = (strengths.leak_left, strengths.leak_right);
    assert(call_ensures(by.fraction, (params.leak_correct_left,), leaks.0));
    assert(call_ensures(by.fraction, (params.leak_correct_right,), leaks.1));
    assert(goes(
        math,
        *params,
        seen,
        leaks,
        sources.primary@.pixel(i),
        colour.pixel(i),
        way,
        eyes.left.pixel(i),
        eyes.right.pixel(i),
    ));
    crate::params::law_zero_convergence_changes_no_geometry(shown.primary.width, params.convergence);
}

/// A leak of the right eye alone is the right eye's alone: with a left setting that comes
/// to nothing, the left signal is what its filter passes, and the right signal is what
/// its filter passes freed of the left's by the fraction of the right setting.
pub proof fn law_a_right_leak_corrects_the_right_signal<
    S,
    T: Fn(TransferFunction, S) -> S,
    U: Fn(TransferFunction, S) -> S,
    P: Fn(EyeProjection, S, S, S) -> S,
    C: Fn(F32, S, S) -> S,
    R: Fn(ColourRestore, EyeProjection, S, (S, S, S)) -> (S, S, S),
    G: Fn(Grade, (S, S, S)) -> (S, S, S),
    A: Fn(S, S, S) -> S,
    Q: Fn(S, S) -> S,
    L: Fn(S, S, S) -> S,
    M: Fn(S, usize) -> S,
    K: Fn(F32) -> Vec<S>,
    B: Fn(F32) -> [usize; 3],
    I: Fn(F32) -> F32,
    D: Fn(F32) -> F32,
    O: Fn(F32) -> F32,
>(
    by: &StrengthMath<I, D, O>,
    math: &RecoveryMath<S, T, U, P, C, R, G, A, Q, L, M, K, B>,
    params: &ConvertParams,
    s: Strengths,
    film: Image<S>,
    apart: Eyes<S>,
    i: int,
)
    requires
        film.wf() && film.channels == 3,
        0 <= i < film.width * film.height,
        !params.work_in_linear_light,
        forall|f: F32| #[trigger]
            call_ensures(by.fraction, (params.leak_correct_left,), f) ==> f.value() == 0 && !f.nan(),
        forall|f: F32| #[trigger]
            call_ensures(by.fraction, (params.leak_correct_right,), f) ==> f.value() != 0,
        call_ensures(Strengths::of::<I, D, O>, (params, by), s),
        eyes_separated(
            &math.to_linear,
            &math.from_linear,
            &math.project,
            &math.correct,
            *params,
            s,
            film,
            apart,
        ),
    ensures
        exists|right: S, leak: F32| #[trigger]
            call_ensures(math.correct, (leak, right, apart.left.samples[i]), apart.right.samples[i])
                && call_ensures(by.fraction, (params.leak_correct_right,), leak) && call_ensures(
                math.project,
                (
                    filters(params.input_format).0,
                    film.pixel(i).0,
                    film.pixel(i).1,
                    film.pixel(i).2,
                ),
                apart.left.samples[i],
            ) && call_ensures(
                math.project,
                (
                    filters(params.input_format).1,
                    film.pixel(i).0,
                    film.pixel(i).1,
                    film.pixel(i).2,
                ),
                right,
            ),
{
    lemma_constants();
    let (p, q) = filters(params.input_format);
    let (passed, shown, clean) = choose|passed: Eyes<S>, shown: Eyes<S>, clean: Eyes<S>|
        projected(math.project, p, film, passed.left) && projected(
            math.project,
            q,
            film,
            passed.right,
        ) && #[trigger] eyes_in_display_space(&math.from_linear, *params, passed, shown)
            && #[trigger] eyes_corrected(&math.correct, s, shown, clean) && in_working_space(
            &math.to_linear,
            *params,
            clean.left,
            apart.left,
        ) && in_working_space(&math.to_linear, *params, clean.right, apart.right);
    assert(call_ensures(
        math.correct,
        (s.leak_right, passed.right.samples[i], apart.left.samples[i]),
        apart.right.samples[i],
    ));
    assert(passed.left.samples[i] == apart.left.samples[i]);
}

/// Of two files the film is the left eye and the second file the right, each pixel in
/// place; then each eye is finished.
pub proof fn law_two_files_are_the_two_eyes<
    S: Copy + Send + Sync,
    T: Fn(TransferFunction, S) -> S + Sync + Send,
    U: Fn(TransferFunction, S) -> S + Sync + Send,
    P: Fn(EyeProjection, S, S, S) -> S + Sync + Send,
    C: Fn(F32, S, S) -> S,
    R: Fn(ColourRestore, EyeProjection, S, (S, S, S)) -> (S, S, S),
    G: Fn(Grade, (S, S, S)) -> (S, S, S),
    A: Fn(S, S, S) -> S + Sync + Send,
    Q: Fn(S, S) -> S + Sync + Send,
    L: Fn(S, S, S) -> S + Sync + Send,
    M: Fn(S, usize) -> S + Sync + Send,
    K: Fn(F32) -> Vec<S>,
    B: Fn(F32) -> [usize; 3],
    V: Fn(&FrameF32<S>, usize, usize) -> FrameF32<S>,
    I: Fn(F32) -> F32,
    D: Fn(F32) -> F32,
    O: Fn(F32) -> F32,
>(
    sources: Sources<'_, S>,
    params: &ConvertParams,
    by: &StrengthMath<I, D, O>,
    math: &RecoveryMath<S, T, U, P, C, R, G, A, Q, L, M, K, B>,
    stretch: &V,
    pair: StereoPair<S>,
    i: int,
)
    requires
        sources_fit(sources@, *params),
        params.convergence.value() == 0 && !params.convergence.nan(),
        params.input is TwoFiles,
        call_ensures(
            process_frame::<S, T, U, P, C, R, G, A, Q, L, M, K, B, V, I, D, O>,
            (sources, params, by, math, stretch),
            pair,
        ),
        0 <= i < sources.primary@.width * sources.primary@.height,
    ensures
        sources.right_eye matches Some(second) && finishes(
            math.grade,
            *params,
            sources.mono,
            sources.primary@.pixel(i),
            second@.pixel(i),
            pair,
            i,
        ),
{
    let shown = sources@;
    let out = Eyes { left: pair.left@, right: pair.right@ };
    let strengths = choose|strengths: Strengths| #[trigger]
        strengths_of(by, *params, strengths) && processed(
            math,
            stretch,
            shown,
            *params,
            strengths,
            out,
        );
    let eyes = choose|eyes: Eyes<S>| #[trigger]
        taken(math, stretch, shown, *params, strengths, eyes) && finished(
            &math.grade,
            *params,
            shown.mono,
            eyes,
            out,
        );
    lemma_finished_pixel(&math.grade, *params, sources.mono, eyes, pair, i);
}

/// Of a packed frame the two eyes are what splitting it gives, each then finished.
pub proof fn law_a_packed_frame_is_split_into_the_eyes<
    S: Copy + Send + Sync,
    T: Fn(TransferFunction, S) -> S + Sync + Send,
    U: Fn(TransferFunction, S) -> S + Sync + Send,
    P: Fn(EyeProjection, S, S, S) -> S + Sync + Send,
    C: Fn(F32, S, S) -> S,
    R: Fn(ColourRestore, EyeProjection, S, (S, S, S)) -> (S, S, S),
    G: Fn(Grade, (S, S, S)) -> (S, S, S),
    A: Fn(S, S, S) -> S + Sync + Send,
    Q: Fn(S, S) -> S + Sync + Send,
    L: Fn(S, S, S) -> S + Sync + Send,
    M: Fn(S, usize) -> S + Sync + Send,
    K: Fn(F32) -> Vec<S>,
    B: Fn(F32) -> [usize; 3],
    V: Fn(&FrameF32<S>, usize, usize) -> FrameF32<S>,
    I: Fn(F32) -> F32,
    D: Fn(F32) -> F32,
    O: Fn(F32) -> F32,
>(
    sources: Sources<'_, S>,
    params: &ConvertParams,
    by: &StrengthMath<I, D, O>,
    math: &RecoveryMath<S, T, U, P, C, R, G, A, Q, L, M, K, B>,
    stretch: &V,
    pair: StereoPair<S>,
    packing: StereoPacking,
    order: EyeOrder,
    c: int,
    y: int,
    x: int,
)
    requires
        sources_fit(sources@, *params),
        params.convergence.value() == 0 && !params.convergence.nan(),
        params.input == (InputMode::Packed { packing, order, anamorphic: false }),
        plain(params.grade_left) && plain(params.grade_right),
        sources.mono is None,
        call_ensures(
            process_frame::<S, T, U, P, C, R, G, A, Q, L, M, K, B, V, I, D, O>,
            (sources, params, by, math, stretch),
            pair,
        ),
        pair.left@.has(c, y, x),
    ensures
        ({
            let whole = sources.primary@;
            let (w, h) = (whole.width, whole.height);
            let (left, right) = unswapped(*params, pair);
            let (first, second) = match order {
                EyeOrder::LeftFirst => (left, right),
                EyeOrder::RightFirst => (right, left),
            };
            match packing {
                StereoPacking::SideBySide => {
                    &&& pair.left@.width == w / 2 && pair.left@.height == h
                    &&& first.at(c, y, x) == whole.at(c, y, x)
                    &&& second.at(c, y, x) == whole.at(c, y, x + (w - w / 2))
                },
                StereoPacking::TopBottom => {
                    &&& pair.left@.width == w && pair.left@.height == h / 2
                    &&& first.at(c, y, x) == whole.at(c, y, x)
                    &&& second.at(c, y, x) == whole.at(c, y + (h - h / 2), x)
                },
            }
        }),
{
    lemma_constants();
    let shown = sources@;
    let out = Eyes { left: pair.left@, right: pair.right@ };
    let strengths = choose|strengths: Strengths| #[trigger]
        strengths_of(by, *params, strengths) && processed(
            math,
            stretch,
            shown,
            *params,
            strengths,
            out,
        );
    let eyes = choose|eyes: Eyes<S>| #[trigger]
        taken(math, stretch, shown, *params, strengths, eyes) && finished(
            &math.grade,
            *params,
            shown.mono,
            eyes,
            out,
        );
    let whole = shown.primary;
    let (w, h) = (whole.width, whole.height);
    let (a, b) = halves(whole, packing);
    crate::packed::lemma_halves_are_pictures(whole, packing);
    assert(eyes.left.wf() && eyes.right.wf());
    let even = choose|even: Eyes<S>| #[trigger]
        eyes_graded(&math.grade, *params, eyes, even) && out == arranged(*params, shown.mono, even);
    assert(even == eyes);
    lemma_unconverged(eyes.left, params.convergence);
    lemma_unconverged(eyes.right, params.convergence);
    match packing {
        StereoPacking::SideBySide => {
            lemma_cropped_at(whole, 0, 0, w / 2, h, c, y, x);
            lemma_cropped_at(whole, (w - w / 2) as nat, 0, w / 2, h, c, y, x);
        },
        StereoPacking::TopBottom => {
            lemma_cropped_at(whole, 0, 0, w, h / 2, c, y, x);
            lemma_cropped_at(whole, 0, (h - h / 2) as nat, w, h / 2, c, y, x);
        },
    }
}

/// A layout of one eye delivers that eye and nothing else: the left picture alone, the
/// right picture alone. Separate streams are the left picture, then the right.
pub proof fn law_a_single_eye_layout_delivers_that_eye<S: Copy, V: Fn(&FrameF32<S>, usize, usize) -> FrameF32<S>>(
    pair: &StereoPair<S>,
    params: &ConvertParams,
    stretch: &V,
    frames: Vec<FrameF32<S>>,
)
    requires
        call_ensures(compose_output::<S, V>, (pair, params, stretch), frames),
        params.output_size is None,
    ensures
        params.layout == OutputLayout::LeftOnly ==> frames@.len() == 1 && frames@[0]@ == pair.left@,
        params.layout == OutputLayout::RightOnly ==> frames@.len() == 1 && frames@[0]@ == pair.right@,
        params.layout == OutputLayout::Separate ==> frames@.len() == 2 && frames@[0]@ == pair.left@
            && frames@[1]@ == pair.right@,
{
    if params.layout == OutputLayout::LeftOnly || params.layout == OutputLayout::RightOnly {
        assert(frames@.len() == 1);
        let one = frames@[0];
    }
    if params.layout == OutputLayout::Separate {
        assert(frames@.len() == 2);
        let (one, two) = (frames@[0], frames@[1]);
    }
}

/// Exchanging the eyes turns what the layout of one eye delivers into what the layout of
/// the other does, at any output size.
pub proof fn law_the_other_eye_alone_is_the_exchanged_pair<S: Copy, V: Fn(&FrameF32<S>, usize, usize) -> FrameF32<S>>(
    pair: &StereoPair<S>,
    exchanged: &StereoPair<S>,
    left_only: &ConvertParams,
    right_only: &ConvertParams,
    stretch: &V,
    a: Vec<FrameF32<S>>,
    b: Vec<FrameF32<S>>,
)
    requires
        stretches_one_way(stretch),
        exchanged.left@ == pair.right@ && exchanged.right@ == pair.left@,
        left_only.layout == OutputLayout::LeftOnly,
        *right_only == (ConvertParams { layout: OutputLayout::RightOnly, ..*left_only }),
        call_ensures(compose_output::<S, V>, (pair, left_only, stretch), a),
        call_ensures(compose_output::<S, V>, (exchanged, right_only, stretch), b),
    ensures
        a@.len() == 1 && b@.len() == 1,
        a@[0]@ == b@[0]@,
{
    assert(a@.len() == 1 && b@.len() == 1);
    assert(sized(*stretch, *left_only, pair.left@, a@[0]@));
    assert(sized(*stretch, *right_only, pair.left@, b@[0]@));
}

/// A stacked layout delivers one frame with both eyes in it, the one that comes first on
/// the left or on top, every sample in its place.
pub proof fn law_a_stacked_layout_delivers_both_eyes<S: Copy, V: Fn(&FrameF32<S>, usize, usize) -> FrameF32<S>>(
    pair: &StereoPair<S>,
    params: &ConvertParams,
    stretch: &V,
    frames: Vec<FrameF32<S>>,
    c: int,
    y: int,
    x: int,
)
    requires
        pair.wf(),
        call_ensures(compose_output::<S, V>, (pair, params, stretch), frames),
        params.output_size is None,
        pair.left@.has(c, y, x),
    ensures
        ({
            let (w, h) = (pair.left@.width as int, pair.left@.height as int);
            let (first, second) = match params.eye_order {
                EyeOrder::LeftFirst => (pair.left@, pair.right@),
                EyeOrder::RightFirst => (pair.right@, pair.left@),
            };
            &&& params.layout == OutputLayout::SideBySide ==> {
                &&& frames@.len() == 1
                &&& frames@[0]@.width == 2 * w && frames@[0]@.height == h
                &&& frames@[0]@.at(c, y, x) == first.at(c, y, x)
                &&& frames@[0]@.at(c, y, w + x) == second.at(c, y, x)
            }
            &&& params.layout == OutputLayout::TopBottom ==> {
                &&& frames@.len() == 1
                &&& frames@[0]@.width == w && frames@[0]@.height == 2 * h
                &&& frames@[0]@.at(c, y, x) == first.at(c, y, x)
                &&& frames@[0]@.at(c, h + y, x) == second.at(c, y, x)
            }
        }),
{
    let (w, h) = (pair.left@.width as int, pair.left@.height as int);
    let (first, second) = match params.eye_order {
        EyeOrder::LeftFirst => (pair.left@, pair.right@),
        EyeOrder::RightFirst => (pair.right@, pair.left@),
    };
    if params.layout == OutputLayout::SideBySide || params.layout == OutputLayout::TopBottom {
        assert(frames@.len() == 1);
        let one = frames@[0];
        lemma_beside_at(first, second, c, y, x);
        lemma_beside_at(first, second, c, y, w + x);
        lemma_above_at(first, second, c, y, x);
        lemma_above_at(first, second, c, h + y, x);
    }
}

/// An anaglyph layout delivers one frame of the encoding asked for, each channel from the
/// eye that sees it: red from the left and the rest from the right; green from the left
/// and the rest from the right; or red and green from the left and blue from the right.
pub proof fn law_an_anaglyph_layout_delivers_the_encoding_asked_for<S: Copy, V: Fn(&FrameF32<S>, usize, usize) -> FrameF32<S>>(
    pair: &StereoPair<S>,
    params: &ConvertParams,
    stretch: &V,
    frames: Vec<FrameF32<S>>,
    i: int,
)
    requires
        pair.wf(),
        pair.left@.channels == 3,
        call_ensures(compose_output::<S, V>, (pair, params, stretch), frames),
        params.output_size is None,
        params.layout == OutputLayout::Anaglyph,
        0 <= i < pair.left@.width * pair.left@.height,
    ensures
        frames@.len() == 1,
        frames@[0]@.same_size(pair.left@),
        ({
            let (m, l, r) = (frames@[0]@.pixel(i), pair.left@.pixel(i), pair.right@.pixel(i));
            match params.output_format {
                AnaglyphFormat::RedCyan => m == (l.0, r.1, r.2),
                AnaglyphFormat::GreenMagenta => m == (r.0, l.1, r.2),
                AnaglyphFormat::RedBlue => m == (l.0, l.1, r.2),
                AnaglyphFormat::ColorCode => m == (l.0, l.1, r.2),
            }
        }),
{
    assert(frames@.len() == 1);
    let one = frames@[0];
    lemma_muxed_pixel(pair.left@, pair.right@, params.output_format, i);
}

/// Every frame that is delivered has the output size, where one is asked for, and where
/// one eye is delivered it is that eye brought to that size.
pub proof fn law_delivered_frames_have_the_output_size<S: Copy, V: Fn(&FrameF32<S>, usize, usize) -> FrameF32<S>>(
    pair: &StereoPair<S>,
    params: &ConvertParams,
    stretch: &V,
    frames: Vec<FrameF32<S>>,
    w: usize,
    h: usize,
)
    requires
        call_ensures(compose_output::<S, V>, (pair, params, stretch), frames),
        params.output_size == Some((w, h)),
    ensures
        params.layout == OutputLayout::LeftOnly ==> conformed(*stretch, pair.left@, w, h, frames@[0]@),
        params.layout == OutputLayout::RightOnly ==> conformed(*stretch, pair.right@, w, h, frames@[0]@),
        params.layout == OutputLayout::Separate ==> conformed(*stretch, pair.left@, w, h, frames@[0]@)
            && conformed(*stretch, pair.right@, w, h, frames@[1]@),
        params.layout == OutputLayout::SideBySide ==> conformed(
            *stretch,
            match params.eye_order {
                EyeOrder::LeftFirst => beside(pair.left@, pair.right@),
                EyeOrder::RightFirst => beside(pair.right@, pair.left@),
            },
            w,
            h,
            frames@[0]@,
        ),
        params.layout == OutputLayout::TopBottom ==> conformed(
            *stretch,
            match params.eye_order {
                EyeOrder::LeftFirst => above(pair.left@, pair.right@),
                EyeOrder::RightFirst => above(pair.right@, pair.left@),
            },
            w,
            h,
            frames@[0]@,
        ),
{
    let one = frames@[0];
    if params.layout == OutputLayout::Separate {
        let two = frames@[1];
    }
}

/// `out` is `eye` softened by a spread along its rows alone, where the spread is above
/// nothing.
pub open spec fn softens<
    S,
    A: Fn(S, S, S) -> S,
    Q: Fn(S, S) -> S,
    L: Fn(S, S, S) -> S,
    M: Fn(S, usize) -> S,
    K: Fn(F32) -> Vec<S>,
    B: Fn(F32) -> [usize; 3],
>(
    blur: &crate::blur::BlurMath<S, A, Q, L, M>,
    kernel: &K,
    radii: &B,
    sigma: F32,
    eye: Image<S>,
    out: Image<S>,
) -> bool {
    if !sigma.nan() && sigma.value() > 0 {
        gaussian_blurred(blur, kernel, radii, sigma, F32 { bits: 0 }, eye, out)
    } else {
        out == eye
    }
}

/// `sigma` is the spread of a shrink factor, which never counts as less than 1.
pub open spec fn spreads_shrink<O: Fn(F32) -> F32>(spread: O, shrink: F32, sigma: F32) -> bool {
    if (F32 { bits: 0x3F80_0000 }).at_most(shrink) {
        call_ensures(spread, (shrink,), sigma)
    } else {
        call_ensures(spread, (F32 { bits: 0x3F80_0000 },), sigma)
    }
}

/// Every blur goes to its own picture by its own setting: each eye is softened along its
/// rows by its own de-fringe, and the reference is smeared across by the horizontal
/// percentage and down by the vertical one. Then each eye is painted with what was
/// smeared, and the pair is finished.
pub proof fn law_each_blur_goes_to_its_own_picture<
    S: Copy + Send + Sync,
    T: Fn(TransferFunction, S) -> S + Sync + Send,
    U: Fn(TransferFunction, S) -> S + Sync + Send,
    P: Fn(EyeProjection, S, S, S) -> S + Sync + Send,
    C: Fn(F32, S, S) -> S,
    R: Fn(ColourRestore, EyeProjection, S, (S, S, S)) -> (S, S, S),
    G: Fn(Grade, (S, S, S)) -> (S, S, S),
    A: Fn(S, S, S) -> S + Sync + Send,
    Q: Fn(S, S) -> S + Sync + Send,
    L: Fn(S, S, S) -> S + Sync + Send,
    M: Fn(S, usize) -> S + Sync + Send,
    K: Fn(F32) -> Vec<S>,
    B: Fn(F32) -> [usize; 3],
    V: Fn(&FrameF32<S>, usize, usize) -> FrameF32<S>,
    I: Fn(F32) -> F32,
    D: Fn(F32) -> F32,
    O: Fn(F32) -> F32,
>(
    sources: Sources<'_, S>,
    params: &ConvertParams,
    by: &StrengthMath<I, D, O>,
    math: &RecoveryMath<S, T, U, P, C, R, G, A, Q, L, M, K, B>,
    stretch: &V,
    pair: StereoPair<S>,
    reference: Image<S>,
)
    requires
        params.input is Anaglyph,
        reference == (match sources.colour {
            Some(colour) => colour@,
            None => sources.primary@,
        }),
        call_ensures(
            process_frame::<S, T, U, P, C, R, G, A, Q, L, M, K, B, V, I, D, O>,
            (sources, params, by, math, stretch),
            pair,
        ),
    ensures
        exists|
            s: Strengths,
            work: Image<S>,
            brought: Image<S>,
            apart: Eyes<S>,
            soft: Eyes<S>,
            smeared: Image<S>,
            eyes: Eyes<S>,
        |
            #![trigger eyes_separated(&math.to_linear, &math.from_linear, &math.project, &math.correct, *params, s, work, apart), gaussian_blurred(&math.blur, &math.kernel, &math.radii, s.colour_x, s.colour_y, brought, smeared), eyes_painted(&math.from_linear, &math.restore, *params, soft, smeared, eyes)]
            in_working_space(&math.to_linear, *params, sources.primary@, work) && in_working_space(
                &math.to_linear,
                *params,
                reference,
                brought,
            ) &&
            eyes_separated(
                &math.to_linear,
                &math.from_linear,
                &math.project,
                &math.correct,
                *params,
                s,
                work,
                apart,
            ) && call_ensures(by.fraction, (params.leak_correct_left,), s.leak_left) && call_ensures(
                by.fraction,
                (params.leak_correct_right,),
                s.leak_right,
            ) && spreads_shrink(by.spread, params.defringe_left, s.defringe_left) && spreads_shrink(
                by.spread,
                params.defringe_right,
                s.defringe_right,
            ) && spreads_percent(by.factor, by.spread, params.decimate_horiz, s.colour_x)
                && spreads_percent(by.factor, by.spread, params.decimate_vert, s.colour_y) && softens(
                &math.blur,
                &math.kernel,
                &math.radii,
                s.defringe_left,
                apart.left,
                soft.left,
            ) && softens(
                &math.blur,
                &math.kernel,
                &math.radii,
                s.defringe_right,
                apart.right,
                soft.right,
            ) && gaussian_blurred(
                &math.blur,
                &math.kernel,
                &math.radii,
                s.colour_x,
                s.colour_y,
                brought,
                smeared,
            ) && eyes_painted(&math.from_linear, &math.restore, *params, soft, smeared, eyes)
                && finished(
                &math.grade,
                *params,
                sources@.mono,
                eyes,
                (Eyes { left: pair.left@, right: pair.right@ }),
            ),
{
    lemma_constants();
    let shown = sources@;
    let out = Eyes { left: pair.left@, right: pair.right@ };
    let s = choose|s: Strengths| #[trigger]
        strengths_of(by, *params, s) && processed(math, stretch, shown, *params, s, out);
    let eyes = choose|eyes: Eyes<S>| #[trigger]
        taken(math, stretch, shown, *params, s, eyes) && finished(
            &math.grade,
            *params,
            shown.mono,
            eyes,
            out,
        );
    assert(recovered(math, *params, s, shown.primary, reference, eyes));
    let (work, brought, apart, soft, smeared) = choose|
        work: Image<S>,
        brought: Image<S>,
        apart: Eyes<S>,
        soft: Eyes<S>,
        smeared: Image<S>,
    |
        in_working_space(&math.to_linear, *params, shown.primary, work) && in_working_space(
            &math.to_linear,
            *params,
            reference,
            brought,
        ) && #[trigger] eyes_separated(
            &math.to_linear,
            &math.from_linear,
            &math.project,
            &math.correct,
            *params,
            s,
            work,
            apart,
        ) && defringed(
            &math.blur,
            &math.kernel,
            &math.radii,
            s.defringe_left,
            apart.left,
            soft.left,
        ) && defringed(
            &math.blur,
            &math.kernel,
            &math.radii,
            s.defringe_right,
            apart.right,
            soft.right,
        ) && #[trigger] gaussian_blurred(
            &math.blur,
            &math.kernel,
            &math.radii,
            s.colour_x,
            s.colour_y,
            brought,
            smeared,
        ) && #[trigger] eyes_painted(
            &math.from_linear,
            &math.restore,
            *params,
            soft,
            smeared,
            eyes,
        );
    assert(softens(
        &math.blur,
        &math.kernel,
        &math.radii,
        s.defringe_left,
        apart.left,
        soft.left,
    ));
    assert(softens(
        &math.blur,
        &math.kernel,
        &math.radii,
        s.defringe_right,
        apart.right,
        soft.right,
    ));
}

} // verus!
