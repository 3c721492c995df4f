//! The whole per-frame conversion, wired together.

use crate::blur::{
    computes_all, gaussian_blur, gaussian_blurred, law_no_sigma_no_blur, plans_all, shrink_used,
    spreads_percent, BlurMath, NO_BLUR,
};
use crate::compose::{
    above, beside, conform_to, conformed, converge, converged_left, converged_right, converged_to,
    law_a_whole_crop_is_the_picture, resizable, stack_horizontal, stack_vertical, stretches, EyeOrder,
    OutputLayout,
};
use crate::extract::{
    encode_anaglyph, extract_by, filters, law_muxing_feeds_each_filter_its_own_eye,
    lemma_pixel_planes, minds_only_its_channels, muxed, projected, projections, projects_all,
    EyeProjection,
};
use crate::frame::{FrameF32, Image};
use crate::grade::{grade_by, graded, grades_all, Grade};
use crate::leak::{correct_by, corrected, corrects_all};
use crate::packed::{
    law_splitting_undoes_stacking, split_packed, splits, stretchable, StereoPacking,
};
use crate::params::{
    law_zero_convergence_changes_no_geometry, ConvertParams, InputMode, MonoEye,
};
use crate::restore::{
    law_a_perfect_reference_is_reproduced, paints_all, restore_by, restored, ColourRestore,
};
use crate::scalar::{float, F32, ZERO};
use crate::transfer::{
    convert_by, converted, curves_all, law_conversion_round_trips,
    TransferFunction,
};
use vstd::prelude::*;

verus! {

/// The two recovered views, gamma-encoded and ready for output.
pub struct StereoPair<S> {
    pub left: FrameF32<S>,
    pub right: FrameF32<S>,
}

impl<S> StereoPair<S> {
    /// Two well-formed views of one size and kind.
    pub open spec fn wf(self) -> bool {
        &&& self.left@.wf()
        &&& self.right@.wf()
        &&& self.left@.same_size(self.right@)
        &&& self.left@.channels == self.right@.channels
    }
}

/// The decoded frames feeding one conversion step.
#[derive(Clone, Copy)]
pub struct Sources<'a, S> {
    /// The frame of the film itself. Always required.
    pub primary: &'a FrameF32<S>,
    /// The right eye, where a second file supplies it.
    pub right_eye: Option<&'a FrameF32<S>>,
    /// Where colour is sampled from. Falls back to the anaglyph itself, which
    /// works but leaves the anaglyph's own colour cast in the result.
    pub colour: Option<&'a FrameF32<S>>,
    /// A 2D release frame standing in for one eye, already in sync.
    pub mono: Option<&'a FrameF32<S>>,
}

impl<'a, S> Sources<'a, S> {
    /// The common case: recover everything from the anaglyph alone.
    pub fn from_anaglyph(anaglyph: &'a FrameF32<S>) -> (r: Self)
        ensures
            r.primary@ == anaglyph@,
            r.right_eye is None,
            r.colour is None,
            r.mono is None,
    {
        Sources { primary: anaglyph, right_eye: None, colour: None, mono: None }
    }

}

/// What an optional source shows.
pub open spec fn shows<S>(source: Option<&FrameF32<S>>) -> Option<Image<S>> {
    match source {
        Some(f) => Some(f@),
        None => None,
    }
}

/// What the sources of one step show.
pub struct Shown<S> {
    pub primary: Image<S>,
    pub right_eye: Option<Image<S>>,
    pub colour: Option<Image<S>>,
    pub mono: Option<Image<S>>,
}

impl<'a, S> View for Sources<'a, S> {
    type V = Shown<S>;

    open spec fn view(&self) -> Shown<S> {
        Shown {
            primary: self.primary@,
            right_eye: shows(self.right_eye),
            colour: shows(self.colour),
            mono: shows(self.mono),
        }
    }
}

/// The strengths of the corrections, as the sample arithmetic wants them.
#[derive(Debug, Clone, Copy)]
pub struct Strengths {
    /// The fraction of the right eye bleeding into the left.
    pub leak_left: F32,
    /// The fraction of the left eye bleeding into the right.
    pub leak_right: F32,
    /// Horizontal sigma of the left eye's de-fringe.
    pub defringe_left: F32,
    /// Horizontal sigma of the right eye's de-fringe.
    pub defringe_right: F32,
    /// Horizontal sigma of the colour reference.
    pub colour_x: F32,
    /// Vertical sigma of the colour reference.
    pub colour_y: F32,
}

/// The arithmetic that turns settings into strengths.
pub struct StrengthMath<I, D, O> {
    /// The fraction that a percentage is.
    pub fraction: I,
    /// How far a percentage shrinks: 100 over it.
    pub factor: D,
    /// The sigma of a shrink factor.
    pub spread: O,
}

/// The arithmetic takes every setting.
pub open spec fn measures_all<I: Fn(F32) -> F32, D: Fn(F32) -> F32, O: Fn(F32) -> F32>(
    by: &StrengthMath<I, D, O>,
) -> bool {
    &&& forall|p: F32| #[trigger] call_requires(by.fraction, (p,))
    &&& forall|p: F32| #[trigger] call_requires(by.factor, (p,))
    &&& forall|f: F32| #[trigger] call_requires(by.spread, (f,))
}

/// `s` are the strengths that settings ask for: each leak as a fraction, each blur as
/// the sigma of a Gaussian.
pub open spec fn strengths_of<I: Fn(F32) -> F32, D: Fn(F32) -> F32, O: Fn(F32) -> F32>(
    by: &StrengthMath<I, D, O>,
    params: ConvertParams,
    s: Strengths,
) -> bool {
    &&& call_ensures(by.fraction, (params.leak_correct_left,), s.leak_left)
    &&& call_ensures(by.fraction, (params.leak_correct_right,), s.leak_right)
    &&& call_ensures(by.spread, (shrink_used(params.defringe_left),), s.defringe_left)
    &&& call_ensures(by.spread, (shrink_used(params.defringe_right),), s.defringe_right)
    &&& spreads_percent(by.factor, by.spread, params.decimate_horiz, s.colour_x)
    &&& spreads_percent(by.factor, by.spread, params.decimate_vert, s.colour_y)
}

impl Strengths {
    /// The strengths that settings ask for.
    pub fn of<I: Fn(F32) -> F32, D: Fn(F32) -> F32, O: Fn(F32) -> F32>(
        params: &ConvertParams,
        by: &StrengthMath<I, D, O>,
    ) -> (s: Self)
        requires
            measures_all(by),
        ensures
            strengths_of(by, *params, s),
    {
        Strengths {
            leak_left: params.leak_left_fraction(&by.fraction),
            leak_right: params.leak_right_fraction(&by.fraction),
            defringe_left: params.defringe_sigma_left(&by.spread),
            defringe_right: params.defringe_sigma_right(&by.spread),
            colour_x: params.colour_sigma_x(&by.factor, &by.spread),
            colour_y: params.colour_sigma_y(&by.factor, &by.spread),
        }
    }
}

/// The sample arithmetic that recovery is made of.
pub struct RecoveryMath<S, T, U, P, C, R, G, A, Q, L, M, K, B> {
    /// One gamma-encoded sample to linear light.
    pub to_linear: T,
    /// One linear-light sample to gamma-encoded.
    pub from_linear: U,
    /// What an eye's filter passes of one pixel.
    pub project: P,
    /// One sample freed of the other eye's leak.
    pub correct: C,
    /// One signal painted with a reference colour.
    pub restore: R,
    /// One pixel graded.
    pub grade: G,
    /// The sums and means of a blur.
    pub blur: BlurMath<S, A, Q, L, M>,
    /// The kernel of a narrow blur.
    pub kernel: K,
    /// The boxes of a wide blur.
    pub radii: B,
}

/// `out` is `image` in the space that the work is done in.
pub open spec fn in_working_space<S, T: Fn(TransferFunction, S) -> S>(
    to_linear: &T,
    params: ConvertParams,
    image: Image<S>,
    out: Image<S>,
) -> bool {
    if params.work_in_linear_light {
        converted(*to_linear, params.transfer, image, out)
    } else {
        out == image
    }
}

/// `out` is `image` brought from the working space back to gamma-encoded.
pub open spec fn in_display_space<S, U: Fn(TransferFunction, S) -> S>(
    from_linear: &U,
    params: ConvertParams,
    image: Image<S>,
    out: Image<S>,
) -> bool {
    if params.work_in_linear_light {
        converted(*from_linear, params.transfer, image, out)
    } else {
        out == image
    }
}

/// The two eyes of a step, left then right.
pub struct Eyes<S> {
    pub left: Image<S>,
    pub right: Image<S>,
}

/// `out` is both eyes brought back to gamma-encoded.
pub open spec fn eyes_in_display_space<S, U: Fn(TransferFunction, S) -> S>(
    from_linear: &U,
    params: ConvertParams,
    eyes: Eyes<S>,
    out: Eyes<S>,
) -> bool {
    &&& in_display_space(from_linear, params, eyes.left, out.left)
    &&& in_display_space(from_linear, params, eyes.right, out.right)
}

/// `out` is both eyes freed of each other's leak, left first and the right
/// against the corrected left.
pub open spec fn eyes_corrected<S, C: Fn(F32, S, S) -> S>(
    correct: &C,
    strengths: Strengths,
    eyes: Eyes<S>,
    out: Eyes<S>,
) -> bool {
    &&& corrected(*correct, strengths.leak_left, eyes.left, eyes.right, out.left)
    &&& corrected(*correct, strengths.leak_right, eyes.right, out.left, out.right)
}

/// `eyes` are the signals read out of an anaglyph in the working space: what each
/// filter passes, freed of cross-talk in gamma space even when the rest of the
/// pipeline is linear.
///
/// Ghosting in a release is almost always baked in during mastering, as
/// arithmetic on gamma-encoded channels. A gamma-domain mix is not linear, so
/// subtracting it in linear light cannot invert it.
pub open spec fn eyes_separated<
    S,
    T: Fn(TransferFunction, S) -> S,
    U: Fn(TransferFunction, S) -> S,
    P: Fn(EyeProjection, S, S, S) -> S,
    C: Fn(F32, S, S) -> S,
>(
    to_linear: &T,
    from_linear: &U,
    project: &P,
    correct: &C,
    params: ConvertParams,
    strengths: Strengths,
    anaglyph: Image<S>,
    eyes: Eyes<S>,
) -> bool {
    exists|passed: Eyes<S>, shown: Eyes<S>, clean: Eyes<S>|
        projected(*project, filters(params.input_format).0, anaglyph, passed.left) && projected(
            *project,
            filters(params.input_format).1,
            anaglyph,
            passed.right,
        ) && #[trigger] eyes_in_display_space(from_linear, params, passed, shown)
            && #[trigger] eyes_corrected(correct, strengths, shown, clean) && in_working_space(
            to_linear,
            params,
            clean.left,
            eyes.left,
        ) && in_working_space(to_linear, params, clean.right, eyes.right)
}

/// Above zero.
pub open spec fn above_zero(x: F32) -> bool {
    !x.at_most(float(ZERO)) && !x.nan()
}

/// `out` is `eye` with its peaking fringes softened, where there is anything to
/// soften them by.
pub open spec fn defringed<
    S,
    A: Fn(S, S, S) -> S,
    Q: Fn(S, S) -> S,
    L: Fn(S, S, S) -> S,
    M: Fn(S, usize) -> S,
    K: Fn(F32) -> Vec<S>,
    B: Fn(F32) -> [usize; 3],
>(
    blur: &BlurMath<S, A, Q, L, M>,
    kernel: &K,
    radii: &B,
    sigma: F32,
    eye: Image<S>,
    out: Image<S>,
) -> bool {
    if above_zero(sigma) {
        gaussian_blurred(blur, kernel, radii, sigma, float(ZERO), eye, out)
    } else {
        out == eye
    }
}

/// `out` is both eyes painted with `colour` and brought back to gamma-encoded.
pub open spec fn eyes_painted<
    S,
    U: Fn(TransferFunction, S) -> S,
    R: Fn(ColourRestore, EyeProjection, S, (S, S, S)) -> (S, S, S),
>(
    from_linear: &U,
    restore: &R,
    params: ConvertParams,
    eyes: Eyes<S>,
    colour: Image<S>,
    out: Eyes<S>,
) -> bool {
    let (left, right) = filters(params.input_format);
    exists|painted: Eyes<S>|
        restored(*restore, params.restore, left, eyes.left, colour, painted.left) && restored(
            *restore,
            params.restore,
            right,
            eyes.right,
            colour,
            painted.right,
        ) && #[trigger] eyes_in_display_space(from_linear, params, painted, out)
}

/// The recovery arithmetic takes every sample.
pub open spec fn recovers_all<
    S,
    T: Fn(TransferFunction, S) -> S,
    U: Fn(TransferFunction, S) -> S,
    P: Fn(EyeProjection, S, S, S) -> S,
    C: Fn(F32, S, S) -> S,
    R: Fn(ColourRestore, EyeProjection, S, (S, S, S)) -> (S, S, S),
    G: Fn(Grade, (S, S, S)) -> (S, S, S),
    A: Fn(S, S, S) -> S,
    Q: Fn(S, S) -> S,
    L: Fn(S, S, S) -> S,
    M: Fn(S, usize) -> S,
    K: Fn(F32) -> Vec<S>,
    B: Fn(F32) -> [usize; 3],
>(math: &RecoveryMath<S, T, U, P, C, R, G, A, Q, L, M, K, B>) -> bool {
    &&& curves_all(&math.to_linear)
    &&& curves_all(&math.from_linear)
    &&& projects_all(&math.project)
    &&& corrects_all(&math.correct)
    &&& paints_all(&math.restore)
    &&& grades_all(&math.grade)
    &&& computes_all(&math.blur)
    &&& plans_all(&math.kernel, &math.radii)
}

/// `out` is the pair recovered from an anaglyph and its colour reference, before
/// anything is done to either eye for its own sake.
pub open spec fn recovered<
    S,
    T: Fn(TransferFunction, S) -> S,
    U: Fn(TransferFunction, S) -> S,
    P: Fn(EyeProjection, S, S, S) -> S,
    C: Fn(F32, S, S) -> S,
    R: Fn(ColourRestore, EyeProjection, S, (S, S, S)) -> (S, S, S),
    G: Fn(Grade, (S, S, S)) -> (S, S, S),
    A: Fn(S, S, S) -> S,
    Q: Fn(S, S) -> S,
    L: Fn(S, S, S) -> S,
    M: Fn(S, usize) -> S,
    K: Fn(F32) -> Vec<S>,
    B: Fn(F32) -> [usize; 3],
>(
    math: &RecoveryMath<S, T, U, P, C, R, G, A, Q, L, M, K, B>,
    params: ConvertParams,
    strengths: Strengths,
    anaglyph: Image<S>,
    colour: Image<S>,
    out: Eyes<S>,
) -> bool {
    exists|work: Image<S>, reference: Image<S>, apart: Eyes<S>, soft: Eyes<S>, smeared: Image<S>|
        in_working_space(&math.to_linear, params, anaglyph, work) && in_working_space(
            &math.to_linear,
            params,
            colour,
            reference,
        ) && #[trigger] eyes_separated(
            &math.to_linear,
            &math.from_linear,
            &math.project,
            &math.correct,
            params,
            strengths,
            work,
            apart,
        ) && defringed(
            &math.blur,
            &math.kernel,
            &math.radii,
            strengths.defringe_left,
            apart.left,
            soft.left,
        ) && defringed(
            &math.blur,
            &math.kernel,
            &math.radii,
            strengths.defringe_right,
            apart.right,
            soft.right,
        ) && #[trigger] gaussian_blurred(
            &math.blur,
            &math.kernel,
            &math.radii,
            strengths.colour_x,
            strengths.colour_y,
            reference,
            smeared,
        ) && #[trigger] eyes_painted(
            &math.from_linear,
            &math.restore,
            params,
            soft,
            smeared,
            out,
        )
}

/// Recovers both eyes from one anaglyph frame and its colour reference.
fn recover_anaglyph<
    S: Copy + Send + Sync,
    T: Fn(TransferFunction, S) -> S + Sync + Send,
    U: Fn(TransferFunction, S) -> S + Sync + Send,
    P: Fn(EyeProjection, S, S, S) -> S + Sync + Send,
    C: Fn(F32, S, S) -> S,
    R: Fn(ColourRestore, EyeProjection, S, (S, S, S)) -> (S, S, S),
    G: Fn(Grade, (S, S, S)) -> (S, S, S),
    A: Fn(S, S, S) -> S + Sync + Send,
    Q: Fn(S, S) -> S + Sync + Send,
    L: Fn(S, S, S) -> S + Sync + Send,
    M: Fn(S, usize) -> S + Sync + Send,
    K: Fn(F32) -> Vec<S>,
    B: Fn(F32) -> [usize; 3],
>(
    anaglyph: &FrameF32<S>,
    colour: &FrameF32<S>,
    params: &ConvertParams,
    strengths: &Strengths,
    math: &RecoveryMath<S, T, U, P, C, R, G, A, Q, L, M, K, B>,
) -> (pair: StereoPair<S>)
    requires
        anaglyph@.wf(),
        anaglyph@.channels == 3,
        colour@.wf(),
        colour@.channels == 3,
        colour@.same_size(anaglyph@),
        recovers_all(math),
    ensures
        recovered(
            math,
            *params,
            *strengths,
            anaglyph@,
            colour@,
            (Eyes { left: pair.left@, right: pair.right@ }),
        ),
        pair.wf(),
        pair.left@.channels == 3,
        pair.left@.same_size(anaglyph@),
{
    let linear: bool = params.work_in_linear_light;
    let tf = params.transfer;

    // Bring the anaglyph and the colour reference into the working space.
    let mut work = anaglyph.clone();
    let mut reference = colour.clone();
    if linear {
        convert_by(&mut work, tf, &math.to_linear);
        convert_by(&mut reference, tf, &math.to_linear);
    }

    // Pull each eye's surviving signal out of the colour channels. The same
    // projections drive restoration below; they must not diverge.
    let (left_projection, right_projection) = projections(params.input_format);
    let (mut left, mut right) = extract_by(&work, params.input_format, &math.project);
    let ghost passed = Eyes { left: left@, right: right@ };

    // Remove each eye's ghost from the other, in gamma space.
    if linear {
        convert_by(&mut left, tf, &math.from_linear);
        convert_by(&mut right, tf, &math.from_linear);
    }
    let ghost shown = Eyes { left: left@, right: right@ };
    assert(eyes_in_display_space(&math.from_linear, *params, passed, shown));
    correct_by(
        &mut left,
        &mut right,
        strengths.leak_left,
        strengths.leak_right,
        &math.correct,
    );
    let ghost clean = Eyes { left: left@, right: right@ };
    assert(eyes_corrected(&math.correct, *strengths, shown, clean));
    if linear {
        convert_by(&mut left, tf, &math.to_linear);
        convert_by(&mut right, tf, &math.to_linear);
    }
    let ghost apart = Eyes { left: left@, right: right@ };
    assert(eyes_separated(
        &math.to_linear,
        &math.from_linear,
        &math.project,
        &math.correct,
        *params,
        *strengths,
        work@,
        apart,
    ));

    // Soften the peaking fringes that separation exposes.
    let left = soften(left, strengths.defringe_left, math);
    let right = soften(right, strengths.defringe_right, math);
    let ghost soft = Eyes { left: left@, right: right@ };

    // Smear the reference colour over the disparity it has to cover.
    let smeared = gaussian_blur(
        &reference,
        strengths.colour_x,
        strengths.colour_y,
        &math.kernel,
        &math.radii,
        &math.blur,
    );

    // Recombine brightness with colour.
    let mut left = restore_by(&left, &smeared, left_projection, params.restore, &math.restore);
    let mut right = restore_by(
        &right,
        &smeared,
        right_projection,
        params.restore,
        &math.restore,
    );
    let ghost painted = Eyes { left: left@, right: right@ };

    // Back to gamma-encoded, where grading is defined.
    if linear {
        convert_by(&mut left, tf, &math.from_linear);
        convert_by(&mut right, tf, &math.from_linear);
    }
    let ghost out = Eyes { left: left@, right: right@ };
    assert(eyes_in_display_space(&math.from_linear, *params, painted, out));
    assert(eyes_painted(&math.from_linear, &math.restore, *params, soft, smeared@, out));
    StereoPair { left, right }
}

/// Softens one eye by a horizontal sigma, where it is above zero.
fn soften<
    S: Copy + Send + Sync,
    T: Fn(TransferFunction, S) -> S + Sync + Send,
    U: Fn(TransferFunction, S) -> S + Sync + Send,
    P: Fn(EyeProjection, S, S, S) -> S + Sync + Send,
    C: Fn(F32, S, S) -> S,
    R: Fn(ColourRestore, EyeProjection, S, (S, S, S)) -> (S, S, S),
    G: Fn(Grade, (S, S, S)) -> (S, S, S),
    A: Fn(S, S, S) -> S + Sync + Send,
    Q: Fn(S, S) -> S + Sync + Send,
    L: Fn(S, S, S) -> S + Sync + Send,
    M: Fn(S, usize) -> S + Sync + Send,
    K: Fn(F32) -> Vec<S>,
    B: Fn(F32) -> [usize; 3],
>(
    eye: FrameF32<S>,
    sigma: F32,
    math: &RecoveryMath<S, T, U, P, C, R, G, A, Q, L, M, K, B>,
) -> (out: FrameF32<S>)
    requires
        eye@.wf(),
        recovers_all(math),
    ensures
        defringed(&math.blur, &math.kernel, &math.radii, sigma, eye@, out@),
        out@.wf(),
        out@.same_size(eye@),
        out@.channels == eye@.channels,
{
    if !sigma.is_nan() && !sigma.le(F32 { bits: ZERO }) {
        gaussian_blur(&eye, sigma, F32 { bits: ZERO }, &math.kernel, &math.radii, &math.blur)
    } else {
        eye
    }
}

/// The pair with a 2D release standing in for the eye it replaces, if any.
pub open spec fn substituted<S>(mono_eye: MonoEye, mono: Option<Image<S>>, eyes: Eyes<S>) -> Eyes<S> {
    match (mono, mono_eye) {
        (Some(flat), MonoEye::Left) => Eyes { left: flat, ..eyes },
        (Some(flat), MonoEye::Right) => Eyes { right: flat, ..eyes },
        _ => eyes,
    }
}

/// The pair with its eyes exchanged, if they are to be.
pub open spec fn swapped<S>(swap: bool, eyes: Eyes<S>) -> Eyes<S> {
    if swap {
        Eyes { left: eyes.right, right: eyes.left }
    } else {
        eyes
    }
}

/// The pair as it will be looked at: a 2D eye put in, the eyes swapped and
/// converged. A 2D eye is put in after grading, since the grade exists to bring
/// the *recovered* eye into line with it; the eyes are swapped before they are
/// converged, so "right eye" means the one the viewer's right eye sees.
pub open spec fn arranged<S>(params: ConvertParams, mono: Option<Image<S>>, eyes: Eyes<S>) -> Eyes<S> {
    let seen = swapped(params.swap_eyes, substituted(params.mono_eye, mono, eyes));
    Eyes {
        left: converged_left(seen.left, params.convergence),
        right: converged_right(seen.right, params.convergence),
    }
}

/// `out` is both eyes graded, each by its own grade.
pub open spec fn eyes_graded<S, G: Fn(Grade, (S, S, S)) -> (S, S, S)>(
    grade: &G,
    params: ConvertParams,
    eyes: Eyes<S>,
    out: Eyes<S>,
) -> bool {
    &&& graded(*grade, params.grade_left, eyes.left, out.left)
    &&& graded(*grade, params.grade_right, eyes.right, out.right)
}

/// `out` is the finished pair: graded, then arranged.
pub open spec fn finished<S, G: Fn(Grade, (S, S, S)) -> (S, S, S)>(
    grade: &G,
    params: ConvertParams,
    mono: Option<Image<S>>,
    eyes: Eyes<S>,
    out: Eyes<S>,
) -> bool {
    exists|even: Eyes<S>| #[trigger]
        eyes_graded(grade, params, eyes, even) && out == arranged(params, mono, even)
}

/// Everything that is done to a pair whichever way it was come by: grading, a 2D
/// eye, the swap and the convergence.
pub fn finish_pair<S: Copy, G: Fn(Grade, (S, S, S)) -> (S, S, S)>(
    pair: StereoPair<S>,
    mono: Option<&FrameF32<S>>,
    params: &ConvertParams,
    grade: &G,
) -> (out: StereoPair<S>)
    requires
        pair.wf(),
        pair.left@.channels == 3,
        mono matches Some(m) ==> m@.wf() && m@.channels == 3 && m@.same_size(pair.left@),
        grades_all(grade),
    ensures
        finished(
            grade,
            *params,
            shows(mono),
            (Eyes { left: pair.left@, right: pair.right@ }),
            (Eyes { left: out.left@, right: out.right@ }),
        ),
        out.wf(),
        out.left@.channels == 3,
        out.left@.width == converged_to(pair.left@.width, params.convergence),
        out.left@.height == pair.left@.height,
{
    let ghost raw = Eyes { left: pair.left@, right: pair.right@ };
    let StereoPair { mut left, mut right } = pair;
    grade_by(&mut left, &params.grade_left, grade);
    grade_by(&mut right, &params.grade_right, grade);
    let ghost even = Eyes { left: left@, right: right@ };
    assert(eyes_graded(grade, *params, raw, even));

    if let Some(m) = mono {
        match params.mono_eye {
            MonoEye::Left => left = m.clone(),
            MonoEye::Right => right = m.clone(),
            MonoEye::Neither => {},
        }
    }
    assert((Eyes { left: left@, right: right@ }) == substituted(
        params.mono_eye,
        shows(mono),
        even,
    ));
    let (left, right) = if params.swap_eyes {
        (right, left)
    } else {
        (left, right)
    };
    let (left, right) = converge(&left, &right, params.convergence);
    assert((Eyes { left: left@, right: right@ }) == arranged(*params, shows(mono), even));
    StereoPair { left, right }
}

/// What the sources must be for a kind of input: a right eye where a second file
/// is to supply it, and every other source of the film's own geometry.
pub open spec fn sources_fit<S>(sources: Shown<S>, params: ConvertParams) -> bool {
    let image = sources.primary;
    let (eye_w, eye_h) = params.input.eye_dims(image.width, image.height);
    &&& image.wf() && image.channels == 3
    &&& params.input is TwoFiles ==> sources.right_eye is Some
    &&& sources.right_eye matches Some(f) ==> f.wf() && f.channels == 3 && f.same_size(image)
    &&& sources.colour matches Some(f) ==> f.wf() && f.channels == 3 && f.same_size(image)
    &&& sources.mono matches Some(f) ==> f.wf() && f.channels == 3 && f.width == eye_w && f.height
        == eye_h
    &&& params.input matches InputMode::Packed { packing, anamorphic, .. } ==> anamorphic
        ==> stretchable(image, packing)
}

/// `out` is the pair that the sources hold, before it is finished: recovered from
/// an anaglyph, taken apart where it is packed, or simply the two files.
pub open spec fn taken<
    S,
    T: Fn(TransferFunction, S) -> S,
    U: Fn(TransferFunction, S) -> S,
    P: Fn(EyeProjection, S, S, S) -> S,
    C: Fn(F32, S, S) -> S,
    R: Fn(ColourRestore, EyeProjection, S, (S, S, S)) -> (S, S, S),
    G: Fn(Grade, (S, S, S)) -> (S, S, S),
    A: Fn(S, S, S) -> S,
    Q: Fn(S, S) -> S,
    L: Fn(S, S, S) -> S,
    M: Fn(S, usize) -> S,
    K: Fn(F32) -> Vec<S>,
    B: Fn(F32) -> [usize; 3],
    V: Fn(&FrameF32<S>, usize, usize) -> FrameF32<S>,
>(
    math: &RecoveryMath<S, T, U, P, C, R, G, A, Q, L, M, K, B>,
    stretch: &V,
    sources: Shown<S>,
    params: ConvertParams,
    strengths: Strengths,
    out: Eyes<S>,
) -> bool {
    match params.input {
        InputMode::Anaglyph => recovered(
            math,
            params,
            strengths,
            sources.primary,
            match sources.colour {
                Some(f) => f,
                None => sources.primary,
            },
            out,
        ),
        InputMode::Packed { packing, order, anamorphic } => splits(
            *stretch,
            sources.primary,
            packing,
            order,
            anamorphic,
            out.left,
            out.right,
        ),
        InputMode::TwoFiles => out.left == sources.primary && Some(out.right) == sources.right_eye,
    }
}

/// `out` is what one step of the conversion makes of its sources.
pub open spec fn processed<
    S,
    T: Fn(TransferFunction, S) -> S,
    U: Fn(TransferFunction, S) -> S,
    P: Fn(EyeProjection, S, S, S) -> S,
    C: Fn(F32, S, S) -> S,
    R: Fn(ColourRestore, EyeProjection, S, (S, S, S)) -> (S, S, S),
    G: Fn(Grade, (S, S, S)) -> (S, S, S),
    A: Fn(S, S, S) -> S,
    Q: Fn(S, S) -> S,
    L: Fn(S, S, S) -> S,
    M: Fn(S, usize) -> S,
    K: Fn(F32) -> Vec<S>,
    B: Fn(F32) -> [usize; 3],
    V: Fn(&FrameF32<S>, usize, usize) -> FrameF32<S>,
>(
    math: &RecoveryMath<S, T, U, P, C, R, G, A, Q, L, M, K, B>,
    stretch: &V,
    sources: Shown<S>,
    params: ConvertParams,
    strengths: Strengths,
    out: Eyes<S>,
) -> bool {
    exists|eyes: Eyes<S>| #[trigger]
        taken(math, stretch, sources, params, strengths, eyes) && finished(
            &math.grade,
            params,
            sources.mono,
            eyes,
            out,
        )
}

/// Turns one step's sources into the two views, at given strengths.
fn process_at<
    S: Copy + Send + Sync,
    T: Fn(TransferFunction, S) -> S + Sync + Send,
    U: Fn(TransferFunction, S) -> S + Sync + Send,
    P: Fn(EyeProjection, S, S, S) -> S + Sync + Send,
    C: Fn(F32, S, S) -> S,
    R: Fn(ColourRestore, EyeProjection, S, (S, S, S)) -> (S, S, S),
    G: Fn(Grade, (S, S, S)) -> (S, S, S),
    A: Fn(S, S, S) -> S + Sync + Send,
    Q: Fn(S, S) -> S + Sync + Send,
    L: Fn(S, S, S) -> S + Sync + Send,
    M: Fn(S, usize) -> S + Sync + Send,
    K: Fn(F32) -> Vec<S>,
    B: Fn(F32) -> [usize; 3],
    V: Fn(&FrameF32<S>, usize, usize) -> FrameF32<S>,
>(
    sources: Sources<'_, S>,
    params: &ConvertParams,
    strengths: &Strengths,
    math: &RecoveryMath<S, T, U, P, C, R, G, A, Q, L, M, K, B>,
    stretch: &V,
) -> (pair: StereoPair<S>)
    requires
        sources_fit(sources@, *params),
        recovers_all(math),
        stretches(stretch),
    ensures
        processed(
            math,
            stretch,
            sources@,
            *params,
            *strengths,
            (Eyes { left: pair.left@, right: pair.right@ }),
        ),
        pair.wf(),
        pair.left@.channels == 3,
        ({
            let (eye_w, eye_h) = params.input.eye_dims(
                sources.primary@.width,
                sources.primary@.height,
            );
            pair.left@.width == converged_to(eye_w, params.convergence) && pair.left@.height == eye_h
        }),
{
    let pair = match params.input {
        InputMode::Anaglyph => {
            let colour = match sources.colour {
                Some(f) => f,
                None => sources.primary,
            };
            recover_anaglyph(sources.primary, colour, params, strengths, math)
        },
        InputMode::Packed { packing, order, anamorphic } => split_packed(
            sources.primary,
            packing,
            order,
            anamorphic,
            stretch,
        ),
        InputMode::TwoFiles => {
            let right = match sources.right_eye {
                Some(f) => f,
                None => sources.primary,
            };
            StereoPair { left: sources.primary.clone(), right: right.clone() }
        },
    };
    let ghost eyes = Eyes { left: pair.left@, right: pair.right@ };
    assert(taken(math, stretch, sources@, *params, *strengths, eyes));
    finish_pair(pair, sources.mono, params, &math.grade)
}

/// `out` is what settings make of sources, at the strengths that they ask for.
pub open spec fn frame_processed<
    S,
    T: Fn(TransferFunction, S) -> S,
    U: Fn(TransferFunction, S) -> S,
    P: Fn(EyeProjection, S, S, S) -> S,
    C: Fn(F32, S, S) -> S,
    R: Fn(ColourRestore, EyeProjection, S, (S, S, S)) -> (S, S, S),
    G: Fn(Grade, (S, S, S)) -> (S, S, S),
    A: Fn(S, S, S) -> S,
    Q: Fn(S, S) -> S,
    L: Fn(S, S, S) -> S,
    M: Fn(S, usize) -> S,
    K: Fn(F32) -> Vec<S>,
    B: Fn(F32) -> [usize; 3],
    V: Fn(&FrameF32<S>, usize, usize) -> FrameF32<S>,
    I: Fn(F32) -> F32,
    D: Fn(F32) -> F32,
    O: Fn(F32) -> F32,
>(
    by: &StrengthMath<I, D, O>,
    math: &RecoveryMath<S, T, U, P, C, R, G, A, Q, L, M, K, B>,
    stretch: &V,
    sources: Shown<S>,
    params: ConvertParams,
    out: Eyes<S>,
) -> bool {
    exists|strengths: Strengths| #[trigger]
        strengths_of(by, params, strengths) && processed(
            math,
            stretch,
            sources,
            params,
            strengths,
            out,
        )
}

/// Turns one step's sources into the two views.
pub fn process_frame<
    S: Copy + Send + Sync,
    T: Fn(TransferFunction, S) -> S + Sync + Send,
    U: Fn(TransferFunction, S) -> S + Sync + Send,
    P: Fn(EyeProjection, S, S, S) -> S + Sync + Send,
    C: Fn(F32, S, S) -> S,
    R: Fn(ColourRestore, EyeProjection, S, (S, S, S)) -> (S, S, S),
    G: Fn(Grade, (S, S, S)) -> (S, S, S),
    A: Fn(S, S, S) -> S + Sync + Send,
    Q: Fn(S, S) -> S + Sync + Send,
    L: Fn(S, S, S) -> S + Sync + Send,
    M: Fn(S, usize) -> S + Sync + Send,
    K: Fn(F32) -> Vec<S>,
    B: Fn(F32) -> [usize; 3],
    V: Fn(&FrameF32<S>, usize, usize) -> FrameF32<S>,
    I: Fn(F32) -> F32,
    D: Fn(F32) -> F32,
    O: Fn(F32) -> F32,
>(
    sources: Sources<'_, S>,
    params: &ConvertParams,
    by: &StrengthMath<I, D, O>,
    math: &RecoveryMath<S, T, U, P, C, R, G, A, Q, L, M, K, B>,
    stretch: &V,
) -> (pair: StereoPair<S>)
    requires
        sources_fit(sources@, *params),
        measures_all(by),
        recovers_all(math),
        stretches(stretch),
    ensures
        frame_processed(
            by,
            math,
            stretch,
            sources@,
            *params,
            (Eyes { left: pair.left@, right: pair.right@ }),
        ),
        pair.wf(),
        pair.left@.channels == 3,
        ({
            let (eye_w, eye_h) = params.input.eye_dims(
                sources.primary@.width,
                sources.primary@.height,
            );
            pair.left@.width == converged_to(eye_w, params.convergence) && pair.left@.height == eye_h
        }),
{
    let strengths = Strengths::of(params, by);
    process_at(sources, params, &strengths, math, stretch)
}

/// The frames a layout makes of a pair, before any resize.
///
/// One frame for a stacked layout, an anaglyph or a single eye; two, always left
/// then right, for separate streams, where the file names carry the ordering
/// instead.
pub open spec fn laid_out<S>(eyes: Eyes<S>, params: ConvertParams) -> Seq<Image<S>> {
    let (first, second) = match params.eye_order {
        EyeOrder::LeftFirst => (eyes.left, eyes.right),
        EyeOrder::RightFirst => (eyes.right, eyes.left),
    };
    match params.layout {
        OutputLayout::SideBySide => seq![beside(first, second)],
        OutputLayout::TopBottom => seq![above(first, second)],
        OutputLayout::Separate => seq![eyes.left, eyes.right],
        OutputLayout::Anaglyph => seq![muxed(eyes.left, eyes.right, params.output_format)],
        OutputLayout::LeftOnly => seq![eyes.left],
        OutputLayout::RightOnly => seq![eyes.right],
    }
}

/// `out` is one laid-out frame at the output size, where one is asked for.
pub open spec fn sized<S, V: Fn(&FrameF32<S>, usize, usize) -> FrameF32<S>>(
    stretch: V,
    params: ConvertParams,
    image: Image<S>,
    out: Image<S>,
) -> bool {
    match params.output_size {
        Some((w, h)) => conformed(stretch, image, w, h, out),
        None => out == image,
    }
}

/// A pair whose layout, and whose resize where one is asked for, a machine can
/// hold.
pub open spec fn fits_layout<S>(eyes: Eyes<S>, params: ConvertParams) -> bool {
    let (w, h, c) = (eyes.left.width, eyes.left.height, eyes.left.channels);
    &&& (2 * w) * h * c <= usize::MAX
    &&& w * (2 * h) * c <= usize::MAX
    &&& 2 * w <= usize::MAX && 2 * h <= usize::MAX
    &&& params.output_size matches Some((out_w, out_h)) ==> w > 0 && h > 0 && out_w > 0 && out_h > 0
        && out_w * (2 * h) * c <= usize::MAX && out_w * out_h * c <= usize::MAX
}

/// `frames` are the deliverable frames of a pair: what its layout makes of it, each at
/// the output size.
pub open spec fn delivered<S, V: Fn(&FrameF32<S>, usize, usize) -> FrameF32<S>>(
    stretch: &V,
    params: ConvertParams,
    eyes: Eyes<S>,
    frames: Seq<FrameF32<S>>,
) -> bool {
    let laid = laid_out(eyes, params);
    &&& frames.len() == laid.len()
    &&& forall|i: int|
        0 <= i < laid.len() ==> sized(*stretch, params, laid[i], (#[trigger] frames[i])@)
            && frames[i]@.wf()
}

/// Packs a recovered pair into the deliverable frames.
pub fn compose_output<S: Copy, V: Fn(&FrameF32<S>, usize, usize) -> FrameF32<S>>(
    pair: &StereoPair<S>,
    params: &ConvertParams,
    stretch: &V,
) -> (frames: Vec<FrameF32<S>>)
    requires
        pair.wf(),
        pair.left@.channels == 3,
        fits_layout((Eyes { left: pair.left@, right: pair.right@ }), *params),
        stretches(stretch),
    ensures
        delivered(stretch, *params, (Eyes { left: pair.left@, right: pair.right@ }), frames@),
{
    let ghost eyes = Eyes { left: pair.left@, right: pair.right@ };
    let (first, second) = match params.eye_order {
        EyeOrder::LeftFirst => (&pair.left, &pair.right),
        EyeOrder::RightFirst => (&pair.right, &pair.left),
    };
    proof {
        let (w, h) = (pair.left@.width, pair.left@.height);
        assert(w + w == 2 * w && h + h == 2 * h);
    }
    let mut frames: Vec<FrameF32<S>> = Vec::new();
    match params.layout {
        OutputLayout::SideBySide => {
            frames.push(stack_horizontal(first, second));
        },
        OutputLayout::TopBottom => {
            frames.push(stack_vertical(first, second));
        },
        // Ordering is carried by the output file names, so the eyes stay in
        // their natural order here.
        OutputLayout::Separate => {
            frames.push(pair.left.clone());
            frames.push(pair.right.clone());
        },
        OutputLayout::Anaglyph => {
            frames.push(encode_anaglyph(&pair.left, &pair.right, params.output_format));
        },
        OutputLayout::LeftOnly => {
            frames.push(pair.left.clone());
        },
        OutputLayout::RightOnly => {
            frames.push(pair.right.clone());
        },
    }
    let ghost laid = laid_out(eyes, *params);
    proof {
        assert(frames@.len() == laid.len());
        assert forall|i: int| 0 <= i < laid.len() implies (#[trigger] frames@[i])@ == laid[i]
            && frames@[i]@.wf() by {}
    }
    let (w, h) = match params.output_size {
        Some(size) => size,
        None => return frames,
    };
    let mut out: Vec<FrameF32<S>> = Vec::new();
    let mut i: usize = 0;
    while i < frames.len()
        invariant
            i <= frames@.len(),
            frames@.len() == laid.len(),
            laid == laid_out(eyes, *params),
            fits_layout(eyes, *params),
            eyes.left.same_size(eyes.right),
            eyes.left.channels == eyes.right.channels == 3,
            params.output_size == Some((w, h)),
            stretches(stretch),
            forall|k: int|
                0 <= k < laid.len() ==> (#[trigger] frames@[k])@ == laid[k] && frames@[k]@.wf(),
            out@.len() == i,
            forall|k: int|
                0 <= k < i ==> sized(*stretch, *params, laid[k], (#[trigger] out@[k])@)
                    && out@[k]@.wf(),
        decreases frames@.len() - i,
    {
        proof {
            lemma_laid_out_size(eyes, *params, i as int);
            let image = laid[i as int];
            assert(frames@[i as int]@ == image);
            let (eh, c) = (eyes.left.height as int, eyes.left.channels as int);
            assert(w * image.height * c <= w * (2 * eh) * c) by (nonlinear_arith)
                requires
                    0 <= image.height <= 2 * eh,
                    0 <= w,
                    0 <= c,
            ;
            assert(resizable(image, w as int, h as int));
        }
        out.push(conform_to(&frames[i], w, h, stretch));
        i += 1;
    }
    out
}

/// A laid-out frame is one eye large, or two eyes along one side.
proof fn lemma_laid_out_size<S>(eyes: Eyes<S>, params: ConvertParams, i: int)
    requires
        eyes.left.same_size(eyes.right),
        eyes.left.channels == eyes.right.channels == 3,
        0 <= i < laid_out(eyes, params).len(),
    ensures
        laid_out(eyes, params)[i].channels == 3,
        (laid_out(eyes, params)[i].width, laid_out(eyes, params)[i].height) == (match params.layout {
            OutputLayout::SideBySide => (2 * eyes.left.width, eyes.left.height),
            OutputLayout::TopBottom => (eyes.left.width, 2 * eyes.left.height),
            _ => (eyes.left.width, eyes.left.height),
        }),
{
}

/// The encoder is sized before a frame is decoded, and what it is then handed is
/// that size: for every kind of input and every layout, each finished frame has
/// exactly the geometry the settings promise of the source.
pub proof fn law_finished_frames_have_the_promised_geometry<
    S,
    V: Fn(&FrameF32<S>, usize, usize) -> FrameF32<S>,
>(
    stretch: &V,
    params: ConvertParams,
    source_w: nat,
    source_h: nat,
    eyes: Eyes<S>,
    i: int,
    out: Image<S>,
)
    requires
        stretches(stretch),
        eyes.left.wf() && eyes.right.wf(),
        eyes.left.same_size(eyes.right),
        eyes.left.channels == eyes.right.channels == 3,
        fits_layout(eyes, params),
        eyes.left.width == converged_to(
            params.input.eye_dims(source_w, source_h).0,
            params.convergence,
        ),
        eyes.left.height == params.input.eye_dims(source_w, source_h).1,
        0 <= i < laid_out(eyes, params).len(),
        laid_out(eyes, params)[i].wf(),
        sized(*stretch, params, laid_out(eyes, params)[i], out),
    ensures
        (out.width, out.height) == params.geometry(source_w, source_h),
        out.channels == 3,
{
    lemma_laid_out_size(eyes, params, i);
    if let Some((w, h)) = params.output_size {
        let image = laid_out(eyes, params)[i];
        let (eh, c) = (eyes.left.height as int, 3int);
        assert(w * image.height * c <= w * (2 * eh) * c) by (nonlinear_arith)
            requires
                0 <= image.height <= 2 * eh,
                0 <= w,
                0 <= c,
        ;
        assert(resizable(image, w as int, h as int));
    }
}

/// Exchanging the eyes twice changes nothing.
pub proof fn law_swapping_twice_is_identity<S>(eyes: Eyes<S>)
    ensures
        swapped(true, swapped(true, eyes)) == eyes,
{
}

/// A 2D eye passes through untouched: whatever the grade, the eye it replaces is
/// the 2D picture itself, cropped only by convergence.
pub proof fn law_a_mono_eye_bypasses_grading<S, G: Fn(Grade, (S, S, S)) -> (S, S, S)>(
    grade: &G,
    params: ConvertParams,
    flat: Image<S>,
    eyes: Eyes<S>,
    out: Eyes<S>,
)
    requires
        finished(grade, params, Some(flat), eyes, out),
        params.mono_eye != MonoEye::Neither,
    ensures
        (params.mono_eye == MonoEye::Left) != params.swap_eyes ==> out.left == converged_left(
            flat,
            params.convergence,
        ),
        (params.mono_eye == MonoEye::Right) != params.swap_eyes ==> out.right == converged_right(
            flat,
            params.convergence,
        ),
{
}

/// Without a 2D source the choice of eye replaces neither.
pub proof fn law_no_mono_source_replaces_neither_eye<S>(mono_eye: MonoEye, eyes: Eyes<S>)
    ensures
        substituted(mono_eye, None, eyes) == eyes,
{
}

/// Separate streams come out left then right whatever the eye order: the file
/// names carry it.
pub proof fn law_separate_streams_ignore_eye_order<
    S,
    V: Fn(&FrameF32<S>, usize, usize) -> FrameF32<S>,
>(stretch: &V, eyes: Eyes<S>, params: ConvertParams, frames: Seq<FrameF32<S>>)
    requires
        params.layout == OutputLayout::Separate,
        delivered(stretch, params, eyes, frames),
    ensures
        laid_out(eyes, params) == seq![eyes.left, eyes.right],
        frames.len() == 2,
        params.output_size is None ==> frames[0]@ == eyes.left && frames[1]@ == eyes.right,
{
}

/// In a stacked layout, putting the right eye first gives what putting the left eye
/// first gives of the exchanged pair. A stacked layout is one frame, separate streams
/// are two.
pub proof fn law_right_first_is_the_exchanged_pair<S>(
    eyes: Eyes<S>,
    params: ConvertParams,
    left_first: ConvertParams,
)
    requires
        params.layout == OutputLayout::SideBySide || params.layout == OutputLayout::TopBottom,
        params.eye_order == EyeOrder::RightFirst,
        left_first == (ConvertParams { eye_order: EyeOrder::LeftFirst, ..params }),
    ensures
        laid_out(eyes, params) == laid_out(swapped(true, eyes), left_first),
        laid_out(eyes, params).len() == 1,
{
}

/// Exchanging the eyes of a pair that is not converged exchanges just that: the
/// left picture is the one that was the right, and the right the one that was the
/// left.
pub proof fn law_swapping_exchanges_the_eyes<S, G: Fn(Grade, (S, S, S)) -> (S, S, S)>(
    grade: &G,
    params: ConvertParams,
    exchanged: ConvertParams,
    mono: Option<Image<S>>,
    eyes: Eyes<S>,
    out: Eyes<S>,
)
    requires
        params.convergence.equals(float(ZERO)),
        exchanged == (ConvertParams { swap_eyes: !params.swap_eyes, ..params }),
        eyes.left.wf() && eyes.right.wf(),
        mono matches Some(flat) ==> flat.wf(),
        finished(grade, params, mono, eyes, out),
    ensures
        finished(grade, exchanged, mono, eyes, swapped(true, out)),
{
    let even = choose|even: Eyes<S>| #[trigger]
        eyes_graded(grade, params, eyes, even) && out == arranged(params, mono, even);
    assert(eyes_graded(grade, exchanged, eyes, even));
    let seen = substituted(params.mono_eye, mono, even);
    lemma_unconverged(seen.left, params.convergence);
    lemma_unconverged(seen.right, params.convergence);
    assert(swapped(true, out) == arranged(exchanged, mono, even));
}

/// Without convergence an eye is kept whole.
pub(crate) proof fn lemma_unconverged<S>(eye: Image<S>, convergence: F32)
    requires
        eye.wf(),
        convergence.equals(float(ZERO)),
    ensures
        converged_left(eye, convergence) == eye,
        converged_right(eye, convergence) == eye,
{
    law_zero_convergence_changes_no_geometry(eye.width, convergence);
    law_a_whole_crop_is_the_picture(eye);
}

/// A pair that is already stereo needs no recovering: the recovery settings have no
/// say in what becomes of a packed frame or of two files.
pub proof fn law_a_stereo_source_is_not_recovered<
    S,
    T: Fn(TransferFunction, S) -> S,
    U: Fn(TransferFunction, S) -> S,
    P: Fn(EyeProjection, S, S, S) -> S,
    C: Fn(F32, S, S) -> S,
    R: Fn(ColourRestore, EyeProjection, S, (S, S, S)) -> (S, S, S),
    G: Fn(Grade, (S, S, S)) -> (S, S, S),
    A: Fn(S, S, S) -> S,
    Q: Fn(S, S) -> S,
    L: Fn(S, S, S) -> S,
    M: Fn(S, usize) -> S,
    K: Fn(F32) -> Vec<S>,
    B: Fn(F32) -> [usize; 3],
    V: Fn(&FrameF32<S>, usize, usize) -> FrameF32<S>,
>(
    math: &RecoveryMath<S, T, U, P, C, R, G, A, Q, L, M, K, B>,
    stretch: &V,
    sources: Shown<S>,
    params: ConvertParams,
    other: ConvertParams,
    strengths: Strengths,
    others: Strengths,
    out: Eyes<S>,
)
    requires
        params.input !is Anaglyph,
        other == (ConvertParams {
            input_format: other.input_format,
            transfer: other.transfer,
            work_in_linear_light: other.work_in_linear_light,
            restore: other.restore,
            decimate_horiz: other.decimate_horiz,
            decimate_vert: other.decimate_vert,
            leak_correct_left: other.leak_correct_left,
            leak_correct_right: other.leak_correct_right,
            defringe_left: other.defringe_left,
            defringe_right: other.defringe_right,
            ..params
        }),
        processed(math, stretch, sources, params, strengths, out),
    ensures
        processed(math, stretch, sources, other, others, out),
{
    let eyes = choose|eyes: Eyes<S>| #[trigger]
        taken(math, stretch, sources, params, strengths, eyes) && finished(
            &math.grade,
            params,
            sources.mono,
            eyes,
            out,
        );
    assert(taken(math, stretch, sources, other, others, eyes));
    let even = choose|even: Eyes<S>| #[trigger]
        eyes_graded(&math.grade, params, eyes, even) && out == arranged(params, sources.mono, even);
    assert(eyes_graded(&math.grade, other, eyes, even));
    assert(arranged(params, sources.mono, even) == arranged(other, sources.mono, even));
}

/// The anaglyph supplies its own colour where no reference is given: leaving the
/// reference out and giving the film itself come to the same.
pub proof fn law_the_anaglyph_supplies_its_own_colour<
    S,
    T: Fn(TransferFunction, S) -> S,
    U: Fn(TransferFunction, S) -> S,
    P: Fn(EyeProjection, S, S, S) -> S,
    C: Fn(F32, S, S) -> S,
    R: Fn(ColourRestore, EyeProjection, S, (S, S, S)) -> (S, S, S),
    G: Fn(Grade, (S, S, S)) -> (S, S, S),
    A: Fn(S, S, S) -> S,
    Q: Fn(S, S) -> S,
    L: Fn(S, S, S) -> S,
    M: Fn(S, usize) -> S,
    K: Fn(F32) -> Vec<S>,
    B: Fn(F32) -> [usize; 3],
    V: Fn(&FrameF32<S>, usize, usize) -> FrameF32<S>,
>(
    math: &RecoveryMath<S, T, U, P, C, R, G, A, Q, L, M, K, B>,
    stretch: &V,
    sources: Shown<S>,
    params: ConvertParams,
    strengths: Strengths,
    out: Eyes<S>,
)
    ensures
        processed(math, stretch, Shown { colour: None, ..sources }, params, strengths, out)
            <==> processed(
            math,
            stretch,
            Shown { colour: Some(sources.primary), ..sources },
            params,
            strengths,
            out,
        ),
{
    let bare = Shown { colour: None, ..sources };
    let given = Shown { colour: Some(sources.primary), ..sources };
    assert forall|eyes: Eyes<S>| #[trigger]
        taken(math, stretch, bare, params, strengths, eyes) == taken(
            math,
            stretch,
            given,
            params,
            strengths,
            eyes,
        ) by {}
    if processed(math, stretch, bare, params, strengths, out) {
        let eyes = choose|eyes: Eyes<S>| #[trigger]
            taken(math, stretch, bare, params, strengths, eyes) && finished(
                &math.grade,
                params,
                bare.mono,
                eyes,
                out,
            );
        assert(taken(math, stretch, given, params, strengths, eyes));
    }
    if processed(math, stretch, given, params, strengths, out) {
        let eyes = choose|eyes: Eyes<S>| #[trigger]
            taken(math, stretch, given, params, strengths, eyes) && finished(
                &math.grade,
                params,
                given.mono,
                eyes,
                out,
            );
        assert(taken(math, stretch, bare, params, strengths, eyes));
    }
}

/// A stacked result can be read back: written at its own size and opened again as
/// what it is, it gives the very pair that was stacked.
pub proof fn law_a_stacked_pair_reads_back<S, V: Fn(&FrameF32<S>, usize, usize) -> FrameF32<S>>(
    stretch: V,
    params: ConvertParams,
    packing: StereoPacking,
    eyes: Eyes<S>,
    out: Image<S>,
    left: Image<S>,
    right: Image<S>,
)
    requires
        eyes.left.wf() && eyes.right.wf(),
        eyes.left.same_size(eyes.right),
        eyes.left.channels == eyes.right.channels,
        params.output_size is None,
        params.layout == (match packing {
            StereoPacking::SideBySide => OutputLayout::SideBySide,
            StereoPacking::TopBottom => OutputLayout::TopBottom,
        }),
        sized(stretch, params, laid_out(eyes, params)[0], out),
        splits(stretch, out, packing, params.eye_order, false, left, right),
    ensures
        left == eyes.left,
        right == eyes.right,
{
    let (first, second) = match params.eye_order {
        EyeOrder::LeftFirst => (eyes.left, eyes.right),
        EyeOrder::RightFirst => (eyes.right, eyes.left),
    };
    law_splitting_undoes_stacking(
        stretch,
        first,
        second,
        params.eye_order,
        left,
        right,
    );
}

/// The arithmetic of single samples loses nothing: a projection reads only the
/// channels it weighs, the curves undo each other, and a pixel painted with its own
/// colour onto its own signal is that pixel.
pub open spec fn loses_nothing<
    S,
    T: Fn(TransferFunction, S) -> S,
    U: Fn(TransferFunction, S) -> S,
    P: Fn(EyeProjection, S, S, S) -> S,
    C: Fn(F32, S, S) -> S,
    R: Fn(ColourRestore, EyeProjection, S, (S, S, S)) -> (S, S, S),
    G: Fn(Grade, (S, S, S)) -> (S, S, S),
    A: Fn(S, S, S) -> S,
    Q: Fn(S, S) -> S,
    L: Fn(S, S, S) -> S,
    M: Fn(S, usize) -> S,
    K: Fn(F32) -> Vec<S>,
    B: Fn(F32) -> [usize; 3],
>(math: &RecoveryMath<S, T, U, P, C, R, G, A, Q, L, M, K, B>) -> bool {
    &&& minds_only_its_channels(math.project)
    &&& forall|tf: TransferFunction, s: S, t: S, u: S| #[trigger]
        call_ensures(math.to_linear, (tf, s), t) && #[trigger] call_ensures(
            math.to_linear,
            (tf, s),
            u,
        ) ==> t == u
    &&& forall|tf: TransferFunction, s: S, t: S, u: S| #[trigger]
        call_ensures(math.to_linear, (tf, s), t) && #[trigger] call_ensures(
            math.from_linear,
            (tf, t),
            u,
        ) ==> u == s
    &&& forall|tf: TransferFunction, s: S, t: S, u: S| #[trigger]
        call_ensures(math.from_linear, (tf, s), t) && #[trigger] call_ensures(
            math.to_linear,
            (tf, t),
            u,
        ) ==> u == s
    &&& forall|
        mode: ColourRestore,
        p: EyeProjection,
        px: (S, S, S),
        signal: S,
        painted: (S, S, S),
    |
        call_ensures(math.project, (p, px.0, px.1, px.2), signal) && #[trigger] call_ensures(
            math.restore,
            (mode, p, signal, px),
            painted,
        ) ==> painted == px
}

/// Where nothing is corrected, softened or blurred.
pub open spec fn leaves_alone(strengths: Strengths) -> bool {
    &&& strengths.leak_left.equals(float(ZERO)) && strengths.leak_right.equals(float(ZERO))
    &&& !above_zero(strengths.defringe_left) && !above_zero(strengths.defringe_right)
    &&& strengths.colour_x.at_most(float(NO_BLUR)) && strengths.colour_y.at_most(float(NO_BLUR))
}

/// What a filter passes of the muxed pair in the working space, it would pass of its
/// own eye there.
proof fn lemma_a_filter_sees_its_own_eye<S, T: Fn(TransferFunction, S) -> S, P: Fn(EyeProjection, S, S, S) -> S>(
    to_linear: &T,
    project: P,
    params: ConvertParams,
    left: Image<S>,
    right: Image<S>,
    of_left: bool,
    work: Image<S>,
    reference: Image<S>,
    passed: Image<S>,
)
    requires
        left.wf() && right.wf(),
        left.channels == right.channels == 3,
        left.same_size(right),
        minds_only_its_channels(project),
        forall|tf: TransferFunction, s: S, t: S, u: S| #[trigger]
            call_ensures(*to_linear, (tf, s), t) && #[trigger] call_ensures(*to_linear, (tf, s), u)
                ==> t == u,
        in_working_space(to_linear, params, muxed(left, right, params.input_format), work),
        in_working_space(to_linear, params, if of_left { left } else { right }, reference),
        projected(
            project,
            if of_left {
                filters(params.input_format).0
            } else {
                filters(params.input_format).1
            },
            work,
            passed,
        ),
    ensures
        projected(
            project,
            if of_left {
                filters(params.input_format).0
            } else {
                filters(params.input_format).1
            },
            reference,
            passed,
        ),
{
    let format = params.input_format;
    let eye = if of_left {
        left
    } else {
        right
    };
    let p = if of_left {
        filters(format).0
    } else {
        filters(format).1
    };
    let mix = muxed(left, right, format);
    let len = left.width * left.height;
    assert(left.width * left.height * 3 == len + len + len);
    assert forall|c: int, i: int| 0 <= c < 3 && 0 <= i < len && #[trigger] p.part(c) > 0 implies {
        &&& c == 0 ==> #[trigger] work.pixel(i).0 == reference.pixel(i).0
        &&& c == 1 ==> work.pixel(i).1 == reference.pixel(i).1
        &&& c == 2 ==> work.pixel(i).2 == reference.pixel(i).2
    } by {
        law_muxing_feeds_each_filter_its_own_eye(left, right, format, c);
        lemma_pixel_planes(mix, i);
        lemma_pixel_planes(eye, i);
    }
    assert forall|i: int| 0 <= i < reference.width * reference.height implies call_ensures(
        project,
        (p, reference.pixel(i).0, reference.pixel(i).1, reference.pixel(i).2),
        #[trigger] passed.samples[i],
    ) by {
        let (m, r) = (work.pixel(i), reference.pixel(i));
        assert(call_ensures(project, (p, m.0, m.1, m.2), passed.samples[i]));
        assert(p.part(0) > 0 ==> m.0 == r.0);
        assert(p.part(1) > 0 ==> m.1 == r.1);
        assert(p.part(2) > 0 ==> m.2 == r.2);
    }
}

/// Recovery is exact where it can be: from an anaglyph that was muxed of a pair, an
/// eye comes back exactly when that eye itself is the colour reference, nothing is
/// to be corrected or blurred, and the arithmetic of single samples loses nothing.
pub proof fn law_a_perfect_reference_gives_its_eye_back<
    S,
    T: Fn(TransferFunction, S) -> S,
    U: Fn(TransferFunction, S) -> S,
    P: Fn(EyeProjection, S, S, S) -> S,
    C: Fn(F32, S, S) -> S,
    R: Fn(ColourRestore, EyeProjection, S, (S, S, S)) -> (S, S, S),
    G: Fn(Grade, (S, S, S)) -> (S, S, S),
    A: Fn(S, S, S) -> S,
    Q: Fn(S, S) -> S,
    L: Fn(S, S, S) -> S,
    M: Fn(S, usize) -> S,
    K: Fn(F32) -> Vec<S>,
    B: Fn(F32) -> [usize; 3],
>(
    math: &RecoveryMath<S, T, U, P, C, R, G, A, Q, L, M, K, B>,
    params: ConvertParams,
    strengths: Strengths,
    left: Image<S>,
    right: Image<S>,
    of_left: bool,
    out: Eyes<S>,
)
    requires
        left.wf() && right.wf(),
        left.channels == right.channels == 3,
        left.same_size(right),
        loses_nothing(math),
        leaves_alone(strengths),
        recovered(
            math,
            params,
            strengths,
            muxed(left, right, params.input_format),
            if of_left {
                left
            } else {
                right
            },
            out,
        ),
    ensures
        of_left ==> out.left == left,
        !of_left ==> out.right == right,
{
    let mix = muxed(left, right, params.input_format);
    let eye = if of_left {
        left
    } else {
        right
    };
    let (work, reference, apart, soft, smeared) = choose|
        work: Image<S>,
        reference: Image<S>,
        apart: Eyes<S>,
        soft: Eyes<S>,
        smeared: Image<S>,
    |
        in_working_space(&math.to_linear, params, mix, work) && in_working_space(
            &math.to_linear,
            params,
            eye,
            reference,
        ) && #[trigger] eyes_separated(
            &math.to_linear,
            &math.from_linear,
            &math.project,
            &math.correct,
            params,
            strengths,
            work,
            apart,
        ) && defringed(
            &math.blur,
            &math.kernel,
            &math.radii,
            strengths.defringe_left,
            apart.left,
            soft.left,
        ) && defringed(
            &math.blur,
            &math.kernel,
            &math.radii,
            strengths.defringe_right,
            apart.right,
            soft.right,
        ) && #[trigger] gaussian_blurred(
            &math.blur,
            &math.kernel,
            &math.radii,
            strengths.colour_x,
            strengths.colour_y,
            reference,
            smeared,
        ) && #[trigger] eyes_painted(
            &math.from_linear,
            &math.restore,
            params,
            soft,
            smeared,
            out,
        );
    let (passed, shown, clean) = choose|passed: Eyes<S>, shown: Eyes<S>, clean: Eyes<S>|
        projected(math.project, filters(params.input_format).0, work, passed.left) && projected(
            math.project,
            filters(params.input_format).1,
            work,
            passed.right,
        ) && #[trigger] eyes_in_display_space(&math.from_linear, params, passed, shown)
            && #[trigger] eyes_corrected(&math.correct, strengths, shown, clean) && in_working_space(
            &math.to_linear,
            params,
            clean.left,
            apart.left,
        ) && in_working_space(&math.to_linear, params, clean.right, apart.right);
    assert(clean == shown);
    if params.work_in_linear_light {
        law_conversion_round_trips(
            math.from_linear,
            math.to_linear,
            params.transfer,
            passed.left,
            shown.left,
            apart.left,
        );
        law_conversion_round_trips(
            math.from_linear,
            math.to_linear,
            params.transfer,
            passed.right,
            shown.right,
            apart.right,
        );
    }
    assert(soft == passed);
    law_no_sigma_no_blur(
        &math.blur,
        &math.kernel,
        &math.radii,
        strengths.colour_x,
        strengths.colour_y,
        reference,
        smeared,
    );
    let signal = if of_left {
        passed.left
    } else {
        passed.right
    };
    lemma_a_filter_sees_its_own_eye(
        &math.to_linear,
        math.project,
        params,
        left,
        right,
        of_left,
        work,
        reference,
        signal,
    );
    let painted = choose|painted: Eyes<S>|
        restored(
            math.restore,
            params.restore,
            filters(params.input_format).0,
            soft.left,
            smeared,
            painted.left,
        ) && restored(
            math.restore,
            params.restore,
            filters(params.input_format).1,
            soft.right,
            smeared,
            painted.right,
        ) && #[trigger] eyes_in_display_space(&math.from_linear, params, painted, out);
    let (one, last, p) = if of_left {
        (painted.left, out.left, filters(params.input_format).0)
    } else {
        (painted.right, out.right, filters(params.input_format).1)
    };
    law_a_perfect_reference_is_reproduced(
        math.project,
        math.restore,
        params.restore,
        p,
        reference,
        signal,
        one,
    );
    if params.work_in_linear_light {
        law_conversion_round_trips(
            math.to_linear,
            math.from_linear,
            params.transfer,
            eye,
            reference,
            last,
        );
    }
}

/// An anaglyph alone is a source with nothing beside it.
pub proof fn law_an_anaglyph_stands_alone<'a, S>(anaglyph: &'a FrameF32<S>, r: Sources<'a, S>)
    requires
        call_ensures(Sources::<'a, S>::from_anaglyph, (anaglyph,), r),
    ensures
        r.primary@ == anaglyph@,
        r.right_eye is None && r.colour is None && r.mono is None,
{
}

/// A finished pair is graded, each eye by its own grade, then has the eye that the 2D
/// source is replaced by it, ungraded, and is exchanged last where the eyes are to be
/// swapped.
pub proof fn law_a_pair_is_graded_replaced_and_exchanged<
    S: Copy,
    G: Fn(Grade, (S, S, S)) -> (S, S, S),
>(
    pair: StereoPair<S>,
    mono: Option<&FrameF32<S>>,
    params: &ConvertParams,
    grade: &G,
    out: StereoPair<S>,
)
    requires
        call_ensures(finish_pair::<S, G>, (pair, mono, params, grade), out),
        pair.wf(),
        mono matches Some(m) ==> m@.wf() && m@.same_size(pair.left@),
        !params.convergence.nan() && params.convergence.value() == 0,
    ensures
        exists|left: Image<S>, right: Image<S>|
            #![trigger graded(*grade, params.grade_left, pair.left@, left), graded(*grade, params.grade_right, pair.right@, right)]
            graded(*grade, params.grade_left, pair.left@, left) && graded(
                *grade,
                params.grade_right,
                pair.right@,
                right,
            ) && ({
                let l = if params.mono_eye == MonoEye::Left && mono is Some {
                    mono->0@
                } else {
                    left
                };
                let r = if params.mono_eye == MonoEye::Right && mono is Some {
                    mono->0@
                } else {
                    right
                };
                if params.swap_eyes {
                    converged_left(r, params.convergence) == out.left@ && converged_right(
                        l,
                        params.convergence,
                    ) == out.right@
                } else {
                    converged_left(l, params.convergence) == out.left@ && converged_right(
                        r,
                        params.convergence,
                    ) == out.right@
                }
            }),
{
    let raw = Eyes { left: pair.left@, right: pair.right@ };
    let done = Eyes { left: out.left@, right: out.right@ };
    let even = choose|even: Eyes<S>| #[trigger]
        eyes_graded(grade, *params, raw, even) && done == arranged(*params, shows(mono), even);
    assert(graded(*grade, params.grade_left, pair.left@, even.left));
    assert(graded(*grade, params.grade_right, pair.right@, even.right));
}

} // verus!
