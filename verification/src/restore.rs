//! Painting colour back onto an extracted eye.
//!
//! Each eye survives the anaglyph as brightness only. Colour comes from a
//! heavily blurred reference (the 2D release if there is one, otherwise the
//! anaglyph itself) on the standing assumption that human vision reads detail
//! from luminance and is far more forgiving about where colour sits.

use crate::extract::{projected, EyeProjection};
use crate::frame::{FrameF32, Image};
use vstd::prelude::*;

verus! {

/// How to reconcile the reference colour with the eye's surviving signal.
///
/// Both modes drive the reference until its own projected value matches the
/// eye's, and both are exact when the reference is perfect; they differ only
/// in how they distribute the correction across the three channels.
#[derive(Debug, Clone, Copy, PartialEq, Eq, Structural)]
pub enum ColourRestore {
    /// Multiply, preserving the reference's chromaticity exactly. Reads as
    /// "the same colour, brighter or darker".
    Scale,
    /// Add, preserving the reference's colour *differences*. Holds saturation
    /// better in shadows and can drive channels negative in bright, saturated
    /// areas.
    Offset,
}

impl Default for ColourRestore {
    fn default() -> (r: Self)
        ensures
            r == ColourRestore::Offset,
    {
        ColourRestore::Offset
    }
}

/// `out` is `eye` painted with `colour`, pixel by pixel.
pub open spec fn restored<
    S,
    P: Fn(ColourRestore, EyeProjection, S, (S, S, S)) -> (S, S, S),
>(
    pixel: P,
    mode: ColourRestore,
    projection: EyeProjection,
    eye: Image<S>,
    colour: Image<S>,
    out: Image<S>,
) -> bool {
    &&& out.wf()
    &&& out.same_size(eye)
    &&& out.channels == 3
    &&& forall|i: int|
        0 <= i < eye.width * eye.height ==> call_ensures(
            pixel,
            (mode, projection, eye.samples[i], colour.pixel(i)),
            #[trigger] out.pixel(i),
        )
}

/// `pixel` takes every signal and colour.
pub open spec fn paints_all<
    S,
    P: Fn(ColourRestore, EyeProjection, S, (S, S, S)) -> (S, S, S),
>(pixel: &P) -> bool {
    forall|mode: ColourRestore, p: EyeProjection, s: S, px: (S, S, S)| #[trigger]
        call_requires(*pixel, (mode, p, s, px))
}

/// `pixel` may paint a signal so.
pub open spec fn paints_to<
    S,
    P: Fn(ColourRestore, EyeProjection, S, (S, S, S)) -> (S, S, S),
>(
    pixel: &P,
    mode: ColourRestore,
    projection: EyeProjection,
    signal: S,
    px: (S, S, S),
    out: (S, S, S),
) -> bool {
    call_ensures(*pixel, (mode, projection, signal, px), out)
}

/// Rebuilds a full-colour eye pixel by pixel. `pixel` does one: it takes the mode, the
/// projection, the signal and the reference colour.
pub fn restore_by<
    S: Copy,
    P: Fn(ColourRestore, EyeProjection, S, (S, S, S)) -> (S, S, S),
>(
    eye: &FrameF32<S>,
    colour: &FrameF32<S>,
    projection: EyeProjection,
    mode: ColourRestore,
    pixel: &P,
) -> (out: FrameF32<S>)
    requires
        eye@.wf(),
        colour@.wf(),
        eye@.channels == 1,
        colour@.channels == 3,
        eye@.same_size(colour@),
        paints_all(pixel),
    ensures
        restored(*pixel, mode, projection, eye@, colour@, out@),
{
    proof {
        colour.lemma_fits();
    }
    let signal = eye.as_slice();
    let one = |i: usize| -> (px: (S, S, S))
        requires
            colour@.wf(),
            colour@.channels == 3,
            i < colour@.width * colour@.height,
            i < signal@.len(),
            paints_all(pixel),
        ensures
            paints_to(pixel, mode, projection, signal@[i as int], colour@.pixel(i as int), px),
        { pixel(mode, projection, signal[i], colour.pixel(i)) };
    let out = FrameF32::from_pixels(eye.width(), eye.height(), one);
    assert forall|i: int| 0 <= i < eye@.width * eye@.height implies call_ensures(
        *pixel,
        (mode, projection, eye@.samples[i], colour@.pixel(i)),
        #[trigger] out@.pixel(i),
    ) by {
        assert(call_ensures(one, (i as usize,), out@.pixel(i as usize as int)));
    }
    out
}

/// A perfect reference is reproduced exactly: a picture painted with its own colour
/// onto its own projection comes back unchanged, where one pixel does.
pub proof fn law_a_perfect_reference_is_reproduced<
    S,
    J: Fn(EyeProjection, S, S, S) -> S,
    P: Fn(ColourRestore, EyeProjection, S, (S, S, S)) -> (S, S, S),
>(
    project: J,
    pixel: P,
    mode: ColourRestore,
    projection: EyeProjection,
    image: Image<S>,
    eye: Image<S>,
    out: Image<S>,
)
    requires
        image.wf(),
        image.channels == 3,
        projected(project, projection, image, eye),
        restored(pixel, mode, projection, eye, image, out),
        forall|px: (S, S, S), signal: S, painted: (S, S, S)|
            call_ensures(project, (projection, px.0, px.1, px.2), signal) && #[trigger] call_ensures(
                pixel,
                (mode, projection, signal, px),
                painted,
            ) ==> painted == px,
    ensures
        out == image,
{
    let len = (image.width * image.height) as int;
    assert(image.width * image.height * 3 == len + len + len);
    assert forall|i: int| 0 <= i < len implies #[trigger] out.pixel(i) == image.pixel(i) by {
        let px = image.pixel(i);
        assert(call_ensures(project, (projection, px.0, px.1, px.2), eye.samples[i]));
        assert(call_ensures(pixel, (mode, projection, eye.samples[i], px), out.pixel(i)));
    }
    assert forall|k: int| 0 <= k < image.samples.len() implies out.samples[k] == image.samples[k] by {
        let i = if k < len {
            k
        } else if k < len + len {
            k - len
        } else {
            k - len - len
        };
        assert(out.pixel(i) == image.pixel(i));
    }
    assert(out =~= image);
}

/// What is restored always projects back to the eye's signal, as closely as one pixel
/// does: recovery never alters the brightness that the anaglyph carried. `close` says
/// what close is.
pub proof fn law_what_is_restored_projects_back<
    S,
    J: Fn(EyeProjection, S, S, S) -> S,
    P: Fn(ColourRestore, EyeProjection, S, (S, S, S)) -> (S, S, S),
>(
    project: J,
    pixel: P,
    close: spec_fn(S, S) -> bool,
    mode: ColourRestore,
    projection: EyeProjection,
    eye: Image<S>,
    colour: Image<S>,
    out: Image<S>,
    back: Image<S>,
)
    requires
        eye.wf(),
        eye.channels == 1,
        restored(pixel, mode, projection, eye, colour, out),
        forall|i: int, painted: (S, S, S), passed: S|
            0 <= i < eye.width * eye.height && #[trigger] call_ensures(
                pixel,
                (mode, projection, eye.samples[i], colour.pixel(i)),
                painted,
            ) && #[trigger] call_ensures(
                project,
                (projection, painted.0, painted.1, painted.2),
                passed,
            ) ==> close(passed, eye.samples[i]),
        projected(project, projection, out, back),
    ensures
        back.same_size(eye) && back.channels == eye.channels,
        forall|i: int|
            0 <= i < eye.width * eye.height ==> close(#[trigger] back.samples[i], eye.samples[i]),
{
    assert forall|i: int| 0 <= i < eye.width * eye.height implies close(
        #[trigger] back.samples[i],
        eye.samples[i],
    ) by {
        assert(call_ensures(
            pixel,
            (mode, projection, eye.samples[i], colour.pixel(i)),
            out.pixel(i),
        ));
    }
}

/// The arithmetic that painting a pixel is made of.
pub struct PaintMath<J, D, A, H, Q, T> {
    /// What an eye's filter passes of one pixel.
    pub project: J,
    /// The difference of two samples.
    pub minus: D,
    /// The sum of two samples.
    pub plus: A,
    /// A sample lifted off black, so that nothing is divided by it.
    pub lift: H,
    /// The quotient of two samples.
    pub over: Q,
    /// The product of two samples.
    pub times: T,
}

/// The arithmetic takes every sample.
pub open spec fn mixes_all<
    S,
    J: Fn(EyeProjection, S, S, S) -> S,
    D: Fn(S, S) -> S,
    A: Fn(S, S) -> S,
    H: Fn(S) -> S,
    Q: Fn(S, S) -> S,
    T: Fn(S, S) -> S,
>(math: &PaintMath<J, D, A, H, Q, T>) -> bool {
    &&& forall|p: EyeProjection, r: S, g: S, b: S| #[trigger]
        call_requires(math.project, (p, r, g, b))
    &&& forall|a: S, b: S| #[trigger] call_requires(math.minus, (a, b))
    &&& forall|a: S, b: S| #[trigger] call_requires(math.plus, (a, b))
    &&& forall|s: S| #[trigger] call_requires(math.lift, (s,))
    &&& forall|a: S, b: S| #[trigger] call_requires(math.over, (a, b))
    &&& forall|a: S, b: S| #[trigger] call_requires(math.times, (a, b))
}

/// `out` is a colour moved, all channels alike, by how far the signal is from what
/// the colour itself would pass.
pub open spec fn offset_to<
    S,
    J: Fn(EyeProjection, S, S, S) -> S,
    D: Fn(S, S) -> S,
    A: Fn(S, S) -> S,
    H: Fn(S) -> S,
    Q: Fn(S, S) -> S,
    T: Fn(S, S) -> S,
>(
    math: &PaintMath<J, D, A, H, Q, T>,
    reference: S,
    signal: S,
    c: (S, S, S),
    out: (S, S, S),
) -> bool {
    exists|offset: S| #[trigger]
        call_ensures(math.minus, (signal, reference), offset) && call_ensures(
            math.plus,
            (c.0, offset),
            out.0,
        ) && call_ensures(math.plus, (c.1, offset), out.1) && call_ensures(
            math.plus,
            (c.2, offset),
            out.2,
        )
}

/// `out` is a sample lifted off black and scaled.
pub open spec fn lifted_by<
    S,
    J: Fn(EyeProjection, S, S, S) -> S,
    D: Fn(S, S) -> S,
    A: Fn(S, S) -> S,
    H: Fn(S) -> S,
    Q: Fn(S, S) -> S,
    T: Fn(S, S) -> S,
>(math: &PaintMath<J, D, A, H, Q, T>, scale: S, s: S, out: S) -> bool {
    exists|lifted: S| #[trigger]
        call_ensures(math.lift, (s,), lifted) && call_ensures(math.times, (lifted, scale), out)
}

/// `out` is a colour scaled, all channels alike, by the ratio of the signal to what
/// the colour itself would pass, all of it lifted off black.
pub open spec fn scaled_to<
    S,
    J: Fn(EyeProjection, S, S, S) -> S,
    D: Fn(S, S) -> S,
    A: Fn(S, S) -> S,
    H: Fn(S) -> S,
    Q: Fn(S, S) -> S,
    T: Fn(S, S) -> S,
>(
    math: &PaintMath<J, D, A, H, Q, T>,
    reference: S,
    signal: S,
    c: (S, S, S),
    out: (S, S, S),
) -> bool {
    exists|lifted: S, scale: S| #[trigger]
        call_ensures(math.lift, (reference,), lifted) && #[trigger] call_ensures(
            math.over,
            (signal, lifted),
            scale,
        ) && lifted_by(math, scale, c.0, out.0) && lifted_by(math, scale, c.1, out.1) && lifted_by(
            math,
            scale,
            c.2,
            out.2,
        )
}

/// `out` is a signal painted with a colour.
pub open spec fn painted<
    S,
    J: Fn(EyeProjection, S, S, S) -> S,
    D: Fn(S, S) -> S,
    A: Fn(S, S) -> S,
    H: Fn(S) -> S,
    Q: Fn(S, S) -> S,
    T: Fn(S, S) -> S,
>(
    math: &PaintMath<J, D, A, H, Q, T>,
    mode: ColourRestore,
    projection: EyeProjection,
    signal: S,
    c: (S, S, S),
    out: (S, S, S),
) -> bool {
    exists|reference: S| #[trigger]
        call_ensures(math.project, (projection, c.0, c.1, c.2), reference) && match mode {
            ColourRestore::Offset => offset_to(math, reference, signal, c, out),
            ColourRestore::Scale => scaled_to(math, reference, signal, c, out),
        }
}

/// Paints one signal with a reference colour.
///
/// Lifting both sides of the ratio keeps the divide finite and decays smoothly to
/// neutral grey as the reference darkens, instead of letting black swallow the eye's
/// detail.
pub fn paint<
    S: Copy,
    J: Fn(EyeProjection, S, S, S) -> S,
    D: Fn(S, S) -> S,
    A: Fn(S, S) -> S,
    H: Fn(S) -> S,
    Q: Fn(S, S) -> S,
    T: Fn(S, S) -> S,
>(
    mode: ColourRestore,
    projection: EyeProjection,
    signal: S,
    c: (S, S, S),
    math: &PaintMath<J, D, A, H, Q, T>,
) -> (out: (S, S, S))
    requires
        mixes_all(math),
    ensures
        painted(math, mode, projection, signal, c, out),
{
    let reference = (math.project)(projection, c.0, c.1, c.2);
    assert(call_ensures(math.project, (projection, c.0, c.1, c.2), reference));
    match mode {
        ColourRestore::Offset => {
            let offset = (math.minus)(signal, reference);
            assert(call_ensures(math.minus, (signal, reference), offset));
            let out = (
                (math.plus)(c.0, offset),
                (math.plus)(c.1, offset),
                (math.plus)(c.2, offset),
            );
            assert(offset_to(math, reference, signal, c, out));
            out
        },
        ColourRestore::Scale => {
            let lifted = (math.lift)(reference);
            let scale = (math.over)(signal, lifted);
            assert(call_ensures(math.lift, (reference,), lifted));
            assert(call_ensures(math.over, (signal, lifted), scale));
            let out = (
                lift_by(scale, c.0, math),
                lift_by(scale, c.1, math),
                lift_by(scale, c.2, math),
            );
            assert(scaled_to(math, reference, signal, c, out));
            out
        },
    }
}

/// Lifts one sample off black and scales it.
fn lift_by<
    S: Copy,
    J: Fn(EyeProjection, S, S, S) -> S,
    D: Fn(S, S) -> S,
    A: Fn(S, S) -> S,
    H: Fn(S) -> S,
    Q: Fn(S, S) -> S,
    T: Fn(S, S) -> S,
>(scale: S, s: S, math: &PaintMath<J, D, A, H, Q, T>) -> (out: S)
    requires
        mixes_all(math),
    ensures
        lifted_by(math, scale, s, out),
{
    let lifted = (math.lift)(s);
    assert(call_ensures(math.lift, (s,), lifted));
    (math.times)(lifted, scale)
}

/// `out` is `eye` painted with `colour`, pixel by pixel.
pub open spec fn eye_painted<
    S,
    J: Fn(EyeProjection, S, S, S) -> S,
    D: Fn(S, S) -> S,
    A: Fn(S, S) -> S,
    H: Fn(S) -> S,
    Q: Fn(S, S) -> S,
    T: Fn(S, S) -> S,
>(
    math: &PaintMath<J, D, A, H, Q, T>,
    mode: ColourRestore,
    projection: EyeProjection,
    eye: Image<S>,
    colour: Image<S>,
    out: Image<S>,
) -> bool {
    &&& out.wf()
    &&& out.same_size(eye)
    &&& out.channels == 3
    &&& forall|i: int|
        0 <= i < eye.width * eye.height ==> painted(
            math,
            mode,
            projection,
            eye.samples[i],
            colour.pixel(i),
            #[trigger] out.pixel(i),
        )
}

/// Rebuilds a full-colour eye from its surviving signal and a colour reference.
///
/// `projection` must be the one that produced `eye`: that shared definition is
/// what makes the reconstruction exact when the reference is accurate. Both
/// inputs must be linear light and the same size.
pub fn restore_colour<
    S: Copy,
    J: Fn(EyeProjection, S, S, S) -> S,
    D: Fn(S, S) -> S,
    A: Fn(S, S) -> S,
    H: Fn(S) -> S,
    Q: Fn(S, S) -> S,
    T: Fn(S, S) -> S,
>(
    eye: &FrameF32<S>,
    colour: &FrameF32<S>,
    projection: EyeProjection,
    mode: ColourRestore,
    math: &PaintMath<J, D, A, H, Q, T>,
) -> (out: FrameF32<S>)
    requires
        eye@.wf(),
        colour@.wf(),
        eye@.channels == 1,
        colour@.channels == 3,
        eye@.same_size(colour@),
        mixes_all(math),
    ensures
        eye_painted(math, mode, projection, eye@, colour@, out@),
{
    let one = |mode: ColourRestore, p: EyeProjection, signal: S, c: (S, S, S)| -> (out: (S, S, S))
        requires
            mixes_all(math),
        ensures
            painted(math, mode, p, signal, c, out),
        { paint(mode, p, signal, c, math) };
    let out = restore_by(eye, colour, projection, mode, &one);
    assert forall|i: int| 0 <= i < eye@.width * eye@.height implies painted(
        math,
        mode,
        projection,
        eye@.samples[i],
        colour@.pixel(i),
        #[trigger] out@.pixel(i),
    ) by {
        assert(call_ensures(
            one,
            (mode, projection, eye@.samples[i], colour@.pixel(i)),
            out@.pixel(i),
        ));
    }
    out
}

/// Offsetting a colour onto its own signal gives the colour back, where subtracting a
/// sample from itself leaves what adds nothing.
pub proof fn law_a_colour_keeps_its_own_signal<
    S,
    J: Fn(EyeProjection, S, S, S) -> S,
    D: Fn(S, S) -> S,
    A: Fn(S, S) -> S,
    H: Fn(S) -> S,
    Q: Fn(S, S) -> S,
    T: Fn(S, S) -> S,
>(
    math: &PaintMath<J, D, A, H, Q, T>,
    projection: EyeProjection,
    signal: S,
    c: (S, S, S),
    out: (S, S, S),
)
    requires
        forall|s: S| #[trigger]
            call_ensures(math.project, (projection, c.0, c.1, c.2), s) ==> s == signal,
        forall|none: S, s: S, sum: S| #[trigger]
            call_ensures(math.minus, (signal, signal), none) && #[trigger] call_ensures(
                math.plus,
                (s, none),
                sum,
            ) ==> sum == s,
        painted(math, ColourRestore::Offset, projection, signal, c, out),
    ensures
        out == c,
{
}

/// Offsetting adds one and the same amount to every channel of the reference colour: how
/// far the eye's signal is from what the eye's filter would pass of that colour.
pub proof fn law_an_offset_is_the_same_for_every_channel<
    S: Copy,
    J: Fn(EyeProjection, S, S, S) -> S,
    D: Fn(S, S) -> S,
    A: Fn(S, S) -> S,
    H: Fn(S) -> S,
    Q: Fn(S, S) -> S,
    T: Fn(S, S) -> S,
>(
    projection: EyeProjection,
    signal: S,
    c: (S, S, S),
    math: &PaintMath<J, D, A, H, Q, T>,
    out: (S, S, S),
)
    requires
        call_ensures(
            paint::<S, J, D, A, H, Q, T>,
            (ColourRestore::Offset, projection, signal, c, math),
            out,
        ),
    ensures
        exists|passed: S, amount: S| #[trigger]
            call_ensures(math.project, (projection, c.0, c.1, c.2), passed) && #[trigger] call_ensures(
                math.minus,
                (signal, passed),
                amount,
            ) && call_ensures(math.plus, (c.0, amount), out.0) && call_ensures(
                math.plus,
                (c.1, amount),
                out.1,
            ) && call_ensures(math.plus, (c.2, amount), out.2),
{
    let passed = choose|passed: S| #[trigger]
        call_ensures(math.project, (projection, c.0, c.1, c.2), passed) && offset_to(
            math,
            passed,
            signal,
            c,
            out,
        );
    assert(offset_to(math, passed, signal, c, out));
}

/// Scaling multiplies every channel of the reference colour, lifted off black, by one and
/// the same number: the eye's signal over what the eye's filter would pass of that
/// colour, lifted off black too.
pub proof fn law_a_scale_is_the_same_for_every_channel<
    S: Copy,
    J: Fn(EyeProjection, S, S, S) -> S,
    D: Fn(S, S) -> S,
    A: Fn(S, S) -> S,
    H: Fn(S) -> S,
    Q: Fn(S, S) -> S,
    T: Fn(S, S) -> S,
>(
    projection: EyeProjection,
    signal: S,
    c: (S, S, S),
    math: &PaintMath<J, D, A, H, Q, T>,
    out: (S, S, S),
)
    requires
        call_ensures(
            paint::<S, J, D, A, H, Q, T>,
            (ColourRestore::Scale, projection, signal, c, math),
            out,
        ),
    ensures
        exists|passed: S, lifted: S, ratio: S| #[trigger]
            call_ensures(math.project, (projection, c.0, c.1, c.2), passed) && #[trigger] call_ensures(
                math.lift,
                (passed,),
                lifted,
            ) && #[trigger] call_ensures(math.over, (signal, lifted), ratio) && (exists|l: S| #[trigger]
                call_ensures(math.lift, (c.0,), l) && call_ensures(math.times, (l, ratio), out.0)) && (
            exists|l: S| #[trigger]
                call_ensures(math.lift, (c.1,), l) && call_ensures(math.times, (l, ratio), out.1)) && (
            exists|l: S| #[trigger]
                call_ensures(math.lift, (c.2,), l) && call_ensures(math.times, (l, ratio), out.2)),
{
    let passed = choose|passed: S| #[trigger]
        call_ensures(math.project, (projection, c.0, c.1, c.2), passed) && scaled_to(
            math,
            passed,
            signal,
            c,
            out,
        );
    let (lifted, ratio) = choose|lifted: S, ratio: S| #[trigger]
        call_ensures(math.lift, (passed,), lifted) && #[trigger] call_ensures(
            math.over,
            (signal, lifted),
            ratio,
        ) && lifted_by(math, ratio, c.0, out.0) && lifted_by(math, ratio, c.1, out.1) && lifted_by(
            math,
            ratio,
            c.2,
            out.2,
        );
    assert(lifted_by(math, ratio, c.0, out.0));
    assert(lifted_by(math, ratio, c.1, out.1));
    assert(lifted_by(math, ratio, c.2, out.2));
}

/// A frame is painted pixel by pixel, each signal with the colour in the same place, by
/// the filter and in the way asked for.
pub proof fn law_every_pixel_is_painted_in_place<
    S: Copy,
    J: Fn(EyeProjection, S, S, S) -> S,
    D: Fn(S, S) -> S,
    A: Fn(S, S) -> S,
    H: Fn(S) -> S,
    Q: Fn(S, S) -> S,
    T: Fn(S, S) -> S,
>(
    eye: &FrameF32<S>,
    colour: &FrameF32<S>,
    projection: EyeProjection,
    mode: ColourRestore,
    math: &PaintMath<J, D, A, H, Q, T>,
    out: FrameF32<S>,
    i: int,
)
    requires
        call_ensures(
            restore_colour::<S, J, D, A, H, Q, T>,
            (eye, colour, projection, mode, math),
            out,
        ),
        0 <= i < eye@.width * eye@.height,
    ensures
        out@.same_size(eye@) && out@.channels == 3,
        painted(math, mode, projection, eye@.samples[i], colour@.pixel(i), out@.pixel(i)),
{
}

} // verus!
