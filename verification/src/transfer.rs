//! Opto-electronic transfer functions.
//!
//! Cross-talk subtraction and blur are physically additive operations on light,
//! so the pipeline converts to linear light before doing either. Decoded video
//! arrives gamma-encoded; these functions move between the two.

use crate::frame::{FrameF32, Image};
use vstd::prelude::*;

verus! {

/// Which transfer function the encoded samples use.
#[derive(Debug, Clone, Copy, PartialEq, Eq, Structural)]
pub enum TransferFunction {
    /// IEC 61966-2-1. The default: consumer rips are judged on sRGB displays.
    Srgb,
    /// ITU-R BT.709 camera OETF.
    Bt709,
    /// No conversion: samples are already linear light.
    Linear,
}

impl Default for TransferFunction {
    fn default() -> (r: Self)
        ensures
            r == TransferFunction::Srgb,
    {
        TransferFunction::Srgb
    }
}

impl TransferFunction {
    /// True when the function is a no-op, so callers can skip whole passes.
    pub fn is_identity(self) -> (r: bool)
        ensures
            r == (self == TransferFunction::Linear),
    {
        self == TransferFunction::Linear
    }
}

/// The arithmetic that one direction of the curves is made of.
pub struct CurveMath<N, M, B, T, W> {
    /// Whether a sample is below black.
    pub negative: N,
    /// The mirror image of a sample about black.
    pub mirror: M,
    /// Whether a sample lies on the straight toe of a curve.
    pub on_toe: B,
    /// A sample moved along a curve's toe.
    pub toe: T,
    /// A sample moved along a curve's power.
    pub power: W,
}

/// The arithmetic takes every sample.
pub open spec fn bends_all<
    S,
    N: Fn(S) -> bool,
    M: Fn(S) -> S,
    B: Fn(TransferFunction, S) -> bool,
    T: Fn(TransferFunction, S) -> S,
    W: Fn(TransferFunction, S) -> S,
>(math: &CurveMath<N, M, B, T, W>) -> bool {
    &&& forall|s: S| #[trigger] call_requires(math.negative, (s,))
    &&& forall|s: S| #[trigger] call_requires(math.mirror, (s,))
    &&& forall|tf: TransferFunction, s: S| #[trigger] call_requires(math.on_toe, (tf, s))
    &&& forall|tf: TransferFunction, s: S| #[trigger] call_requires(math.toe, (tf, s))
    &&& forall|tf: TransferFunction, s: S| #[trigger] call_requires(math.power, (tf, s))
}

/// `out` is a sample that is not below black, moved along a curve: nowhere when
/// there is no conversion, and otherwise along the toe or the power.
pub open spec fn bent<
    S,
    N: Fn(S) -> bool,
    M: Fn(S) -> S,
    B: Fn(TransferFunction, S) -> bool,
    T: Fn(TransferFunction, S) -> S,
    W: Fn(TransferFunction, S) -> S,
>(math: &CurveMath<N, M, B, T, W>, tf: TransferFunction, s: S, out: S) -> bool {
    if tf == TransferFunction::Linear {
        out == s
    } else {
        exists|straight: bool| #[trigger]
            call_ensures(math.on_toe, (tf, s), straight) && if straight {
                call_ensures(math.toe, (tf, s), out)
            } else {
                call_ensures(math.power, (tf, s), out)
            }
    }
}

/// `out` is the mirror image of where the mirror image of `s` is moved.
pub open spec fn bent_below<
    S,
    N: Fn(S) -> bool,
    M: Fn(S) -> S,
    B: Fn(TransferFunction, S) -> bool,
    T: Fn(TransferFunction, S) -> S,
    W: Fn(TransferFunction, S) -> S,
>(math: &CurveMath<N, M, B, T, W>, tf: TransferFunction, s: S, out: S) -> bool {
    exists|above: S, moved: S| #[trigger]
        call_ensures(math.mirror, (s,), above) && bent(math, tf, above, moved)
            && #[trigger] call_ensures(math.mirror, (moved,), out)
}

/// `out` is any sample moved along a curve. The curves are odd, so negative headroom
/// survives the conversion.
pub open spec fn moved<
    S,
    N: Fn(S) -> bool,
    M: Fn(S) -> S,
    B: Fn(TransferFunction, S) -> bool,
    T: Fn(TransferFunction, S) -> S,
    W: Fn(TransferFunction, S) -> S,
>(math: &CurveMath<N, M, B, T, W>, tf: TransferFunction, s: S, out: S) -> bool {
    exists|below: bool| #[trigger]
        call_ensures(math.negative, (s,), below) && if below {
            bent_below(math, tf, s, out)
        } else {
            bent(math, tf, s, out)
        }
}

impl TransferFunction {
    /// Converts one gamma-encoded sample to linear light.
    pub fn to_linear<
        S: Copy,
        N: Fn(S) -> bool,
        M: Fn(S) -> S,
        B: Fn(TransferFunction, S) -> bool,
        T: Fn(TransferFunction, S) -> S,
        W: Fn(TransferFunction, S) -> S,
    >(self, encoded: S, math: &CurveMath<N, M, B, T, W>) -> (out: S)
        requires
            bends_all(math),
        ensures
            moved(math, self, encoded, out),
    {
        move_along(self, encoded, math)
    }

    /// Converts one linear-light sample to gamma-encoded.
    pub fn from_linear<
        S: Copy,
        N: Fn(S) -> bool,
        M: Fn(S) -> S,
        B: Fn(TransferFunction, S) -> bool,
        T: Fn(TransferFunction, S) -> S,
        W: Fn(TransferFunction, S) -> S,
    >(self, linear: S, math: &CurveMath<N, M, B, T, W>) -> (out: S)
        requires
            bends_all(math),
        ensures
            moved(math, self, linear, out),
    {
        move_along(self, linear, math)
    }
}

/// Moves one sample along a curve, with odd symmetry.
fn move_along<
    S: Copy,
    N: Fn(S) -> bool,
    M: Fn(S) -> S,
    B: Fn(TransferFunction, S) -> bool,
    T: Fn(TransferFunction, S) -> S,
    W: Fn(TransferFunction, S) -> S,
>(tf: TransferFunction, s: S, math: &CurveMath<N, M, B, T, W>) -> (out: S)
    requires
        bends_all(math),
    ensures
        moved(math, tf, s, out),
{
    let below: bool = (math.negative)(s);
    if below {
        let above = (math.mirror)(s);
        let bent_sample = bend(tf, above, math);
        let out = (math.mirror)(bent_sample);
        assert(call_ensures(math.mirror, (s,), above));
        assert(bent_below(math, tf, s, out));
        assert(call_ensures(math.negative, (s,), below));
        out
    } else {
        let out = bend(tf, s, math);
        assert(call_ensures(math.negative, (s,), below));
        out
    }
}

/// Moves one sample that is not below black along a curve.
fn bend<
    S: Copy,
    N: Fn(S) -> bool,
    M: Fn(S) -> S,
    B: Fn(TransferFunction, S) -> bool,
    T: Fn(TransferFunction, S) -> S,
    W: Fn(TransferFunction, S) -> S,
>(tf: TransferFunction, s: S, math: &CurveMath<N, M, B, T, W>) -> (out: S)
    requires
        bends_all(math),
    ensures
        bent(math, tf, s, out),
{
    if tf == TransferFunction::Linear {
        return s;
    }
    let straight: bool = (math.on_toe)(tf, s);
    assert(call_ensures(math.on_toe, (tf, s), straight));
    if straight {
        (math.toe)(tf, s)
    } else {
        (math.power)(tf, s)
    }
}

/// `out` is `image` with every sample moved along the curve of `tf`.
pub open spec fn converted<S, F: Fn(TransferFunction, S) -> S>(
    curve: F,
    tf: TransferFunction,
    image: Image<S>,
    out: Image<S>,
) -> bool {
    if tf == TransferFunction::Linear {
        out == image
    } else {
        &&& out.width == image.width
        &&& out.height == image.height
        &&& out.channels == image.channels
        &&& out.samples.len() == image.samples.len()
        &&& forall|i: int|
            0 <= i < image.samples.len() ==> call_ensures(
                curve,
                (tf, image.samples[i]),
                #[trigger] out.samples[i],
            )
    }
}

/// `curve` takes every sample under every transfer function.
pub open spec fn curves_all<S, F: Fn(TransferFunction, S) -> S>(curve: &F) -> bool {
    forall|tf: TransferFunction, s: S| #[trigger] call_requires(*curve, (tf, s))
}

/// `curve` may move `s` to `t` under `tf`.
pub open spec fn curves_to<S, F: Fn(TransferFunction, S) -> S>(
    curve: &F,
    tf: TransferFunction,
    s: S,
    t: S,
) -> bool {
    call_ensures(*curve, (tf, s), t)
}

/// Moves a whole frame along a curve, over all cores.
fn convert<S: Copy + Send + Sync, F: Fn(TransferFunction, S) -> S + Sync + Send>(
    frame: &FrameF32<S>,
    tf: TransferFunction,
    curve: &F,
) -> (out: FrameF32<S>)
    requires
        frame@.wf(),
        curves_all(curve),
    ensures
        converted(*curve, tf, frame@, out@),
        out@.wf(),
        out@.same_size(frame@),
        out@.channels == frame@.channels,
{
    if tf.is_identity() {
        return frame.clone();
    }
    let along = |s: S| -> (t: S)
        requires
            curves_all(curve),
        ensures
            curves_to(curve, tf, s, t),
        { curve(tf, s) };
    frame.map(along)
}

/// Moves a whole frame along a curve that is handed in.
pub fn convert_by<S: Copy + Send + Sync, F: Fn(TransferFunction, S) -> S + Sync + Send>(
    frame: &mut FrameF32<S>,
    tf: TransferFunction,
    curve: &F,
)
    requires
        old(frame)@.wf(),
        curves_all(curve),
    ensures
        converted(*curve, tf, old(frame)@, final(frame)@),
        final(frame)@.wf(),
        final(frame)@.same_size(old(frame)@),
        final(frame)@.channels == old(frame)@.channels,
{
    *frame = convert(frame, tf, curve);
}

/// `out` is `image` with every sample moved along a curve, and `image` itself when
/// there is no conversion.
pub open spec fn frame_moved<
    S,
    N: Fn(S) -> bool,
    M: Fn(S) -> S,
    B: Fn(TransferFunction, S) -> bool,
    T: Fn(TransferFunction, S) -> S,
    W: Fn(TransferFunction, S) -> S,
>(math: &CurveMath<N, M, B, T, W>, tf: TransferFunction, image: Image<S>, out: Image<S>) -> bool {
    if tf == TransferFunction::Linear {
        out == image
    } else {
        &&& out.width == image.width
        &&& out.height == image.height
        &&& out.channels == image.channels
        &&& out.samples.len() == image.samples.len()
        &&& forall|i: int|
            0 <= i < image.samples.len() ==> moved(
                math,
                tf,
                image.samples[i],
                #[trigger] out.samples[i],
            )
    }
}

/// Moves every sample of a frame along a curve.
fn move_frame<
    S: Copy + Send + Sync,
    N: Fn(S) -> bool + Sync + Send,
    M: Fn(S) -> S + Sync + Send,
    B: Fn(TransferFunction, S) -> bool + Sync + Send,
    T: Fn(TransferFunction, S) -> S + Sync + Send,
    W: Fn(TransferFunction, S) -> S + Sync + Send,
>(frame: &mut FrameF32<S>, tf: TransferFunction, math: &CurveMath<N, M, B, T, W>)
    requires
        old(frame)@.wf(),
        bends_all(math),
    ensures
        frame_moved(math, tf, old(frame)@, final(frame)@),
        final(frame)@.wf(),
{
    let ghost before = frame@;
    let along = |tf: TransferFunction, s: S| -> (t: S)
        requires
            bends_all(math),
        ensures
            moved(math, tf, s, t),
        { move_along(tf, s, math) };
    convert_by(frame, tf, &along);
    if !tf.is_identity() {
        assert forall|i: int| 0 <= i < before.samples.len() implies moved(
            math,
            tf,
            before.samples[i],
            #[trigger] frame@.samples[i],
        ) by {
            assert(call_ensures(along, (tf, before.samples[i]), frame@.samples[i]));
        }
    }
}

/// Converts a whole frame to linear light.
pub fn to_linear_frame<
    S: Copy + Send + Sync,
    N: Fn(S) -> bool + Sync + Send,
    M: Fn(S) -> S + Sync + Send,
    B: Fn(TransferFunction, S) -> bool + Sync + Send,
    T: Fn(TransferFunction, S) -> S + Sync + Send,
    W: Fn(TransferFunction, S) -> S + Sync + Send,
>(frame: &mut FrameF32<S>, tf: TransferFunction, math: &CurveMath<N, M, B, T, W>)
    requires
        old(frame)@.wf(),
        bends_all(math),
    ensures
        frame_moved(math, tf, old(frame)@, final(frame)@),
        final(frame)@.wf(),
{
    move_frame(frame, tf, math);
}

/// Converts a whole frame back to gamma-encoded.
pub fn from_linear_frame<
    S: Copy + Send + Sync,
    N: Fn(S) -> bool + Sync + Send,
    M: Fn(S) -> S + Sync + Send,
    B: Fn(TransferFunction, S) -> bool + Sync + Send,
    T: Fn(TransferFunction, S) -> S + Sync + Send,
    W: Fn(TransferFunction, S) -> S + Sync + Send,
>(frame: &mut FrameF32<S>, tf: TransferFunction, math: &CurveMath<N, M, B, T, W>)
    requires
        old(frame)@.wf(),
        bends_all(math),
    ensures
        frame_moved(math, tf, old(frame)@, final(frame)@),
        final(frame)@.wf(),
{
    move_frame(frame, tf, math);
}

/// Converting to linear light and back changes nothing, where the one curve
/// undoes the other.
pub proof fn law_conversion_round_trips<
    S,
    F: Fn(TransferFunction, S) -> S,
    G: Fn(TransferFunction, S) -> S,
>(there: F, back: G, tf: TransferFunction, image: Image<S>, linear: Image<S>, out: Image<S>)
    requires
        converted(there, tf, image, linear),
        converted(back, tf, linear, out),
        forall|s: S, t: S, u: S| #[trigger]
            call_ensures(there, (tf, s), t) && #[trigger] call_ensures(back, (tf, t), u) ==> u == s,
    ensures
        out == image,
{
    if tf != TransferFunction::Linear {
        assert forall|i: int| 0 <= i < image.samples.len() implies out.samples[i]
            == image.samples[i] by {
            assert(call_ensures(there, (tf, image.samples[i]), linear.samples[i]));
            assert(call_ensures(back, (tf, linear.samples[i]), out.samples[i]));
        }
        assert(out =~= image);
    }
}

/// Negative headroom survives: the mirror image of a sample goes to the mirror image
/// of where the sample goes.
pub proof fn law_the_curves_are_odd<
    S,
    N: Fn(S) -> bool,
    M: Fn(S) -> S,
    B: Fn(TransferFunction, S) -> bool,
    T: Fn(TransferFunction, S) -> S,
    W: Fn(TransferFunction, S) -> S,
>(math: &CurveMath<N, M, B, T, W>, tf: TransferFunction, above: S, below: S, out: S, mirrored: S)
    requires
        call_ensures(math.negative, (below,), true),
        call_ensures(math.mirror, (below,), above),
        forall|b: bool| #[trigger] call_ensures(math.negative, (above,), b) ==> !b,
        moved(math, tf, above, out),
        call_ensures(math.mirror, (out,), mirrored),
    ensures
        moved(math, tf, below, mirrored),
{
    assert(bent(math, tf, above, out));
    assert(bent_below(math, tf, below, mirrored));
}

/// `out` is where a curve takes a sample that is not below black.
pub open spec fn on_curve<
    S,
    N: Fn(S) -> bool,
    M: Fn(S) -> S,
    B: Fn(TransferFunction, S) -> bool,
    T: Fn(TransferFunction, S) -> S,
    W: Fn(TransferFunction, S) -> S,
>(math: &CurveMath<N, M, B, T, W>, tf: TransferFunction, s: S, out: S) -> bool {
    match tf {
        TransferFunction::Linear => out == s,
        _ => {
            ||| call_ensures(math.on_toe, (tf, s), true) && call_ensures(math.toe, (tf, s), out)
            ||| call_ensures(math.on_toe, (tf, s), false) && call_ensures(math.power, (tf, s), out)
        },
    }
}

/// Both directions take a sample along the toe where it lies on the toe and along the
/// power where it does not, nowhere when there is no conversion, and one below black by
/// way of its mirror image.
pub proof fn law_a_sample_follows_the_curve_it_is_on<
    S: Copy,
    N: Fn(S) -> bool,
    M: Fn(S) -> S,
    B: Fn(TransferFunction, S) -> bool,
    T: Fn(TransferFunction, S) -> S,
    W: Fn(TransferFunction, S) -> S,
>(
    tf: TransferFunction,
    s: S,
    math: &CurveMath<N, M, B, T, W>,
    there: S,
    back: S,
)
    requires
        call_ensures(TransferFunction::to_linear::<S, N, M, B, T, W>, (tf, s, math), there),
        call_ensures(TransferFunction::from_linear::<S, N, M, B, T, W>, (tf, s, math), back),
    ensures
        !call_ensures(math.negative, (s,), true) ==> on_curve(math, tf, s, there),
        !call_ensures(math.negative, (s,), true) ==> on_curve(math, tf, s, back),
        !call_ensures(math.negative, (s,), false) ==> exists|above: S, on: S| #[trigger]
            call_ensures(math.mirror, (s,), above) && #[trigger] call_ensures(math.mirror, (on,), there)
                && on_curve(math, tf, above, on),
        !call_ensures(math.negative, (s,), false) ==> exists|above: S, on: S| #[trigger]
            call_ensures(math.mirror, (s,), above) && #[trigger] call_ensures(math.mirror, (on,), back)
                && on_curve(math, tf, above, on),
{
    assert forall|x: S, y: S| bent(math, tf, x, y) implies #[trigger] on_curve(math, tf, x, y) by {
        if tf != TransferFunction::Linear {
            let straight = choose|straight: bool| #[trigger]
                call_ensures(math.on_toe, (tf, x), straight) && if straight {
                    call_ensures(math.toe, (tf, x), y)
                } else {
                    call_ensures(math.power, (tf, x), y)
                };
        }
    }
    if !call_ensures(math.negative, (s,), true) {
        assert(bent(math, tf, s, there) && bent(math, tf, s, back));
        assert(on_curve(math, tf, s, there) && on_curve(math, tf, s, back));
    }
    if !call_ensures(math.negative, (s,), false) {
        assert(bent_below(math, tf, s, there) && bent_below(math, tf, s, back));
        let (a, m) = choose|a: S, m: S| #[trigger]
            call_ensures(math.mirror, (s,), a) && bent(math, tf, a, m) && #[trigger] call_ensures(
                math.mirror,
                (m,),
                there,
            );
        assert(on_curve(math, tf, a, m));
        let (b, n) = choose|b: S, n: S| #[trigger]
            call_ensures(math.mirror, (s,), b) && bent(math, tf, b, n) && #[trigger] call_ensures(
                math.mirror,
                (n,),
                back,
            );
        assert(on_curve(math, tf, b, n));
    }
}

/// A frame is converted sample by sample in place, and left alone when there is no
/// conversion.
pub proof fn law_every_sample_is_converted_in_place<
    S: Copy + Send + Sync,
    N: Fn(S) -> bool + Sync + Send,
    M: Fn(S) -> S + Sync + Send,
    B: Fn(TransferFunction, S) -> bool + Sync + Send,
    T: Fn(TransferFunction, S) -> S + Sync + Send,
    W: Fn(TransferFunction, S) -> S + Sync + Send,
>(
    frame: &mut FrameF32<S>,
    other: &mut FrameF32<S>,
    tf: TransferFunction,
    math: &CurveMath<N, M, B, T, W>,
    i: int,
)
    requires
        call_ensures(to_linear_frame::<S, N, M, B, T, W>, (frame, tf, math), ()),
        call_ensures(from_linear_frame::<S, N, M, B, T, W>, (other, tf, math), ()),
    ensures
        tf == TransferFunction::Linear ==> final(frame)@ == old(frame)@,
        tf == TransferFunction::Linear ==> final(other)@ == old(other)@,
        tf != TransferFunction::Linear && 0 <= i < old(frame)@.samples.len() ==> moved(
            math,
            tf,
            old(frame)@.samples[i],
            final(frame)@.samples[i],
        ),
        tf != TransferFunction::Linear && 0 <= i < old(other)@.samples.len() ==> moved(
            math,
            tf,
            old(other)@.samples[i],
            final(other)@.samples[i],
        ),
        final(frame)@.same_size(old(frame)@) && final(other)@.same_size(old(other)@),
{
}

} // verus!
