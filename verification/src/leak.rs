//! Cross-talk (ghosting) correction between the two extracted eyes.
//!
//! Anaglyph mastering always leaks a little of each eye into the other, which
//! shows as a ghost of the opposite view. Correction subtracts a fraction of
//! the opposite eye and then rescales back to full range.

use crate::frame::{FrameF32, Image};
use crate::scalar::{float, lemma_constants, F32, ZERO};
use vstd::prelude::*;

verus! {

/// `out` is the single plane `target` with each sample corrected against the
/// sample of `other` in the same place. A leak of nothing corrects nothing.
pub open spec fn corrected<S, C: Fn(F32, S, S) -> S>(
    correct: C,
    leak: F32,
    target: Image<S>,
    other: Image<S>,
    out: Image<S>,
) -> bool {
    if leak.equals(float(ZERO)) {
        out == target
    } else {
        &&& out.wf()
        &&& out.same_size(target)
        &&& out.channels == target.channels
        &&& forall|i: int|
            0 <= i < target.width * target.height ==> call_ensures(
                correct,
                (leak, target.samples[i], other.samples[i]),
                #[trigger] out.samples[i],
            )
    }
}

/// `correct` takes every pair of samples under every leak.
pub open spec fn corrects_all<S, C: Fn(F32, S, S) -> S>(correct: &C) -> bool {
    forall|leak: F32, t: S, o: S| #[trigger] call_requires(*correct, (leak, t, o))
}

/// Corrects both eyes against each other in place, the left first. `correct` does one
/// sample: it takes the leak, the sample and the other eye's.
pub fn correct_by<S: Copy, C: Fn(F32, S, S) -> S>(
    left: &mut FrameF32<S>,
    right: &mut FrameF32<S>,
    leak_left: F32,
    leak_right: F32,
    correct: &C,
)
    requires
        old(left)@.wf(),
        old(right)@.wf(),
        old(left)@.channels == 1,
        old(right)@.channels == 1,
        old(left)@.same_size(old(right)@),
        corrects_all(correct),
    ensures
        corrected(*correct, leak_left, old(left)@, old(right)@, final(left)@),
        corrected(*correct, leak_right, old(right)@, final(left)@, final(right)@),
        final(left)@.wf(),
        final(right)@.wf(),
        final(left)@.channels == 1,
        final(right)@.channels == 1,
        final(left)@.same_size(old(left)@),
        final(right)@.same_size(old(right)@),
{
    subtract_and_rescale(left, right, leak_left, correct);
    // Deliberately reads `left` after it has been corrected.
    subtract_and_rescale(right, left, leak_right, correct);
}

/// Corrects one eye against the other in place.
fn subtract_and_rescale<S: Copy, C: Fn(F32, S, S) -> S>(
    target: &mut FrameF32<S>,
    other: &FrameF32<S>,
    leak: F32,
    correct: &C,
)
    requires
        old(target)@.wf(),
        other@.wf(),
        old(target)@.channels == 1,
        other@.channels == 1,
        old(target)@.same_size(other@),
        corrects_all(correct),
    ensures
        corrected(*correct, leak, old(target)@, other@, final(target)@),
        final(target)@.wf(),
        final(target)@.channels == 1,
        final(target)@.same_size(old(target)@),
{
    if leak == (F32 { bits: ZERO }) {
        return;
    }
    let (w, h) = (target.width(), target.height());
    let ghost image = target@;
    let mut data: Vec<S> = Vec::new();
    let mut i: usize = 0;
    let (ts, os) = (target.as_slice(), other.as_slice());
    while i < ts.len()
        invariant
            i <= ts@.len() == os@.len(),
            corrects_all(correct),
            data@.len() == i,
            forall|k: int|
                0 <= k < i ==> call_ensures(*correct, (leak, ts@[k], os@[k]), #[trigger] data@[k]),
        decreases ts@.len() - i,
    {
        data.push(correct(leak, ts[i], os[i]));
        i += 1;
    }
    *target = FrameF32::from_planar(w, h, 1, data);
}

/// Without a leak either way, both eyes pass through untouched.
pub proof fn law_no_leak_no_change<S, C: Fn(F32, S, S) -> S>(
    correct: C,
    left: Image<S>,
    right: Image<S>,
    out_left: Image<S>,
    out_right: Image<S>,
    leak_left: F32,
    leak_right: F32,
)
    requires
        leak_left.equals(float(ZERO)),
        leak_right.equals(float(ZERO)),
        corrected(correct, leak_left, left, right, out_left),
        corrected(correct, leak_right, right, out_left, out_right),
    ensures
        out_left == left,
        out_right == right,
{
}

/// The arithmetic that freeing a sample of a leak is made of.
pub struct LeakMath<K, D, Z, R> {
    /// What leaks of the other eye's sample.
    pub leaking: K,
    /// The difference of two samples.
    pub minus: D,
    /// A sample, or black where it is below black.
    pub floor: Z,
    /// A sample brought back to full range after a leak was taken out.
    pub rescale: R,
}

/// The arithmetic takes every sample and every leak.
pub open spec fn frees_all<
    S,
    K: Fn(F32, S) -> S,
    D: Fn(S, S) -> S,
    Z: Fn(S) -> S,
    R: Fn(F32, S) -> S,
>(math: &LeakMath<K, D, Z, R>) -> bool {
    &&& forall|leak: F32, s: S| #[trigger] call_requires(math.leaking, (leak, s))
    &&& forall|a: S, b: S| #[trigger] call_requires(math.minus, (a, b))
    &&& forall|s: S| #[trigger] call_requires(math.floor, (s,))
    &&& forall|leak: F32, s: S| #[trigger] call_requires(math.rescale, (leak, s))
}

/// `out` is `target` less what leaks of `other`, held at black and rescaled.
pub open spec fn freed<
    S,
    K: Fn(F32, S) -> S,
    D: Fn(S, S) -> S,
    Z: Fn(S) -> S,
    R: Fn(F32, S) -> S,
>(math: &LeakMath<K, D, Z, R>, leak: F32, target: S, other: S, out: S) -> bool {
    exists|ghosting: S, rest: S, held: S| #[trigger]
        call_ensures(math.leaking, (leak, other), ghosting) && #[trigger] call_ensures(
            math.minus,
            (target, ghosting),
            rest,
        ) && #[trigger] call_ensures(math.floor, (rest,), held) && call_ensures(
            math.rescale,
            (leak, held),
            out,
        )
}

/// Frees one sample of the other eye's leak: subtracts a fraction of the other
/// sample, clamps at black and rescales.
pub fn free_of_leak<
    S: Copy,
    K: Fn(F32, S) -> S,
    D: Fn(S, S) -> S,
    Z: Fn(S) -> S,
    R: Fn(F32, S) -> S,
>(leak: F32, target: S, other: S, math: &LeakMath<K, D, Z, R>) -> (out: S)
    requires
        frees_all(math),
    ensures
        freed(math, leak, target, other, out),
{
    let ghosting = (math.leaking)(leak, other);
    let rest = (math.minus)(target, ghosting);
    let held = (math.floor)(rest);
    assert(call_ensures(math.leaking, (leak, other), ghosting));
    assert(call_ensures(math.minus, (target, ghosting), rest));
    assert(call_ensures(math.floor, (rest,), held));
    (math.rescale)(leak, held)
}

/// `out` is the single plane `target` with every sample freed of what leaks of the
/// sample of `other` in the same place. A leak of nothing changes nothing.
pub open spec fn plane_freed<
    S,
    K: Fn(F32, S) -> S,
    D: Fn(S, S) -> S,
    Z: Fn(S) -> S,
    R: Fn(F32, S) -> S,
>(
    math: &LeakMath<K, D, Z, R>,
    leak: F32,
    target: Image<S>,
    other: Image<S>,
    out: Image<S>,
) -> bool {
    if leak.equals(float(ZERO)) {
        out == target
    } else {
        &&& out.wf()
        &&& out.same_size(target)
        &&& out.channels == target.channels
        &&& forall|i: int|
            0 <= i < target.width * target.height ==> freed(
                math,
                leak,
                target.samples[i],
                other.samples[i],
                #[trigger] out.samples[i],
            )
    }
}

/// Subtracts cross-talk between the eyes in place.
///
/// `leak_left` is the fraction of the right eye bleeding into the left, and
/// `leak_right` the reverse. Both are fractions, not percentages.
///
/// Order matters: the left eye is corrected first, and the right eye is then
/// corrected against the *already corrected* left.
pub fn correct_crosstalk<
    S: Copy,
    K: Fn(F32, S) -> S,
    D: Fn(S, S) -> S,
    Z: Fn(S) -> S,
    R: Fn(F32, S) -> S,
>(
    left: &mut FrameF32<S>,
    right: &mut FrameF32<S>,
    leak_left: F32,
    leak_right: F32,
    math: &LeakMath<K, D, Z, R>,
)
    requires
        old(left)@.wf(),
        old(right)@.wf(),
        old(left)@.channels == 1,
        old(right)@.channels == 1,
        old(left)@.same_size(old(right)@),
        frees_all(math),
    ensures
        plane_freed(math, leak_left, old(left)@, old(right)@, final(left)@),
        plane_freed(math, leak_right, old(right)@, final(left)@, final(right)@),
{
    let ghost (l, r) = (left@, right@);
    let one = |leak: F32, t: S, o: S| -> (out: S)
        requires
            frees_all(math),
        ensures
            freed(math, leak, t, o, out),
        { free_of_leak(leak, t, o, math) };
    correct_by(left, right, leak_left, leak_right, &one);
    proof {
        if !leak_left.equals(float(ZERO)) {
            assert forall|i: int| 0 <= i < l.width * l.height implies freed(
                math,
                leak_left,
                l.samples[i],
                r.samples[i],
                #[trigger] left@.samples[i],
            ) by {
                assert(call_ensures(one, (leak_left, l.samples[i], r.samples[i]), left@.samples[i]));
            }
        }
        if !leak_right.equals(float(ZERO)) {
            assert forall|i: int| 0 <= i < r.width * r.height implies freed(
                math,
                leak_right,
                r.samples[i],
                left@.samples[i],
                #[trigger] right@.samples[i],
            ) by {
                assert(call_ensures(
                    one,
                    (leak_right, r.samples[i], left@.samples[i]),
                    right@.samples[i],
                ));
            }
        }
    }
}

/// `out` is a sample less so much of the other eye's sample, not below black, at full
/// range again.
pub open spec fn less_so_much<
    S,
    K: Fn(F32, S) -> S,
    D: Fn(S, S) -> S,
    Z: Fn(S) -> S,
    R: Fn(F32, S) -> S,
>(math: &LeakMath<K, D, Z, R>, leak: F32, own: S, other: S, steps: (S, S, S), out: S) -> bool {
    &&& call_ensures(math.leaking, (leak, other), steps.0)
    &&& call_ensures(math.minus, (own, steps.0), steps.1)
    &&& call_ensures(math.floor, (steps.1,), steps.2)
    &&& call_ensures(math.rescale, (leak, steps.2), out)
}

/// What leaks is a fraction of the other eye, and it is taken out of one's own.
pub proof fn law_a_leak_is_of_the_other_eye<
    S: Copy,
    K: Fn(F32, S) -> S,
    D: Fn(S, S) -> S,
    Z: Fn(S) -> S,
    R: Fn(F32, S) -> S,
>(
    leak: F32,
    own: S,
    other: S,
    math: &LeakMath<K, D, Z, R>,
    out: S,
)
    requires
        call_ensures(free_of_leak::<S, K, D, Z, R>, (leak, own, other, math), out),
    ensures
        exists|steps: (S, S, S)| #[trigger] less_so_much(math, leak, own, other, steps, out),
{
    let (ghosting, rest, held) = choose|ghosting: S, rest: S, held: S| #[trigger]
        call_ensures(math.leaking, (leak, other), ghosting) && #[trigger] call_ensures(
            math.minus,
            (own, ghosting),
            rest,
        ) && #[trigger] call_ensures(math.floor, (rest,), held) && call_ensures(
            math.rescale,
            (leak, held),
            out,
        );
    assert(less_so_much(math, leak, own, other, (ghosting, rest, held), out));
}

/// The left eye is freed of the right by its own leak, and the right of the left as it
/// then is by its own. An eye whose leak is nothing stays as it is, whatever the other's.
pub proof fn law_the_left_eye_is_freed_first<
    S: Copy,
    K: Fn(F32, S) -> S,
    D: Fn(S, S) -> S,
    Z: Fn(S) -> S,
    R: Fn(F32, S) -> S,
>(
    left: &mut FrameF32<S>,
    right: &mut FrameF32<S>,
    leak_left: F32,
    leak_right: F32,
    math: &LeakMath<K, D, Z, R>,
    i: int,
)
    requires
        call_ensures(
            correct_crosstalk::<S, K, D, Z, R>,
            (left, right, leak_left, leak_right, math),
            (),
        ),
        0 <= i < old(left)@.width * old(left)@.height,
        old(left)@.same_size(old(right)@),
    ensures
        leak_left.value() == 0 && !leak_left.nan() ==> final(left)@ == old(left)@,
        leak_right.value() == 0 && !leak_right.nan() ==> final(right)@ == old(right)@,
        leak_left.value() != 0 ==> exists|steps: (S, S, S)| #[trigger]
            less_so_much(
                math,
                leak_left,
                old(left)@.samples[i],
                old(right)@.samples[i],
                steps,
                final(left)@.samples[i],
            ),
        leak_right.value() != 0 ==> exists|steps: (S, S, S)| #[trigger]
            less_so_much(
                math,
                leak_right,
                old(right)@.samples[i],
                final(left)@.samples[i],
                steps,
                final(right)@.samples[i],
            ),
{
    lemma_constants();
    if leak_left.value() != 0 {
        let (own, other, out) = (
            old(left)@.samples[i],
            old(right)@.samples[i],
            final(left)@.samples[i],
        );
        let (a, b, c) = choose|a: S, b: S, c: S| #[trigger]
            call_ensures(math.leaking, (leak_left, other), a) && #[trigger] call_ensures(
                math.minus,
                (own, a),
                b,
            ) && #[trigger] call_ensures(math.floor, (b,), c) && call_ensures(
                math.rescale,
                (leak_left, c),
                out,
            );
        assert(less_so_much(math, leak_left, own, other, (a, b, c), out));
    }
    if leak_right.value() != 0 {
        let (own, other, out) = (
            old(right)@.samples[i],
            final(left)@.samples[i],
            final(right)@.samples[i],
        );
        let (a, b, c) = choose|a: S, b: S, c: S| #[trigger]
            call_ensures(math.leaking, (leak_right, other), a) && #[trigger] call_ensures(
                math.minus,
                (own, a),
                b,
            ) && #[trigger] call_ensures(math.floor, (b,), c) && call_ensures(
                math.rescale,
                (leak_right, c),
                out,
            );
        assert(less_so_much(math, leak_right, own, other, (a, b, c), out));
    }
}

} // verus!
