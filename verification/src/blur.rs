//! Separable blur.
//!
//! Two stages need blur, for different reasons:
//!
//! * The colour reference is blurred hard horizontally and softly vertically.
//!   Anaglyph disparity is a horizontal shift, so colour sampled at a given
//!   pixel belongs somewhere nearby on the x axis; smearing it there is what
//!   makes colour restoration work at all.
//! * Either eye's luma can be blurred horizontally to suppress the white
//!   fringes that excessive edge peaking leaves on DVD-era transfers.
//!
//! A blur works on lines of samples, first along the rows and then down the
//! columns. Past either end of a line its border sample repeats, so a flat field
//! stays flat right up to the border instead of darkening towards it.

use crate::compose::{clamped, lemma_weighs_step, level, normalise, normalised, sums, weighs};
use crate::frame::{lemma_image_ext, FrameF32, Image};
use crate::parallel::par_tabulate;
use crate::scalar::{float, F32, HUNDRED, ONE, TENTH};
use vstd::prelude::*;

verus! {

/// 0.001: at this sigma or less there is nothing to do.
pub const NO_BLUR: u32 = 0x3A83_126F;

/// 4: above this sigma the exact convolution is abandoned for repeated box
/// passes. Below it the kernel is small enough that exactness is nearly free,
/// and a three-tap box is a poor stand-in for a narrow Gaussian.
pub const BOX_BLUR_THRESHOLD: u32 = 0x4080_0000;

/// The shrink factor that counts: never less than 1, which a NaN counts as.
pub open spec fn shrink_used(factor: F32) -> F32 {
    if float(ONE).at_most(factor) {
        factor
    } else {
        float(ONE)
    }
}

/// Converts a shrink factor into the sigma of a comparable Gaussian; `spread` works it
/// out for a factor of at least 1.
///
/// Both blur controls are expressed as "shrink by this much and scale back up", one
/// as a percentage and one as a direct divisor, so both land here. A factor of 1
/// means no blur at all.
pub fn sigma_from_shrink<H: Fn(F32) -> F32>(factor: F32, spread: &H) -> (sigma: F32)
    requires
        forall|f: F32| #[trigger] call_requires(*spread, (f,)),
    ensures
        call_ensures(*spread, (shrink_used(factor),), sigma),
{
    let one = F32 { bits: ONE };
    if one.le(factor) {
        spread(factor)
    } else {
        spread(one)
    }
}

/// `sigma` is that of a percentage: of the factor it shrinks by, once it is brought
/// between a tenth and a hundred.
pub open spec fn spreads_percent<D: Fn(F32) -> F32, H: Fn(F32) -> F32>(
    factor: D,
    spread: H,
    percent: F32,
    sigma: F32,
) -> bool {
    exists|f: F32| #[trigger]
        call_ensures(factor, (percent.clamped(float(TENTH), float(HUNDRED)),), f) && call_ensures(
            spread,
            (shrink_used(f),),
            sigma,
        )
}

/// Converts a `decimate` percentage into a Gaussian sigma; `factor` says how far a
/// percentage shrinks.
///
/// The percentage describes how far the colour reference is shrunk before being
/// scaled back up: 100 means no shrink, 5 means a twentieth.
pub fn sigma_from_decimate<D: Fn(F32) -> F32, H: Fn(F32) -> F32>(
    percent: F32,
    factor: &D,
    spread: &H,
) -> (sigma: F32)
    requires
        forall|p: F32| #[trigger] call_requires(*factor, (p,)),
        forall|f: F32| #[trigger] call_requires(*spread, (f,)),
    ensures
        spreads_percent(*factor, *spread, percent, sigma),
{
    let used = percent.clamp(F32 { bits: TENTH }, F32 { bits: HUNDRED });
    let f = factor(used);
    assert(call_ensures(*factor, (percent.clamped(float(TENTH), float(HUNDRED)),), f));
    sigma_from_shrink(f, spread)
}

/// How one axis will be blurred.
pub enum BlurPlan<S> {
    /// Nothing to do.
    Skip,
    /// Direct convolution with an explicit kernel.
    Exact(Vec<S>),
    /// Three box passes of the given radii, which converge on a Gaussian and
    /// cost the same per pixel no matter how wide they are. That flat cost is
    /// what keeps the preview responsive while a blur slider is being dragged.
    Boxes([usize; 3]),
}

/// The sample arithmetic a blur is made of.
pub struct BlurMath<S, A, P, L, M> {
    /// What a sum starts from.
    pub zero: S,
    /// Adds a weight times a sample to a sum.
    pub accumulate: A,
    /// Adds a sample to a sum.
    pub plus: P,
    /// Adds one sample to a sum and takes another away.
    pub slide: L,
    /// Divides a sum by how many samples are in it.
    pub mean: M,
}

/// The widest box a plan may ask for.
pub open spec fn box_fits(radius: usize) -> bool {
    2 * radius + 1 <= usize::MAX
}

impl<S> BlurPlan<S> {
    pub open spec fn wf(&self) -> bool {
        match *self {
            BlurPlan::Boxes(radii) => box_fits(radii[0]) && box_fits(radii[1]) && box_fits(radii[2]),
            _ => true,
        }
    }
}

/// `plan` is how to blur by `sigma`: not at all, by the kernel that `kernel`
/// makes, or by the boxes that `radii` sizes.
pub open spec fn planned<S, K: Fn(F32) -> Vec<S>, B: Fn(F32) -> [usize; 3]>(
    kernel: K,
    radii: B,
    sigma: F32,
    plan: BlurPlan<S>,
) -> bool {
    if sigma.nan() || sigma.at_most(float(NO_BLUR)) {
        plan is Skip
    } else if sigma.at_most(float(BOX_BLUR_THRESHOLD)) {
        plan matches BlurPlan::Exact(k) && call_ensures(kernel, (sigma,), k)
    } else {
        plan matches BlurPlan::Boxes(r) && call_ensures(radii, (sigma,), r)
    }
}

impl<S> BlurPlan<S> {
    /// Chooses how to blur by `sigma`.
    pub fn for_sigma<K: Fn(F32) -> Vec<S>, B: Fn(F32) -> [usize; 3]>(
        sigma: F32,
        kernel: &K,
        radii: &B,
    ) -> (plan: Self)
        requires
            !sigma.nan() ==> call_requires(*kernel, (sigma,)) && call_requires(*radii, (sigma,)),
        ensures
            planned(*kernel, *radii, sigma, plan),
    {
        if sigma.is_nan() || sigma.le(F32 { bits: NO_BLUR }) {
            BlurPlan::Skip
        } else if sigma.le(F32 { bits: BOX_BLUR_THRESHOLD }) {
            BlurPlan::Exact(kernel(sigma))
        } else {
            BlurPlan::Boxes(radii(sigma))
        }
    }
}

/// The sample that stands for position `i` of a line.
pub open spec fn line_at<S>(line: Seq<S>, i: int) -> S {
    line[clamped(i, line.len() as int)]
}

/// The samples around position `x` that a kernel of `n` weighs.
pub open spec fn around<S>(line: Seq<S>, x: int, n: nat) -> Seq<S> {
    Seq::new(n, |i: int| line_at(line, x + i - n as int / 2))
}

/// `out` is `line` convolved with `kernel`.
pub open spec fn convolved<S, A: Fn(S, S, S) -> S>(
    accumulate: A,
    zero: S,
    kernel: Seq<S>,
    line: Seq<S>,
    out: Seq<S>,
) -> bool {
    &&& out.len() == line.len()
    &&& forall|x: int|
        0 <= x < line.len() ==> weighs(
            accumulate,
            zero,
            kernel,
            around(line, x, kernel.len()),
            #[trigger] out[x],
        )
}

/// The narrower of the two box widths around an ideal one: the odd number at or
/// below it, and at least 1.
pub open spec fn narrow_width(ideal: int) -> int {
    if ideal <= 1 {
        1
    } else if ideal % 2 == 0 {
        ideal - 1
    } else {
        ideal
    }
}

/// The radius of box pass `i`: of the narrower width where it is among the first
/// `narrow`, and otherwise of the next odd width.
pub open spec fn pass_radius(ideal: int, narrow: int, i: int) -> int {
    if i < narrow {
        (narrow_width(ideal) - 1) / 2
    } else {
        (narrow_width(ideal) + 1) / 2
    }
}

/// Radii for three box passes of the two odd widths around an ideal one, so that
/// their combined variance comes closest; `narrow` says how many passes should use
/// the narrower width.
///
/// Three passes is the usual stopping point: the sum of three uniform distributions
/// is already close enough to a Gaussian that the difference does not survive being
/// looked at.
pub fn box_radii_for<N: Fn(i32) -> usize>(ideal: i32, narrow: &N) -> (radii: [usize; 3])
    requires
        forall|w: i32| #[trigger] call_requires(*narrow, (w,)),
    ensures
        exists|n: usize| #[trigger]
            call_ensures(*narrow, (narrow_width(ideal as int) as i32,), n) && (forall|i: int|
                0 <= i < 3 ==> #[trigger] radii[i] == pass_radius(ideal as int, n as int, i)),
        forall|i: int| 0 <= i < 3 ==> box_fits(#[trigger] radii[i]),
{
    let lower: i32 = if ideal <= 1 {
        1
    } else if (ideal as u32) % 2 == 0 {
        ideal - 1
    } else {
        ideal
    };
    let n: usize = narrow(lower);
    let close: usize = (lower as usize - 1) / 2;
    let wide: usize = close + 1;
    let radii: [usize; 3] = [
        if 0 < n {
            close
        } else {
            wide
        },
        if 1 < n {
            close
        } else {
            wide
        },
        if 2 < n {
            close
        } else {
            wide
        },
    ];
    assert(call_ensures(*narrow, (narrow_width(ideal as int) as i32,), n));
    assert forall|i: int| 0 <= i < 3 implies #[trigger] radii[i] == pass_radius(
        ideal as int,
        n as int,
        i,
    ) && box_fits(radii[i]) by {
        assert(i == 0 || i == 1 || i == 2);
    }
    radii
}

/// `raw` is what `weight` gives for each of `n` positions.
pub open spec fn weighted<S, W: Fn(usize) -> S>(weight: W, n: nat, raw: Seq<S>) -> bool {
    &&& raw.len() == n
    &&& forall|i: int| 0 <= i < n ==> call_ensures(weight, (i as usize,), #[trigger] raw[i])
}

/// Builds a normalised kernel of a radius; `weight` says what each position weighs
/// before, and `share` divides a weight by the sum of all.
pub fn gaussian_kernel<
    S: Copy,
    W: Fn(usize) -> S,
    P: Fn(S, S) -> S,
    D: Fn(S, S) -> S,
>(radius: usize, weight: &W, zero: S, plus: &P, share: &D) -> (kernel: Vec<S>)
    requires
        box_fits(radius),
        forall|i: usize| i <= 2 * radius ==> #[trigger] call_requires(*weight, (i,)),
        forall|a: S, b: S| #[trigger] call_requires(*plus, (a, b)),
        forall|a: S, b: S| #[trigger] call_requires(*share, (a, b)),
    ensures
        exists|raw: Seq<S>, sum: S| #[trigger]
            normalised(*plus, *share, zero, raw, sum, kernel@) && weighted(
                *weight,
                (2 * radius + 1) as nat,
                raw,
            ),
{
    let n: usize = 2 * radius + 1;
    let mut raw: Vec<S> = Vec::new();
    while raw.len() < n
        invariant
            raw@.len() <= n,
            n == 2 * radius + 1,
            forall|i: usize| i <= 2 * radius ==> #[trigger] call_requires(*weight, (i,)),
            forall|i: int|
                0 <= i < raw@.len() ==> call_ensures(*weight, (i as usize,), #[trigger] raw@[i]),
        decreases n - raw@.len(),
    {
        raw.push(weight(raw.len()));
    }
    let kernel = normalise(&raw, zero, plus, share);
    assert(weighted(*weight, n as nat, raw@));
    kernel
}

/// The samples that the box of `radius` around the first position covers.
pub open spec fn first_box<S>(line: Seq<S>, radius: int) -> Seq<S> {
    Seq::new((2 * radius + 1) as nat, |k: int| line_at(line, k - radius))
}

/// `running` holds the sum of the box around each position: the first added up,
/// each later one slid along from the one before.
pub open spec fn slides<S, P: Fn(S, S) -> S, L: Fn(S, S, S) -> S>(
    plus: P,
    slide: L,
    zero: S,
    radius: int,
    line: Seq<S>,
    running: Seq<S>,
) -> bool {
    &&& running.len() == line.len()
    &&& line.len() > 0 ==> sums(plus, zero, first_box(line, radius), running[0])
    &&& forall|x: int|
        1 <= x < line.len() ==> call_ensures(
            slide,
            (running[x - 1], line_at(line, x + radius), line_at(line, x - radius - 1)),
            #[trigger] running[x],
        )
}

/// `out` is `line` after one box pass: the mean of the box around each position.
pub open spec fn boxed<S, A, P: Fn(S, S) -> S, L: Fn(S, S, S) -> S, M: Fn(S, usize) -> S>(
    math: &BlurMath<S, A, P, L, M>,
    radius: usize,
    line: Seq<S>,
    out: Seq<S>,
) -> bool {
    if radius == 0 {
        out == line
    } else {
        &&& out.len() == line.len()
        &&& exists|running: Seq<S>| #[trigger]
            slides(math.plus, math.slide, math.zero, radius as int, line, running) && (forall|x: int|
                0 <= x < line.len() ==> call_ensures(
                    math.mean,
                    (running[x], (2 * radius + 1) as usize),
                    #[trigger] out[x],
                ))
    }
}

/// `out` is `line` blurred as `plan` says.
pub open spec fn line_blurred<
    S,
    A: Fn(S, S, S) -> S,
    P: Fn(S, S) -> S,
    L: Fn(S, S, S) -> S,
    M: Fn(S, usize) -> S,
>(math: &BlurMath<S, A, P, L, M>, plan: &BlurPlan<S>, line: Seq<S>, out: Seq<S>) -> bool {
    match *plan {
        BlurPlan::Skip => out == line,
        BlurPlan::Exact(kernel) => convolved(math.accumulate, math.zero, kernel@, line, out),
        BlurPlan::Boxes(radii) => exists|a: Seq<S>, b: Seq<S>|
            boxed(math, radii[0], line, a) && #[trigger] boxed(math, radii[1], a, b) && boxed(
                math,
                radii[2],
                b,
                out,
            ),
    }
}

/// The arithmetic takes every sample.
pub open spec fn computes_all<
    S,
    A: Fn(S, S, S) -> S,
    P: Fn(S, S) -> S,
    L: Fn(S, S, S) -> S,
    M: Fn(S, usize) -> S,
>(math: &BlurMath<S, A, P, L, M>) -> bool {
    &&& forall|a: S, w: S, s: S| #[trigger] call_requires(math.accumulate, (a, w, s))
    &&& forall|a: S, s: S| #[trigger] call_requires(math.plus, (a, s))
    &&& forall|a: S, s: S, t: S| #[trigger] call_requires(math.slide, (a, s, t))
    &&& forall|a: S, n: usize| n > 0 ==> #[trigger] call_requires(math.mean, (a, n))
}

/// Clamp-to-edge addressing: the position `i - back` beyond `x`, or the border
/// where a line of `len` has none.
fn offset_index(x: usize, i: usize, back: usize, len: usize) -> (r: usize)
    requires
        x < len,
    ensures
        r == clamped(x + i - back, len as int),
        r < len,
{
    if i >= back {
        let d: usize = i - back;
        if d >= len - x {
            len - 1
        } else {
            x + d
        }
    } else {
        let d: usize = back - i;
        if d > x {
            0
        } else {
            x - d
        }
    }
}

/// Convolves one line with a kernel.
fn convolve_line<S: Copy, A: Fn(S, S, S) -> S>(
    line: &Vec<S>,
    kernel: &Vec<S>,
    zero: S,
    accumulate: &A,
) -> (out: Vec<S>)
    requires
        forall|a: S, w: S, s: S| #[trigger] call_requires(*accumulate, (a, w, s)),
    ensures
        convolved(*accumulate, zero, kernel@, line@, out@),
{
    let radius: usize = kernel.len() / 2;
    let mut out: Vec<S> = Vec::new();
    let mut x: usize = 0;
    while x < line.len()
        invariant
            x <= line@.len(),
            radius == kernel@.len() / 2,
            out@.len() == x,
            forall|a: S, w: S, s: S| #[trigger] call_requires(*accumulate, (a, w, s)),
            forall|k: int|
                0 <= k < x ==> weighs(
                    *accumulate,
                    zero,
                    kernel@,
                    around(line@, k, kernel@.len()),
                    #[trigger] out@[k],
                ),
        decreases line@.len() - x,
    {
        let mut sum = zero;
        let mut i: usize = 0;
        let ghost samples = around(line@, x as int, kernel@.len());
        while i < kernel.len()
            invariant
                x < line@.len(),
                i <= kernel@.len(),
                radius == kernel@.len() / 2,
                samples == around(line@, x as int, kernel@.len()),
                forall|a: S, w: S, s: S| #[trigger] call_requires(*accumulate, (a, w, s)),
                weighs(*accumulate, zero, kernel@.take(i as int), samples.take(i as int), sum),
            decreases kernel@.len() - i,
        {
            let at = offset_index(x, i, radius, line.len());
            let ghost before = sum;
            sum = accumulate(sum, kernel[i], line[at]);
            proof {
                assert(samples[i as int] == line@[at as int]);
                lemma_weighs_step(accumulate, zero, kernel@, samples, i as int, before, sum);
            }
            i += 1;
        }
        assert(kernel@.take(i as int) =~= kernel@);
        assert(samples.take(i as int) =~= samples);
        out.push(sum);
        x += 1;
    }
    out
}

/// One box pass along a line, using a running sum so the cost per sample does
/// not grow with the radius.
fn box_line<
    S: Copy,
    A: Fn(S, S, S) -> S,
    P: Fn(S, S) -> S,
    L: Fn(S, S, S) -> S,
    M: Fn(S, usize) -> S,
>(line: Vec<S>, radius: usize, math: &BlurMath<S, A, P, L, M>) -> (out: Vec<S>)
    requires
        computes_all(math),
        box_fits(radius),
    ensures
        boxed(math, radius, line@, out@),
        out@.len() == line@.len(),
{
    if radius == 0 {
        return line;
    }
    let width: usize = 2 * radius + 1;
    let len: usize = line.len();
    let mut out: Vec<S> = Vec::new();
    if len == 0 {
        assert(slides(math.plus, math.slide, math.zero, radius as int, line@, Seq::<S>::empty()));
        return out;
    }
    let mut acc = math.zero;
    let mut k: usize = 0;
    let ghost covered = first_box(line@, radius as int);
    while k < width
        invariant
            computes_all(math),
            k <= width == 2 * radius + 1,
            len == line@.len() > 0,
            covered == first_box(line@, radius as int),
            sums(math.plus, math.zero, covered.take(k as int), acc),
        decreases width - k,
    {
        let at = offset_index(0, k, radius, len);
        let ghost before = acc;
        acc = (math.plus)(acc, line[at]);
        k += 1;
        proof {
            let s = covered.take(k as int);
            assert(s.drop_last() =~= covered.take(k - 1));
            assert(s.last() == line@[at as int]);
            assert(call_ensures(math.plus, (before, s.last()), acc));
        }
    }
    assert(covered.take(k as int) =~= covered);
    out.push((math.mean)(acc, width));
    let ghost mut running: Seq<S> = seq![acc];
    let mut x: usize = 1;
    while x < len
        invariant
            computes_all(math),
            box_fits(radius),
            width == 2 * radius + 1,
            1 <= x <= len == line@.len(),
            running.len() == x,
            out@.len() == x,
            acc == running[x - 1],
            sums(math.plus, math.zero, first_box(line@, radius as int), running[0]),
            forall|k: int|
                1 <= k < x ==> call_ensures(
                    math.slide,
                    (
                        running[k - 1],
                        line_at(line@, k + radius),
                        line_at(line@, k - radius as int - 1),
                    ),
                    #[trigger] running[k],
                ),
            forall|k: int|
                0 <= k < x ==> call_ensures(math.mean, (running[k], width), #[trigger] out@[k]),
        decreases len - x,
    {
        let enters = line[offset_index(x, radius, 0, len)];
        let leaves = line[offset_index(x, 0, radius + 1, len)];
        acc = (math.slide)(acc, enters, leaves);
        out.push((math.mean)(acc, width));
        proof {
            running = running.push(acc);
        }
        x += 1;
    }
    assert(slides(math.plus, math.slide, math.zero, radius as int, line@, running));
    out
}

/// Blurs one line as a plan says.
fn blur_line<
    S: Copy,
    A: Fn(S, S, S) -> S,
    P: Fn(S, S) -> S,
    L: Fn(S, S, S) -> S,
    M: Fn(S, usize) -> S,
>(line: Vec<S>, plan: &BlurPlan<S>, math: &BlurMath<S, A, P, L, M>) -> (out: Vec<S>)
    requires
        plan.wf(),
        computes_all(math),
    ensures
        line_blurred(math, plan, line@, out@),
        out@.len() == line@.len(),
{
    match plan {
        BlurPlan::Skip => line,
        BlurPlan::Exact(kernel) => convolve_line(&line, kernel, math.zero, &math.accumulate),
        BlurPlan::Boxes(radii) => {
            let ghost first = line@;
            let a = box_line(line, radii[0], math);
            let ghost second = a@;
            let b = box_line(a, radii[1], math);
            let ghost third = b@;
            let out = box_line(b, radii[2], math);
            assert(boxed(math, radii[0], first, second));
            assert(boxed(math, radii[1], second, third));
            out
        },
    }
}

/// Row `y` of plane `c`.
pub open spec fn row<S>(image: Image<S>, c: int, y: int) -> Seq<S> {
    Seq::new(image.width, |x: int| image.at(c, y, x))
}

/// Column `x` of plane `c`.
pub open spec fn column<S>(image: Image<S>, c: int, x: int) -> Seq<S> {
    Seq::new(image.height, |y: int| image.at(c, y, x))
}

/// `out` is `image` with every row blurred.
pub open spec fn rows_blurred<
    S,
    A: Fn(S, S, S) -> S,
    P: Fn(S, S) -> S,
    L: Fn(S, S, S) -> S,
    M: Fn(S, usize) -> S,
>(math: &BlurMath<S, A, P, L, M>, plan: &BlurPlan<S>, image: Image<S>, out: Image<S>) -> bool {
    &&& out.wf()
    &&& out.same_size(image)
    &&& out.channels == image.channels
    &&& forall|c: int, y: int|
        0 <= c < image.channels && 0 <= y < image.height ==> line_blurred(
            math,
            plan,
            row(image, c, y),
            #[trigger] row(out, c, y),
        )
}

/// `out` is `image` with every column blurred.
pub open spec fn columns_blurred<
    S,
    A: Fn(S, S, S) -> S,
    P: Fn(S, S) -> S,
    L: Fn(S, S, S) -> S,
    M: Fn(S, usize) -> S,
>(math: &BlurMath<S, A, P, L, M>, plan: &BlurPlan<S>, image: Image<S>, out: Image<S>) -> bool {
    &&& out.wf()
    &&& out.same_size(image)
    &&& out.channels == image.channels
    &&& forall|c: int, x: int|
        0 <= c < image.channels && 0 <= x < image.width ==> line_blurred(
            math,
            plan,
            column(image, c, x),
            #[trigger] column(out, c, x),
        )
}

/// `out` is `image` blurred along its rows and then down its columns.
pub open spec fn blurred<
    S,
    A: Fn(S, S, S) -> S,
    P: Fn(S, S) -> S,
    L: Fn(S, S, S) -> S,
    M: Fn(S, usize) -> S,
>(
    math: &BlurMath<S, A, P, L, M>,
    plan_x: &BlurPlan<S>,
    plan_y: &BlurPlan<S>,
    image: Image<S>,
    out: Image<S>,
) -> bool {
    exists|across: Image<S>| #[trigger]
        rows_blurred(math, plan_x, image, across) && columns_blurred(math, plan_y, across, out)
}

/// Blurs every row, over all cores.
fn blur_rows<
    S: Copy + Send + Sync,
    A: Fn(S, S, S) -> S + Sync + Send,
    P: Fn(S, S) -> S + Sync + Send,
    L: Fn(S, S, S) -> S + Sync + Send,
    M: Fn(S, usize) -> S + Sync + Send,
>(frame: &FrameF32<S>, plan: &BlurPlan<S>, math: &BlurMath<S, A, P, L, M>) -> (out: FrameF32<S>)
    requires
        frame@.wf(),
        frame@.width > 0,
        plan.wf(),
        computes_all(math),
    ensures
        rows_blurred(math, plan, frame@, out@),
{
    let (w, h, channels) = (frame.width(), frame.height(), frame.channels());
    let one = |j: usize| -> (line: Vec<S>)
        requires
            frame@.wf(),
            plan.wf(),
            computes_all(math),
            h == frame@.height,
            h > 0,
            j < frame@.channels * frame@.height,
        ensures
            line_blurred(math, plan, row(frame@, j as int / h as int, j as int % h as int), line@),
            line@.len() == frame@.width,
        {
            proof {
                lemma_line_index(j as int, frame@.channels as int, h as int);
            }
            blur_line(gather_row(frame, j / h, j % h), plan, math)
        };
    proof {
        frame.lemma_fits();
        assert(channels * h <= w * h * channels) by (nonlinear_arith)
            requires
                w > 0,
        ;
        if h == 0 {
            assert(channels * h == 0) by (nonlinear_arith)
                requires
                    h == 0,
            ;
        }
    }
    let lines = par_tabulate(channels * h, one);
    let rows = &lines;
    let sample = |c: usize, y: usize, x: usize| -> (s: S)
        requires
            h > 0 ==> c * h + y < rows@.len() && rows@.len() <= usize::MAX && x < rows@[c * h
                + y]@.len(),
            y < h,
        ensures
            s == rows@[c * h + y]@[x as int],
        {
            assert(c * h >= 0) by (nonlinear_arith);
            rows[c * h + y][x]
        };
    proof {
        assert forall|c: usize, y: usize, x: usize|
            c < channels && y < h && x < w implies #[trigger] call_requires(sample, (c, y, x)) by {
            crate::frame::lemma_flat_in_range(w as int, h as int, channels as int, c as int, y as int, x as int);
            assert(h * channels == channels * h) by (nonlinear_arith);
            let j = (c * h + y) as usize;
            assert(call_ensures(one, (j,), rows@[j as int]));
        }
    }
    let out = FrameF32::tabulate(w, h, channels, sample);
    assert forall|c: int, y: int| 0 <= c < channels && 0 <= y < h implies line_blurred(
        math,
        plan,
        row(frame@, c, y),
        #[trigger] row(out@, c, y),
    ) by {
        assert(h * channels == channels * h) by (nonlinear_arith);
        crate::frame::lemma_flat_in_range(w as int, h as int, channels as int, c, y, 0);
        let j = (c * h + y) as usize;
        assert(call_ensures(one, (j,), rows@[j as int]));
        vstd::arithmetic::div_mod::lemma_fundamental_div_mod_converse(j as int, h as int, c, y);
        assert(row(out@, c, y) =~= rows@[j as int]@) by {
            assert forall|x: int| 0 <= x < w implies out@.at(c, y, x) == rows@[j as int]@[x] by {
                assert(call_ensures(
                    sample,
                    (c as usize, y as usize, x as usize),
                    out@.at(c as usize as int, y as usize as int, x as usize as int),
                ));
            }
        }
    }
    out
}

/// Blurs every column, over all cores.
fn blur_columns<
    S: Copy + Send + Sync,
    A: Fn(S, S, S) -> S + Sync + Send,
    P: Fn(S, S) -> S + Sync + Send,
    L: Fn(S, S, S) -> S + Sync + Send,
    M: Fn(S, usize) -> S + Sync + Send,
>(frame: &FrameF32<S>, plan: &BlurPlan<S>, math: &BlurMath<S, A, P, L, M>) -> (out: FrameF32<S>)
    requires
        frame@.wf(),
        frame@.height > 0,
        plan.wf(),
        computes_all(math),
    ensures
        columns_blurred(math, plan, frame@, out@),
{
    let (w, h, channels) = (frame.width(), frame.height(), frame.channels());
    let one = |j: usize| -> (line: Vec<S>)
        requires
            frame@.wf(),
            plan.wf(),
            computes_all(math),
            w == frame@.width,
            w > 0,
            j < frame@.channels * frame@.width,
        ensures
            line_blurred(math, plan, column(frame@, j as int / w as int, j as int % w as int), line@),
            line@.len() == frame@.height,
        {
            proof {
                lemma_line_index(j as int, frame@.channels as int, w as int);
            }
            blur_line(gather_column(frame, j / w, j % w), plan, math)
        };
    proof {
        frame.lemma_fits();
        assert(channels * w <= w * h * channels) by (nonlinear_arith)
            requires
                h > 0,
        ;
        if w == 0 {
            assert(channels * w == 0) by (nonlinear_arith)
                requires
                    w == 0,
            ;
        }
    }
    let lines = par_tabulate(channels * w, one);
    let columns = &lines;
    let sample = |c: usize, y: usize, x: usize| -> (s: S)
        requires
            w > 0 ==> c * w + x < columns@.len() && columns@.len() <= usize::MAX && y < columns@[c * w
                + x]@.len(),
            x < w,
        ensures
            s == columns@[c * w + x]@[y as int],
        {
            assert(c * w >= 0) by (nonlinear_arith);
            columns[c * w + x][y]
        };
    proof {
        assert forall|c: usize, y: usize, x: usize|
            c < channels && y < h && x < w implies #[trigger] call_requires(sample, (c, y, x)) by {
            crate::frame::lemma_flat_in_range(h as int, w as int, channels as int, c as int, x as int, y as int);
            assert(w * channels == channels * w) by (nonlinear_arith);
            let j = (c * w + x) as usize;
            assert(call_ensures(one, (j,), columns@[j as int]));
        }
    }
    let out = FrameF32::tabulate(w, h, channels, sample);
    assert forall|c: int, x: int| 0 <= c < channels && 0 <= x < w implies line_blurred(
        math,
        plan,
        column(frame@, c, x),
        #[trigger] column(out@, c, x),
    ) by {
        assert(w * channels == channels * w) by (nonlinear_arith);
        crate::frame::lemma_flat_in_range(h as int, w as int, channels as int, c, x, 0);
        let j = (c * w + x) as usize;
        assert(call_ensures(one, (j,), columns@[j as int]));
        vstd::arithmetic::div_mod::lemma_fundamental_div_mod_converse(j as int, w as int, c, x);
        assert(column(out@, c, x) =~= columns@[j as int]@) by {
            assert forall|y: int| 0 <= y < h implies out@.at(c, y, x) == columns@[j as int]@[y] by {
                assert(call_ensures(
                    sample,
                    (c as usize, y as usize, x as usize),
                    out@.at(c as usize as int, y as usize as int, x as usize as int),
                ));
            }
        }
    }
    out
}

/// Line `j` of so many planes of `n` lines each is a line of some plane.
proof fn lemma_line_index(j: int, channels: int, n: int)
    requires
        n > 0,
        0 <= j < channels * n,
    ensures
        0 <= j / n < channels,
        0 <= j % n < n,
{
    vstd::arithmetic::div_mod::lemma_fundamental_div_mod(j, n);
    vstd::arithmetic::div_mod::lemma_mod_bound(j, n);
    let (q, r) = (j / n, j % n);
    assert(0 <= q < channels) by (nonlinear_arith)
        requires
            j == n * q + r,
            0 <= r < n,
            0 <= j < channels * n,
            n > 0,
    ;
}

/// Copies a row out of a frame.
fn gather_row<S: Copy>(frame: &FrameF32<S>, c: usize, y: usize) -> (line: Vec<S>)
    requires
        frame@.wf(),
        c < frame@.channels,
        y < frame@.height,
    ensures
        line@ == row(frame@, c as int, y as int),
{
    let mut line: Vec<S> = Vec::new();
    let mut x: usize = 0;
    while x < frame.width()
        invariant
            frame@.wf(),
            c < frame@.channels,
            y < frame@.height,
            x <= frame@.width,
            line@.len() == x,
            forall|k: int| 0 <= k < x ==> #[trigger] line@[k] == frame@.at(c as int, y as int, k),
        decreases frame@.width - x,
    {
        line.push(frame.at(c, y, x));
        x += 1;
    }
    assert(line@ =~= row(frame@, c as int, y as int));
    line
}

/// Copies a column out of a frame.
fn gather_column<S: Copy>(frame: &FrameF32<S>, c: usize, x: usize) -> (line: Vec<S>)
    requires
        frame@.wf(),
        c < frame@.channels,
        x < frame@.width,
    ensures
        line@ == column(frame@, c as int, x as int),
{
    let mut line: Vec<S> = Vec::new();
    let mut y: usize = 0;
    while y < frame.height()
        invariant
            frame@.wf(),
            c < frame@.channels,
            x < frame@.width,
            y <= frame@.height,
            line@.len() == y,
            forall|k: int| 0 <= k < y ==> #[trigger] line@[k] == frame@.at(c as int, k, x as int),
        decreases frame@.height - y,
    {
        line.push(frame.at(c, y, x));
        y += 1;
    }
    assert(line@ =~= column(frame@, c as int, x as int));
    line
}

/// `out` is `image` blurred by a sigma along each axis. An empty picture has
/// nothing to blur.
pub open spec fn gaussian_blurred<
    S,
    A: Fn(S, S, S) -> S,
    P: Fn(S, S) -> S,
    L: Fn(S, S, S) -> S,
    M: Fn(S, usize) -> S,
    K: Fn(F32) -> Vec<S>,
    B: Fn(F32) -> [usize; 3],
>(
    math: &BlurMath<S, A, P, L, M>,
    kernel: &K,
    radii: &B,
    sigma_x: F32,
    sigma_y: F32,
    image: Image<S>,
    out: Image<S>,
) -> bool {
    if image.width == 0 || image.height == 0 {
        out == image
    } else {
        exists|plan_x: &BlurPlan<S>, plan_y: &BlurPlan<S>|
            planned(*kernel, *radii, sigma_x, *plan_x) && planned(*kernel, *radii, sigma_y, *plan_y)
                && #[trigger] blurred(math, plan_x, plan_y, image, out)
    }
}

/// `kernel` and `radii` take every sigma, and the boxes are ones a machine can
/// count.
pub open spec fn plans_all<S, K: Fn(F32) -> Vec<S>, B: Fn(F32) -> [usize; 3]>(
    kernel: &K,
    radii: &B,
) -> bool {
    &&& forall|sigma: F32| !sigma.nan() ==> #[trigger] call_requires(*kernel, (sigma,))
    &&& forall|sigma: F32| !sigma.nan() ==> #[trigger] call_requires(*radii, (sigma,))
    &&& forall|sigma: F32, r: [usize; 3]| #[trigger]
        call_ensures(*radii, (sigma,), r) ==> box_fits(r[0]) && box_fits(r[1]) && box_fits(r[2])
}

/// Blurs every plane with independent horizontal and vertical sigmas.
///
/// `kernel` makes the kernel of a narrow blur and `radii` sizes the three boxes
/// of a wide one.
pub fn gaussian_blur<
    S: Copy + Send + Sync,
    A: Fn(S, S, S) -> S + Sync + Send,
    P: Fn(S, S) -> S + Sync + Send,
    L: Fn(S, S, S) -> S + Sync + Send,
    M: Fn(S, usize) -> S + Sync + Send,
    K: Fn(F32) -> Vec<S>,
    B: Fn(F32) -> [usize; 3],
>(
    frame: &FrameF32<S>,
    sigma_x: F32,
    sigma_y: F32,
    kernel: &K,
    radii: &B,
    math: &BlurMath<S, A, P, L, M>,
) -> (out: FrameF32<S>)
    requires
        frame@.wf(),
        computes_all(math),
        plans_all(kernel, radii),
    ensures
        gaussian_blurred(math, kernel, radii, sigma_x, sigma_y, frame@, out@),
        out@.wf(),
        out@.same_size(frame@),
        out@.channels == frame@.channels,
{
    if frame.is_empty() {
        return frame.clone();
    }
    let plan_x = BlurPlan::for_sigma(sigma_x, kernel, radii);
    let plan_y = BlurPlan::for_sigma(sigma_y, kernel, radii);
    let across = blur_rows(frame, &plan_x, math);
    let out = blur_columns(&across, &plan_y, math);
    assert(rows_blurred(math, &plan_x, frame@, across@));
    assert(blurred(math, &plan_x, &plan_y, frame@, out@));
    out
}

/// A blur of nothing along both axes leaves the picture as it was.
pub proof fn law_no_sigma_no_blur<
    S,
    A: Fn(S, S, S) -> S,
    P: Fn(S, S) -> S,
    L: Fn(S, S, S) -> S,
    M: Fn(S, usize) -> S,
    K: Fn(F32) -> Vec<S>,
    B: Fn(F32) -> [usize; 3],
>(
    math: &BlurMath<S, A, P, L, M>,
    kernel: &K,
    radii: &B,
    sigma_x: F32,
    sigma_y: F32,
    image: Image<S>,
    out: Image<S>,
)
    requires
        image.wf(),
        sigma_x.at_most(float(NO_BLUR)),
        sigma_y.at_most(float(NO_BLUR)),
        gaussian_blurred(math, kernel, radii, sigma_x, sigma_y, image, out),
    ensures
        out == image,
{
    if image.width > 0 && image.height > 0 {
        let (plan_x, plan_y) = choose|plan_x: &BlurPlan<S>, plan_y: &BlurPlan<S>|
            planned(*kernel, *radii, sigma_x, *plan_x) && planned(*kernel, *radii, sigma_y, *plan_y)
                && #[trigger] blurred(math, plan_x, plan_y, image, out);
        let across = choose|across: Image<S>| #[trigger]
            rows_blurred(math, plan_x, image, across) && columns_blurred(math, plan_y, across, out);
        assert forall|c: int, y: int, x: int| #[trigger] image.has(c, y, x) implies image.at(c, y, x)
            == out.at(c, y, x) by {
            assert(row(across, c, y) == row(image, c, y));
            assert(row(across, c, y)[x] == row(image, c, y)[x]);
            assert(column(out, c, x) == column(across, c, x));
            assert(column(out, c, x)[y] == column(across, c, x)[y]);
        }
        lemma_image_ext(image, out);
    }
}

/// A box over samples that are all `v` slides along without a change, and their mean
/// is `v`.
pub open spec fn boxes_keep<
    S,
    A: Fn(S, S, S) -> S,
    P: Fn(S, S) -> S,
    L: Fn(S, S, S) -> S,
    M: Fn(S, usize) -> S,
>(math: &BlurMath<S, A, P, L, M>, v: S) -> bool {
    forall|n: nat, sum: S| #[trigger]
        sums(math.plus, math.zero, level(n, v), sum) ==> (forall|t: S| #[trigger]
            call_ensures(math.slide, (sum, v, v), t) ==> t == sum) && (forall|m: S| #[trigger]
            call_ensures(math.mean, (sum, n as usize), m) ==> m == v)
}

/// A kernel weighs samples that are all `v` to `v`.
pub open spec fn kernel_keeps<
    S,
    A: Fn(S, S, S) -> S,
    P: Fn(S, S) -> S,
    L: Fn(S, S, S) -> S,
    M: Fn(S, usize) -> S,
>(math: &BlurMath<S, A, P, L, M>, kernel: Seq<S>, v: S) -> bool {
    forall|out: S| #[trigger]
        weighs(math.accumulate, math.zero, kernel, level(kernel.len(), v), out) ==> out == v
}

/// One blur of a line that is all `v` is all `v`, right up to its ends.
proof fn lemma_level_line<
    S,
    A: Fn(S, S, S) -> S,
    P: Fn(S, S) -> S,
    L: Fn(S, S, S) -> S,
    M: Fn(S, usize) -> S,
>(math: &BlurMath<S, A, P, L, M>, plan: &BlurPlan<S>, n: nat, v: S, out: Seq<S>)
    requires
        n > 0,
        boxes_keep(math, v),
        *plan matches BlurPlan::Exact(k) ==> kernel_keeps(math, k@, v),
        line_blurred(math, plan, level(n, v), out),
    ensures
        out == level(n, v),
{
    let line = level(n, v);
    match *plan {
        BlurPlan::Skip => {},
        BlurPlan::Exact(k) => {
            assert forall|x: int| 0 <= x < n implies out[x] == v by {
                assert(around(line, x, k@.len()) =~= level(k@.len(), v));
            }
            assert(out =~= line);
        },
        BlurPlan::Boxes(radii) => {
            let (a, b) = choose|a: Seq<S>, b: Seq<S>|
                boxed(math, radii[0], line, a) && #[trigger] boxed(math, radii[1], a, b) && boxed(
                    math,
                    radii[2],
                    b,
                    out,
                );
            lemma_level_box(math, radii[0], n, v, a);
            lemma_level_box(math, radii[1], n, v, b);
            lemma_level_box(math, radii[2], n, v, out);
        },
    }
}

/// One box pass over a line that is all `v` leaves it so.
proof fn lemma_level_box<
    S,
    A: Fn(S, S, S) -> S,
    P: Fn(S, S) -> S,
    L: Fn(S, S, S) -> S,
    M: Fn(S, usize) -> S,
>(math: &BlurMath<S, A, P, L, M>, radius: usize, n: nat, v: S, out: Seq<S>)
    requires
        n > 0,
        boxes_keep(math, v),
        boxed(math, radius, level(n, v), out),
    ensures
        out == level(n, v),
{
    let line = level(n, v);
    if radius != 0 {
        let running = choose|running: Seq<S>| #[trigger]
            slides(math.plus, math.slide, math.zero, radius as int, line, running) && (forall|x: int|
                0 <= x < line.len() ==> call_ensures(
                    math.mean,
                    (running[x], (2 * radius + 1) as usize),
                    #[trigger] out[x],
                ));
        let width = (2 * radius + 1) as nat;
        assert(first_box(line, radius as int) =~= level(width, v));
        assert(sums(math.plus, math.zero, level(width, v), running[0]));
        assert forall|x: int| 0 <= x < n implies out[x] == v by {
            lemma_level_run(math, radius, n, v, running, x);
            assert(call_ensures(math.mean, (running[x], (2 * radius + 1) as usize), out[x]));
        }
        assert(out =~= line);
    }
}

/// Along a line that is all `v` the running sum stays the first.
proof fn lemma_level_run<
    S,
    A: Fn(S, S, S) -> S,
    P: Fn(S, S) -> S,
    L: Fn(S, S, S) -> S,
    M: Fn(S, usize) -> S,
>(math: &BlurMath<S, A, P, L, M>, radius: usize, n: nat, v: S, running: Seq<S>, x: int)
    requires
        0 <= x < n,
        boxes_keep(math, v),
        slides(math.plus, math.slide, math.zero, radius as int, level(n, v), running),
        sums(math.plus, math.zero, level((2 * radius + 1) as nat, v), running[0]),
    ensures
        running[x] == running[0],
    decreases x,
{
    if x > 0 {
        lemma_level_run(math, radius, n, v, running, x - 1);
        let line = level(n, v);
        assert(line_at(line, x + radius) == v && line_at(line, x - radius - 1) == v);
        assert(call_ensures(math.slide, (running[x - 1], v, v), running[x]));
    }
}

/// A flat field stays flat right up to its border, where the kernels and the boxes give
/// back samples that are all alike.
pub proof fn law_a_flat_field_stays_flat<
    S,
    A: Fn(S, S, S) -> S,
    P: Fn(S, S) -> S,
    L: Fn(S, S, S) -> S,
    M: Fn(S, usize) -> S,
    K: Fn(F32) -> Vec<S>,
    B: Fn(F32) -> [usize; 3],
>(
    math: &BlurMath<S, A, P, L, M>,
    kernel: &K,
    radii: &B,
    sigma_x: F32,
    sigma_y: F32,
    image: Image<S>,
    v: S,
    out: Image<S>,
)
    requires
        image.wf(),
        forall|c: int, y: int, x: int| #[trigger] image.has(c, y, x) ==> image.at(c, y, x) == v,
        boxes_keep(math, v),
        forall|sigma: F32, k: Vec<S>| #[trigger]
            call_ensures(*kernel, (sigma,), k) ==> kernel_keeps(math, k@, v),
        gaussian_blurred(math, kernel, radii, sigma_x, sigma_y, image, out),
    ensures
        out == image,
{
    if image.width > 0 && image.height > 0 {
        let (plan_x, plan_y) = choose|plan_x: &BlurPlan<S>, plan_y: &BlurPlan<S>|
            planned(*kernel, *radii, sigma_x, *plan_x) && planned(*kernel, *radii, sigma_y, *plan_y)
                && #[trigger] blurred(math, plan_x, plan_y, image, out);
        let across = choose|across: Image<S>| #[trigger]
            rows_blurred(math, plan_x, image, across) && columns_blurred(math, plan_y, across, out);
        assert forall|c: int, y: int, x: int| #[trigger] image.has(c, y, x) implies across.at(c, y, x)
            == v by {
            assert forall|k: int| 0 <= k < image.width implies row(image, c, y)[k] == v by {
                assert(image.has(c, y, k));
            }
            assert(row(image, c, y) =~= level(image.width, v));
            lemma_level_line(math, plan_x, image.width, v, row(across, c, y));
            assert(row(across, c, y)[x] == v);
        }
        assert forall|c: int, y: int, x: int| #[trigger] image.has(c, y, x) implies image.at(c, y, x)
            == out.at(c, y, x) by {
            assert forall|k: int| 0 <= k < image.height implies column(across, c, x)[k] == v by {
                assert(image.has(c, k, x));
            }
            assert(column(across, c, x) =~= level(image.height, v));
            lemma_level_line(math, plan_y, image.height, v, column(out, c, x));
            assert(column(out, c, x)[y] == v);
        }
        lemma_image_ext(image, out);
    }
}

/// The sums and means of a blur each give one result for what they are given, as
/// arithmetic does.
pub open spec fn sums_one_way<
    S,
    A: Fn(S, S, S) -> S,
    P: Fn(S, S) -> S,
    L: Fn(S, S, S) -> S,
    M: Fn(S, usize) -> S,
>(math: &BlurMath<S, A, P, L, M>) -> bool {
    &&& forall|t: S, w: S, s: S, x: S, y: S| #[trigger]
        call_ensures(math.accumulate, (t, w, s), x) && #[trigger] call_ensures(
            math.accumulate,
            (t, w, s),
            y,
        ) ==> x == y
    &&& forall|t: S, s: S, x: S, y: S| #[trigger]
        call_ensures(math.plus, (t, s), x) && #[trigger] call_ensures(math.plus, (t, s), y) ==> x
            == y
    &&& forall|t: S, s: S, u: S, x: S, y: S| #[trigger]
        call_ensures(math.slide, (t, s, u), x) && #[trigger] call_ensures(math.slide, (t, s, u), y)
            ==> x == y
    &&& forall|t: S, n: usize, x: S, y: S| #[trigger]
        call_ensures(math.mean, (t, n), x) && #[trigger] call_ensures(math.mean, (t, n), y) ==> x
            == y
}

/// A sigma has one kernel and one set of boxes.
pub open spec fn plans_one_way<S, K: Fn(F32) -> Vec<S>, B: Fn(F32) -> [usize; 3]>(
    kernel: &K,
    radii: &B,
) -> bool {
    &&& forall|sigma: F32, k: Vec<S>, l: Vec<S>| #[trigger]
        call_ensures(*kernel, (sigma,), k) && #[trigger] call_ensures(*kernel, (sigma,), l) ==> k@
            == l@
    &&& forall|sigma: F32, r: [usize; 3], q: [usize; 3]| #[trigger]
        call_ensures(*radii, (sigma,), r) && #[trigger] call_ensures(*radii, (sigma,), q) ==> r@
            == q@
}

/// Two plans do the same work.
spec fn plans_alike<S>(p: &BlurPlan<S>, q: &BlurPlan<S>) -> bool {
    match (*p, *q) {
        (BlurPlan::Skip, BlurPlan::Skip) => true,
        (BlurPlan::Exact(k), BlurPlan::Exact(l)) => k@ == l@,
        (BlurPlan::Boxes(r), BlurPlan::Boxes(s)) => r@ == s@,
        _ => false,
    }
}

/// Weights over samples come to one sum.
proof fn lemma_one_weighing<
    S,
    A: Fn(S, S, S) -> S,
    P: Fn(S, S) -> S,
    L: Fn(S, S, S) -> S,
    M: Fn(S, usize) -> S,
>(math: &BlurMath<S, A, P, L, M>, weights: Seq<S>, samples: Seq<S>, x: S, y: S)
    requires
        sums_one_way(math),
        weighs(math.accumulate, math.zero, weights, samples, x),
        weighs(math.accumulate, math.zero, weights, samples, y),
    ensures
        x == y,
    decreases weights.len(),
{
    if weights.len() > 0 {
        let (w, s) = (weights.drop_last(), samples.drop_last());
        let a = choose|a: S|
            weighs(math.accumulate, math.zero, w, s, a) && #[trigger] call_ensures(
                math.accumulate,
                (a, weights.last(), samples.last()),
                x,
            );
        let b = choose|b: S|
            weighs(math.accumulate, math.zero, w, s, b) && #[trigger] call_ensures(
                math.accumulate,
                (b, weights.last(), samples.last()),
                y,
            );
        lemma_one_weighing(math, w, s, a, b);
    }
}

/// Samples come to one sum.
proof fn lemma_one_sum<
    S,
    A: Fn(S, S, S) -> S,
    P: Fn(S, S) -> S,
    L: Fn(S, S, S) -> S,
    M: Fn(S, usize) -> S,
>(math: &BlurMath<S, A, P, L, M>, samples: Seq<S>, x: S, y: S)
    requires
        sums_one_way(math),
        sums(math.plus, math.zero, samples, x),
        sums(math.plus, math.zero, samples, y),
    ensures
        x == y,
    decreases samples.len(),
{
    if samples.len() > 0 {
        let s = samples.drop_last();
        let a = choose|a: S|
            sums(math.plus, math.zero, s, a) && #[trigger] call_ensures(
                math.plus,
                (a, samples.last()),
                x,
            );
        let b = choose|b: S|
            sums(math.plus, math.zero, s, b) && #[trigger] call_ensures(
                math.plus,
                (b, samples.last()),
                y,
            );
        lemma_one_sum(math, s, a, b);
    }
}

/// A box sliding along a line has one sum at each place.
proof fn lemma_one_run<
    S,
    A: Fn(S, S, S) -> S,
    P: Fn(S, S) -> S,
    L: Fn(S, S, S) -> S,
    M: Fn(S, usize) -> S,
>(math: &BlurMath<S, A, P, L, M>, radius: int, line: Seq<S>, a: Seq<S>, b: Seq<S>, x: int)
    requires
        sums_one_way(math),
        slides(math.plus, math.slide, math.zero, radius, line, a),
        slides(math.plus, math.slide, math.zero, radius, line, b),
        0 <= x < line.len(),
    ensures
        a[x] == b[x],
    decreases x,
{
    if x == 0 {
        lemma_one_sum(math, first_box(line, radius), a[0], b[0]);
    } else {
        lemma_one_run(math, radius, line, a, b, x - 1);
        let (enters, leaves) = (line_at(line, x + radius), line_at(line, x - radius - 1));
        assert(call_ensures(math.slide, (a[x - 1], enters, leaves), a[x]));
        assert(call_ensures(math.slide, (b[x - 1], enters, leaves), b[x]));
    }
}

/// One box pass over a line has one result.
proof fn lemma_one_box<
    S,
    A: Fn(S, S, S) -> S,
    P: Fn(S, S) -> S,
    L: Fn(S, S, S) -> S,
    M: Fn(S, usize) -> S,
>(math: &BlurMath<S, A, P, L, M>, radius: usize, line: Seq<S>, x: Seq<S>, y: Seq<S>)
    requires
        sums_one_way(math),
        boxed(math, radius, line, x),
        boxed(math, radius, line, y),
    ensures
        x == y,
{
    if radius != 0 {
        let n = (2 * radius + 1) as usize;
        let a = choose|a: Seq<S>| #[trigger]
            slides(math.plus, math.slide, math.zero, radius as int, line, a) && (forall|i: int|
                0 <= i < line.len() ==> call_ensures(math.mean, (a[i], n), #[trigger] x[i]));
        let b = choose|b: Seq<S>| #[trigger]
            slides(math.plus, math.slide, math.zero, radius as int, line, b) && (forall|i: int|
                0 <= i < line.len() ==> call_ensures(math.mean, (b[i], n), #[trigger] y[i]));
        assert forall|i: int| 0 <= i < line.len() implies x[i] == y[i] by {
            lemma_one_run(math, radius as int, line, a, b, i);
            assert(call_ensures(math.mean, (a[i], n), x[i]));
            assert(call_ensures(math.mean, (b[i], n), y[i]));
        }
        assert(x =~= y);
    }
}

/// One blur of a line has one result.
proof fn lemma_one_line<
    S,
    A: Fn(S, S, S) -> S,
    P: Fn(S, S) -> S,
    L: Fn(S, S, S) -> S,
    M: Fn(S, usize) -> S,
>(
    math: &BlurMath<S, A, P, L, M>,
    p: &BlurPlan<S>,
    q: &BlurPlan<S>,
    line: Seq<S>,
    x: Seq<S>,
    y: Seq<S>,
)
    requires
        sums_one_way(math),
        plans_alike(p, q),
        line_blurred(math, p, line, x),
        line_blurred(math, q, line, y),
    ensures
        x == y,
{
    match (*p, *q) {
        (BlurPlan::Exact(k), BlurPlan::Exact(l)) => {
            assert forall|i: int| 0 <= i < line.len() implies x[i] == y[i] by {
                lemma_one_weighing(math, k@, around(line, i, k@.len()), x[i], y[i]);
            }
            assert(x =~= y);
        },
        (BlurPlan::Boxes(r), BlurPlan::Boxes(s)) => {
            let (a, b) = choose|a: Seq<S>, b: Seq<S>|
                boxed(math, r[0], line, a) && #[trigger] boxed(math, r[1], a, b) && boxed(
                    math,
                    r[2],
                    b,
                    x,
                );
            let (c, d) = choose|c: Seq<S>, d: Seq<S>|
                boxed(math, s[0], line, c) && #[trigger] boxed(math, s[1], c, d) && boxed(
                    math,
                    s[2],
                    d,
                    y,
                );
            assert(r[0] == r@[0] && r[1] == r@[1] && r[2] == r@[2]);
            assert(s[0] == s@[0] && s[1] == s@[1] && s[2] == s@[2]);
            lemma_one_box(math, r[0], line, a, c);
            lemma_one_box(math, r[1], a, b, d);
            lemma_one_box(math, r[2], b, x, y);
        },
        _ => {},
    }
}

/// A blur has one result: the same picture blurred twice alike gives the same picture.
pub proof fn law_a_blur_has_one_result<
    S,
    A: Fn(S, S, S) -> S,
    P: Fn(S, S) -> S,
    L: Fn(S, S, S) -> S,
    M: Fn(S, usize) -> S,
    K: Fn(F32) -> Vec<S>,
    B: Fn(F32) -> [usize; 3],
>(
    math: &BlurMath<S, A, P, L, M>,
    kernel: &K,
    radii: &B,
    sigma_x: F32,
    sigma_y: F32,
    image: Image<S>,
    x: Image<S>,
    y: Image<S>,
)
    requires
        sums_one_way(math),
        plans_one_way::<S, K, B>(kernel, radii),
        gaussian_blurred(math, kernel, radii, sigma_x, sigma_y, image, x),
        gaussian_blurred(math, kernel, radii, sigma_x, sigma_y, image, y),
    ensures
        x == y,
{
    if image.width > 0 && image.height > 0 {
        let (px, py) = choose|px: &BlurPlan<S>, py: &BlurPlan<S>|
            planned(*kernel, *radii, sigma_x, *px) && planned(*kernel, *radii, sigma_y, *py)
                && #[trigger] blurred(math, px, py, image, x);
        let (qx, qy) = choose|qx: &BlurPlan<S>, qy: &BlurPlan<S>|
            planned(*kernel, *radii, sigma_x, *qx) && planned(*kernel, *radii, sigma_y, *qy)
                && #[trigger] blurred(math, qx, qy, image, y);
        assert(plans_alike(px, qx) && plans_alike(py, qy));
        let a = choose|a: Image<S>| #[trigger]
            rows_blurred(math, px, image, a) && columns_blurred(math, py, a, x);
        let b = choose|b: Image<S>| #[trigger]
            rows_blurred(math, qx, image, b) && columns_blurred(math, qy, b, y);
        assert forall|c: int, v: int, u: int| #[trigger] a.has(c, v, u) implies a.at(c, v, u)
            == b.at(c, v, u) by {
            lemma_one_line(math, px, qx, row(image, c, v), row(a, c, v), row(b, c, v));
            assert(row(a, c, v)[u] == row(b, c, v)[u]);
        }
        lemma_image_ext(a, b);
        assert forall|c: int, v: int, u: int| #[trigger] x.has(c, v, u) implies x.at(c, v, u)
            == y.at(c, v, u) by {
            lemma_one_line(math, py, qy, column(a, c, u), column(x, c, u), column(y, c, u));
            assert(column(x, c, u)[v] == column(y, c, u)[v]);
        }
        lemma_image_ext(x, y);
    }
}

/// A blur up to a thousandth is none, one up to four is exact and one beyond that is made
/// of boxes; a NaN is none.
pub proof fn law_a_blur_goes_by_its_sigma<S, K: Fn(F32) -> Vec<S>, B: Fn(F32) -> [usize; 3]>(
    sigma: F32,
    kernel: &K,
    radii: &B,
    plan: BlurPlan<S>,
)
    requires
        call_ensures(BlurPlan::<S>::for_sigma::<K, B>, (sigma, kernel, radii), plan),
    ensures
        plan is Skip <==> sigma.nan() || sigma.at_most(F32 { bits: 0x3A83_126F }),
        plan is Exact ==> sigma.at_most(F32 { bits: 0x4080_0000 }),
        plan is Boxes ==> !sigma.at_most(F32 { bits: 0x4080_0000 }),
        plan matches BlurPlan::Exact(k) ==> call_ensures(*kernel, (sigma,), k),
        plan matches BlurPlan::Boxes(r) ==> call_ensures(*radii, (sigma,), r),
{
}

/// The spread is that of the shrink factor, which never counts as less than 1; a
/// percentage counts as no less than a tenth and no more than a hundred.
pub proof fn law_a_spread_is_of_what_is_asked_for<D: Fn(F32) -> F32, H: Fn(F32) -> F32>(
    shrink: F32,
    percent: F32,
    factor: &D,
    spread: &H,
    direct: F32,
    sigma: F32,
)
    requires
        call_ensures(sigma_from_shrink::<H>, (shrink, spread), direct),
        call_ensures(sigma_from_decimate::<D, H>, (percent, factor, spread), sigma),
    ensures
        (F32 { bits: 0x3F80_0000 }).at_most(shrink) ==> call_ensures(*spread, (shrink,), direct),
        !(F32 { bits: 0x3F80_0000 }).at_most(shrink) ==> call_ensures(
            *spread,
            (F32 { bits: 0x3F80_0000 },),
            direct,
        ),
        exists|used: F32, f: F32, counts: F32|
            #![trigger call_ensures(*factor, (used,), f), call_ensures(*spread, (counts,), sigma)]
            call_ensures(*factor, (used,), f) && call_ensures(*spread, (counts,), sigma) && (if (F32 {
                bits: 0x3F80_0000,
            }).at_most(f) {
                counts == f
            } else {
                counts.bits == 0x3F80_0000
            }) && (if percent.nan() {
                used == percent
            } else if percent.at_most(F32 { bits: 0x3DCC_CCCD }) {
                used.bits == 0x3DCC_CCCD
            } else if (F32 { bits: 0x42C8_0000 }).at_most(percent) {
                used.bits == 0x42C8_0000
            } else {
                used == percent
            }),
{
    let used = percent.clamped(float(TENTH), float(HUNDRED));
    let f = choose|f: F32| #[trigger]
        call_ensures(*factor, (used,), f) && call_ensures(*spread, (shrink_used(f),), sigma);
    let counts = shrink_used(f);
    assert(call_ensures(*factor, (used,), f) && call_ensures(*spread, (counts,), sigma));
}

/// Three boxes have odd widths next to the ideal one: as many as are asked for the odd
/// width at or below it, the others the next.
pub proof fn law_boxes_lie_around_the_ideal_width<N: Fn(i32) -> usize>(
    ideal: i32,
    narrow: &N,
    radii: [usize; 3],
)
    requires
        call_ensures(box_radii_for::<N>, (ideal, narrow), radii),
    ensures
        exists|width: i32, n: usize| #[trigger]
            call_ensures(*narrow, (width,), n) && width % 2 == 1 && width >= 1 && (ideal >= 1 ==> width
                <= ideal < width + 2) && (ideal < 1 ==> width == 1) && (0 < n ==> 2 * radii[0] + 1
                == width) && (n <= 0 ==> 2 * radii[0] + 1 == width + 2) && (1 < n ==> 2 * radii[1] + 1
                == width) && (n <= 1 ==> 2 * radii[1] + 1 == width + 2) && (2 < n ==> 2 * radii[2] + 1
                == width) && (n <= 2 ==> 2 * radii[2] + 1 == width + 2),
{
    let width = narrow_width(ideal as int) as i32;
    let n = choose|n: usize| #[trigger]
        call_ensures(*narrow, (width,), n) && (forall|i: int|
            0 <= i < 3 ==> #[trigger] radii[i] == pass_radius(ideal as int, n as int, i));
    assert(call_ensures(*narrow, (width,), n));
    assert(radii[0] == pass_radius(ideal as int, n as int, 0));
    assert(radii[1] == pass_radius(ideal as int, n as int, 1));
    assert(radii[2] == pass_radius(ideal as int, n as int, 2));
}

/// A kernel has its radius on either side of its middle, and each weight is its own share
/// of the sum of all.
pub proof fn law_a_kernel_shares_out_its_weights<
    S: Copy,
    W: Fn(usize) -> S,
    P: Fn(S, S) -> S,
    D: Fn(S, S) -> S,
>(radius: usize, weight: &W, zero: S, plus: &P, share: &D, kernel: Vec<S>)
    requires
        call_ensures(gaussian_kernel::<S, W, P, D>, (radius, weight, zero, plus, share), kernel),
    ensures
        kernel@.len() == 2 * radius + 1,
        exists|raw: Seq<S>, sum: S| #[trigger]
            sums(*plus, zero, raw, sum) && raw.len() == kernel@.len() && (forall|i: int|
                0 <= i < raw.len() ==> call_ensures(*weight, (i as usize,), #[trigger] raw[i]))
                && (forall|i: int|
                0 <= i < raw.len() ==> call_ensures(*share, (raw[i], sum), #[trigger] kernel@[i])),
{
    let (raw, sum) = choose|raw: Seq<S>, sum: S| #[trigger]
        normalised(*plus, *share, zero, raw, sum, kernel@) && weighted(
            *weight,
            (2 * radius + 1) as nat,
            raw,
        );
    assert(sums(*plus, zero, raw, sum));
}

/// `out` is `line` after three box passes of the given radii.
pub open spec fn thrice_boxed<
    S,
    A: Fn(S, S, S) -> S,
    P: Fn(S, S) -> S,
    L: Fn(S, S, S) -> S,
    M: Fn(S, usize) -> S,
>(math: &BlurMath<S, A, P, L, M>, r: [usize; 3], line: Seq<S>, out: Seq<S>) -> bool {
    exists|a: Seq<S>, b: Seq<S>|
        boxed(math, r[0], line, a) && #[trigger] boxed(math, r[1], a, b) && boxed(
            math,
            r[2],
            b,
            out,
        )
}

/// Columns that are not blurred stay as they are.
proof fn lemma_columns_kept<
    S,
    A: Fn(S, S, S) -> S,
    P: Fn(S, S) -> S,
    L: Fn(S, S, S) -> S,
    M: Fn(S, usize) -> S,
>(math: &BlurMath<S, A, P, L, M>, plan: &BlurPlan<S>, image: Image<S>, out: Image<S>)
    requires
        image.wf(),
        *plan is Skip,
        columns_blurred(math, plan, image, out),
    ensures
        out == image,
{
    assert forall|c: int, y: int, x: int| #[trigger] image.has(c, y, x) implies image.at(c, y, x)
        == out.at(c, y, x) by {
        assert(column(out, c, x) == column(image, c, x));
        assert(column(out, c, x)[y] == column(image, c, x)[y]);
    }
    lemma_image_ext(image, out);
}

/// Rows that are not blurred stay as they are.
proof fn lemma_rows_kept<
    S,
    A: Fn(S, S, S) -> S,
    P: Fn(S, S) -> S,
    L: Fn(S, S, S) -> S,
    M: Fn(S, usize) -> S,
>(math: &BlurMath<S, A, P, L, M>, plan: &BlurPlan<S>, image: Image<S>, out: Image<S>)
    requires
        image.wf(),
        *plan is Skip,
        rows_blurred(math, plan, image, out),
    ensures
        out == image,
{
    assert forall|c: int, y: int, x: int| #[trigger] image.has(c, y, x) implies image.at(c, y, x)
        == out.at(c, y, x) by {
        assert(row(out, c, y) == row(image, c, y));
        assert(row(out, c, y)[x] == row(image, c, y)[x]);
    }
    lemma_image_ext(image, out);
}

/// The first sigma blurs along the rows and nowhere else: with none down the columns, each
/// sample is weighed from its neighbours on its own row, the border standing in past an
/// end, or its row has gone through three boxes.
pub proof fn law_the_first_sigma_blurs_along_the_rows<
    S: Copy + Send + Sync,
    A: Fn(S, S, S) -> S + Sync + Send,
    P: Fn(S, S) -> S + Sync + Send,
    L: Fn(S, S, S) -> S + Sync + Send,
    M: Fn(S, usize) -> S + Sync + Send,
    K: Fn(F32) -> Vec<S>,
    B: Fn(F32) -> [usize; 3],
>(
    frame: &FrameF32<S>,
    sigma_x: F32,
    sigma_y: F32,
    kernel: &K,
    radii: &B,
    math: &BlurMath<S, A, P, L, M>,
    out: FrameF32<S>,
)
    requires
        frame@.wf(),
        frame@.width > 0 && frame@.height > 0,
        sigma_y.at_most(F32 { bits: 0x3A83_126F }),
        !sigma_x.nan() && !sigma_x.at_most(F32 { bits: 0x3A83_126F }),
        call_ensures(
            gaussian_blur::<S, A, P, L, M, K, B>,
            (frame, sigma_x, sigma_y, kernel, radii, math),
            out,
        ),
    ensures
        sigma_x.at_most(F32 { bits: 0x4080_0000 }) ==> exists|k: Vec<S>| #[trigger]
            call_ensures(*kernel, (sigma_x,), k) && (forall|c: int, y: int, x: int|
                frame@.has(c, y, x) ==> weighs(
                    math.accumulate,
                    math.zero,
                    k@,
                    Seq::new(
                        k@.len(),
                        |i: int|
                            {
                                let at = x + i - k@.len() / 2;
                                let held = if at < 0 {
                                    0
                                } else if at >= frame@.width {
                                    frame@.width - 1
                                } else {
                                    at
                                };
                                frame@.at(c, y, held)
                            },
                    ),
                    #[trigger] out@.at(c, y, x),
                )),
        !sigma_x.at_most(F32 { bits: 0x4080_0000 }) ==> exists|r: [usize; 3]| #[trigger]
            call_ensures(*radii, (sigma_x,), r) && (forall|c: int, y: int|
                0 <= c < frame@.channels && 0 <= y < frame@.height ==> thrice_boxed(
                    math,
                    r,
                    row(frame@, c, y),
                    #[trigger] row(out@, c, y),
                )),
{
    let image = frame@;
    let (plan_x, plan_y) = choose|plan_x: &BlurPlan<S>, plan_y: &BlurPlan<S>|
        planned(*kernel, *radii, sigma_x, *plan_x) && planned(*kernel, *radii, sigma_y, *plan_y)
            && #[trigger] blurred(math, plan_x, plan_y, image, out@);
    let across = choose|across: Image<S>| #[trigger]
        rows_blurred(math, plan_x, image, across) && columns_blurred(math, plan_y, across, out@);
    lemma_columns_kept(math, plan_y, across, out@);
    assert(across == out@);
    match *plan_x {
        BlurPlan::Exact(k) => {
            assert(call_ensures(*kernel, (sigma_x,), k));
            assert forall|c: int, y: int, x: int| image.has(c, y, x) implies weighs(
                math.accumulate,
                math.zero,
                k@,
                Seq::new(
                    k@.len(),
                    |i: int|
                        {
                            let at = x + i - k@.len() / 2;
                            let held = if at < 0 {
                                0
                            } else if at >= image.width {
                                image.width - 1
                            } else {
                                at
                            };
                            image.at(c, y, held)
                        },
                ),
                #[trigger] out@.at(c, y, x),
            ) by {
                assert(line_blurred(math, plan_x, row(image, c, y), row(out@, c, y)));
                assert(out@.at(c, y, x) == row(out@, c, y)[x]);
                assert(around(row(image, c, y), x, k@.len()) =~= Seq::new(
                    k@.len(),
                    |i: int|
                        {
                            let at = x + i - k@.len() / 2;
                            let held = if at < 0 {
                                0
                            } else if at >= image.width {
                                image.width - 1
                            } else {
                                at
                            };
                            image.at(c, y, held)
                        },
                ));
            }
        },
        BlurPlan::Boxes(r) => {
            assert(call_ensures(*radii, (sigma_x,), r));
        },
        _ => {},
    }
}

/// The second sigma blurs down the columns and nowhere else: with none along the rows, each
/// sample is weighed from its neighbours in its own column, the border standing in past an
/// end, or its column has gone through three boxes.
pub proof fn law_the_second_sigma_blurs_down_the_columns<
    S: Copy + Send + Sync,
    A: Fn(S, S, S) -> S + Sync + Send,
    P: Fn(S, S) -> S + Sync + Send,
    L: Fn(S, S, S) -> S + Sync + Send,
    M: Fn(S, usize) -> S + Sync + Send,
    K: Fn(F32) -> Vec<S>,
    B: Fn(F32) -> [usize; 3],
>(
    frame: &FrameF32<S>,
    sigma_x: F32,
    sigma_y: F32,
    kernel: &K,
    radii: &B,
    math: &BlurMath<S, A, P, L, M>,
    out: FrameF32<S>,
)
    requires
        frame@.wf(),
        frame@.width > 0 && frame@.height > 0,
        sigma_x.at_most(F32 { bits: 0x3A83_126F }),
        !sigma_y.nan() && !sigma_y.at_most(F32 { bits: 0x3A83_126F }),
        call_ensures(
            gaussian_blur::<S, A, P, L, M, K, B>,
            (frame, sigma_x, sigma_y, kernel, radii, math),
            out,
        ),
    ensures
        sigma_y.at_most(F32 { bits: 0x4080_0000 }) ==> exists|k: Vec<S>| #[trigger]
            call_ensures(*kernel, (sigma_y,), k) && (forall|c: int, y: int, x: int|
                frame@.has(c, y, x) ==> weighs(
                    math.accumulate,
                    math.zero,
                    k@,
                    Seq::new(
                        k@.len(),
                        |i: int|
                            {
                                let at = y + i - k@.len() / 2;
                                let held = if at < 0 {
                                    0
                                } else if at >= frame@.height {
                                    frame@.height - 1
                                } else {
                                    at
                                };
                                frame@.at(c, held, x)
                            },
                    ),
                    #[trigger] out@.at(c, y, x),
                )),
        !sigma_y.at_most(F32 { bits: 0x4080_0000 }) ==> exists|r: [usize; 3]| #[trigger]
            call_ensures(*radii, (sigma_y,), r) && (forall|c: int, x: int|
                0 <= c < frame@.channels && 0 <= x < frame@.width ==> thrice_boxed(
                    math,
                    r,
                    column(frame@, c, x),
                    #[trigger] column(out@, c, x),
                )),
{
    let image = frame@;
    let (plan_x, plan_y) = choose|plan_x: &BlurPlan<S>, plan_y: &BlurPlan<S>|
        planned(*kernel, *radii, sigma_x, *plan_x) && planned(*kernel, *radii, sigma_y, *plan_y)
            && #[trigger] blurred(math, plan_x, plan_y, image, out@);
    let across = choose|across: Image<S>| #[trigger]
        rows_blurred(math, plan_x, image, across) && columns_blurred(math, plan_y, across, out@);
    lemma_rows_kept(math, plan_x, image, across);
    assert(across == image);
    match *plan_y {
        BlurPlan::Exact(k) => {
            assert(call_ensures(*kernel, (sigma_y,), k));
            assert forall|c: int, y: int, x: int| image.has(c, y, x) implies weighs(
                math.accumulate,
                math.zero,
                k@,
                Seq::new(
                    k@.len(),
                    |i: int|
                        {
                            let at = y + i - k@.len() / 2;
                            let held = if at < 0 {
                                0
                            } else if at >= image.height {
                                image.height - 1
                            } else {
                                at
                            };
                            image.at(c, held, x)
                        },
                ),
                #[trigger] out@.at(c, y, x),
            ) by {
                assert(line_blurred(math, plan_y, column(image, c, x), column(out@, c, x)));
                assert(out@.at(c, y, x) == column(out@, c, x)[y]);
                assert(around(column(image, c, x), y, k@.len()) =~= Seq::new(
                    k@.len(),
                    |i: int|
                        {
                            let at = y + i - k@.len() / 2;
                            let held = if at < 0 {
                                0
                            } else if at >= image.height {
                                image.height - 1
                            } else {
                                at
                            };
                            image.at(c, held, x)
                        },
                ));
            }
        },
        BlurPlan::Boxes(r) => {
            assert(call_ensures(*radii, (sigma_y,), r));
        },
        _ => {},
    }
}

/// What the samples from one position on add up to, where the border stands in past an
/// end.
pub open spec fn stretch_sum<S>(value: spec_fn(S) -> int, line: Seq<S>, from: int, n: nat) -> int
    decreases n,
{
    if n == 0 {
        0
    } else {
        let at = from + n - 1;
        let held = if at < 0 {
            0
        } else if at >= line.len() {
            line.len() - 1
        } else {
            at
        };
        stretch_sum(value, line, from, (n - 1) as nat) + value(line[held])
    }
}

/// A stretch moved on by one has lost its first sample and gained the next.
proof fn lemma_stretch_moves<S>(value: spec_fn(S) -> int, line: Seq<S>, from: int, n: nat)
    requires
        line.len() > 0,
    ensures
        stretch_sum(value, line, from + 1, n) == stretch_sum(value, line, from, n) - value(
            line_at(line, from),
        ) + value(line_at(line, from + n)),
    decreases n,
{
    if n > 0 {
        lemma_stretch_moves(value, line, from, (n - 1) as nat);
    }
}

/// A sum is what its samples add up to.
proof fn lemma_sum_adds_up<S, P: Fn(S, S) -> S>(
    plus: P,
    zero: S,
    value: spec_fn(S) -> int,
    line: Seq<S>,
    from: int,
    samples: Seq<S>,
    sum: S,
)
    requires
        value(zero) == 0,
        forall|a: S, s: S, t: S| #[trigger]
            call_ensures(plus, (a, s), t) ==> value(t) == value(a) + value(s),
        forall|k: int| 0 <= k < samples.len() ==> #[trigger] samples[k] == line_at(line, from + k),
        sums(plus, zero, samples, sum),
    ensures
        value(sum) == stretch_sum(value, line, from, samples.len()),
    decreases samples.len(),
{
    if samples.len() > 0 {
        let before = choose|before: S|
            sums(plus, zero, samples.drop_last(), before) && #[trigger] call_ensures(
                plus,
                (before, samples.last()),
                sum,
            );
        lemma_sum_adds_up(plus, zero, value, line, from, samples.drop_last(), before);
        assert(samples.last() == line_at(line, from + samples.len() - 1));
    }
}

/// A box pass takes at each position the mean of all that lies within the radius on either
/// side of it, where adding and taking away do what they say; a radius of nothing changes
/// nothing.
pub proof fn law_a_box_takes_in_its_neighbours<
    S,
    A: Fn(S, S, S) -> S,
    P: Fn(S, S) -> S,
    L: Fn(S, S, S) -> S,
    M: Fn(S, usize) -> S,
>(
    math: &BlurMath<S, A, P, L, M>,
    value: spec_fn(S) -> int,
    radius: usize,
    line: Seq<S>,
    out: Seq<S>,
    x: int,
)
    requires
        boxed(math, radius, line, out),
        value(math.zero) == 0,
        forall|a: S, s: S, t: S| #[trigger]
            call_ensures(math.plus, (a, s), t) ==> value(t) == value(a) + value(s),
        forall|a: S, s: S, u: S, t: S| #[trigger]
            call_ensures(math.slide, (a, s, u), t) ==> value(t) == value(a) + value(s) - value(u),
        0 <= x < line.len(),
    ensures
        out.len() == line.len(),
        radius == 0 ==> out[x] == line[x],
        radius > 0 ==> exists|sum: S| #[trigger]
            call_ensures(math.mean, (sum, (2 * radius + 1) as usize), out[x]) && value(sum)
                == stretch_sum(value, line, x - radius, (2 * radius + 1) as nat),
{
    if radius > 0 {
        let running = choose|running: Seq<S>| #[trigger]
            slides(math.plus, math.slide, math.zero, radius as int, line, running) && (forall|k: int|
                0 <= k < line.len() ==> call_ensures(
                    math.mean,
                    (running[k], (2 * radius + 1) as usize),
                    #[trigger] out[k],
                ));
        lemma_running_sum(math, value, radius, line, running, x);
        assert(call_ensures(math.mean, (running[x], (2 * radius + 1) as usize), out[x]));
    }
}

/// The running sum at a position is that of all within the radius of it.
proof fn lemma_running_sum<
    S,
    A: Fn(S, S, S) -> S,
    P: Fn(S, S) -> S,
    L: Fn(S, S, S) -> S,
    M: Fn(S, usize) -> S,
>(
    math: &BlurMath<S, A, P, L, M>,
    value: spec_fn(S) -> int,
    radius: usize,
    line: Seq<S>,
    running: Seq<S>,
    x: int,
)
    requires
        slides(math.plus, math.slide, math.zero, radius as int, line, running),
        value(math.zero) == 0,
        forall|a: S, s: S, t: S| #[trigger]
            call_ensures(math.plus, (a, s), t) ==> value(t) == value(a) + value(s),
        forall|a: S, s: S, u: S, t: S| #[trigger]
            call_ensures(math.slide, (a, s, u), t) ==> value(t) == value(a) + value(s) - value(u),
        0 <= x < line.len(),
    ensures
        value(running[x]) == stretch_sum(value, line, x - radius, (2 * radius + 1) as nat),
    decreases x,
{
    let n = (2 * radius + 1) as nat;
    if x == 0 {
        lemma_sum_adds_up(
            math.plus,
            math.zero,
            value,
            line,
            -(radius as int),
            first_box(line, radius as int),
            running[0],
        );
    } else {
        lemma_running_sum(math, value, radius, line, running, x - 1);
        lemma_stretch_moves(value, line, x - 1 - radius, n);
        assert(call_ensures(
            math.slide,
            (running[x - 1], line_at(line, x + radius), line_at(line, x - radius - 1)),
            running[x],
        ));
    }
}

} // verus!
