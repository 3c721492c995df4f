//! Assembling the two recovered eyes into a deliverable, and resampling.

use crate::frame::{
    lemma_build_at, lemma_image_ext, lemma_tabulated, FrameF32, Image,
};
use crate::scalar::{percent_of, percentage, F32};
use vstd::prelude::*;

verus! {

/// How the two eyes are packed into the output.
#[derive(Debug, Clone, Copy, PartialEq, Eq, Structural)]
pub enum OutputLayout {
    /// One frame, twice as wide.
    SideBySide,
    /// One frame, twice as tall.
    TopBottom,
    /// Two independent streams.
    Separate,
    /// Both eyes in one frame, as a fresh anaglyph.
    Anaglyph,
    /// The left eye as a flat picture.
    LeftOnly,
    /// The right eye as a flat picture.
    RightOnly,
}

/// Which eye is placed first: left or top.
#[derive(Debug, Clone, Copy, PartialEq, Eq, Structural)]
pub enum EyeOrder {
    LeftFirst,
    RightFirst,
}

impl Default for OutputLayout {
    fn default() -> (r: Self)
        ensures
            r == OutputLayout::SideBySide,
    {
        OutputLayout::SideBySide
    }
}

impl Default for EyeOrder {
    fn default() -> (r: Self)
        ensures
            r == EyeOrder::LeftFirst,
    {
        EyeOrder::LeftFirst
    }
}

impl OutputLayout {
    /// Every layout, in the order a menu offers them.
    pub const ALL: [OutputLayout; 6] = [
        OutputLayout::SideBySide,
        OutputLayout::TopBottom,
        OutputLayout::Separate,
        OutputLayout::Anaglyph,
        OutputLayout::LeftOnly,
        OutputLayout::RightOnly,
    ];

    pub open spec fn label_text(self) -> Seq<char> {
        match self {
            OutputLayout::SideBySide => "Side by side"@,
            OutputLayout::TopBottom => "Top and bottom"@,
            OutputLayout::Separate => "Two files, one per eye"@,
            OutputLayout::Anaglyph => "Anaglyph"@,
            OutputLayout::LeftOnly => "Left eye only"@,
            OutputLayout::RightOnly => "Right eye only"@,
        }
    }

    pub fn label(self) -> (r: &'static str)
        ensures
            r@ == self.label_text(),
    {
        match self {
            OutputLayout::SideBySide => "Side by side",
            OutputLayout::TopBottom => "Top and bottom",
            OutputLayout::Separate => "Two files, one per eye",
            OutputLayout::Anaglyph => "Anaglyph",
            OutputLayout::LeftOnly => "Left eye only",
            OutputLayout::RightOnly => "Right eye only",
        }
    }
}

/// `a` to the left of `b`.
pub open spec fn beside<S>(a: Image<S>, b: Image<S>) -> Image<S> {
    Image::build(
        a.width + b.width,
        a.height,
        a.channels,
        |c: int, y: int, x: int|
            if x < a.width {
                a.at(c, y, x)
            } else {
                b.at(c, y, x - a.width)
            },
    )
}

/// `a` above `b`.
pub open spec fn above<S>(a: Image<S>, b: Image<S>) -> Image<S> {
    Image::build(
        a.width,
        a.height + b.height,
        a.channels,
        |c: int, y: int, x: int|
            if y < a.height {
                a.at(c, y, x)
            } else {
                b.at(c, y - a.height, x)
            },
    )
}

/// The rectangle of `image` whose top left corner is at `(x0, y0)`.
pub open spec fn cropped<S>(image: Image<S>, x0: nat, y0: nat, width: nat, height: nat) -> Image<S> {
    Image::build(
        width,
        height,
        image.channels,
        |c: int, y: int, x: int| image.at(c, y0 + y, x0 + x),
    )
}

/// Places `a` to the left of `b`.
pub fn stack_horizontal<S: Copy>(a: &FrameF32<S>, b: &FrameF32<S>) -> (out: FrameF32<S>)
    requires
        a@.wf(),
        b@.wf(),
        a@.height == b@.height,
        a@.channels == b@.channels,
        (a@.width + b@.width) * a@.height * a@.channels <= usize::MAX,
        a@.width + b@.width <= usize::MAX,
    ensures
        out@ == beside(a@, b@),
        out@.wf(),
{
    let left: usize = a.width();
    let sample = |c: usize, y: usize, x: usize| -> (s: S)
        requires
            a@.wf(),
            b@.wf(),
            left == a@.width,
            a@.height == b@.height,
            a@.channels == b@.channels,
            c < a@.channels,
            y < a@.height,
            x < a@.width + b@.width,
        ensures
            s == (if x < a@.width {
                a@.at(c as int, y as int, x as int)
            } else {
                b@.at(c as int, y as int, x - a@.width)
            }),
        {
            if x < left {
                a.at(c, y, x)
            } else {
                b.at(c, y, x - left)
            }
        };
    let out = FrameF32::tabulate(left + b.width(), a.height(), a.channels(), sample);
    proof {
        let f = |c: int, y: int, x: int|
            if x < a@.width {
                a@.at(c, y, x)
            } else {
                b@.at(c, y, x - a@.width)
            };
        lemma_tabulated(sample, out@, f);
    }
    out
}

/// Places `a` above `b`.
pub fn stack_vertical<S: Copy>(a: &FrameF32<S>, b: &FrameF32<S>) -> (out: FrameF32<S>)
    requires
        a@.wf(),
        b@.wf(),
        a@.width == b@.width,
        a@.channels == b@.channels,
        a@.width * (a@.height + b@.height) * a@.channels <= usize::MAX,
        a@.height + b@.height <= usize::MAX,
    ensures
        out@ == above(a@, b@),
        out@.wf(),
{
    let top: usize = a.height();
    let sample = |c: usize, y: usize, x: usize| -> (s: S)
        requires
            a@.wf(),
            b@.wf(),
            top == a@.height,
            a@.width == b@.width,
            a@.channels == b@.channels,
            c < a@.channels,
            y < a@.height + b@.height,
            x < a@.width,
        ensures
            s == (if y < a@.height {
                a@.at(c as int, y as int, x as int)
            } else {
                b@.at(c as int, y - a@.height, x as int)
            }),
        {
            if y < top {
                a.at(c, y, x)
            } else {
                b.at(c, y - top, x)
            }
        };
    let out = FrameF32::tabulate(a.width(), top + b.height(), a.channels(), sample);
    proof {
        let f = |c: int, y: int, x: int|
            if y < a@.height {
                a@.at(c, y, x)
            } else {
                b@.at(c, y - a@.height, x)
            };
        lemma_tabulated(sample, out@, f);
    }
    out
}

/// Lifts a rectangle out of a frame.
pub fn crop<S: Copy>(
    frame: &FrameF32<S>,
    x0: usize,
    y0: usize,
    width: usize,
    height: usize,
) -> (out: FrameF32<S>)
    requires
        frame@.wf(),
        x0 + width <= frame@.width,
        y0 + height <= frame@.height,
    ensures
        out@ == cropped(frame@, x0 as nat, y0 as nat, width as nat, height as nat),
        out@.wf(),
{
    let sample = |c: usize, y: usize, x: usize| -> (s: S)
        requires
            frame@.wf(),
            c < frame@.channels,
            y0 + y < frame@.height,
            x0 + x < frame@.width,
        ensures
            s == frame@.at(c as int, y0 + y, x0 + x),
        {
            proof {
                frame.lemma_fits();
            }
            frame.at(c, y0 + y, x0 + x)
        };
    proof {
        frame.lemma_fits();
        assert(width * height * frame@.channels <= frame@.width * frame@.height * frame@.channels)
            by (nonlinear_arith)
            requires
                0 <= width <= frame@.width,
                0 <= height <= frame@.height,
                0 <= frame@.channels,
        ;
    }
    let out = FrameF32::tabulate(width, height, frame.channels(), sample);
    proof {
        let f = |c: int, y: int, x: int| frame@.at(c, y0 + y, x0 + x);
        lemma_tabulated(sample, out@, f);
    }
    out
}

/// How wide each eye is once it has been converged: what both eyes cover.
pub open spec fn converged_to(width: nat, convergence: F32) -> nat {
    (width - percent_of(width, convergence)) as nat
}

/// How wide each eye is once it has been converged.
///
/// The percentage names the total separation, which is also exactly the width
/// given up, since only the overlap can be kept.
pub fn converged_width(width: usize, convergence: F32) -> (r: usize)
    ensures
        r == converged_to(width as nat, convergence),
        r <= width,
{
    width - percentage(width, convergence)
}

/// The left eye converged: moved left by a positive setting, so that it keeps
/// its right-hand part.
pub open spec fn converged_left<S>(left: Image<S>, convergence: F32) -> Image<S> {
    let kept = converged_to(left.width, convergence);
    let x0 = if convergence.negative() {
        0
    } else {
        (left.width - kept) as nat
    };
    cropped(left, x0, 0, kept, left.height)
}

/// The right eye converged: moved right by a positive setting, so that it keeps
/// its left-hand part.
pub open spec fn converged_right<S>(right: Image<S>, convergence: F32) -> Image<S> {
    let kept = converged_to(right.width, convergence);
    let x0 = if convergence.negative() {
        (right.width - kept) as nat
    } else {
        0
    };
    cropped(right, x0, 0, kept, right.height)
}

/// Shifts the eyes horizontally against each other, keeping what both cover.
///
/// Two crops at different offsets: nothing is resampled, and eyes of one size
/// stay identically sized.
pub fn converge<S: Copy>(left: &FrameF32<S>, right: &FrameF32<S>, convergence: F32) -> (out: (
    FrameF32<S>,
    FrameF32<S>,
))
    requires
        left@.wf(),
        right@.wf(),
    ensures
        out.0@ == converged_left(left@, convergence),
        out.1@ == converged_right(right@, convergence),
        out.0@.wf(),
        out.1@.wf(),
{
    let left_kept: usize = converged_width(left.width(), convergence);
    let right_kept: usize = converged_width(right.width(), convergence);
    if convergence.is_negative() {
        (
            crop(left, 0, 0, left_kept, left.height()),
            crop(right, right.width() - right_kept, 0, right_kept, right.height()),
        )
    } else {
        (
            crop(left, left.width() - left_kept, 0, left_kept, left.height()),
            crop(right, 0, 0, right_kept, right.height()),
        )
    }
}

/// Whether two frame sizes are different shapes, so that resizing one to the
/// other would stretch the picture.
pub fn aspect_differs(a: (usize, usize), b: (usize, usize)) -> (r: bool)
    ensures
        r == (a.0 * b.1 != b.0 * a.1),
{
    proof {
        assert(a.0 * b.1 <= 0xffff_ffff_ffff_ffff * 0xffff_ffff_ffff_ffff) by (nonlinear_arith)
            requires
                a.0 <= 0xffff_ffff_ffff_ffff,
                b.1 <= 0xffff_ffff_ffff_ffff,
        ;
        assert(b.0 * a.1 <= 0xffff_ffff_ffff_ffff * 0xffff_ffff_ffff_ffff) by (nonlinear_arith)
            requires
                b.0 <= 0xffff_ffff_ffff_ffff,
                a.1 <= 0xffff_ffff_ffff_ffff,
        ;
    }
    (a.0 as u128) * (b.1 as u128) != (b.0 as u128) * (a.1 as u128)
}

/// A precomputed set of source samples and weights for one output position.
pub struct Tap<S> {
    pub start: usize,
    pub weights: Vec<S>,
}

impl<S> Tap<S> {
    /// The tap reads only samples that a row of `len` has.
    pub open spec fn fits(self, len: int) -> bool {
        self.start + self.weights@.len() <= len
    }
}

/// `out` is what adding up `weights` times `samples` comes to, in order and
/// starting from `zero`, where `accumulate` adds one product to a running sum.
pub open spec fn weighs<S, M: Fn(S, S, S) -> S>(
    accumulate: M,
    zero: S,
    weights: Seq<S>,
    samples: Seq<S>,
    out: S,
) -> bool
    decreases weights.len(),
{
    if weights.len() == 0 {
        out == zero
    } else {
        exists|before: S|
            weighs(accumulate, zero, weights.drop_last(), samples.drop_last(), before)
                && #[trigger] call_ensures(
                accumulate,
                (before, weights.last(), samples.last()),
                out,
            )
    }
}

/// The samples of row `y` that a tap reads.
pub open spec fn row_samples<S>(image: Image<S>, c: int, y: int, tap: Tap<S>) -> Seq<S> {
    Seq::new(tap.weights@.len(), |k: int| image.at(c, y, tap.start + k))
}

/// The samples of column `x` that a tap reads.
pub open spec fn column_samples<S>(image: Image<S>, c: int, x: int, tap: Tap<S>) -> Seq<S> {
    Seq::new(tap.weights@.len(), |k: int| image.at(c, tap.start + k, x))
}

/// `out` is `image` resampled along its rows: output column `x` is what tap `x`
/// makes of each row.
pub open spec fn rows_resampled<S, M: Fn(S, S, S) -> S>(
    accumulate: M,
    zero: S,
    taps: Seq<Tap<S>>,
    image: Image<S>,
    out: Image<S>,
) -> bool {
    &&& out.wf()
    &&& out.width == taps.len()
    &&& out.height == image.height
    &&& out.channels == image.channels
    &&& forall|c: int, y: int, x: int| #[trigger]
        out.has(c, y, x) ==> weighs(
            accumulate,
            zero,
            taps[x].weights@,
            row_samples(image, c, y, taps[x]),
            out.at(c, y, x),
        )
}

/// `out` is `image` resampled along its columns.
pub open spec fn columns_resampled<S, M: Fn(S, S, S) -> S>(
    accumulate: M,
    zero: S,
    taps: Seq<Tap<S>>,
    image: Image<S>,
    out: Image<S>,
) -> bool {
    &&& out.wf()
    &&& out.width == image.width
    &&& out.height == taps.len()
    &&& out.channels == image.channels
    &&& forall|c: int, y: int, x: int| #[trigger]
        out.has(c, y, x) ==> weighs(
            accumulate,
            zero,
            taps[y].weights@,
            column_samples(image, c, x, taps[y]),
            out.at(c, y, x),
        )
}

/// `accumulate` takes every sum, weight and sample.
pub open spec fn adds_all<S, M: Fn(S, S, S) -> S>(accumulate: &M) -> bool {
    forall|a: S, w: S, s: S| #[trigger] call_requires(*accumulate, (a, w, s))
}

/// `weighs`, of an operation behind a reference.
pub open spec fn weighs_by<S, M: Fn(S, S, S) -> S>(
    accumulate: &M,
    zero: S,
    weights: Seq<S>,
    samples: Seq<S>,
    out: S,
) -> bool {
    weighs(*accumulate, zero, weights, samples, out)
}

/// One more product takes the sum one sample further.
pub proof fn lemma_weighs_step<S, M: Fn(S, S, S) -> S>(
    accumulate: &M,
    zero: S,
    weights: Seq<S>,
    samples: Seq<S>,
    k: int,
    before: S,
    after: S,
)
    requires
        0 <= k < weights.len(),
        k < samples.len(),
        weighs(*accumulate, zero, weights.take(k), samples.take(k), before),
        call_ensures(*accumulate, (before, weights[k], samples[k]), after),
    ensures
        weighs(*accumulate, zero, weights.take(k + 1), samples.take(k + 1), after),
{
    let (w, s) = (weights.take(k + 1), samples.take(k + 1));
    assert(w.drop_last() =~= weights.take(k));
    assert(s.drop_last() =~= samples.take(k));
    assert(weighs(*accumulate, zero, w.drop_last(), s.drop_last(), before));
    assert(call_ensures(*accumulate, (before, w.last(), s.last()), after));
}

impl<S: Copy> Tap<S> {
    /// Weighted sum over a row.
    fn apply_row<M: Fn(S, S, S) -> S>(
        &self,
        frame: &FrameF32<S>,
        c: usize,
        y: usize,
        zero: S,
        accumulate: &M,
    ) -> (out: S)
        requires
            frame@.wf(),
            c < frame@.channels,
            y < frame@.height,
            self.fits(frame@.width as int),
            adds_all(accumulate),
        ensures
            weighs(*accumulate, zero, self.weights@, row_samples(frame@, c as int, y as int, *self), out),
    {
        let mut sum = zero;
        let mut k: usize = 0;
        let ghost samples = row_samples(frame@, c as int, y as int, *self);
        while k < self.weights.len()
            invariant
                frame@.wf(),
                c < frame@.channels,
                y < frame@.height,
                self.fits(frame@.width as int),
                adds_all(accumulate),
                k <= self.weights@.len(),
                samples == row_samples(frame@, c as int, y as int, *self),
                weighs(*accumulate, zero, self.weights@.take(k as int), samples.take(k as int), sum),
            decreases self.weights@.len() - k,
        {
            proof {
                frame.lemma_fits();
            }
            let ghost before = sum;
            sum = accumulate(sum, self.weights[k], frame.at(c, y, self.start + k));
            k += 1;
            proof {
                lemma_weighs_step(accumulate, zero, self.weights@, samples, k - 1, before, sum);
            }
        }
        assert(self.weights@.take(k as int) =~= self.weights@);
        assert(samples.take(k as int) =~= samples);
        sum
    }

    /// Weighted sum over a column.
    fn apply_column<M: Fn(S, S, S) -> S>(
        &self,
        frame: &FrameF32<S>,
        c: usize,
        x: usize,
        zero: S,
        accumulate: &M,
    ) -> (out: S)
        requires
            frame@.wf(),
            c < frame@.channels,
            x < frame@.width,
            self.fits(frame@.height as int),
            adds_all(accumulate),
        ensures
            weighs(*accumulate, zero, self.weights@, column_samples(frame@, c as int, x as int, *self), out),
    {
        let mut sum = zero;
        let mut k: usize = 0;
        let ghost samples = column_samples(frame@, c as int, x as int, *self);
        while k < self.weights.len()
            invariant
                frame@.wf(),
                c < frame@.channels,
                x < frame@.width,
                self.fits(frame@.height as int),
                adds_all(accumulate),
                k <= self.weights@.len(),
                samples == column_samples(frame@, c as int, x as int, *self),
                weighs(*accumulate, zero, self.weights@.take(k as int), samples.take(k as int), sum),
            decreases self.weights@.len() - k,
        {
            proof {
                frame.lemma_fits();
            }
            let ghost before = sum;
            sum = accumulate(sum, self.weights[k], frame.at(c, self.start + k, x));
            k += 1;
            proof {
                lemma_weighs_step(accumulate, zero, self.weights@, samples, k - 1, before, sum);
            }
        }
        assert(self.weights@.take(k as int) =~= self.weights@);
        assert(samples.take(k as int) =~= samples);
        sum
    }
}

/// `out` is `image` at another size: resampled along its rows by one set of
/// taps, then along its columns by the other. At its own size it is itself.
pub open spec fn resized<S, M: Fn(S, S, S) -> S>(
    accumulate: M,
    zero: S,
    taps_x: Seq<Tap<S>>,
    taps_y: Seq<Tap<S>>,
    image: Image<S>,
    width: nat,
    height: nat,
    out: Image<S>,
) -> bool {
    if image.width == width && image.height == height {
        out == image
    } else {
        exists|across: Image<S>| #[trigger]
            rows_resampled(accumulate, zero, taps_x, image, across) && columns_resampled(
                accumulate,
                zero,
                taps_y,
                across,
                out,
            )
    }
}

/// Resamples to exact dimensions by taps: one for each output column over the rows,
/// one for each output row over the columns.
pub fn resample<S: Copy, M: Fn(S, S, S) -> S>(
    frame: &FrameF32<S>,
    width: usize,
    height: usize,
    taps_x: &Vec<Tap<S>>,
    taps_y: &Vec<Tap<S>>,
    zero: S,
    accumulate: &M,
) -> (out: FrameF32<S>)
    requires
        frame@.wf(),
        width > 0 && height > 0,
        width * frame@.height * frame@.channels <= usize::MAX,
        width * height * frame@.channels <= usize::MAX,
        taps_x@.len() == width,
        taps_y@.len() == height,
        forall|i: int| 0 <= i < width ==> (#[trigger] taps_x@[i]).fits(frame@.width as int),
        forall|i: int| 0 <= i < height ==> (#[trigger] taps_y@[i]).fits(frame@.height as int),
        adds_all(accumulate),
    ensures
        resized(*accumulate, zero, taps_x@, taps_y@, frame@, width as nat, height as nat, out@),
        out@.wf(),
        out@.width == width,
        out@.height == height,
        out@.channels == frame@.channels,
{
    if frame.width() == width && frame.height() == height {
        return frame.clone();
    }
    let across_sample = |c: usize, y: usize, x: usize| -> (s: S)
        requires
            frame@.wf(),
            c < frame@.channels,
            y < frame@.height,
            x < taps_x@.len(),
            taps_x@[x as int].fits(frame@.width as int),
            adds_all(accumulate),
        ensures
            weighs_by(
                accumulate,
                zero,
                taps_x@[x as int].weights@,
                row_samples(frame@, c as int, y as int, taps_x@[x as int]),
                s,
            ),
        { taps_x[x].apply_row(frame, c, y, zero, accumulate) };
    let across = FrameF32::tabulate(width, frame.height(), frame.channels(), across_sample);
    assert(rows_resampled(*accumulate, zero, taps_x@, frame@, across@)) by {
        assert forall|c: int, y: int, x: int| #[trigger] across@.has(c, y, x) implies weighs(
            *accumulate,
            zero,
            taps_x@[x].weights@,
            row_samples(frame@, c, y, taps_x@[x]),
            across@.at(c, y, x),
        ) by {
            assert(call_ensures(
                across_sample,
                (c as usize, y as usize, x as usize),
                across@.at(c as usize as int, y as usize as int, x as usize as int),
            ));
        }
    }
    let source = &across;
    let sample = |c: usize, y: usize, x: usize| -> (s: S)
        requires
            source@.wf(),
            c < source@.channels,
            x < source@.width,
            y < taps_y@.len(),
            taps_y@[y as int].fits(source@.height as int),
            adds_all(accumulate),
        ensures
            weighs_by(
                accumulate,
                zero,
                taps_y@[y as int].weights@,
                column_samples(source@, c as int, x as int, taps_y@[y as int]),
                s,
            ),
        { taps_y[y].apply_column(source, c, x, zero, accumulate) };
    let out = FrameF32::tabulate(width, height, frame.channels(), sample);
    assert(columns_resampled(*accumulate, zero, taps_y@, across@, out@)) by {
        assert forall|c: int, y: int, x: int| #[trigger] out@.has(c, y, x) implies weighs(
            *accumulate,
            zero,
            taps_y@[y].weights@,
            column_samples(across@, c, x, taps_y@[y]),
            out@.at(c, y, x),
        ) by {
            assert(call_ensures(
                sample,
                (c as usize, y as usize, x as usize),
                out@.at(c as usize as int, y as usize as int, x as usize as int),
            ));
        }
    }
    out
}

/// The sample of a row of `len` that stands for position `i`: past either end,
/// the sample on that border.
pub open spec fn clamped(i: int, len: int) -> int {
    if i < 0 {
        0
    } else if i >= len {
        len - 1
    } else {
        i
    }
}

/// The sample of a row of `len` that stands for position `i`.
pub fn clamp_index(i: isize, len: usize) -> (r: usize)
    requires
        0 < len <= isize::MAX,
    ensures
        r == clamped(i as int, len as int),
{
    if i < 0 {
        0
    } else if i as usize >= len {
        len - 1
    } else {
        i as usize
    }
}

/// `out` is what collects when the first `n` of `weights`, which stand for
/// positions from `first` on, are added one after the other to the sample that
/// each falls on. The collected weights start with that of sample `start`.
pub open spec fn collects<S, A: Fn(S, S) -> S>(
    plus: A,
    zero: S,
    first: int,
    weights: Seq<S>,
    len: int,
    start: int,
    count: nat,
    n: nat,
    out: Seq<S>,
) -> bool
    decreases n,
{
    if n == 0 {
        out == Seq::new(count, |j: int| zero)
    } else {
        let at = clamped(first + n - 1, len) - start;
        exists|before: Seq<S>|
            collects(plus, zero, first, weights, len, start, count, (n - 1) as nat, before)
                && call_ensures(plus, (before[at], weights[n - 1]), out[at]) && out
                == #[trigger] before.update(at, out[at])
    }
}

/// `tap` is the window of `weights` from position `first` on, with what falls
/// past an end of the row folded onto the border sample.
pub open spec fn folded<S, A: Fn(S, S) -> S>(
    plus: A,
    zero: S,
    first: int,
    weights: Seq<S>,
    len: int,
    tap: Tap<S>,
) -> bool {
    let start = clamped(first, len);
    let count = clamped(first + weights.len() - 1, len) - start + 1;
    &&& tap.start == start
    &&& tap.weights@.len() == count
    &&& collects(plus, zero, first, weights, len, start, count as nat, weights.len(), tap.weights@)
}

/// Clamps a window to the edge by folding out-of-range weights onto the border
/// sample, which keeps their sum.
pub fn fold_tap<S: Copy, A: Fn(S, S) -> S>(
    first: isize,
    weights: &Vec<S>,
    len: usize,
    zero: S,
    plus: &A,
) -> (tap: Tap<S>)
    requires
        0 < len <= isize::MAX,
        0 < weights@.len() <= isize::MAX,
        first + weights@.len() <= isize::MAX,
        forall|a: S, b: S| #[trigger] call_requires(*plus, (a, b)),
    ensures
        folded(*plus, zero, first as int, weights@, len as int, tap),
        tap.fits(len as int),
{
    let n: usize = weights.len();
    let start: usize = clamp_index(first, len);
    let count: usize = clamp_index(first + (n as isize - 1), len) - start + 1;
    let mut folded_weights: Vec<S> = Vec::new();
    let mut j: usize = 0;
    while j < count
        invariant
            j <= count,
            folded_weights@ == Seq::new(j as nat, |j: int| zero),
        decreases count - j,
    {
        folded_weights.push(zero);
        j += 1;
        assert(folded_weights@ =~= Seq::new(j as nat, |j: int| zero));
    }
    let mut i: usize = 0;
    while i < n
        invariant
            i <= n == weights@.len(),
            n <= isize::MAX,
            0 < len <= isize::MAX,
            first + n <= isize::MAX,
            start == clamped(first as int, len as int),
            count == clamped(first + n - 1, len as int) - start + 1,
            folded_weights@.len() == count,
            forall|a: S, b: S| #[trigger] call_requires(*plus, (a, b)),
            collects(
                *plus,
                zero,
                first as int,
                weights@,
                len as int,
                start as int,
                count as nat,
                i as nat,
                folded_weights@,
            ),
        decreases n - i,
    {
        let at: usize = clamp_index(first + i as isize, len) - start;
        let ghost before = folded_weights@;
        let sum = plus(folded_weights[at], weights[i]);
        folded_weights.set(at, sum);
        i += 1;
        proof {
            assert(call_ensures(*plus, (before[at as int], weights@[i - 1]), sum));
            assert(at == clamped(first + i - 1, len as int) - start);
            assert(folded_weights@ == before.update(at as int, folded_weights@[at as int]));
        }
    }
    Tap { start, weights: folded_weights }
}

/// `out` is what adding up `samples` in order comes to, from `zero`.
pub open spec fn sums<S, P: Fn(S, S) -> S>(plus: P, zero: S, samples: Seq<S>, out: S) -> bool
    decreases samples.len(),
{
    if samples.len() == 0 {
        out == zero
    } else {
        exists|before: S|
            sums(plus, zero, samples.drop_last(), before) && #[trigger] call_ensures(
                plus,
                (before, samples.last()),
                out,
            )
    }
}

/// `out` is `raw` with every weight divided by their sum.
pub open spec fn normalised<S, P: Fn(S, S) -> S, D: Fn(S, S) -> S>(
    plus: P,
    share: D,
    zero: S,
    raw: Seq<S>,
    sum: S,
    out: Seq<S>,
) -> bool {
    &&& sums(plus, zero, raw, sum)
    &&& out.len() == raw.len()
    &&& forall|i: int| 0 <= i < raw.len() ==> call_ensures(share, (raw[i], sum), #[trigger] out[i])
}

/// Divides every weight by the sum of all.
pub fn normalise<S: Copy, P: Fn(S, S) -> S, D: Fn(S, S) -> S>(
    raw: &Vec<S>,
    zero: S,
    plus: &P,
    share: &D,
) -> (out: Vec<S>)
    requires
        forall|a: S, b: S| #[trigger] call_requires(*plus, (a, b)),
        forall|a: S, b: S| #[trigger] call_requires(*share, (a, b)),
    ensures
        exists|sum: S| #[trigger] normalised(*plus, *share, zero, raw@, sum, out@),
{
    let mut sum: S = zero;
    let mut i: usize = 0;
    while i < raw.len()
        invariant
            i <= raw@.len(),
            forall|a: S, b: S| #[trigger] call_requires(*plus, (a, b)),
            sums(*plus, zero, raw@.take(i as int), sum),
        decreases raw@.len() - i,
    {
        let next: S = plus(sum, raw[i]);
        proof {
            let longer = raw@.take(i + 1);
            assert(longer.drop_last() == raw@.take(i as int));
            assert(longer.last() == raw@[i as int]);
            assert(call_ensures(*plus, (sum, longer.last()), next));
        }
        sum = next;
        i += 1;
    }
    assert(raw@.take(i as int) == raw@);
    let mut out: Vec<S> = Vec::new();
    while out.len() < raw.len()
        invariant
            out@.len() <= raw@.len(),
            forall|a: S, b: S| #[trigger] call_requires(*share, (a, b)),
            forall|i: int|
                0 <= i < out@.len() ==> call_ensures(*share, (raw@[i], sum), #[trigger] out@[i]),
        decreases raw@.len() - out@.len(),
    {
        out.push(share(raw[out.len()], sum));
    }
    assert(normalised(*plus, *share, zero, raw@, sum, out@));
    out
}

/// The arithmetic that taps are made of.
pub struct TapMath<S, X, W, A, D> {
    /// What a sum starts from.
    pub zero: S,
    /// The first and the last source position that the filter reaches, from the source's
    /// length, the output's and a position of the output.
    pub reach: X,
    /// What the filter gives a source position, seen from there.
    pub weigh: W,
    /// Adds two weights.
    pub plus: A,
    /// A weight's share of a sum.
    pub share: D,
}

/// The arithmetic takes every output position of an axis and every weight, and every
/// window reaches over at least one source position.
pub open spec fn lays_all<
    S,
    X: Fn(usize, usize, usize) -> (isize, isize),
    W: Fn(usize, usize, usize, isize) -> S,
    A: Fn(S, S) -> S,
    D: Fn(S, S) -> S,
>(math: &TapMath<S, X, W, A, D>) -> bool {
    &&& forall|src: usize, dst: usize, i: usize|
        0 < src && i < dst ==> #[trigger] call_requires(math.reach, (src, dst, i))
    &&& forall|src: usize, dst: usize, i: usize, r: (isize, isize)| #[trigger]
        call_ensures(math.reach, (src, dst, i), r) ==> r.0 <= r.1 < isize::MAX && r.1 - r.0
            < isize::MAX
    &&& forall|src: usize, dst: usize, i: usize, s: isize| #[trigger]
        call_requires(math.weigh, (src, dst, i, s))
    &&& forall|a: S, b: S| #[trigger] call_requires(math.plus, (a, b))
    &&& forall|a: S, b: S| #[trigger] call_requires(math.share, (a, b))
}

/// `raw` is what the filter gives each source position that it reaches.
pub open spec fn weighs_window<S, W: Fn(usize, usize, usize, isize) -> S>(
    weigh: W,
    src: usize,
    dst: usize,
    i: usize,
    reach: (isize, isize),
    raw: Seq<S>,
) -> bool {
    &&& raw.len() == reach.1 - reach.0 + 1
    &&& forall|k: int|
        0 <= k < raw.len() ==> call_ensures(
            weigh,
            (src, dst, i, (reach.0 + k) as isize),
            #[trigger] raw[k],
        )
}

/// `tap` is the window that the filter lays around output position `i`, normalised
/// and folded into a row of `src`.
pub open spec fn taps_window<
    S,
    X: Fn(usize, usize, usize) -> (isize, isize),
    W: Fn(usize, usize, usize, isize) -> S,
    A: Fn(S, S) -> S,
    D: Fn(S, S) -> S,
>(math: &TapMath<S, X, W, A, D>, src: usize, dst: usize, i: usize, tap: Tap<S>) -> bool {
    exists|reach: (isize, isize), raw: Seq<S>, sum: S, weights: Seq<S>| #[trigger]
        call_ensures(math.reach, (src, dst, i), reach) && weighs_window(
            math.weigh,
            src,
            dst,
            i,
            reach,
            raw,
        ) && #[trigger] normalised(math.plus, math.share, math.zero, raw, sum, weights) && folded(
            math.plus,
            math.zero,
            reach.0 as int,
            weights,
            src as int,
            tap,
        )
}

/// `taps` map `src` samples onto `dst`.
pub open spec fn taps_of<
    S,
    X: Fn(usize, usize, usize) -> (isize, isize),
    W: Fn(usize, usize, usize, isize) -> S,
    A: Fn(S, S) -> S,
    D: Fn(S, S) -> S,
>(math: &TapMath<S, X, W, A, D>, src: usize, dst: usize, taps: Seq<Tap<S>>) -> bool {
    &&& taps.len() == dst
    &&& forall|i: int| 0 <= i < dst ==> (#[trigger] taps[i]).fits(src as int)
    &&& forall|i: int|
        0 <= i < dst ==> taps_window(math, src, dst, i as usize, #[trigger] taps[i])
}

/// Builds the taps mapping `src_len` samples onto `dst_len`.
pub fn axis_taps<
    S: Copy,
    X: Fn(usize, usize, usize) -> (isize, isize),
    W: Fn(usize, usize, usize, isize) -> S,
    A: Fn(S, S) -> S,
    D: Fn(S, S) -> S,
>(src_len: usize, dst_len: usize, math: &TapMath<S, X, W, A, D>) -> (taps: Vec<Tap<S>>)
    requires
        0 < src_len <= isize::MAX,
        lays_all(math),
    ensures
        taps_of(math, src_len, dst_len, taps@),
{
    let mut taps: Vec<Tap<S>> = Vec::new();
    let mut i: usize = 0;
    while i < dst_len
        invariant
            i <= dst_len,
            0 < src_len <= isize::MAX,
            lays_all(math),
            taps@.len() == i,
            forall|k: int| 0 <= k < i ==> (#[trigger] taps@[k]).fits(src_len as int),
            forall|k: int|
                0 <= k < i ==> taps_window(math, src_len, dst_len, k as usize, #[trigger] taps@[k]),
        decreases dst_len - i,
    {
        let tap = lay_tap(src_len, dst_len, i, math);
        taps.push(tap);
        i += 1;
    }
    taps
}

/// Builds the tap of one output position.
fn lay_tap<
    S: Copy,
    X: Fn(usize, usize, usize) -> (isize, isize),
    W: Fn(usize, usize, usize, isize) -> S,
    A: Fn(S, S) -> S,
    D: Fn(S, S) -> S,
>(src_len: usize, dst_len: usize, i: usize, math: &TapMath<S, X, W, A, D>) -> (tap: Tap<S>)
    requires
        0 < src_len <= isize::MAX,
        i < dst_len,
        lays_all(math),
    ensures
        tap.fits(src_len as int),
        taps_window(math, src_len, dst_len, i, tap),
{
    let (first, last) = (math.reach)(src_len, dst_len, i);
    let ghost reach = (first, last);
    assert(call_ensures(math.reach, (src_len, dst_len, i), reach));
    let mut raw: Vec<S> = Vec::new();
    let mut s: isize = first;
    while s <= last
        invariant
            first <= s <= last + 1,
            last < isize::MAX,
            raw@.len() == s - first,
            lays_all(math),
            forall|k: int|
                0 <= k < raw@.len() ==> call_ensures(
                    math.weigh,
                    (src_len, dst_len, i, (first + k) as isize),
                    #[trigger] raw@[k],
                ),
        decreases last + 1 - s,
    {
        raw.push((math.weigh)(src_len, dst_len, i, s));
        s += 1;
    }
    assert(weighs_window(math.weigh, src_len, dst_len, i, reach, raw@));
    let weights = normalise(&raw, math.zero, &math.plus, &math.share);
    fold_tap(first, &weights, src_len, math.zero, &math.plus)
}

/// A picture that can be resampled to `width` by `height`.
pub open spec fn resizable<S>(image: Image<S>, width: int, height: int) -> bool {
    &&& image.wf()
    &&& image.width > 0 && image.height > 0
    &&& 0 < width <= usize::MAX && 0 < height <= usize::MAX
    &&& width * image.height * image.channels <= usize::MAX
    &&& width * height * image.channels <= usize::MAX
}

/// `out` is `image` resampled by a filter: itself where it has the size already, and
/// otherwise first along the rows and then down the columns.
pub open spec fn filtered<
    S,
    X: Fn(usize, usize, usize) -> (isize, isize),
    W: Fn(usize, usize, usize, isize) -> S,
    A: Fn(S, S) -> S,
    D: Fn(S, S) -> S,
    M: Fn(S, S, S) -> S,
>(
    math: &TapMath<S, X, W, A, D>,
    accumulate: M,
    image: Image<S>,
    width: usize,
    height: usize,
    out: Image<S>,
) -> bool {
    if image.width == width && image.height == height {
        out == image
    } else {
        exists|across: Seq<Tap<S>>, down: Seq<Tap<S>>| #[trigger]
            taps_of(math, image.width as usize, width, across) && #[trigger] taps_of(
                math,
                image.height as usize,
                height,
                down,
            ) && resized(
                accumulate,
                math.zero,
                across,
                down,
                image,
                width as nat,
                height as nat,
                out,
            )
    }
}

/// Resamples to exact dimensions with a separable filter. `accumulate` adds a weight
/// times a sample to a sum.
pub fn resize<
    S: Copy,
    X: Fn(usize, usize, usize) -> (isize, isize),
    W: Fn(usize, usize, usize, isize) -> S,
    A: Fn(S, S) -> S,
    D: Fn(S, S) -> S,
    M: Fn(S, S, S) -> S,
>(
    frame: &FrameF32<S>,
    width: usize,
    height: usize,
    math: &TapMath<S, X, W, A, D>,
    accumulate: &M,
) -> (out: FrameF32<S>)
    requires
        frame@.wf(),
        frame@.width == width && frame@.height == height || resizable(
            frame@,
            width as int,
            height as int,
        ) && frame@.width <= isize::MAX && frame@.height <= isize::MAX,
        lays_all(math),
        adds_all(accumulate),
    ensures
        filtered(math, *accumulate, frame@, width, height, out@),
        out@.wf(),
        out@.width == width,
        out@.height == height,
        out@.channels == frame@.channels,
{
    if frame.width() == width && frame.height() == height {
        return frame.clone();
    }
    let across = axis_taps(frame.width(), width, math);
    let down = axis_taps(frame.height(), height, math);
    let out = resample(frame, width, height, &across, &down, math.zero, accumulate);
    assert(taps_of(math, frame@.width as usize, width, across@));
    assert(taps_of(math, frame@.height as usize, height, down@));
    out
}

/// `stretch` takes every picture that can be resampled, to the size it is asked for.
pub open spec fn stretches<S, R: Fn(&FrameF32<S>, usize, usize) -> FrameF32<S>>(stretch: &R) -> bool {
    &&& forall|f: &FrameF32<S>, w: usize, h: usize|
        resizable(f@, w as int, h as int) ==> #[trigger] call_requires(*stretch, (f, w, h))
    &&& forall|f: &FrameF32<S>, w: usize, h: usize, out: FrameF32<S>|
        resizable(f@, w as int, h as int) && #[trigger] call_ensures(*stretch, (f, w, h), out)
            ==> out@.wf() && out@.width == w && out@.height == h && out@.channels == f@.channels
}

/// `out` is what `stretch` may make of a frame that holds `image`.
pub open spec fn stretched<S, R: Fn(&FrameF32<S>, usize, usize) -> FrameF32<S>>(
    stretch: R,
    image: Image<S>,
    width: usize,
    height: usize,
    out: Image<S>,
) -> bool {
    exists|f: &FrameF32<S>, r: FrameF32<S>|
        f@ == image && r@ == out && #[trigger] call_ensures(
            stretch,
            (f, width, height),
            r,
        )
}

/// Brings a frame to a geometry, resampling it where it has another.
pub fn conform_to<S: Copy, R: Fn(&FrameF32<S>, usize, usize) -> FrameF32<S>>(
    frame: &FrameF32<S>,
    width: usize,
    height: usize,
    stretch: &R,
) -> (out: FrameF32<S>)
    requires
        frame@.wf(),
        frame@.width == width && frame@.height == height || resizable(
            frame@,
            width as int,
            height as int,
        ),
        stretches(stretch),
    ensures
        conformed(*stretch, frame@, width, height, out@),
        out@.wf(),
        out@.width == width,
        out@.height == height,
        out@.channels == frame@.channels,
{
    if frame.width() == width && frame.height() == height {
        frame.clone()
    } else {
        let out = stretch(frame, width, height);
        assert(call_ensures(*stretch, (frame, width, height), out));
        out
    }
}

/// `out` is `image` at a geometry: itself where it has it already.
pub open spec fn conformed<S, R: Fn(&FrameF32<S>, usize, usize) -> FrameF32<S>>(
    stretch: R,
    image: Image<S>,
    width: usize,
    height: usize,
    out: Image<S>,
) -> bool {
    if image.width == width && image.height == height {
        out == image
    } else {
        stretched(stretch, image, width, height, out)
    }
}

/// Cropping two pictures side by side at the seam gives back both.
pub proof fn law_halves_of_beside<S>(a: Image<S>, b: Image<S>)
    requires
        a.wf(),
        b.wf(),
        a.height == b.height,
        a.channels == b.channels,
    ensures
        cropped(beside(a, b), 0, 0, a.width, a.height) == a,
        cropped(beside(a, b), a.width, 0, b.width, b.height) == b,
{
    let whole = beside(a, b);
    let f = |c: int, y: int, x: int|
        if x < a.width {
            a.at(c, y, x)
        } else {
            b.at(c, y, x - a.width)
        };
    let first = cropped(whole, 0, 0, a.width, a.height);
    let second = cropped(whole, a.width, 0, b.width, b.height);
    assert forall|c: int, y: int, x: int| #[trigger] first.has(c, y, x) implies first.at(c, y, x)
        == a.at(c, y, x) by {
        lemma_build_at(
            a.width,
            a.height,
            a.channels,
            |c: int, y: int, x: int| whole.at(c, 0 + y, 0 + x),
            c,
            y,
            x,
        );
        lemma_build_at(a.width + b.width, a.height, a.channels, f, c, y, x);
    }
    lemma_image_ext(first, a);
    assert forall|c: int, y: int, x: int| #[trigger] second.has(c, y, x) implies second.at(c, y, x)
        == b.at(c, y, x) by {
        lemma_build_at(
            b.width,
            b.height,
            b.channels,
            |c: int, y: int, x: int| whole.at(c, 0 + y, a.width + x),
            c,
            y,
            x,
        );
        lemma_build_at(a.width + b.width, a.height, a.channels, f, c, y, a.width + x);
    }
    lemma_image_ext(second, b);
}

/// Cropping two pictures one above the other at the seam gives back both.
pub proof fn law_halves_of_above<S>(a: Image<S>, b: Image<S>)
    requires
        a.wf(),
        b.wf(),
        a.width == b.width,
        a.channels == b.channels,
    ensures
        cropped(above(a, b), 0, 0, a.width, a.height) == a,
        cropped(above(a, b), 0, a.height, b.width, b.height) == b,
{
    let whole = above(a, b);
    let f = |c: int, y: int, x: int|
        if y < a.height {
            a.at(c, y, x)
        } else {
            b.at(c, y - a.height, x)
        };
    let first = cropped(whole, 0, 0, a.width, a.height);
    let second = cropped(whole, 0, a.height, b.width, b.height);
    assert forall|c: int, y: int, x: int| #[trigger] first.has(c, y, x) implies first.at(c, y, x)
        == a.at(c, y, x) by {
        lemma_build_at(
            a.width,
            a.height,
            a.channels,
            |c: int, y: int, x: int| whole.at(c, 0 + y, 0 + x),
            c,
            y,
            x,
        );
        lemma_build_at(a.width, a.height + b.height, a.channels, f, c, y, x);
    }
    lemma_image_ext(first, a);
    assert forall|c: int, y: int, x: int| #[trigger] second.has(c, y, x) implies second.at(c, y, x)
        == b.at(c, y, x) by {
        lemma_build_at(
            b.width,
            b.height,
            b.channels,
            |c: int, y: int, x: int| whole.at(c, a.height + y, 0 + x),
            c,
            y,
            x,
        );
        lemma_build_at(a.width, a.height + b.height, a.channels, f, c, a.height + y, x);
    }
    lemma_image_ext(second, b);
}

/// Cropping nothing away gives the picture itself.
pub proof fn law_a_whole_crop_is_the_picture<S>(image: Image<S>)
    requires
        image.wf(),
    ensures
        cropped(image, 0, 0, image.width, image.height) == image,
{
    let whole = cropped(image, 0, 0, image.width, image.height);
    assert forall|c: int, y: int, x: int| #[trigger] whole.has(c, y, x) implies whole.at(c, y, x)
        == image.at(c, y, x) by {
        lemma_build_at(
            image.width,
            image.height,
            image.channels,
            |c: int, y: int, x: int| image.at(c, 0 + y, 0 + x),
            c,
            y,
            x,
        );
    }
    lemma_image_ext(whole, image);
}

/// `n` samples that are all `v`.
pub open spec fn level<S>(n: nat, v: S) -> Seq<S> {
    Seq::new(n, |i: int| v)
}

/// Every tap of a filter weighs samples that are all `v` to `v`.
pub open spec fn taps_keep<
    S,
    X: Fn(usize, usize, usize) -> (isize, isize),
    W: Fn(usize, usize, usize, isize) -> S,
    A: Fn(S, S) -> S,
    D: Fn(S, S) -> S,
    M: Fn(S, S, S) -> S,
>(math: &TapMath<S, X, W, A, D>, accumulate: M, v: S) -> bool {
    forall|src: usize, dst: usize, i: usize, tap: Tap<S>, out: S| #[trigger]
        taps_window(math, src, dst, i, tap) && #[trigger] weighs(
            accumulate,
            math.zero,
            tap.weights@,
            level(tap.weights@.len(), v),
            out,
        ) ==> out == v
}

/// A flat field survives resampling in both directions, where every tap weighs samples
/// that are all alike to what they are.
pub proof fn law_a_flat_field_survives_resampling<
    S,
    X: Fn(usize, usize, usize) -> (isize, isize),
    W: Fn(usize, usize, usize, isize) -> S,
    A: Fn(S, S) -> S,
    D: Fn(S, S) -> S,
    M: Fn(S, S, S) -> S,
>(
    math: &TapMath<S, X, W, A, D>,
    accumulate: M,
    image: Image<S>,
    v: S,
    width: usize,
    height: usize,
    out: Image<S>,
)
    requires
        image.wf(),
        image.width <= usize::MAX && image.height <= usize::MAX,
        forall|c: int, y: int, x: int| #[trigger] image.has(c, y, x) ==> image.at(c, y, x) == v,
        taps_keep(math, accumulate, v),
        filtered(math, accumulate, image, width, height, out),
    ensures
        forall|c: int, y: int, x: int| #[trigger] out.has(c, y, x) ==> out.at(c, y, x) == v,
        out.width == width && out.height == height,
{
    if !(image.width == width && image.height == height) {
        let (tx, ty) = choose|tx: Seq<Tap<S>>, ty: Seq<Tap<S>>| #[trigger]
            taps_of(math, image.width as usize, width, tx) && #[trigger] taps_of(
                math,
                image.height as usize,
                height,
                ty,
            ) && resized(
                accumulate,
                math.zero,
                tx,
                ty,
                image,
                width as nat,
                height as nat,
                out,
            );
        let across = choose|across: Image<S>| #[trigger]
            rows_resampled(accumulate, math.zero, tx, image, across) && columns_resampled(
                accumulate,
                math.zero,
                ty,
                across,
                out,
            );
        assert forall|c: int, y: int, x: int| #[trigger] across.has(c, y, x) implies across.at(
            c,
            y,
            x,
        ) == v by {
            let tap = tx[x];
            let n = tap.weights@.len();
            assert(tap.fits(image.width as int));
            assert forall|k: int| 0 <= k < n implies row_samples(image, c, y, tap)[k] == v by {
                assert(image.has(c, y, tap.start + k));
            }
            assert(row_samples(image, c, y, tap) =~= level(n, v));
            assert(taps_window(math, image.width as usize, width, x as usize, tap));
        }
        assert forall|c: int, y: int, x: int| #[trigger] out.has(c, y, x) implies out.at(c, y, x)
            == v by {
            let tap = ty[y];
            let n = tap.weights@.len();
            assert(tap.fits(image.height as int));
            assert forall|k: int| 0 <= k < n implies column_samples(across, c, x, tap)[k] == v by {
                assert(across.has(c, tap.start + k, x));
            }
            assert(column_samples(across, c, x, tap) =~= level(n, v));
            assert(taps_window(math, image.height as usize, height, y as usize, tap));
        }
    }
}

/// Of two pictures side by side, what is left of the seam is the first and what is right
/// of it the second, each sample where it was; of two pictures one above the other, what
/// is over the seam is the first and what is under it the second.
pub proof fn law_stacked_pictures_lie_on_either_side<S: Copy>(
    a: &FrameF32<S>,
    b: &FrameF32<S>,
    wide: FrameF32<S>,
    tall: FrameF32<S>,
    c: int,
    y: int,
    x: int,
)
    requires
        a@.wf() && b@.wf(),
        a@.same_size(b@),
        a@.channels == b@.channels,
        a@.has(c, y, x),
        call_ensures(stack_horizontal::<S>, (a, b), wide),
        call_ensures(stack_vertical::<S>, (a, b), tall),
    ensures
        wide@.width == 2 * a@.width && wide@.height == a@.height,
        wide@.at(c, y, x) == a@.at(c, y, x),
        wide@.at(c, y, a@.width + x) == b@.at(c, y, x),
        tall@.width == a@.width && tall@.height == 2 * a@.height,
        tall@.at(c, y, x) == a@.at(c, y, x),
        tall@.at(c, a@.height + y, x) == b@.at(c, y, x),
{
    lemma_beside_at(a@, b@, c, y, x);
    lemma_beside_at(a@, b@, c, y, a@.width + x);
    lemma_above_at(a@, b@, c, y, x);
    lemma_above_at(a@, b@, c, a@.height + y, x);
}

/// A sample of two pictures side by side.
pub proof fn lemma_beside_at<S>(a: Image<S>, b: Image<S>, c: int, y: int, x: int)
    requires
        0 <= c < a.channels,
        0 <= y < a.height,
        0 <= x < a.width + b.width,
    ensures
        beside(a, b).at(c, y, x) == (if x < a.width {
            a.at(c, y, x)
        } else {
            b.at(c, y, x - a.width)
        }),
{
    lemma_build_at(
        a.width + b.width,
        a.height,
        a.channels,
        |c: int, y: int, x: int|
            if x < a.width {
                a.at(c, y, x)
            } else {
                b.at(c, y, x - a.width)
            },
        c,
        y,
        x,
    );
}

/// A sample of two pictures one above the other.
pub proof fn lemma_above_at<S>(a: Image<S>, b: Image<S>, c: int, y: int, x: int)
    requires
        0 <= c < a.channels,
        0 <= y < a.height + b.height,
        0 <= x < a.width,
    ensures
        above(a, b).at(c, y, x) == (if y < a.height {
            a.at(c, y, x)
        } else {
            b.at(c, y - a.height, x)
        }),
{
    lemma_build_at(
        a.width,
        a.height + b.height,
        a.channels,
        |c: int, y: int, x: int|
            if y < a.height {
                a.at(c, y, x)
            } else {
                b.at(c, y - a.height, x)
            },
        c,
        y,
        x,
    );
}

/// A crop is the part of a picture from its corner on, each sample as it was.
pub proof fn law_a_crop_starts_at_its_corner<S: Copy>(
    frame: &FrameF32<S>,
    x0: usize,
    y0: usize,
    width: usize,
    height: usize,
    out: FrameF32<S>,
    c: int,
    y: int,
    x: int,
)
    requires
        frame@.wf(),
        call_ensures(crop::<S>, (frame, x0, y0, width, height), out),
        0 <= c < frame@.channels,
        0 <= y < height,
        0 <= x < width,
    ensures
        out@.width == width && out@.height == height && out@.channels == frame@.channels,
        out@.at(c, y, x) == frame@.at(c, y0 + y, x0 + x),
{
    lemma_cropped_at(frame@, x0 as nat, y0 as nat, width as nat, height as nat, c, y, x);
}

/// A sample of a crop.
pub proof fn lemma_cropped_at<S>(
    image: Image<S>,
    x0: nat,
    y0: nat,
    width: nat,
    height: nat,
    c: int,
    y: int,
    x: int,
)
    requires
        0 <= c < image.channels,
        0 <= y < height,
        0 <= x < width,
    ensures
        cropped(image, x0, y0, width, height).at(c, y, x) == image.at(c, y0 + y, x0 + x),
{
    lemma_build_at(
        width,
        height,
        image.channels,
        |c: int, y: int, x: int| image.at(c, y0 + y, x0 + x),
        c,
        y,
        x,
    );
}

/// A positive convergence moves the left eye left and the right eye right: the left
/// loses its left edge and the right its right edge. A negative one does the opposite.
/// Both keep every row, and lose the same number of columns.
pub proof fn law_convergence_moves_the_eyes_apart<S: Copy>(
    left: &FrameF32<S>,
    right: &FrameF32<S>,
    convergence: F32,
    out: (FrameF32<S>, FrameF32<S>),
    c: int,
    y: int,
    x: int,
)
    requires
        left@.wf() && right@.wf(),
        left@.same_size(right@),
        left@.channels == right@.channels,
        call_ensures(converge::<S>, (left, right, convergence), out),
        out.0@.has(c, y, x),
    ensures
        out.0@.width == out.1@.width <= left@.width,
        out.0@.height == left@.height && out.1@.height == right@.height,
        convergence.bits < 0x8000_0000 ==> out.0@.at(c, y, x) == left@.at(
            c,
            y,
            x + (left@.width - out.0@.width),
        ) && out.1@.at(c, y, x) == right@.at(c, y, x),
        convergence.bits >= 0x8000_0000 ==> out.0@.at(c, y, x) == left@.at(c, y, x)
            && out.1@.at(c, y, x) == right@.at(c, y, x + (right@.width - out.1@.width)),
{
    crate::scalar::lemma_percent_of_is_a_part(left@.width, convergence);
    let kept = converged_to(left@.width, convergence);
    let lost = (left@.width - kept) as nat;
    let h = left@.height;
    lemma_cropped_at(left@, 0, 0, kept, h, c, y, x);
    lemma_cropped_at(left@, lost, 0, kept, h, c, y, x);
    lemma_cropped_at(right@, 0, 0, kept, h, c, y, x);
    lemma_cropped_at(right@, lost, 0, kept, h, c, y, x);
}

/// The columns that convergence takes are the percentage of the width that it names, to
/// the nearest whole column; the sign makes no difference to how many.
pub proof fn law_convergence_takes_its_percentage(width: usize, convergence: F32, kept: usize)
    requires
        call_ensures(converged_width, (width, convergence), kept),
        convergence.finite(),
        convergence.magnitude() <= 100 * crate::scalar::unit32(),
    ensures
        kept <= width,
        2 * (100 * crate::scalar::unit32()) * (width - kept) <= 2 * width * convergence.magnitude()
            + 100 * crate::scalar::unit32(),
        2 * width * convergence.magnitude() < 2 * (100 * crate::scalar::unit32()) * (width - kept)
            + 100 * crate::scalar::unit32(),
{
    vstd::arithmetic::power2::lemma_pow2_pos(149);
    crate::scalar::lemma_percent_of_is_a_part(width as nat, convergence);
    let (w, mag, unit) = (width as int, convergence.magnitude(), crate::scalar::unit32());
    let n = 2 * w * mag + 100 * unit;
    let d = 200 * unit;
    let part = n / d;
    vstd::arithmetic::div_mod::lemma_fundamental_div_mod(n, d);
    vstd::arithmetic::div_mod::lemma_mod_bound(n, d);
    assert(part <= w) by (nonlinear_arith)
        requires
            n == d * part + n % d,
            n % d >= 0,
            n == 2 * w * mag + 100 * unit,
            d == 200 * unit,
            mag <= 100 * unit,
            unit > 0,
            w >= 0,
    ;
    assert(width - kept == part);
    assert(2 * (100 * unit) * part == d * part) by (nonlinear_arith)
        requires
            d == 200 * unit,
    ;
}

/// Two sizes are the same shape when one is the other enlarged: multiplying both sides
/// by one number changes no shape, and stretching one side alone always does.
pub proof fn law_shape_is_the_ratio_of_the_sides(
    w: usize,
    h: usize,
    k: int,
    scaled: (usize, usize),
    stretched_one: (usize, usize),
    same: bool,
    other: bool,
)
    requires
        w > 0 && h > 0 && k > 1,
        scaled.0 == w * k && scaled.1 == h * k,
        stretched_one.0 == w * k && stretched_one.1 == h,
        call_ensures(aspect_differs, ((w, h), scaled), same),
        call_ensures(aspect_differs, ((w, h), stretched_one), other),
    ensures
        !same,
        other,
{
    let (a, b) = (w as int, h as int);
    assert(a * (b * k) == (a * k) * b) by (nonlinear_arith);
    assert(a * b < (a * k) * b) by (nonlinear_arith)
        requires
            a > 0,
            b > 0,
            k > 1,
    ;
}

/// A frame that has the size already is handed back; any other is handed to the
/// resampling with that size, width first.
pub proof fn law_only_a_frame_of_another_size_is_resampled<
    S: Copy,
    R: Fn(&FrameF32<S>, usize, usize) -> FrameF32<S>,
>(frame: &FrameF32<S>, width: usize, height: usize, stretch: &R, out: FrameF32<S>)
    requires
        call_ensures(conform_to::<S, R>, (frame, width, height, stretch), out),
    ensures
        frame@.width == width && frame@.height == height ==> out@ == frame@,
        frame@.width != width || frame@.height != height ==> exists|f: &FrameF32<S>, r: FrameF32<S>|
            #[trigger]
            call_ensures(*stretch, (f, width, height), r) && f@ == frame@ && r@ == out@,
        out@.width == width && out@.height == height,
{
}

/// Past an end of a row its border sample stands in.
pub proof fn law_the_border_stands_in_past_an_end(i: isize, len: usize, r: usize)
    requires
        0 < len <= isize::MAX,
        call_ensures(clamp_index, (i, len), r),
    ensures
        r < len,
        0 <= i < len ==> r == i,
        i < 0 ==> r == 0,
        i >= len ==> r + 1 == len,
{
}

/// No two layouts are called the same.
pub proof fn law_layouts_are_told_apart(
    a: OutputLayout,
    b: OutputLayout,
    x: &'static str,
    y: &'static str,
)
    requires
        call_ensures(OutputLayout::label, (a,), x),
        call_ensures(OutputLayout::label, (b,), y),
        a != b,
    ensures
        x@ != y@,
        a == OutputLayout::SideBySide ==> x@ == "Side by side"@,
        a == OutputLayout::TopBottom ==> x@ == "Top and bottom"@,
        a == OutputLayout::Separate ==> x@ == "Two files, one per eye"@,
        a == OutputLayout::Anaglyph ==> x@ == "Anaglyph"@,
        a == OutputLayout::LeftOnly ==> x@ == "Left eye only"@,
        a == OutputLayout::RightOnly ==> x@ == "Right eye only"@,
{
    reveal_strlit("Side by side");
    reveal_strlit("Top and bottom");
    reveal_strlit("Two files, one per eye");
    reveal_strlit("Anaglyph");
    reveal_strlit("Left eye only");
    reveal_strlit("Right eye only");
    assert("Side by side"@.len() == 12 && "Top and bottom"@.len() == 14);
    assert("Left eye only"@.len() == 13 && "Right eye only"@.len() == 14);
    assert("Two files, one per eye"@.len() == 22 && "Anaglyph"@.len() == 8);
    assert("Top and bottom"@[0] == 'T' && "Right eye only"@[0] == 'R');
    assert("Top and bottom"@[0] != "Right eye only"@[0]);
}

/// Resampling weighs each row by the taps of the columns, and then each column of what
/// comes of that by the taps of the rows: tap for tap, from where each starts.
pub proof fn law_resampling_goes_across_and_then_down<S: Copy, M: Fn(S, S, S) -> S>(
    frame: &FrameF32<S>,
    width: usize,
    height: usize,
    taps_x: &Vec<Tap<S>>,
    taps_y: &Vec<Tap<S>>,
    zero: S,
    accumulate: &M,
    out: FrameF32<S>,
)
    requires
        call_ensures(
            resample::<S, M>,
            (frame, width, height, taps_x, taps_y, zero, accumulate),
            out,
        ),
        taps_x@.len() == width,
        taps_y@.len() == height,
        frame@.width != width || frame@.height != height,
    ensures
        out@.width == width && out@.height == height && out@.channels == frame@.channels,
        exists|across: Image<S>| #[trigger]
            across.wf() && across.width == width && across.height == frame@.height && across.channels
                == frame@.channels && (forall|c: int, y: int, x: int|
                0 <= c < frame@.channels && 0 <= y < frame@.height && 0 <= x < width ==> weighs(
                    *accumulate,
                    zero,
                    taps_x@[x].weights@,
                    Seq::new(
                        taps_x@[x].weights@.len(),
                        |k: int| frame@.at(c, y, taps_x@[x].start + k),
                    ),
                    #[trigger] across.at(c, y, x),
                )) && (forall|c: int, y: int, x: int|
                0 <= c < frame@.channels && 0 <= y < height && 0 <= x < width ==> weighs(
                    *accumulate,
                    zero,
                    taps_y@[y].weights@,
                    Seq::new(
                        taps_y@[y].weights@.len(),
                        |k: int| across.at(c, taps_y@[y].start + k, x),
                    ),
                    #[trigger] out@.at(c, y, x),
                )),
{
    let across = choose|across: Image<S>| #[trigger]
        rows_resampled(*accumulate, zero, taps_x@, frame@, across) && columns_resampled(
            *accumulate,
            zero,
            taps_y@,
            across,
            out@,
        );
    assert(across.wf());
    assert forall|c: int, y: int, x: int|
        0 <= c < frame@.channels && 0 <= y < frame@.height && 0 <= x < width implies weighs(
        *accumulate,
        zero,
        taps_x@[x].weights@,
        Seq::new(taps_x@[x].weights@.len(), |k: int| frame@.at(c, y, taps_x@[x].start + k)),
        #[trigger] across.at(c, y, x),
    ) by {
        assert(across.has(c, y, x));
        assert(row_samples(frame@, c, y, taps_x@[x]) =~= Seq::new(
            taps_x@[x].weights@.len(),
            |k: int| frame@.at(c, y, taps_x@[x].start + k),
        ));
    }
    assert forall|c: int, y: int, x: int|
        0 <= c < frame@.channels && 0 <= y < height && 0 <= x < width implies weighs(
        *accumulate,
        zero,
        taps_y@[y].weights@,
        Seq::new(taps_y@[y].weights@.len(), |k: int| across.at(c, taps_y@[y].start + k, x)),
        #[trigger] out@.at(c, y, x),
    ) by {
        assert(out@.has(c, y, x));
        assert(column_samples(across, c, x, taps_y@[y]) =~= Seq::new(
            taps_y@[y].weights@.len(),
            |k: int| across.at(c, taps_y@[y].start + k, x),
        ));
    }
}

/// A frame of the size asked for is left as it is; every other is resampled by the taps
/// that map its width onto the new width across, and its height onto the new height down.
pub proof fn law_each_side_is_resized_by_its_own_taps<
    S: Copy,
    X: Fn(usize, usize, usize) -> (isize, isize),
    W: Fn(usize, usize, usize, isize) -> S,
    A: Fn(S, S) -> S,
    D: Fn(S, S) -> S,
    M: Fn(S, S, S) -> S,
>(
    frame: &FrameF32<S>,
    width: usize,
    height: usize,
    math: &TapMath<S, X, W, A, D>,
    accumulate: &M,
    out: FrameF32<S>,
)
    requires
        call_ensures(resize::<S, X, W, A, D, M>, (frame, width, height, math, accumulate), out),
    ensures
        out@.width == width && out@.height == height && out@.channels == frame@.channels,
        frame@.width == width && frame@.height == height ==> out@ == frame@,
        frame@.width != width || frame@.height != height ==> exists|
            across: Seq<Tap<S>>,
            down: Seq<Tap<S>>,
        | #[trigger]
            taps_of(math, frame@.width as usize, width, across) && #[trigger] taps_of(
                math,
                frame@.height as usize,
                height,
                down,
            ) && resized(
                *accumulate,
                math.zero,
                across,
                down,
                frame@,
                width as nat,
                height as nat,
                out@,
            ),
{
}

/// There is one tap for every output position. It is the filter's window around that
/// position: each source position that it reaches has its share of what the filter gives
/// all of them.
pub proof fn law_a_tap_is_the_window_of_its_position<
    S: Copy,
    X: Fn(usize, usize, usize) -> (isize, isize),
    W: Fn(usize, usize, usize, isize) -> S,
    A: Fn(S, S) -> S,
    D: Fn(S, S) -> S,
>(src: usize, dst: usize, math: &TapMath<S, X, W, A, D>, taps: Vec<Tap<S>>, i: usize)
    requires
        call_ensures(axis_taps::<S, X, W, A, D>, (src, dst, math), taps),
        i < dst,
    ensures
        taps@.len() == dst,
        exists|reach: (isize, isize), raw: Seq<S>, sum: S, weights: Seq<S>|
            #![trigger call_ensures(math.reach, (src, dst, i), reach), sums(math.plus, math.zero, raw, sum), weights.len()]
            call_ensures(math.reach, (src, dst, i), reach) && sums(math.plus, math.zero, raw, sum)
                && raw.len() == reach.1 - reach.0 + 1 && weights.len() == raw.len() && (forall|k: int|
                0 <= k < raw.len() ==> call_ensures(
                    math.weigh,
                    (src, dst, i, (reach.0 + k) as isize),
                    #[trigger] raw[k],
                )) && (forall|k: int|
                0 <= k < raw.len() ==> call_ensures(
                    math.share,
                    (raw[k], sum),
                    #[trigger] weights[k],
                )) && folded(
                math.plus,
                math.zero,
                reach.0 as int,
                weights,
                src as int,
                taps@[i as int],
            ),
{
    let tap = taps@[i as int];
    assert(taps_window(math, src, dst, i, tap));
    let (reach, raw, sum, weights) = choose|
        reach: (isize, isize),
        raw: Seq<S>,
        sum: S,
        weights: Seq<S>,
    | #[trigger]
        call_ensures(math.reach, (src, dst, i), reach) && weighs_window(
            math.weigh,
            src,
            dst,
            i,
            reach,
            raw,
        ) && #[trigger] normalised(math.plus, math.share, math.zero, raw, sum, weights) && folded(
            math.plus,
            math.zero,
            reach.0 as int,
            weights,
            src as int,
            tap,
        );
    assert(call_ensures(math.reach, (src, dst, i), reach));
    assert(sums(math.plus, math.zero, raw, sum));
    assert(weights.len() == raw.len());
}

/// What falls on a sample of all the weights that lie from a position on, where those past
/// an end fall on the border.
pub open spec fn falls_on<S>(
    value: spec_fn(S) -> int,
    first: int,
    weights: Seq<S>,
    len: int,
    at: int,
    n: nat,
) -> int
    decreases n,
{
    if n == 0 {
        0
    } else {
        let place = first + n - 1;
        let held = if place < 0 {
            0
        } else if place >= len {
            len - 1
        } else {
            place
        };
        falls_on(value, first, weights, len, at, (n - 1) as nat) + (if held == at {
            value(weights[n - 1])
        } else {
            0
        })
    }
}

/// What has been collected of the first weights is what falls of them on each sample.
proof fn lemma_collected<S, A: Fn(S, S) -> S>(
    plus: A,
    zero: S,
    value: spec_fn(S) -> int,
    first: int,
    weights: Seq<S>,
    len: int,
    start: int,
    count: nat,
    n: nat,
    out: Seq<S>,
    j: int,
)
    requires
        len > 0,
        n <= weights.len(),
        start == clamped(first, len),
        count == clamped(first + weights.len() - 1, len) - start + 1,
        value(zero) == 0,
        forall|a: S, b: S, t: S| #[trigger]
            call_ensures(plus, (a, b), t) ==> value(t) == value(a) + value(b),
        collects(plus, zero, first, weights, len, start, count, n, out),
        0 <= j < count,
    ensures
        out.len() == count,
        value(out[j]) == falls_on(value, first, weights, len, start + j, n),
    decreases n,
{
    if n > 0 {
        let at = clamped(first + n - 1, len) - start;
        let before = choose|before: Seq<S>|
            collects(plus, zero, first, weights, len, start, count, (n - 1) as nat, before)
                && call_ensures(plus, (before[at], weights[n - 1]), out[at]) && out
                == #[trigger] before.update(at, out[at]);
        lemma_collected(
            plus,
            zero,
            value,
            first,
            weights,
            len,
            start,
            count,
            (n - 1) as nat,
            before,
            j,
        );
        assert(0 <= at < count);
    }
}

/// A folded tap gives each sample that it reads all the weights that fall on it, those past
/// an end of the row on the border sample, and none is lost: where adding does what it
/// says.
pub proof fn law_folding_keeps_every_weight<S: Copy, A: Fn(S, S) -> S>(
    first: isize,
    weights: &Vec<S>,
    len: usize,
    zero: S,
    plus: &A,
    tap: Tap<S>,
    value: spec_fn(S) -> int,
    j: int,
)
    requires
        0 < len,
        0 < weights@.len(),
        call_ensures(fold_tap::<S, A>, (first, weights, len, zero, plus), tap),
        value(zero) == 0,
        forall|a: S, b: S, t: S| #[trigger]
            call_ensures(*plus, (a, b), t) ==> value(t) == value(a) + value(b),
        0 <= j < tap.weights@.len(),
    ensures
        first < 0 ==> tap.start == 0,
        0 <= first < len ==> tap.start == first,
        first >= len ==> tap.start == len - 1,
        0 <= first && first + weights@.len() <= len ==> tap.weights@.len() == weights@.len(),
        tap.start + tap.weights@.len() <= len,
        value(tap.weights@[j]) == falls_on(
            value,
            first as int,
            weights@,
            len as int,
            tap.start + j,
            weights@.len(),
        ),
{
    lemma_collected(
        *plus,
        zero,
        value,
        first as int,
        weights@,
        len as int,
        tap.start as int,
        tap.weights@.len(),
        weights@.len(),
        tap.weights@,
        j,
    );
}

/// Weights are divided by the sum of all of them, each in its place.
pub proof fn law_weights_are_shares_of_their_sum<S: Copy, P: Fn(S, S) -> S, D: Fn(S, S) -> S>(
    raw: &Vec<S>,
    zero: S,
    plus: &P,
    share: &D,
    out: Vec<S>,
)
    requires
        call_ensures(normalise::<S, P, D>, (raw, zero, plus, share), out),
    ensures
        out@.len() == raw@.len(),
        exists|sum: S| #[trigger]
            sums(*plus, zero, raw@, sum) && (forall|i: int|
                0 <= i < raw@.len() ==> call_ensures(*share, (raw@[i], sum), #[trigger] out@[i])),
{
    let sum = choose|sum: S| #[trigger] normalised(*plus, *share, zero, raw@, sum, out@);
    assert(sums(*plus, zero, raw@, sum));
}

/// A sum of two samples is the first added to what a sum starts from, and then the second;
/// a weighing goes weight by weight and sample by sample likewise.
pub proof fn law_sums_go_from_the_first_to_the_last<S, P: Fn(S, S) -> S, M: Fn(S, S, S) -> S>(
    plus: P,
    accumulate: M,
    zero: S,
    weights: Seq<S>,
    samples: Seq<S>,
    sum: S,
    weighed: S,
)
    requires
        samples.len() > 0,
        weights.len() == samples.len(),
        sums(plus, zero, samples, sum),
        weighs(accumulate, zero, weights, samples, weighed),
    ensures
        exists|before: S|
            sums(plus, zero, samples.take(samples.len() - 1), before) && #[trigger] call_ensures(
                plus,
                (before, samples[samples.len() - 1]),
                sum,
            ),
        exists|before: S|
            weighs(
                accumulate,
                zero,
                weights.take(weights.len() - 1),
                samples.take(samples.len() - 1),
                before,
            ) && #[trigger] call_ensures(
                accumulate,
                (before, weights[weights.len() - 1], samples[samples.len() - 1]),
                weighed,
            ),
        samples.len() == 1 ==> call_ensures(plus, (zero, samples[0]), sum),
        samples.len() == 1 ==> call_ensures(accumulate, (zero, weights[0], samples[0]), weighed),
{
    assert(samples.drop_last() =~= samples.take(samples.len() - 1));
    assert(weights.drop_last() =~= weights.take(weights.len() - 1));
    reveal_with_fuel(sums, 2);
    reveal_with_fuel(weighs, 2);
}

/// Every layout is offered, the two in one frame first.
pub proof fn law_every_layout_is_offered(layout: OutputLayout)
    ensures
        OutputLayout::ALL@[0] == OutputLayout::SideBySide,
        OutputLayout::ALL@[1] == OutputLayout::TopBottom,
        OutputLayout::ALL@[2] == OutputLayout::Separate,
        OutputLayout::ALL@[3] == OutputLayout::Anaglyph,
        OutputLayout::ALL@[4] == OutputLayout::LeftOnly,
        OutputLayout::ALL@[5] == OutputLayout::RightOnly,
        OutputLayout::ALL@.len() == 6,
        OutputLayout::ALL@.contains(layout),
{
    let all = OutputLayout::ALL@;
    assert(all[0] == OutputLayout::SideBySide);
    assert(all[1] == OutputLayout::TopBottom);
    assert(all[2] == OutputLayout::Separate);
    assert(all[3] == OutputLayout::Anaglyph);
    assert(all[4] == OutputLayout::LeftOnly);
    assert(all[5] == OutputLayout::RightOnly);
}

} // verus!
