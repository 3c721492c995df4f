//! Planar image buffers.
//!
//! Planar layout (all of plane 0, then all of plane 1, ...) keeps the separable
//! blur and the per-channel anaglyph extraction reading contiguous memory.
//!
//! A frame is generic in its sample. The pipeline runs on 32-bit floats, but
//! nothing here looks inside a sample: samples are only moved, and whatever
//! changes one is handed in as a function.

use crate::parallel::par_tabulate;
use vstd::prelude::*;

verus! {

/// Position of a sample in planar order.
pub open spec fn flat(width: int, height: int, c: int, y: int, x: int) -> int {
    (c * height + y) * width + x
}

/// What a frame holds: its geometry, and its samples in planar order.
#[verifier::ext_equal]
pub struct Image<S> {
    pub width: nat,
    pub height: nat,
    pub channels: nat,
    pub samples: Seq<S>,
}

impl<S> Image<S> {
    /// Grey or RGB, with exactly the samples its geometry calls for.
    pub open spec fn wf(self) -> bool {
        &&& self.channels == 1 || self.channels == 3
        &&& self.samples.len() == self.width * self.height * self.channels
    }

    /// The sample of plane `c` at column `x` of row `y`.
    pub open spec fn at(self, c: int, y: int, x: int) -> S {
        self.samples[flat(self.width as int, self.height as int, c, y, x)]
    }

    /// Whether `(c, y, x)` names a sample of the image.
    pub open spec fn has(self, c: int, y: int, x: int) -> bool {
        0 <= c < self.channels && 0 <= y < self.height && 0 <= x < self.width
    }

    /// The samples of plane `c`.
    pub open spec fn plane(self, c: int) -> Seq<S> {
        let len = self.width * self.height;
        self.samples.subrange(c * len, (c + 1) * len)
    }

    /// The three samples of pixel `i` of an RGB image.
    pub open spec fn pixel(self, i: int) -> (S, S, S) {
        let len = self.width * self.height;
        (self.samples[i], self.samples[len + i], self.samples[len + len + i])
    }

    /// The image with plane `c` replaced.
    pub open spec fn with_plane(self, c: int, plane: Seq<S>) -> Image<S> {
        let len = self.width * self.height;
        Image {
            samples: self.samples.take(c * len) + plane + self.samples.skip((c + 1) * len),
            ..self
        }
    }

    /// The image whose sample at each `(c, y, x)` is `f(c, y, x)`.
    pub open spec fn build(
        width: nat,
        height: nat,
        channels: nat,
        f: spec_fn(int, int, int) -> S,
    ) -> Image<S> {
        Image {
            width,
            height,
            channels,
            samples: Seq::new(
                width * height * channels,
                |i: int| f((i / width as int) / height as int, (i / width as int) % height as int, i % width as int),
            ),
        }
    }

    /// Equal width and height, whatever the channels.
    pub open spec fn same_size(self, other: Image<S>) -> bool {
        self.width == other.width && self.height == other.height
    }
}

/// A sample's position lies inside the buffer, and names that sample alone.
pub proof fn lemma_flat_in_range(width: int, height: int, channels: int, c: int, y: int, x: int)
    requires
        0 <= c < channels,
        0 <= y < height,
        0 <= x < width,
    ensures
        0 <= flat(width, height, c, y, x) < width * height * channels,
        0 <= c * height + y < height * channels,
        (flat(width, height, c, y, x) / width) / height == c,
        (flat(width, height, c, y, x) / width) % height == y,
        flat(width, height, c, y, x) % width == x,
{
    let row = c * height + y;
    let i = row * width + x;
    assert(0 <= row < height * channels) by (nonlinear_arith)
        requires
            row == c * height + y,
            0 <= c < channels,
            0 <= y < height,
    ;
    assert(0 <= i < width * height * channels) by (nonlinear_arith)
        requires
            i == row * width + x,
            0 <= row < height * channels,
            0 <= x < width,
    ;
    vstd::arithmetic::div_mod::lemma_fundamental_div_mod_converse(i, width, row, x);
    vstd::arithmetic::div_mod::lemma_fundamental_div_mod_converse(row, height, c, y);
}

/// Every position of the buffer is some sample's.
pub proof fn lemma_flat_onto(width: int, height: int, channels: int, i: int)
    requires
        0 <= width,
        0 <= height,
        0 <= channels,
        0 <= i < width * height * channels,
    ensures
        0 < width,
        0 < height,
        0 <= (i / width) / height < channels,
        0 <= (i / width) % height < height,
        0 <= i % width < width,
        flat(width, height, (i / width) / height, (i / width) % height, i % width) == i,
{
    assert(0 < width && 0 < height) by (nonlinear_arith)
        requires
            0 <= width,
            0 <= height,
            0 <= channels,
            0 <= i < width * height * channels,
    ;
    let row = i / width;
    vstd::arithmetic::div_mod::lemma_fundamental_div_mod(i, width);
    vstd::arithmetic::div_mod::lemma_fundamental_div_mod(row, height);
    vstd::arithmetic::div_mod::lemma_mod_bound(i, width);
    vstd::arithmetic::div_mod::lemma_mod_bound(row, height);
    let x = i % width;
    let c = row / height;
    let y = row % height;
    assert(0 <= row < height * channels) by (nonlinear_arith)
        requires
            i == width * row + x,
            0 <= x < width,
            0 <= i < width * height * channels,
    ;
    assert(0 <= c < channels) by (nonlinear_arith)
        requires
            row == height * c + y,
            0 <= y < height,
            0 <= row < height * channels,
    ;
    assert((c * height + y) * width + x == i) by (nonlinear_arith)
        requires
            i == width * row + x,
            row == height * c + y,
    ;
}

/// A built image holds what it was built from.
pub proof fn lemma_build_at<S>(
    width: nat,
    height: nat,
    channels: nat,
    f: spec_fn(int, int, int) -> S,
    c: int,
    y: int,
    x: int,
)
    requires
        0 <= c < channels,
        0 <= y < height,
        0 <= x < width,
    ensures
        Image::build(width, height, channels, f).at(c, y, x) == f(c, y, x),
{
    lemma_flat_in_range(width as int, height as int, channels as int, c, y, x);
}

/// Two images of one geometry that agree at every sample are equal.
pub proof fn lemma_image_ext<S>(a: Image<S>, b: Image<S>)
    requires
        a.wf(),
        b.wf(),
        a.width == b.width,
        a.height == b.height,
        a.channels == b.channels,
        forall|c: int, y: int, x: int| #[trigger] a.has(c, y, x) ==> a.at(c, y, x) == b.at(c, y, x),
    ensures
        a == b,
{
    assert forall|i: int| 0 <= i < a.samples.len() implies a.samples[i] == b.samples[i] by {
        let (w, h) = (a.width as int, a.height as int);
        lemma_flat_onto(w, h, a.channels as int, i);
        assert(a.has((i / w) / h, (i / w) % h, i % w));
    }
    assert(a =~= b);
}

/// An image that agrees with `f` at every sample is the one built from `f`.
pub proof fn lemma_is_build<S>(a: Image<S>, f: spec_fn(int, int, int) -> S)
    requires
        a.wf(),
        forall|c: int, y: int, x: int| #[trigger] a.has(c, y, x) ==> a.at(c, y, x) == f(c, y, x),
    ensures
        a == Image::build(a.width, a.height, a.channels, f),
{
    let b = Image::build(a.width, a.height, a.channels, f);
    assert forall|c: int, y: int, x: int| #[trigger] a.has(c, y, x) implies a.at(c, y, x) == b.at(
        c,
        y,
        x,
    ) by {
        lemma_build_at(a.width, a.height, a.channels, f, c, y, x);
    }
    lemma_image_ext(a, b);
}

/// A frame tabulated by a function that returns just what `g` says is the
/// image built from `g`.
pub proof fn lemma_tabulated<S, F: Fn(usize, usize, usize) -> S>(
    f: F,
    out: Image<S>,
    g: spec_fn(int, int, int) -> S,
)
    requires
        out.wf(),
        out.width <= usize::MAX,
        out.height <= usize::MAX,
        forall|c: usize, y: usize, x: usize|
            out.has(c as int, y as int, x as int) ==> call_ensures(
                f,
                (c, y, x),
                #[trigger] out.at(c as int, y as int, x as int),
            ),
        forall|c: usize, y: usize, x: usize, s: S|
            out.has(c as int, y as int, x as int) && #[trigger] call_ensures(f, (c, y, x), s) ==> s
                == g(c as int, y as int, x as int),
    ensures
        out == Image::build(out.width, out.height, out.channels, g),
{
    assert forall|c: int, y: int, x: int| #[trigger] out.has(c, y, x) implies out.at(c, y, x) == g(
        c,
        y,
        x,
    ) by {
        let (c, y, x) = (c as usize, y as usize, x as usize);
        assert(call_ensures(f, (c, y, x), out.at(c as int, y as int, x as int)));
    }
    lemma_is_build(out, g);
}

/// A planar image: either single-channel grey or three-channel RGB.
pub struct FrameF32<S> {
    width: usize,
    height: usize,
    channels: usize,
    data: Vec<S>,
}

impl<S> View for FrameF32<S> {
    type V = Image<S>;

    closed spec fn view(&self) -> Image<S> {
        Image {
            width: self.width as nat,
            height: self.height as nat,
            channels: self.channels as nat,
            samples: self.data@,
        }
    }
}

impl<S: Copy> FrameF32<S> {
    /// Builds a frame sample by sample, in planar order.
    pub fn tabulate<F: Fn(usize, usize, usize) -> S>(
        width: usize,
        height: usize,
        channels: usize,
        f: F,
    ) -> (out: Self)
        requires
            channels == 1 || channels == 3,
            width * height * channels <= usize::MAX,
            forall|c: usize, y: usize, x: usize|
                c < channels && y < height && x < width ==> #[trigger] call_requires(f, (c, y, x)),
        ensures
            out@.wf(),
            out@.width == width,
            out@.height == height,
            out@.channels == channels,
            forall|c: usize, y: usize, x: usize|
                c < channels && y < height && x < width ==> call_ensures(
                    f,
                    (c, y, x),
                    #[trigger] out@.at(c as int, y as int, x as int),
                ),
    {
        let mut data: Vec<S> = Vec::new();
        let mut c: usize = 0;
        while c < channels
            invariant
                c <= channels,
                data@.len() == c * (height * width),
                forall|c: usize, y: usize, x: usize|
                    c < channels && y < height && x < width ==> #[trigger] call_requires(f, (c, y, x)),
                forall|k: usize, y: usize, x: usize|
                    k < c && y < height && x < width ==> call_ensures(
                        f,
                        (k, y, x),
                        #[trigger] data@[flat(width as int, height as int, k as int, y as int, x as int)],
                    ),
            decreases channels - c,
        {
            let mut y: usize = 0;
            proof {
                assert(c * (height * width) == (c * height + 0) * width) by (nonlinear_arith);
            }
            while y < height
                invariant
                    c < channels,
                    y <= height,
                    data@.len() == (c * height + y) * width,
                    forall|c: usize, y: usize, x: usize|
                        c < channels && y < height && x < width ==> #[trigger] call_requires(
                            f,
                            (c, y, x),
                        ),
                    forall|k: usize, j: usize, x: usize|
                        (k < c || k == c && j < y) && j < height && x < width ==> call_ensures(
                            f,
                            (k, j, x),
                            #[trigger] data@[flat(width as int, height as int, k as int, j as int, x as int)],
                        ),
                decreases height - y,
            {
                let mut x: usize = 0;
                while x < width
                    invariant
                        c < channels,
                        y < height,
                        x <= width,
                        data@.len() == (c * height + y) * width + x,
                        forall|c: usize, y: usize, x: usize|
                            c < channels && y < height && x < width ==> #[trigger] call_requires(
                                f,
                                (c, y, x),
                            ),
                        forall|k: usize, j: usize, i: usize|
                            (k < c || k == c && (j < y || j == y && i < x)) && j < height && i < width
                                ==> call_ensures(
                                f,
                                (k, j, i),
                                #[trigger] data@[flat(width as int, height as int, k as int, j as int, i as int)],
                            ),
                    decreases width - x,
                {
                    let ghost before = data@;
                    data.push(f(c, y, x));
                    proof {
                        assert forall|k: usize, j: usize, i: usize|
                            (k < c || k == c && (j < y || j == y && i < x + 1)) && j < height && i < width
                            implies call_ensures(
                            f,
                            (k, j, i),
                            #[trigger] data@[flat(width as int, height as int, k as int, j as int, i as int)],
                        ) by {
                            let p = flat(width as int, height as int, k as int, j as int, i as int);
                            if k == c && j == y && i == x {
                                assert(p == before.len());
                            } else {
                                lemma_flat_order(width as int, height as int, k as int, j as int, i as int, c as int, y as int, x as int);
                                assert(data@[p] == before[p]);
                            }
                        }
                    }
                    x += 1;
                }
                proof {
                    assert((c * height + y) * width + width == (c * height + (y + 1)) * width)
                        by (nonlinear_arith);
                }
                y += 1;
            }
            proof {
                assert((c * height + height) * width == (c + 1) * (height * width)) by (nonlinear_arith);
            }
            c += 1;
        }
        proof {
            assert(channels * (height * width) == width * height * channels) by (nonlinear_arith);
        }
        FrameF32 { width, height, channels, data }
    }

    /// Allocates a three-channel RGB frame of default samples.
    pub fn new_rgb(width: usize, height: usize) -> (out: Self) where S: Default
        requires
            width * height * 3 <= usize::MAX,
        ensures
            exists|zero: S| #[trigger]
                call_ensures(S::default, (), zero) && out@ == filled(width as nat, height as nat, 3, zero),
    {
        let zero = S::default();
        let out = Self::filled(width, height, 3, zero);
        assert(call_ensures(S::default, (), zero));
        out
    }

    /// Allocates a single-channel grey frame of default samples.
    pub fn new_grey(width: usize, height: usize) -> (out: Self) where S: Default
        requires
            width * height <= usize::MAX,
        ensures
            exists|zero: S| #[trigger]
                call_ensures(S::default, (), zero) && out@ == filled(width as nat, height as nat, 1, zero),
    {
        let zero = S::default();
        let out = Self::filled(width, height, 1, zero);
        assert(call_ensures(S::default, (), zero));
        out
    }

    /// Allocates a frame with every sample set to `value`.
    pub fn filled(width: usize, height: usize, channels: usize, value: S) -> (out: Self)
        requires
            channels == 1 || channels == 3,
            width * height * channels <= usize::MAX,
        ensures
            out@ == filled(width as nat, height as nat, channels as nat, value),
            out@.wf(),
    {
        let constant = |c: usize, y: usize, x: usize| -> (s: S)
            ensures
                s == value,
            { value };
        let out = Self::tabulate(width, height, channels, constant);
        proof {
            lemma_tabulated(constant, out@, |c: int, y: int, x: int| value);
        }
        out
    }

    /// Wraps existing planar samples.
    pub fn from_planar(width: usize, height: usize, channels: usize, data: Vec<S>) -> (out: Self)
        requires
            channels == 1 || channels == 3,
            data@.len() == width * height * channels,
        ensures
            out@ == (Image {
                width: width as nat,
                height: height as nat,
                channels: channels as nat,
                samples: data@,
            }),
            out@.wf(),
    {
        FrameF32 { width, height, channels, data }
    }

    pub fn width(&self) -> (r: usize)
        ensures
            r == self@.width,
    {
        self.width
    }

    pub fn height(&self) -> (r: usize)
        ensures
            r == self@.height,
    {
        self.height
    }

    pub fn channels(&self) -> (r: usize)
        ensures
            r == self@.channels,
    {
        self.channels
    }

    /// Number of samples in one plane.
    pub fn plane_len(&self) -> (r: usize)
        requires
            self@.wf(),
        ensures
            r == self@.width * self@.height,
    {
        proof {
            lemma_plane_range(self@, 0);
            assert(self.data.len() <= usize::MAX);
        }
        self.width * self.height
    }

    /// What a frame holds is what a machine can count.
    pub proof fn lemma_fits(&self)
        requires
            self@.wf(),
        ensures
            self@.width <= usize::MAX,
            self@.height <= usize::MAX,
            self@.width * self@.height * self@.channels <= usize::MAX,
    {
        assert(self.data.len() <= usize::MAX);
    }

    /// True when width or height is zero.
    pub fn is_empty(&self) -> (r: bool)
        ensures
            r == (self@.width == 0 || self@.height == 0),
    {
        self.width == 0 || self.height == 0
    }

    /// The sample of plane `c` at column `x` of row `y`.
    pub fn at(&self, c: usize, y: usize, x: usize) -> (s: S)
        requires
            self@.wf(),
            self@.has(c as int, y as int, x as int),
        ensures
            s == self@.at(c as int, y as int, x as int),
    {
        proof {
            lemma_flat_in_range(
                self.width as int,
                self.height as int,
                self.channels as int,
                c as int,
                y as int,
                x as int,
            );
            assert(c * self.height + y <= (c * self.height + y) * self.width) by (nonlinear_arith)
                requires
                    0 <= c * self.height + y,
                    self.width >= 1,
            ;
            assert(c * self.height >= 0) by (nonlinear_arith);
            assert(self.data.len() <= usize::MAX);
        }
        self.data[(c * self.height + y) * self.width + x]
    }

    /// Read-only view of one plane.
    pub fn plane(&self, index: usize) -> (r: &[S])
        requires
            self@.wf(),
            index < self@.channels,
        ensures
            r@ == self@.plane(index as int),
    {
        let len = self.plane_len();
        proof {
            lemma_plane_range(self@, index as int);
            assert(self.data.len() <= usize::MAX);
        }
        vstd::slice::slice_subrange(self.data.as_slice(), index * len, (index + 1) * len)
    }

    /// Mutable view of one plane.
    pub fn plane_mut(&mut self, index: usize) -> (r: &mut [S])
        requires
            old(self)@.wf(),
            index < old(self)@.channels,
        ensures
            r@ == old(self)@.plane(index as int),
            final(r)@.len() == r@.len() ==> final(self)@ == old(self)@.with_plane(
                index as int,
                final(r)@,
            ),
    {
        let len = self.plane_len();
        proof {
            lemma_plane_range(self@, index as int);
            assert(self.data.len() <= usize::MAX);
        }
        let (_, rest) = self.data.as_mut_slice().split_at_mut(index * len);
        let (plane, _) = rest.split_at_mut(len);
        plane
    }

    /// All planes as a flat planar slice.
    pub fn as_slice(&self) -> (r: &[S])
        ensures
            r@ == self@.samples,
    {
        self.data.as_slice()
    }

    /// All planes as a flat mutable planar slice.
    pub fn as_mut_slice(&mut self) -> (r: &mut [S])
        ensures
            r@ == old(self)@.samples,
            final(self)@ == (Image { samples: final(r)@, ..old(self)@ }),
    {
        self.data.as_mut_slice()
    }

    /// Whether the frame has the same geometry as `other`, ignoring channel count.
    pub fn same_size(&self, other: &Self) -> (r: bool)
        ensures
            r == self@.same_size(other@),
    {
        self.width == other.width && self.height == other.height
    }

    /// Splits an RGB frame into its three planes.
    pub fn rgb_planes(&self) -> (r: (&[S], &[S], &[S]))
        requires
            self@.wf(),
            self@.channels == 3,
        ensures
            r.0@ == self@.plane(0),
            r.1@ == self@.plane(1),
            r.2@ == self@.plane(2),
    {
        (self.plane(0), self.plane(1), self.plane(2))
    }

    /// Builds an RGB frame from three equally sized planes.
    pub fn from_rgb_planes(width: usize, height: usize, r: &[S], g: &[S], b: &[S]) -> (out: Self)
        requires
            r@.len() == width * height,
            g@.len() == width * height,
            b@.len() == width * height,
            width * height * 3 <= usize::MAX,
        ensures
            out@ == (Image {
                width: width as nat,
                height: height as nat,
                channels: 3,
                samples: r@ + g@ + b@,
            }),
            out@.wf(),
    {
        let mut data: Vec<S> = Vec::new();
        append_slice(&mut data, r);
        append_slice(&mut data, g);
        append_slice(&mut data, b);
        assert(width * height + width * height + width * height == width * height * 3);
        FrameF32 { width, height, channels: 3, data }
    }

    /// Replicates a grey frame across all three RGB planes.
    pub fn grey_to_rgb(&self) -> (out: Self)
        requires
            self@.wf(),
            self@.channels == 1,
            self@.width * self@.height * 3 <= usize::MAX,
        ensures
            out@ == grey_to_rgb(self@),
            out@.wf(),
    {
        Self::from_rgb_planes(
            self.width,
            self.height,
            self.data.as_slice(),
            self.data.as_slice(),
            self.data.as_slice(),
        )
    }

    /// The three samples of pixel `i` of an RGB frame.
    pub fn pixel(&self, i: usize) -> (px: (S, S, S))
        requires
            self@.wf(),
            self@.channels == 3,
            i < self@.width * self@.height,
        ensures
            px == self@.pixel(i as int),
    {
        let len = self.plane_len();
        proof {
            assert(self.data.len() <= usize::MAX);
            assert(len * 3 == self.data@.len());
        }
        (self.data[i], self.data[len + i], self.data[len + len + i])
    }

    /// Builds an RGB frame pixel by pixel.
    pub fn from_pixels<F: Fn(usize) -> (S, S, S)>(width: usize, height: usize, f: F) -> (out: Self)
        requires
            width * height * 3 <= usize::MAX,
            forall|i: usize| i < width * height ==> #[trigger] call_requires(f, (i,)),
        ensures
            out@.wf(),
            out@.width == width,
            out@.height == height,
            out@.channels == 3,
            forall|i: usize|
                i < width * height ==> call_ensures(f, (i,), #[trigger] out@.pixel(i as int)),
    {
        let len: usize = width * height;
        let mut r: Vec<S> = Vec::new();
        let mut g: Vec<S> = Vec::new();
        let mut b: Vec<S> = Vec::new();
        let mut i: usize = 0;
        while i < len
            invariant
                i <= len == width * height,
                r@.len() == i,
                g@.len() == i,
                b@.len() == i,
                forall|i: usize| i < width * height ==> #[trigger] call_requires(f, (i,)),
                forall|k: usize|
                    k < i ==> call_ensures(
                        f,
                        (k,),
                        (#[trigger] r@[k as int], g@[k as int], b@[k as int]),
                    ),
            decreases len - i,
        {
            let px = f(i);
            r.push(px.0);
            g.push(px.1);
            b.push(px.2);
            i += 1;
        }
        let out = Self::from_rgb_planes(width, height, r.as_slice(), g.as_slice(), b.as_slice());
        assert forall|i: usize| i < width * height implies call_ensures(
            f,
            (i,),
            #[trigger] out@.pixel(i as int),
        ) by {
            assert(out@.pixel(i as int) == (r@[i as int], g@[i as int], b@[i as int]));
        }
        out
    }

    /// The frame with `f` applied to every sample, over all cores.
    pub fn map<T: Copy + Send, F: Fn(S) -> T + Sync + Send>(&self, f: F) -> (out: FrameF32<T>) where
        S: Send + Sync,

        requires
            self@.wf(),
            forall|s: S| #[trigger] call_requires(f, (s,)),
        ensures
            maps(f, self@, out@),
    {
        let (data, g) = (&self.data, &f);
        let sample = |i: usize| -> (t: T)
            requires
                i < data@.len(),
                accepts_all(g),
            ensures
                gives(g, data@[i as int], t),
            { g(data[i]) };
        let data = par_tabulate(self.data.len(), sample);
        let out = FrameF32 { width: self.width, height: self.height, channels: self.channels, data };
        assert forall|i: int| 0 <= i < self@.samples.len() implies call_ensures(
            f,
            (self@.samples[i],),
            #[trigger] out@.samples[i],
        ) by {
            assert(call_ensures(sample, (i as usize,), out@.samples[i as usize as int]));
            assert(gives(g, self@.samples[i], out@.samples[i]));
        }
        out
    }
}

/// `image` is what `scale` makes of interleaved RGB values: pixel `i` of the image
/// is the `i`-th three of them.
pub open spec fn deinterleaved<T, S, F: Fn(T) -> S>(
    scale: F,
    values: Seq<T>,
    width: nat,
    height: nat,
    image: Image<S>,
) -> bool {
    &&& image.wf()
    &&& image.width == width
    &&& image.height == height
    &&& image.channels == 3
    &&& values.len() == width * height * 3
    &&& forall|i: int|
        0 <= i < width * height ==> call_ensures(scale, (values[3 * i],), (#[trigger] image.pixel(i)).0)
            && call_ensures(scale, (values[3 * i + 1],), image.pixel(i).1) && call_ensures(
            scale,
            (values[3 * i + 2],),
            image.pixel(i).2,
        )
}

/// `values` are what `quantise` makes of an RGB image, interleaved pixel by pixel.
pub open spec fn interleaved<S, T, F: Fn(S) -> T>(
    quantise: F,
    image: Image<S>,
    values: Seq<T>,
) -> bool {
    &&& values.len() == image.width * image.height * 3
    &&& forall|i: int|
        0 <= i < image.width * image.height ==> call_ensures(
            quantise,
            ((#[trigger] image.pixel(i)).0,),
            values[3 * i],
        ) && call_ensures(quantise, (image.pixel(i).1,), values[3 * i + 1]) && call_ensures(
            quantise,
            (image.pixel(i).2,),
            values[3 * i + 2],
        )
}

/// Takes interleaved RGB values apart into planes.
fn deinterleave<T: Copy, S: Copy, F: Fn(T) -> S>(
    width: usize,
    height: usize,
    values: &[T],
    scale: &F,
) -> (out: FrameF32<S>)
    requires
        values@.len() == width * height * 3,
        forall|v: T| #[trigger] call_requires(*scale, (v,)),
    ensures
        deinterleaved(*scale, values@, width as nat, height as nat, out@),
{
    assert(values.len() <= usize::MAX);
    let pixel = |i: usize| -> (px: (S, S, S))
        requires
            3 * i + 2 < values@.len(),
            values@.len() <= usize::MAX,
            accepts_all(scale),
        ensures
            gives(scale, values@[3 * i], px.0),
            gives(scale, values@[3 * i + 1], px.1),
            gives(scale, values@[3 * i + 2], px.2),
        { (scale(values[3 * i]), scale(values[3 * i + 1]), scale(values[3 * i + 2])) };
    let out = FrameF32::from_pixels(width, height, pixel);
    assert forall|i: int| 0 <= i < width * height implies call_ensures(
        *scale,
        (values@[3 * i],),
        (#[trigger] out@.pixel(i)).0,
    ) && call_ensures(*scale, (values@[3 * i + 1],), out@.pixel(i).1) && call_ensures(
        *scale,
        (values@[3 * i + 2],),
        out@.pixel(i).2,
    ) by {
        assert(call_ensures(pixel, (i as usize,), out@.pixel(i as usize as int)));
    }
    out
}

/// Interleaves the planes of an RGB frame, one pixel after the other.
fn interleave<S: Copy, T: Copy, F: Fn(S) -> T>(frame: &FrameF32<S>, quantise: &F) -> (values: Vec<T>)
    requires
        frame@.wf(),
        frame@.channels == 3,
        forall|s: S| #[trigger] call_requires(*quantise, (s,)),
    ensures
        interleaved(*quantise, frame@, values@),
{
    let len: usize = frame.plane_len();
    let mut values: Vec<T> = Vec::new();
    let mut i: usize = 0;
    while i < len
        invariant
            frame@.wf(),
            frame@.channels == 3,
            i <= len == frame@.width * frame@.height,
            forall|s: S| #[trigger] call_requires(*quantise, (s,)),
            values@.len() == 3 * i,
            forall|k: int|
                0 <= k < i ==> call_ensures(
                    *quantise,
                    ((#[trigger] frame@.pixel(k)).0,),
                    values@[3 * k],
                ) && call_ensures(*quantise, (frame@.pixel(k).1,), values@[3 * k + 1])
                    && call_ensures(*quantise, (frame@.pixel(k).2,), values@[3 * k + 2]),
        decreases len - i,
    {
        let (r, g, b) = frame.pixel(i);
        values.push(quantise(r));
        values.push(quantise(g));
        values.push(quantise(b));
        i += 1;
    }
    values
}

impl<S: Copy> FrameF32<S> {
    /// Decodes interleaved 8-bit RGB; `scale` turns one value into a sample.
    pub fn from_rgb8<F: Fn(u8) -> S>(
        width: usize,
        height: usize,
        interleaved: &[u8],
        scale: &F,
    ) -> (out: Self)
        requires
            interleaved@.len() == width * height * 3,
            forall|v: u8| #[trigger] call_requires(*scale, (v,)),
        ensures
            deinterleaved(*scale, interleaved@, width as nat, height as nat, out@),
    {
        deinterleave(width, height, interleaved, scale)
    }

    /// Encodes to interleaved 8-bit RGB.
    pub fn to_rgb8<
        R: Fn(S, u32) -> S,
        N: Fn(S) -> bool,
        A: Fn(S, u32) -> bool,
        W: Fn(S) -> u32,
    >(&self, math: &QuantiseMath<R, N, A, W>) -> (values: Vec<u8>)
        requires
            self@.wf(),
            self@.channels == 3,
            quantises_all(math),
        ensures
            interleaved8(math, self@, values@),
    {
        let one = |s: S| -> (v: u8)
            requires
                quantises_all(math),
            ensures
                written8(math, s, v),
            {
                let n: u32 = quantise(s, 255, math);
                assert(quantised(math, s, 255, n));
                #[verifier::truncate]
                (n as u8)
            };
        let values = interleave(self, &one);
        assert(interleaved8(math, self@, values@)) by {
            assert forall|i: int| 0 <= i < self@.width * self@.height implies written8(
                math,
                (#[trigger] self@.pixel(i)).0,
                values@[3 * i],
            ) && written8(math, self@.pixel(i).1, values@[3 * i + 1]) && written8(
                math,
                self@.pixel(i).2,
                values@[3 * i + 2],
            ) by {
                assert(call_ensures(one, (self@.pixel(i).0,), values@[3 * i]));
                assert(call_ensures(one, (self@.pixel(i).1,), values@[3 * i + 1]));
                assert(call_ensures(one, (self@.pixel(i).2,), values@[3 * i + 2]));
            }
        }
        values
    }

    /// Decodes interleaved 16-bit RGB; `scale` turns one value into a sample.
    pub fn from_rgb16<F: Fn(u16) -> S>(
        width: usize,
        height: usize,
        interleaved: &[u16],
        scale: &F,
    ) -> (out: Self)
        requires
            interleaved@.len() == width * height * 3,
            forall|v: u16| #[trigger] call_requires(*scale, (v,)),
        ensures
            deinterleaved(*scale, interleaved@, width as nat, height as nat, out@),
    {
        deinterleave(width, height, interleaved, scale)
    }

    /// Encodes to interleaved 16-bit RGB.
    pub fn to_rgb16<
        R: Fn(S, u32) -> S,
        N: Fn(S) -> bool,
        A: Fn(S, u32) -> bool,
        W: Fn(S) -> u32,
    >(&self, math: &QuantiseMath<R, N, A, W>) -> (values: Vec<u16>)
        requires
            self@.wf(),
            self@.channels == 3,
            quantises_all(math),
        ensures
            interleaved16(math, self@, values@),
    {
        let one = |s: S| -> (v: u16)
            requires
                quantises_all(math),
            ensures
                written16(math, s, v),
            {
                let n: u32 = quantise(s, 65535, math);
                assert(quantised(math, s, 65535, n));
                #[verifier::truncate]
                (n as u16)
            };
        let values = interleave(self, &one);
        assert(interleaved16(math, self@, values@)) by {
            assert forall|i: int| 0 <= i < self@.width * self@.height implies written16(
                math,
                (#[trigger] self@.pixel(i)).0,
                values@[3 * i],
            ) && written16(math, self@.pixel(i).1, values@[3 * i + 1]) && written16(
                math,
                self@.pixel(i).2,
                values@[3 * i + 2],
            ) by {
                assert(call_ensures(one, (self@.pixel(i).0,), values@[3 * i]));
                assert(call_ensures(one, (self@.pixel(i).1,), values@[3 * i + 1]));
                assert(call_ensures(one, (self@.pixel(i).2,), values@[3 * i + 2]));
            }
        }
        values
    }
}

/// Decoding and encoding 8-bit values gives back every one, where quantising a
/// scaled value does.
pub proof fn law_rgb8_round_trips<
    S,
    F: Fn(u8) -> S,
    R: Fn(S, u32) -> S,
    N: Fn(S) -> bool,
    A: Fn(S, u32) -> bool,
    W: Fn(S) -> u32,
>(
    scale: F,
    math: &QuantiseMath<R, N, A, W>,
    values: Seq<u8>,
    width: nat,
    height: nat,
    image: Image<S>,
    out: Seq<u8>,
)
    requires
        deinterleaved(scale, values, width, height, image),
        interleaved8(math, image, out),
        forall|v: u8, s: S, u: u8| #[trigger]
            call_ensures(scale, (v,), s) && #[trigger] written8(math, s, u) ==> u == v,
    ensures
        out == values,
{
    assert forall|j: int| 0 <= j < values.len() implies out[j] == values[j] by {
        let i = j / 3;
        assert(0 <= i < width * height);
        let px = image.pixel(i);
        assert(call_ensures(scale, (values[3 * i],), px.0));
        assert(written8(math, px.0, out[3 * i]));
        assert(call_ensures(scale, (values[3 * i + 1],), px.1));
        assert(written8(math, px.1, out[3 * i + 1]));
        assert(call_ensures(scale, (values[3 * i + 2],), px.2));
        assert(written8(math, px.2, out[3 * i + 2]));
    }
    assert(out =~= values);
}

/// Decoding and encoding 16-bit values gives back every one, where quantising a
/// scaled value does.
pub proof fn law_rgb16_round_trips<
    S,
    F: Fn(u16) -> S,
    R: Fn(S, u32) -> S,
    N: Fn(S) -> bool,
    A: Fn(S, u32) -> bool,
    W: Fn(S) -> u32,
>(
    scale: F,
    math: &QuantiseMath<R, N, A, W>,
    values: Seq<u16>,
    width: nat,
    height: nat,
    image: Image<S>,
    out: Seq<u16>,
)
    requires
        deinterleaved(scale, values, width, height, image),
        interleaved16(math, image, out),
        forall|v: u16, s: S, u: u16| #[trigger]
            call_ensures(scale, (v,), s) && #[trigger] written16(math, s, u) ==> u == v,
    ensures
        out == values,
{
    assert forall|j: int| 0 <= j < values.len() implies out[j] == values[j] by {
        let i = j / 3;
        assert(0 <= i < width * height);
        let px = image.pixel(i);
        assert(call_ensures(scale, (values[3 * i],), px.0));
        assert(written16(math, px.0, out[3 * i]));
        assert(call_ensures(scale, (values[3 * i + 1],), px.1));
        assert(written16(math, px.1, out[3 * i + 1]));
        assert(call_ensures(scale, (values[3 * i + 2],), px.2));
        assert(written16(math, px.2, out[3 * i + 2]));
    }
    assert(out =~= values);
}

/// Out of range is clamped: what is no number or below black is written as 0, and
/// what is beyond white as the highest value there is.
pub proof fn law_out_of_range_is_clamped<
    S,
    R: Fn(S, u32) -> S,
    N: Fn(S) -> bool,
    A: Fn(S, u32) -> bool,
    W: Fn(S) -> u32,
>(math: &QuantiseMath<R, N, A, W>, sample: S, scaled: S, v: u8)
    requires
        forall|x: S| #[trigger] call_ensures(math.round, (sample, 255u32), x) ==> x == scaled,
        written8(math, sample, v),
    ensures
        (forall|b: bool| #[trigger] call_ensures(math.below, (scaled,), b) ==> b) ==> v == 0,
        (forall|b: bool| #[trigger] call_ensures(math.below, (scaled,), b) ==> !b) && (forall|b: bool|
            #[trigger]
            call_ensures(math.above, (scaled, 255u32), b) ==> b) ==> v == 255,
{
}

impl<S: Copy> Clone for FrameF32<S> {
    fn clone(&self) -> (out: Self)
        ensures
            out@ == self@,
    {
        let mut data: Vec<S> = Vec::new();
        append_slice(&mut data, self.data.as_slice());
        FrameF32 { width: self.width, height: self.height, channels: self.channels, data }
    }
}

/// `f` may return `t` for `s`.
pub open spec fn gives<S, T, F: Fn(S) -> T>(f: &F, s: S, t: T) -> bool {
    call_ensures(*f, (s,), t)
}

/// `f` takes every sample.
pub open spec fn accepts_all<S, T, F: Fn(S) -> T>(f: &F) -> bool {
    forall|s: S| #[trigger] call_requires(*f, (s,))
}

/// `out` is `image` with every sample replaced by what `f` makes of it.
pub open spec fn maps<S, T, F: Fn(S) -> T>(f: F, image: Image<S>, out: Image<T>) -> bool {
    &&& out.width == image.width
    &&& out.height == image.height
    &&& out.channels == image.channels
    &&& out.samples.len() == image.samples.len()
    &&& forall|i: int|
        0 <= i < image.samples.len() ==> call_ensures(f, (image.samples[i],), #[trigger] out.samples[i])
}

/// The image whose every sample is `value`.
pub open spec fn filled<S>(width: nat, height: nat, channels: nat, value: S) -> Image<S> {
    Image::build(width, height, channels, |c: int, y: int, x: int| value)
}

/// The RGB image whose three planes are all the plane of `grey`.
pub open spec fn grey_to_rgb<S>(grey: Image<S>) -> Image<S> {
    Image { channels: 3, samples: grey.samples + grey.samples + grey.samples, ..grey }
}

/// Appends a slice, sample by sample.
fn append_slice<S: Copy>(data: &mut Vec<S>, more: &[S])
    ensures
        final(data)@ == old(data)@ + more@,
{
    let mut i: usize = 0;
    while i < more.len()
        invariant
            i <= more@.len(),
            data@ == old(data)@ + more@.take(i as int),
        decreases more@.len() - i,
    {
        data.push(more[i]);
        i += 1;
        assert(more@.take(i as int) =~= more@.take(i - 1).push(more@[i - 1]));
    }
    assert(more@.take(i as int) =~= more@);
}

/// A plane's samples lie inside the buffer.
pub proof fn lemma_plane_range<S>(image: Image<S>, c: int)
    requires
        image.wf(),
        0 <= c < image.channels,
    ensures
        0 <= c * (image.width * image.height) <= (c + 1) * (image.width * image.height)
            <= image.samples.len(),
        c * (image.width * image.height) + image.width * image.height == (c + 1) * (image.width
            * image.height),
        image.plane(c).len() == image.width * image.height,
{
    let len = image.width * image.height;
    assert(0 <= c * len <= (c + 1) * len <= len * image.channels) by (nonlinear_arith)
        requires
            0 <= c < image.channels,
            0 <= len,
    ;
    assert(c * len + len == (c + 1) * len) by (nonlinear_arith);
}

/// Planar order is the order of planes, of rows within a plane, of columns
/// within a row.
proof fn lemma_flat_order(width: int, height: int, k: int, j: int, i: int, c: int, y: int, x: int)
    requires
        0 <= k,
        0 <= j < height,
        0 <= i < width,
        0 <= y < height,
        0 <= x < width,
        k < c || k == c && (j < y || j == y && i < x),
    ensures
        0 <= flat(width, height, k, j, i) < flat(width, height, c, y, x),
{
    let p = k * height + j;
    let q = c * height + y;
    assert(0 <= p && (p < q || p == q && i < x)) by (nonlinear_arith)
        requires
            p == k * height + j,
            q == c * height + y,
            0 <= k,
            0 <= j < height,
            0 <= y < height,
            k < c || k == c && (j < y || j == y && i < x),
    ;
    assert(0 <= p * width + i < q * width + x) by (nonlinear_arith)
        requires
            0 <= p,
            p < q || p == q && i < x,
            0 <= i < width,
            0 <= x < width,
    ;
}

/// The arithmetic that quantising a sample is made of.
pub struct QuantiseMath<R, N, A, W> {
    /// A sample scaled to a limit and rounded to a whole number.
    pub round: R,
    /// Whether it is no number, or below black.
    pub below: N,
    /// Whether it is beyond a limit.
    pub above: A,
    /// The number it is.
    pub whole: W,
}

/// `out` is a sample as a whole number up to `limit`: clamped at both ends, and black
/// where the sample is no number.
pub open spec fn quantised<
    S,
    R: Fn(S, u32) -> S,
    N: Fn(S) -> bool,
    A: Fn(S, u32) -> bool,
    W: Fn(S) -> u32,
>(math: &QuantiseMath<R, N, A, W>, sample: S, limit: u32, out: u32) -> bool {
    exists|scaled: S, below: bool, above: bool| #[trigger]
        call_ensures(math.round, (sample, limit), scaled) && #[trigger] call_ensures(
            math.below,
            (scaled,),
            below,
        ) && #[trigger] call_ensures(math.above, (scaled, limit), above) && if below {
            out == 0
        } else if above {
            out == limit
        } else {
            call_ensures(math.whole, (scaled,), out)
        }
}

/// The arithmetic takes every sample.
pub open spec fn quantises_all<
    S,
    R: Fn(S, u32) -> S,
    N: Fn(S) -> bool,
    A: Fn(S, u32) -> bool,
    W: Fn(S) -> u32,
>(math: &QuantiseMath<R, N, A, W>) -> bool {
    &&& forall|s: S, n: u32| #[trigger] call_requires(math.round, (s, n))
    &&& forall|s: S| #[trigger] call_requires(math.below, (s,))
    &&& forall|s: S, n: u32| #[trigger] call_requires(math.above, (s, n))
    &&& forall|s: S| #[trigger] call_requires(math.whole, (s,))
}

/// `v` is a sample as an 8-bit value.
pub open spec fn written8<
    S,
    R: Fn(S, u32) -> S,
    N: Fn(S) -> bool,
    A: Fn(S, u32) -> bool,
    W: Fn(S) -> u32,
>(math: &QuantiseMath<R, N, A, W>, sample: S, v: u8) -> bool {
    exists|n: u32| #[trigger] quantised(math, sample, 255, n) && v == n as u8
}

/// `v` is a sample as a 16-bit value.
pub open spec fn written16<
    S,
    R: Fn(S, u32) -> S,
    N: Fn(S) -> bool,
    A: Fn(S, u32) -> bool,
    W: Fn(S) -> u32,
>(math: &QuantiseMath<R, N, A, W>, sample: S, v: u16) -> bool {
    exists|n: u32| #[trigger] quantised(math, sample, 65535, n) && v == n as u16
}

/// `values` are the samples of an RGB image as 8-bit values, interleaved pixel by
/// pixel.
pub open spec fn interleaved8<
    S,
    R: Fn(S, u32) -> S,
    N: Fn(S) -> bool,
    A: Fn(S, u32) -> bool,
    W: Fn(S) -> u32,
>(math: &QuantiseMath<R, N, A, W>, image: Image<S>, values: Seq<u8>) -> bool {
    &&& values.len() == image.width * image.height * 3
    &&& forall|i: int|
        0 <= i < image.width * image.height ==> written8(
            math,
            (#[trigger] image.pixel(i)).0,
            values[3 * i],
        ) && written8(math, image.pixel(i).1, values[3 * i + 1]) && written8(
            math,
            image.pixel(i).2,
            values[3 * i + 2],
        )
}

/// `values` are the samples of an RGB image as 16-bit values, interleaved pixel by
/// pixel.
pub open spec fn interleaved16<
    S,
    R: Fn(S, u32) -> S,
    N: Fn(S) -> bool,
    A: Fn(S, u32) -> bool,
    W: Fn(S) -> u32,
>(math: &QuantiseMath<R, N, A, W>, image: Image<S>, values: Seq<u16>) -> bool {
    &&& values.len() == image.width * image.height * 3
    &&& forall|i: int|
        0 <= i < image.width * image.height ==> written16(
            math,
            (#[trigger] image.pixel(i)).0,
            values[3 * i],
        ) && written16(math, image.pixel(i).1, values[3 * i + 1]) && written16(
            math,
            image.pixel(i).2,
            values[3 * i + 2],
        )
}

/// Scales a sample to a limit, rounds it and clamps it.
pub fn quantise<
    S: Copy,
    R: Fn(S, u32) -> S,
    N: Fn(S) -> bool,
    A: Fn(S, u32) -> bool,
    W: Fn(S) -> u32,
>(sample: S, limit: u32, math: &QuantiseMath<R, N, A, W>) -> (out: u32)
    requires
        quantises_all(math),
    ensures
        quantised(math, sample, limit, out),
{
    let scaled = (math.round)(sample, limit);
    let below: bool = (math.below)(scaled);
    let above: bool = (math.above)(scaled, limit);
    assert(call_ensures(math.round, (sample, limit), scaled));
    assert(call_ensures(math.below, (scaled,), below));
    assert(call_ensures(math.above, (scaled, limit), above));
    if below {
        0
    } else if above {
        limit
    } else {
        (math.whole)(scaled)
    }
}

/// Samples lie plane by plane, row by row, column by column; pixel `y * width + x` is
/// the red, green and blue sample of column `x` of row `y`.
pub proof fn law_samples_lie_plane_by_plane<S>(image: Image<S>, c: int, y: int, x: int)
    requires
        image.wf(),
        0 <= c < image.channels,
        0 <= y < image.height,
        0 <= x < image.width,
    ensures
        image.at(c, y, x) == image.samples[c * (image.width * image.height) + y * image.width + x],
        image.plane(c)[y * image.width + x] == image.at(c, y, x),
        0 <= y * image.width + x < image.width * image.height,
        image.channels == 3 ==> image.pixel(y * image.width + x) == (
            image.at(0, y, x),
            image.at(1, y, x),
            image.at(2, y, x),
        ),
{
    let (w, h) = (image.width as int, image.height as int);
    lemma_plane_range(image, c);
    lemma_flat_in_range(w, h, 1, 0, y, x);
    assert((c * h + y) * w + x == c * (w * h) + y * w + x) by (nonlinear_arith);
    assert((0 * h + y) * w + x == y * w + x) by (nonlinear_arith);
    assert((1 * h + y) * w + x == w * h + (y * w + x)) by (nonlinear_arith);
    assert((2 * h + y) * w + x == w * h + w * h + (y * w + x)) by (nonlinear_arith);
    assert(w * h * 1 == w * h) by (nonlinear_arith);
    assert((c + 1) * (w * h) == c * (w * h) + w * h) by (nonlinear_arith);
}

/// Interleaved values are read three to a pixel, red first, row by row.
pub proof fn law_values_are_read_red_green_blue<S: Copy, F: Fn(u8) -> S, H: Fn(u16) -> S>(
    width: usize,
    height: usize,
    bytes: &[u8],
    scale: &F,
    words: &[u16],
    scale_words: &H,
    out: FrameF32<S>,
    deep: FrameF32<S>,
    y: int,
    x: int,
)
    requires
        call_ensures(FrameF32::<S>::from_rgb8::<F>, (width, height, bytes, scale), out),
        call_ensures(FrameF32::<S>::from_rgb16::<H>, (width, height, words, scale_words), deep),
        0 <= y < height,
        0 <= x < width,
    ensures
        out@.width == width && out@.height == height && out@.channels == 3,
        call_ensures(*scale, (bytes@[3 * (y * width + x)],), out@.at(0, y, x)),
        call_ensures(*scale, (bytes@[3 * (y * width + x) + 1],), out@.at(1, y, x)),
        call_ensures(*scale, (bytes@[3 * (y * width + x) + 2],), out@.at(2, y, x)),
        deep@.width == width && deep@.height == height && deep@.channels == 3,
        call_ensures(*scale_words, (words@[3 * (y * width + x)],), deep@.at(0, y, x)),
        call_ensures(*scale_words, (words@[3 * (y * width + x) + 1],), deep@.at(1, y, x)),
        call_ensures(*scale_words, (words@[3 * (y * width + x) + 2],), deep@.at(2, y, x)),
{
    law_samples_lie_plane_by_plane(out@, 0, y, x);
    law_samples_lie_plane_by_plane(deep@, 0, y, x);
    let i = y * out@.width + x;
    assert(i == y * width + x);
    let px = out@.pixel(i);
    let deep_px = deep@.pixel(i);
}

/// A frame is written three values to a pixel, red first, row by row.
pub proof fn law_values_are_written_red_green_blue<
    S: Copy,
    R: Fn(S, u32) -> S,
    N: Fn(S) -> bool,
    A: Fn(S, u32) -> bool,
    W: Fn(S) -> u32,
>(
    frame: &FrameF32<S>,
    math: &QuantiseMath<R, N, A, W>,
    bytes: Vec<u8>,
    words: Vec<u16>,
    y: int,
    x: int,
)
    requires
        frame@.wf(),
        frame@.channels == 3,
        call_ensures(FrameF32::<S>::to_rgb8::<R, N, A, W>, (frame, math), bytes),
        call_ensures(FrameF32::<S>::to_rgb16::<R, N, A, W>, (frame, math), words),
        0 <= y < frame@.height,
        0 <= x < frame@.width,
    ensures
        written8(math, frame@.at(0, y, x), bytes@[3 * (y * frame@.width + x)]),
        written8(math, frame@.at(1, y, x), bytes@[3 * (y * frame@.width + x) + 1]),
        written8(math, frame@.at(2, y, x), bytes@[3 * (y * frame@.width + x) + 2]),
        written16(math, frame@.at(0, y, x), words@[3 * (y * frame@.width + x)]),
        written16(math, frame@.at(1, y, x), words@[3 * (y * frame@.width + x) + 1]),
        written16(math, frame@.at(2, y, x), words@[3 * (y * frame@.width + x) + 2]),
        bytes@.len() == 3 * (frame@.width * frame@.height),
        words@.len() == 3 * (frame@.width * frame@.height),
{
    law_samples_lie_plane_by_plane(frame@, 0, y, x);
    let px = frame@.pixel(y * frame@.width + x);
}

/// Deep values are clamped like shallow ones: 0 below black, 65535 beyond white. What
/// is in range is written as the whole number that scaling to the limit and rounding
/// gives.
pub proof fn law_what_is_in_range_is_rounded<
    S,
    R: Fn(S, u32) -> S,
    N: Fn(S) -> bool,
    A: Fn(S, u32) -> bool,
    W: Fn(S) -> u32,
>(math: &QuantiseMath<R, N, A, W>, sample: S, small: S, large: S, v: u8, w: u16)
    requires
        forall|x: S| #[trigger] call_ensures(math.round, (sample, 255u32), x) ==> x == small,
        forall|x: S| #[trigger] call_ensures(math.round, (sample, 65535u32), x) ==> x == large,
        written8(math, sample, v),
        written16(math, sample, w),
    ensures
        (forall|b: bool| #[trigger] call_ensures(math.below, (large,), b) ==> b) ==> w == 0,
        (forall|b: bool| #[trigger] call_ensures(math.below, (large,), b) ==> !b) && (forall|b: bool|
            #[trigger]
            call_ensures(math.above, (large, 65535u32), b) ==> b) ==> w == 65535,
        (forall|b: bool| #[trigger] call_ensures(math.below, (large,), b) ==> !b) && (forall|b: bool|
            #[trigger]
            call_ensures(math.above, (large, 65535u32), b) ==> !b) ==> exists|n: u32| #[trigger]
            call_ensures(math.whole, (large,), n) && w == n as u16,
        (forall|b: bool| #[trigger] call_ensures(math.below, (small,), b) ==> !b) && (forall|b: bool|
            #[trigger]
            call_ensures(math.above, (small, 255u32), b) ==> !b) ==> exists|n: u32| #[trigger]
            call_ensures(math.whole, (small,), n) && v == n as u8,
{
}

/// Every channel of a grey picture made colour is that grey, and a filled picture holds
/// its one value everywhere.
pub proof fn law_grey_fills_all_three_channels<S>(grey: Image<S>, value: S, c: int, y: int, x: int)
    requires
        grey.wf(),
        grey.channels == 1,
        0 <= c < 3,
        0 <= y < grey.height,
        0 <= x < grey.width,
    ensures
        grey_to_rgb(grey).wf() && grey_to_rgb(grey).channels == 3,
        grey_to_rgb(grey).at(c, y, x) == grey.at(0, y, x),
        filled(grey.width, grey.height, 3, value).at(c, y, x) == value,
{
    let out = grey_to_rgb(grey);
    let len = grey.width * grey.height;
    assert(len * 1 == len && len * 3 == len + len + len);
    law_samples_lie_plane_by_plane(grey, 0, y, x);
    law_samples_lie_plane_by_plane(out, c, y, x);
    assert(0 * len == 0 && 1 * len == len && 2 * len == len + len);
    lemma_build_at(grey.width, grey.height, 3, |c: int, y: int, x: int| value, c, y, x);
}

/// A frame that is filled, empty or laid out by a rule has the size it was asked for, and
/// holds at every place what it was asked for there.
pub proof fn law_a_new_frame_holds_what_was_asked_for<
    S: Copy + Default,
    F: Fn(usize, usize, usize) -> S,
    G: Fn(usize) -> (S, S, S),
>(
    width: usize,
    height: usize,
    value: S,
    f: F,
    g: G,
    plain: FrameF32<S>,
    black: FrameF32<S>,
    grey: FrameF32<S>,
    laid: FrameF32<S>,
    painted: FrameF32<S>,
    c: usize,
    y: usize,
    x: usize,
)
    requires
        call_ensures(FrameF32::<S>::filled, (width, height, 3usize, value), plain),
        call_ensures(FrameF32::<S>::new_rgb, (width, height), black),
        call_ensures(FrameF32::<S>::new_grey, (width, height), grey),
        call_ensures(FrameF32::<S>::tabulate::<F>, (width, height, 3usize, f), laid),
        call_ensures(FrameF32::<S>::from_pixels::<G>, (width, height, g), painted),
        c < 3,
        y < height,
        x < width,
    ensures
        plain@.width == width && plain@.height == height && plain@.channels == 3,
        plain@.at(c as int, y as int, x as int) == value,
        black@.width == width && black@.height == height && black@.channels == 3,
        call_ensures(S::default, (), black@.at(c as int, y as int, x as int)),
        grey@.width == width && grey@.height == height && grey@.channels == 1,
        call_ensures(S::default, (), grey@.at(0, y as int, x as int)),
        laid@.width == width && laid@.height == height && laid@.channels == 3,
        call_ensures(f, (c, y, x), laid@.at(c as int, y as int, x as int)),
        painted@.width == width && painted@.height == height && painted@.channels == 3,
        y * width + x <= usize::MAX ==> call_ensures(
            g,
            ((y * width + x) as usize,),
            (
                painted@.at(0, y as int, x as int),
                painted@.at(1, y as int, x as int),
                painted@.at(2, y as int, x as int),
            ),
        ),
{
    let (w, h) = (width as nat, height as nat);
    lemma_build_at(w, h, 3, |c: int, y: int, x: int| value, c as int, y as int, x as int);
    let zero = choose|zero: S| #[trigger]
        call_ensures(S::default, (), zero) && black@ == filled(w, h, 3, zero);
    lemma_build_at(w, h, 3, |c: int, y: int, x: int| zero, c as int, y as int, x as int);
    let none = choose|zero: S| #[trigger]
        call_ensures(S::default, (), zero) && grey@ == filled(w, h, 1, zero);
    lemma_build_at(w, h, 1, |c: int, y: int, x: int| none, 0, y as int, x as int);
    law_samples_lie_plane_by_plane(painted@, 0, y as int, x as int);
    if y * width + x <= usize::MAX {
        let i = (y * width + x) as usize;
        let px = painted@.pixel(i as int);
    }
}

/// A frame tells its size, and hands out each sample and each plane under its own number.
pub proof fn law_a_frame_tells_what_it_holds<S: Copy>(
    frame: &FrameF32<S>,
    other: &FrameF32<S>,
    width: usize,
    height: usize,
    channels: usize,
    len: usize,
    empty: bool,
    same: bool,
    all: &[S],
    c: usize,
    y: usize,
    x: usize,
    sample: S,
    plane: &[S],
    planes: (&[S], &[S], &[S]),
)
    requires
        frame@.wf(),
        frame@.channels == 3,
        call_ensures(FrameF32::<S>::width, (frame,), width),
        call_ensures(FrameF32::<S>::height, (frame,), height),
        call_ensures(FrameF32::<S>::channels, (frame,), channels),
        call_ensures(FrameF32::<S>::plane_len, (frame,), len),
        call_ensures(FrameF32::<S>::is_empty, (frame,), empty),
        call_ensures(FrameF32::<S>::same_size, (frame, other), same),
        call_ensures(FrameF32::<S>::as_slice, (frame,), all),
        call_ensures(FrameF32::<S>::at, (frame, c, y, x), sample),
        call_ensures(FrameF32::<S>::plane, (frame, c), plane),
        call_ensures(FrameF32::<S>::rgb_planes, (frame,), planes),
        c < 3,
        y < height,
        x < width,
    ensures
        width == frame@.width && height == frame@.height && channels == 3,
        len == width * height,
        empty <==> width == 0 || height == 0,
        same <==> other@.width == width && other@.height == height,
        all@.len() == 3 * (width * height),
        sample == all@[c * (width * height) + y * width + x],
        sample == plane@[y * width + x],
        c == 0 ==> planes.0@ == plane@,
        c == 1 ==> planes.1@ == plane@,
        c == 2 ==> planes.2@ == plane@,
{
    law_samples_lie_plane_by_plane(frame@, c as int, y as int, x as int);
    assert(frame@.width * frame@.height * 3 == 3 * (width * height));
}

/// Three planes make a frame in the order red, green, blue; samples that already lie so
/// are taken as they are; grey becomes all three.
pub proof fn law_planes_are_laid_in_order<S: Copy>(
    width: usize,
    height: usize,
    r: &[S],
    g: &[S],
    b: &[S],
    data: Vec<S>,
    grey: &FrameF32<S>,
    out: FrameF32<S>,
    planar: FrameF32<S>,
    rgb: FrameF32<S>,
    c: int,
    y: int,
    x: int,
)
    requires
        r@.len() == width * height,
        g@.len() == width * height,
        b@.len() == width * height,
        data@.len() == width * height * 3,
        grey@.wf(),
        grey@.channels == 1,
        grey@.width == width && grey@.height == height,
        call_ensures(FrameF32::<S>::from_rgb_planes, (width, height, r, g, b), out),
        call_ensures(FrameF32::<S>::from_planar, (width, height, 3usize, data), planar),
        call_ensures(FrameF32::<S>::grey_to_rgb, (grey,), rgb),
        0 <= c < 3,
        0 <= y < height,
        0 <= x < width,
    ensures
        out@.width == width && out@.height == height && out@.channels == 3,
        out@.at(0, y, x) == r@[y * width + x],
        out@.at(1, y, x) == g@[y * width + x],
        out@.at(2, y, x) == b@[y * width + x],
        planar@.width == width && planar@.height == height && planar@.channels == 3,
        planar@.at(c, y, x) == data@[c * (width * height) + y * width + x],
        rgb@.width == width && rgb@.height == height && rgb@.channels == 3,
        rgb@.at(c, y, x) == grey@.at(0, y, x),
{
    law_samples_lie_plane_by_plane(out@, 0, y, x);
    law_samples_lie_plane_by_plane(out@, 1, y, x);
    law_samples_lie_plane_by_plane(out@, 2, y, x);
    law_samples_lie_plane_by_plane(planar@, c, y, x);
    let n = width * height;
    assert(0 * n == 0 && 1 * n == n && 2 * n == n + n);
    law_grey_fills_all_three_channels(grey@, grey@.at(0, y, x), c, y, x);
}

/// Mapping a frame changes every sample where it lies, and nothing else.
pub proof fn law_every_sample_is_mapped_in_place<
    S: Copy + Send + Sync,
    T: Copy + Send,
    F: Fn(S) -> T + Sync + Send,
>(frame: &FrameF32<S>, f: F, out: FrameF32<T>, c: int, y: int, x: int)
    requires
        frame@.wf(),
        call_ensures(FrameF32::<S>::map::<T, F>, (frame, f), out),
        0 <= c < frame@.channels,
        0 <= y < frame@.height,
        0 <= x < frame@.width,
    ensures
        out@.width == frame@.width && out@.height == frame@.height && out@.channels == frame@.channels,
        call_ensures(f, (frame@.at(c, y, x),), out@.at(c, y, x)),
{
    law_samples_lie_plane_by_plane(frame@, c, y, x);
    let (w, h) = (frame@.width as int, frame@.height as int);
    lemma_flat_in_range(w, h, frame@.channels as int, c, y, x);
    let i = (c * h + y) * w + x;
    assert(0 <= i < frame@.samples.len());
    assert(call_ensures(f, (frame@.samples[i],), out@.samples[i]));
    assert(out@.at(c, y, x) == out@.samples[i]);
}

} // verus!
