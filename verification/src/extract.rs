//! Recovering a per-eye brightness signal from the anaglyph's colour channels.

use crate::frame::{law_samples_lie_plane_by_plane, FrameF32, Image};
use crate::parallel::par_tabulate;
use vstd::prelude::*;

verus! {

/// Which anaglyph encoding the source uses.
#[derive(Debug, Clone, Copy, PartialEq, Eq, Structural)]
pub enum AnaglyphFormat {
    /// Red left, cyan right. The most common release format.
    RedCyan,
    /// Green left, magenta right.
    GreenMagenta,
    /// Red left, blue right.
    RedBlue,
    /// ColorCode 3-D: amber left, dark blue right.
    ///
    /// The amber filter passes red *and* green, so the left eye keeps almost
    /// all the luminance and most of the colour. The right eye gets blue alone,
    /// which carries barely seven percent of white's luminance, so it is dim,
    /// and in most transfers the blue channel is the noisiest and most heavily
    /// compressed of the three. The depth survives; the right eye's picture
    /// does not survive well.
    ///
    /// Spelled the American way because it is a trade name, not a colour.
    ColorCode,
}

impl Default for AnaglyphFormat {
    fn default() -> (r: Self)
        ensures
            r == AnaglyphFormat::RedCyan,
    {
        AnaglyphFormat::RedCyan
    }
}

/// The linear combination of RGB that one eye's filter lets through.
///
/// It describes what the anaglyph actually preserves about an eye, and both
/// halves of the recovery must agree on it: extraction reads this combination
/// out of the anaglyph, and restoration drives the colour reference until *its*
/// value of the same combination matches.
///
/// Each part counts ten-thousandths of luminance. A channel's weight is its part
/// over the sum of the three, so the weights always sum to 1 and a neutral grey
/// of value `v` projects to `v`.
#[derive(Debug, Clone, Copy, PartialEq, Eq, Structural)]
pub struct EyeProjection {
    pub r: u32,
    pub g: u32,
    pub b: u32,
}

impl EyeProjection {
    /// The part of channel `c`.
    pub open spec fn part(self, c: int) -> int {
        if c == 0 {
            self.r as int
        } else if c == 1 {
            self.g as int
        } else {
            self.b as int
        }
    }

    pub open spec fn total(self) -> int {
        self.r + self.g + self.b
    }

    /// Sum of the parts: what a part is to be divided by for its weight.
    pub fn weight_sum(&self) -> (r: u64)
        ensures
            r == self.total(),
    {
        self.r as u64 + self.g as u64 + self.b as u64
    }
}

/// The arithmetic that a projection is made of.
pub struct ProjectMath<W, T, A> {
    /// A channel's weight: its part of the sum of the parts.
    pub weight: W,
    /// A weight times a sample.
    pub times: T,
    /// The sum of two.
    pub plus: A,
}

/// The arithmetic takes every part and every sample.
pub open spec fn weighs_all<
    S,
    W: Fn(u32, u64) -> S,
    T: Fn(S, S) -> S,
    A: Fn(S, S) -> S,
>(math: &ProjectMath<W, T, A>) -> bool {
    &&& forall|part: u32, total: u64| #[trigger] call_requires(math.weight, (part, total))
    &&& forall|a: S, b: S| #[trigger] call_requires(math.times, (a, b))
    &&& forall|a: S, b: S| #[trigger] call_requires(math.plus, (a, b))
}

/// `out` is a sample times the weight of its channel.
pub open spec fn channel_weighed<
    S,
    W: Fn(u32, u64) -> S,
    T: Fn(S, S) -> S,
    A: Fn(S, S) -> S,
>(math: &ProjectMath<W, T, A>, part: u32, total: int, s: S, out: S) -> bool {
    exists|weight: S| #[trigger]
        call_ensures(math.weight, (part, total as u64), weight) && call_ensures(
            math.times,
            (weight, s),
            out,
        )
}

/// `out` is the weighted sum of the three channels of a pixel.
pub open spec fn weighed<
    S,
    W: Fn(u32, u64) -> S,
    T: Fn(S, S) -> S,
    A: Fn(S, S) -> S,
>(math: &ProjectMath<W, T, A>, p: EyeProjection, r: S, g: S, b: S, out: S) -> bool {
    exists|x: S, y: S, z: S, xy: S|
        channel_weighed(math, p.r, p.total(), r, x) && channel_weighed(math, p.g, p.total(), g, y)
            && channel_weighed(math, p.b, p.total(), b, z) && #[trigger] call_ensures(
            math.plus,
            (x, y),
            xy,
        ) && #[trigger] call_ensures(math.plus, (xy, z), out)
}

impl EyeProjection {
    /// The value this filter passes for one RGB triple.
    pub fn apply<S: Copy, W: Fn(u32, u64) -> S, T: Fn(S, S) -> S, A: Fn(S, S) -> S>(
        &self,
        r: S,
        g: S,
        b: S,
        math: &ProjectMath<W, T, A>,
    ) -> (out: S)
        requires
            weighs_all(math),
        ensures
            weighed(math, *self, r, g, b, out),
    {
        let total: u64 = self.weight_sum();
        let x = weigh_channel(self.r, total, r, math);
        let y = weigh_channel(self.g, total, g, math);
        let z = weigh_channel(self.b, total, b, math);
        let xy = (math.plus)(x, y);
        assert(call_ensures(math.plus, (x, y), xy));
        (math.plus)(xy, z)
    }
}

/// A sample times the weight of its channel.
fn weigh_channel<S: Copy, W: Fn(u32, u64) -> S, T: Fn(S, S) -> S, A: Fn(S, S) -> S>(
    part: u32,
    total: u64,
    s: S,
    math: &ProjectMath<W, T, A>,
) -> (out: S)
    requires
        weighs_all(math),
    ensures
        channel_weighed(math, part, total as int, s, out),
{
    let weight = (math.weight)(part, total);
    assert(call_ensures(math.weight, (part, total as int as u64), weight));
    (math.times)(weight, s)
}

/// Rec.709 luma weights in ten-thousandths, used wherever a single brightness
/// figure is needed.
pub const LUMA_R: u32 = 2126;

pub const LUMA_G: u32 = 7152;

pub const LUMA_B: u32 = 722;

/// The whole of white's luminance.
pub const LUMA_WHITE: u32 = 10000;

/// The relative luminance of a linear-light RGB triple.
pub fn luminance<S: Copy, W: Fn(u32, u64) -> S, T: Fn(S, S) -> S, A: Fn(S, S) -> S>(
    r: S,
    g: S,
    b: S,
    math: &ProjectMath<W, T, A>,
) -> (out: S)
    requires
        weighs_all(math),
    ensures
        weighed(math, (EyeProjection { r: LUMA_R, g: LUMA_G, b: LUMA_B }), r, g, b, out),
{
    let eye = EyeProjection { r: LUMA_R, g: LUMA_G, b: LUMA_B };
    eye.apply(r, g, b, math)
}

/// What each eye's filter passes, left and right.
///
/// Cyan is green plus blue, but blue is too noisy to use and green alone works
/// better. Magenta has no such choice to make. Amber passes red and green, which
/// between them carry 93% of white's luminance, which is the whole idea of
/// ColorCode: one eye gets a nearly complete picture and the other supplies
/// little more than parallax.
pub open spec fn filters(format: AnaglyphFormat) -> (EyeProjection, EyeProjection) {
    let red = EyeProjection { r: LUMA_WHITE, g: 0, b: 0 };
    let green = EyeProjection { r: 0, g: LUMA_WHITE, b: 0 };
    let blue = EyeProjection { r: 0, g: 0, b: LUMA_WHITE };
    let magenta = EyeProjection { r: LUMA_R, g: 0, b: LUMA_B };
    let amber = EyeProjection { r: LUMA_R, g: LUMA_G, b: 0 };
    match format {
        AnaglyphFormat::RedCyan => (red, green),
        AnaglyphFormat::GreenMagenta => (green, magenta),
        AnaglyphFormat::RedBlue => (red, blue),
        AnaglyphFormat::ColorCode => (amber, blue),
    }
}

/// The `(left, right)` projections for an anaglyph encoding.
pub fn projections(format: AnaglyphFormat) -> (r: (EyeProjection, EyeProjection))
    ensures
        r == filters(format),
{
    let red = EyeProjection { r: LUMA_WHITE, g: 0, b: 0 };
    let green = EyeProjection { r: 0, g: LUMA_WHITE, b: 0 };
    let blue = EyeProjection { r: 0, g: 0, b: LUMA_WHITE };
    let magenta = EyeProjection { r: LUMA_R, g: 0, b: LUMA_B };
    let amber = EyeProjection { r: LUMA_R, g: LUMA_G, b: 0 };
    match format {
        AnaglyphFormat::RedCyan => (red, green),
        AnaglyphFormat::GreenMagenta => (green, magenta),
        AnaglyphFormat::RedBlue => (red, blue),
        AnaglyphFormat::ColorCode => (amber, blue),
    }
}

impl AnaglyphFormat {
    /// Every encoding, in the order a menu should list them.
    pub const ALL: [AnaglyphFormat; 4] = [
        AnaglyphFormat::RedCyan,
        AnaglyphFormat::GreenMagenta,
        AnaglyphFormat::RedBlue,
        AnaglyphFormat::ColorCode,
    ];

    pub open spec fn label_text(self) -> Seq<char> {
        match self {
            AnaglyphFormat::RedCyan => "Red / cyan"@,
            AnaglyphFormat::GreenMagenta => "Green / magenta"@,
            AnaglyphFormat::RedBlue => "Red / blue"@,
            AnaglyphFormat::ColorCode => "ColorCode (amber / blue)"@,
        }
    }

    pub fn label(self) -> (r: &'static str)
        ensures
            r@ == self.label_text(),
    {
        match self {
            AnaglyphFormat::RedCyan => "Red / cyan",
            AnaglyphFormat::GreenMagenta => "Green / magenta",
            AnaglyphFormat::RedBlue => "Red / blue",
            AnaglyphFormat::ColorCode => "ColorCode (amber / blue)",
        }
    }
}

/// `out` is the single plane of what `project` makes of each pixel of `image`
/// under `projection`.
pub open spec fn projected<S, P: Fn(EyeProjection, S, S, S) -> S>(
    project: P,
    projection: EyeProjection,
    image: Image<S>,
    out: Image<S>,
) -> bool {
    &&& out.wf()
    &&& out.same_size(image)
    &&& out.channels == 1
    &&& forall|i: int|
        0 <= i < image.width * image.height ==> call_ensures(
            project,
            (projection, image.pixel(i).0, image.pixel(i).1, image.pixel(i).2),
            #[trigger] out.samples[i],
        )
}

/// `project` takes every pixel under every projection.
pub open spec fn projects_all<S, P: Fn(EyeProjection, S, S, S) -> S>(project: &P) -> bool {
    forall|p: EyeProjection, r: S, g: S, b: S| #[trigger] call_requires(*project, (p, r, g, b))
}

/// `project` may give `s` for a pixel.
pub open spec fn projects_to<S, P: Fn(EyeProjection, S, S, S) -> S>(
    project: &P,
    projection: EyeProjection,
    px: (S, S, S),
    s: S,
) -> bool {
    call_ensures(*project, (projection, px.0, px.1, px.2), s)
}

/// Reads one projection out of an RGB frame, over all cores.
fn project_frame<S: Copy + Send + Sync, P: Fn(EyeProjection, S, S, S) -> S + Sync + Send>(
    frame: &FrameF32<S>,
    projection: EyeProjection,
    project: &P,
) -> (out: FrameF32<S>)
    requires
        frame@.wf(),
        frame@.channels == 3,
        projects_all(project),
    ensures
        projected(*project, projection, frame@, out@),
{
    let sample = |i: usize| -> (s: S)
        requires
            frame@.wf(),
            frame@.channels == 3,
            i < frame@.width * frame@.height,
            projects_all(project),
        ensures
            projects_to(project, projection, frame@.pixel(i as int), s),
        {
            let (r, g, b) = frame.pixel(i);
            project(projection, r, g, b)
        };
    let data = par_tabulate(frame.plane_len(), sample);
    let ghost samples = data@;
    let out = FrameF32::from_planar(frame.width(), frame.height(), 1, data);
    assert forall|i: int| 0 <= i < frame@.width * frame@.height implies call_ensures(
        *project,
        (projection, frame@.pixel(i).0, frame@.pixel(i).1, frame@.pixel(i).2),
        #[trigger] out@.samples[i],
    ) by {
        assert(call_ensures(sample, (i as usize,), samples[i as usize as int]));
    }
    out
}

/// Extracts each eye's surviving signal by what `project` computes for one pixel.
pub fn extract_by<S: Copy + Send + Sync, P: Fn(EyeProjection, S, S, S) -> S + Sync + Send>(
    anaglyph: &FrameF32<S>,
    format: AnaglyphFormat,
    project: &P,
) -> (eyes: (FrameF32<S>, FrameF32<S>))
    requires
        anaglyph@.wf(),
        anaglyph@.channels == 3,
        projects_all(project),
    ensures
        projected(*project, filters(format).0, anaglyph@, eyes.0@),
        projected(*project, filters(format).1, anaglyph@, eyes.1@),
{
    let (left, right) = projections(format);
    (project_frame(anaglyph, left, project), project_frame(anaglyph, right, project))
}

/// `out` is the single plane of what a filter passes of each pixel of `image`.
pub open spec fn passed_by<
    S,
    W: Fn(u32, u64) -> S,
    T: Fn(S, S) -> S,
    A: Fn(S, S) -> S,
>(math: &ProjectMath<W, T, A>, p: EyeProjection, image: Image<S>, out: Image<S>) -> bool {
    &&& out.wf()
    &&& out.same_size(image)
    &&& out.channels == 1
    &&& forall|i: int|
        0 <= i < image.width * image.height ==> weighed(
            math,
            p,
            image.pixel(i).0,
            image.pixel(i).1,
            image.pixel(i).2,
            #[trigger] out.samples[i],
        )
}

/// Extracts each eye's surviving signal from an anaglyph frame.
///
/// Returns `(left, right)` as single-channel frames holding the value of each
/// eye's [`EyeProjection`]. Input must be linear-light RGB.
pub fn extract_eyes<
    S: Copy + Send + Sync,
    W: Fn(u32, u64) -> S + Sync + Send,
    T: Fn(S, S) -> S + Sync + Send,
    A: Fn(S, S) -> S + Sync + Send,
>(anaglyph: &FrameF32<S>, format: AnaglyphFormat, math: &ProjectMath<W, T, A>) -> (eyes: (
    FrameF32<S>,
    FrameF32<S>,
))
    requires
        anaglyph@.wf(),
        anaglyph@.channels == 3,
        weighs_all(math),
    ensures
        passed_by(math, filters(format).0, anaglyph@, eyes.0@),
        passed_by(math, filters(format).1, anaglyph@, eyes.1@),
{
    let one = |p: EyeProjection, r: S, g: S, b: S| -> (s: S)
        requires
            weighs_all(math),
        ensures
            weighed(math, p, r, g, b, s),
        { p.apply(r, g, b, math) };
    let eyes = extract_by(anaglyph, format, &one);
    proof {
        let image = anaglyph@;
        let (p, q) = filters(format);
        assert forall|i: int| 0 <= i < image.width * image.height implies weighed(
            math,
            p,
            image.pixel(i).0,
            image.pixel(i).1,
            image.pixel(i).2,
            #[trigger] eyes.0@.samples[i],
        ) by {
            let px = image.pixel(i);
            assert(call_ensures(one, (p, px.0, px.1, px.2), eyes.0@.samples[i]));
        }
        assert forall|i: int| 0 <= i < image.width * image.height implies weighed(
            math,
            q,
            image.pixel(i).0,
            image.pixel(i).1,
            image.pixel(i).2,
            #[trigger] eyes.1@.samples[i],
        ) by {
            let px = image.pixel(i);
            assert(call_ensures(one, (q, px.0, px.1, px.2), eyes.1@.samples[i]));
        }
    }
    eyes
}

/// Which channels of a muxed anaglyph come from the left eye.
///
/// Red passes the left eye and cyan, which is green and blue, the right; green
/// the left and magenta, red and blue, the right. Of red and blue neither filter
/// passes green cleanly, so it follows the red eye. Amber is red plus green, both
/// from the left eye.
pub open spec fn from_left(format: AnaglyphFormat, c: int) -> bool {
    match format {
        AnaglyphFormat::RedCyan => c == 0,
        AnaglyphFormat::GreenMagenta => c == 1,
        AnaglyphFormat::RedBlue | AnaglyphFormat::ColorCode => c == 0 || c == 1,
    }
}

/// The anaglyph of two RGB pictures: each plane a copy of that plane of one eye.
pub open spec fn muxed<S>(left: Image<S>, right: Image<S>, format: AnaglyphFormat) -> Image<S> {
    let plane = |c: int|
        if from_left(format, c) {
            left.plane(c)
        } else {
            right.plane(c)
        };
    Image { samples: plane(0) + plane(1) + plane(2), ..left }
}

/// Muxes a full-colour stereo pair back into an anaglyph.
///
/// The inverse of [`extract_eyes`], and exactly what a mastering house did in
/// the first place: a straight channel copy. Two uses: building test material
/// whose true answer is known, and letting the app show a recovered pair back
/// through the glasses as a check.
pub fn encode_anaglyph<S: Copy>(
    left: &FrameF32<S>,
    right: &FrameF32<S>,
    format: AnaglyphFormat,
) -> (out: FrameF32<S>)
    requires
        left@.wf(),
        right@.wf(),
        left@.channels == 3,
        right@.channels == 3,
        left@.same_size(right@),
    ensures
        out@ == muxed(left@, right@, format),
        out@.wf(),
{
    proof {
        left.lemma_fits();
        crate::frame::lemma_plane_range(left@, 0);
        crate::frame::lemma_plane_range(left@, 1);
        crate::frame::lemma_plane_range(left@, 2);
        crate::frame::lemma_plane_range(right@, 0);
        crate::frame::lemma_plane_range(right@, 1);
        crate::frame::lemma_plane_range(right@, 2);
    }
    let (w, h) = (left.width(), left.height());
    let (lr, lg, _) = left.rgb_planes();
    let (rr, rg, rb) = right.rgb_planes();
    match format {
        AnaglyphFormat::RedCyan => FrameF32::from_rgb_planes(w, h, lr, rg, rb),
        AnaglyphFormat::GreenMagenta => FrameF32::from_rgb_planes(w, h, rr, lg, rb),
        AnaglyphFormat::RedBlue => FrameF32::from_rgb_planes(w, h, lr, lg, rb),
        AnaglyphFormat::ColorCode => FrameF32::from_rgb_planes(w, h, lr, lg, rb),
    }
}

/// Every projection has light to pass, and passes none beyond white's.
pub proof fn law_projections_are_well_formed(format: AnaglyphFormat)
    ensures
        0 < filters(format).0.total() <= LUMA_WHITE,
        0 < filters(format).1.total() <= LUMA_WHITE,
{
}

/// No channel reaches both eyes: where one filter of an encoding passes a
/// channel, the other blocks it.
pub proof fn law_filters_share_no_channel(format: AnaglyphFormat, c: int)
    requires
        0 <= c < 3,
    ensures
        filters(format).0.part(c) == 0 || filters(format).1.part(c) == 0,
{
}

/// What a filter reads out of a muxed anaglyph is its own eye: every channel
/// that the left projection weighs is the left eye's plane, and every channel
/// that the right projection weighs is the right eye's.
pub proof fn law_muxing_feeds_each_filter_its_own_eye<S>(
    left: Image<S>,
    right: Image<S>,
    format: AnaglyphFormat,
    c: int,
)
    requires
        left.wf(),
        right.wf(),
        left.channels == 3,
        right.channels == 3,
        left.same_size(right),
        0 <= c < 3,
    ensures
        filters(format).0.part(c) > 0 ==> muxed(left, right, format).plane(c) == left.plane(c),
        filters(format).1.part(c) > 0 ==> muxed(left, right, format).plane(c) == right.plane(c),
{
    lemma_muxed_plane(left, right, format, c);
}

/// A plane of a muxed anaglyph is that plane of the eye it comes from.
pub proof fn lemma_muxed_plane<S>(left: Image<S>, right: Image<S>, format: AnaglyphFormat, c: int)
    requires
        left.wf(),
        right.wf(),
        left.channels == 3,
        right.channels == 3,
        left.same_size(right),
        0 <= c < 3,
    ensures
        muxed(left, right, format).plane(c) == (if from_left(format, c) {
            left.plane(c)
        } else {
            right.plane(c)
        }),
        muxed(left, right, format).wf(),
{
    let out = muxed(left, right, format);
    let len = left.width * left.height;
    crate::frame::lemma_plane_range(left, 0);
    crate::frame::lemma_plane_range(left, 1);
    crate::frame::lemma_plane_range(left, 2);
    crate::frame::lemma_plane_range(right, 0);
    crate::frame::lemma_plane_range(right, 1);
    crate::frame::lemma_plane_range(right, 2);
    assert(out.samples.len() == 3 * len);
    let expected = if from_left(format, c) {
        left.plane(c)
    } else {
        right.plane(c)
    };
    assert(0 * len == 0 && 1 * len == len && 2 * len == len + len && 3 * len == len + len + len);
    assert(out.plane(c) =~= expected);
}

/// Red/blue and ColorCode mux to the same picture; only the filters they are
/// looked at through differ.
pub proof fn law_red_blue_muxes_as_color_code<S>(left: Image<S>, right: Image<S>)
    ensures
        muxed(left, right, AnaglyphFormat::RedBlue) == muxed(left, right, AnaglyphFormat::ColorCode),
{
    assert(muxed(left, right, AnaglyphFormat::RedBlue) =~= muxed(
        left,
        right,
        AnaglyphFormat::ColorCode,
    ));
}

/// Muxing a picture with itself gives the picture back.
pub proof fn law_muxing_a_flat_pair_is_identity<S>(eye: Image<S>, format: AnaglyphFormat)
    requires
        eye.wf(),
        eye.channels == 3,
    ensures
        muxed(eye, eye, format) == eye,
{
    let out = muxed(eye, eye, format);
    let len = eye.width * eye.height;
    crate::frame::lemma_plane_range(eye, 0);
    crate::frame::lemma_plane_range(eye, 1);
    crate::frame::lemma_plane_range(eye, 2);
    assert(0 * len == 0 && 1 * len == len && 2 * len == len + len && 3 * len == len + len + len);
    assert(out.samples =~= eye.samples);
}

/// `project` looks only at the channels that a projection weighs.
pub open spec fn minds_only_its_channels<S, P: Fn(EyeProjection, S, S, S) -> S>(project: P) -> bool {
    forall|p: EyeProjection, r: S, g: S, b: S, r2: S, g2: S, b2: S, s: S|
        #![trigger call_ensures(project, (p, r, g, b), s), call_ensures(project, (p, r2, g2, b2), s)]
        call_ensures(project, (p, r, g, b), s) && (p.r > 0 ==> r == r2) && (p.g > 0 ==> g == g2) && (
        p.b > 0 ==> b == b2) ==> call_ensures(project, (p, r2, g2, b2), s)
}

/// Extraction undoes muxing: what is read out of a muxed anaglyph for either eye
/// is what would be read out of that eye itself.
pub proof fn law_extraction_undoes_muxing<S, P: Fn(EyeProjection, S, S, S) -> S>(
    project: P,
    left: Image<S>,
    right: Image<S>,
    format: AnaglyphFormat,
    out_left: Image<S>,
    out_right: Image<S>,
)
    requires
        left.wf(),
        right.wf(),
        left.channels == 3,
        right.channels == 3,
        left.same_size(right),
        minds_only_its_channels(project),
        projected(project, filters(format).0, muxed(left, right, format), out_left),
        projected(project, filters(format).1, muxed(left, right, format), out_right),
    ensures
        projected(project, filters(format).0, left, out_left),
        projected(project, filters(format).1, right, out_right),
{
    let image = muxed(left, right, format);
    let (p, q) = filters(format);
    assert forall|i: int| 0 <= i < left.width * left.height implies call_ensures(
        project,
        (p, left.pixel(i).0, left.pixel(i).1, left.pixel(i).2),
        #[trigger] out_left.samples[i],
    ) && call_ensures(
        project,
        (q, right.pixel(i).0, right.pixel(i).1, right.pixel(i).2),
        out_right.samples[i],
    ) by {
        lemma_muxed_pixel(left, right, format, i);
        let (m, l, r) = (image.pixel(i), left.pixel(i), right.pixel(i));
        assert(call_ensures(project, (p, m.0, m.1, m.2), out_left.samples[i]));
        assert(call_ensures(project, (q, m.0, m.1, m.2), out_right.samples[i]));
        assert(call_ensures(project, (p, l.0, l.1, l.2), out_left.samples[i]));
        assert(call_ensures(project, (q, r.0, r.1, r.2), out_right.samples[i]));
    }
    assert(projected(project, q, right, out_right)) by {
        assert forall|i: int| 0 <= i < right.width * right.height implies call_ensures(
            project,
            (q, right.pixel(i).0, right.pixel(i).1, right.pixel(i).2),
            #[trigger] out_right.samples[i],
        ) by {
            assert(out_left.samples[i] == out_left.samples[i]);
        }
    }
}

/// A channel of a muxed pixel is that channel of the eye it comes from.
pub proof fn lemma_muxed_pixel<S>(left: Image<S>, right: Image<S>, format: AnaglyphFormat, i: int)
    requires
        left.wf(),
        right.wf(),
        left.channels == 3,
        right.channels == 3,
        left.same_size(right),
        0 <= i < left.width * left.height,
    ensures
        ({
            let (m, l, r) = (
                muxed(left, right, format).pixel(i),
                left.pixel(i),
                right.pixel(i),
            );
            &&& m.0 == (if from_left(format, 0) { l.0 } else { r.0 })
            &&& m.1 == (if from_left(format, 1) { l.1 } else { r.1 })
            &&& m.2 == (if from_left(format, 2) { l.2 } else { r.2 })
        }),
{
    let image = muxed(left, right, format);
    let len = left.width * left.height;
    lemma_muxed_plane(left, right, format, 0);
    lemma_muxed_plane(left, right, format, 1);
    lemma_muxed_plane(left, right, format, 2);
    lemma_pixel_planes(image, i);
    lemma_pixel_planes(left, i);
    lemma_pixel_planes(right, i);
}

/// A pixel's samples are those of the three planes.
pub proof fn lemma_pixel_planes<S>(image: Image<S>, i: int)
    requires
        image.wf(),
        image.channels == 3,
        0 <= i < image.width * image.height,
    ensures
        image.pixel(i) == (image.plane(0)[i], image.plane(1)[i], image.plane(2)[i]),
{
    let len = image.width * image.height;
    assert(0 * len == 0 && 1 * len == len && 2 * len == len + len && 3 * len == len + len + len);
}

/// Extraction undoes muxing, filter by filter: what is extracted from an encoded pair
/// is what each filter passes of its own eye, where a channel of no weight counts for
/// nothing.
pub proof fn law_encoding_then_extracting_returns_each_signal<
    S,
    W: Fn(u32, u64) -> S,
    T: Fn(S, S) -> S,
    A: Fn(S, S) -> S,
>(
    math: &ProjectMath<W, T, A>,
    left: Image<S>,
    right: Image<S>,
    format: AnaglyphFormat,
    out_left: Image<S>,
    out_right: Image<S>,
)
    requires
        left.wf() && right.wf(),
        left.channels == 3 && right.channels == 3,
        left.same_size(right),
        forall|total: int, a: S, b: S, o: S|
            #![trigger channel_weighed(math, 0, total, a, o), channel_weighed(math, 0, total, b, o)]
            channel_weighed(math, 0, total, a, o) ==> channel_weighed(math, 0, total, b, o),
        passed_by(math, filters(format).0, muxed(left, right, format), out_left),
        passed_by(math, filters(format).1, muxed(left, right, format), out_right),
    ensures
        passed_by(math, filters(format).0, left, out_left),
        passed_by(math, filters(format).1, right, out_right),
{
    let mix = muxed(left, right, format);
    let (p, q) = filters(format);
    assert forall|i: int| 0 <= i < left.width * left.height implies weighed(
        math,
        p,
        left.pixel(i).0,
        left.pixel(i).1,
        left.pixel(i).2,
        #[trigger] out_left.samples[i],
    ) by {
        lemma_muxed_pixel(left, right, format, i);
        lemma_weighed_alike(math, p, mix.pixel(i), left.pixel(i), out_left.samples[i]);
    }
    assert forall|i: int| 0 <= i < right.width * right.height implies weighed(
        math,
        q,
        right.pixel(i).0,
        right.pixel(i).1,
        right.pixel(i).2,
        #[trigger] out_right.samples[i],
    ) by {
        lemma_muxed_pixel(left, right, format, i);
        lemma_weighed_alike(math, q, mix.pixel(i), right.pixel(i), out_right.samples[i]);
    }
}

/// Two pixels that agree in every channel of any weight pass alike.
proof fn lemma_weighed_alike<S, W: Fn(u32, u64) -> S, T: Fn(S, S) -> S, A: Fn(S, S) -> S>(
    math: &ProjectMath<W, T, A>,
    p: EyeProjection,
    a: (S, S, S),
    b: (S, S, S),
    s: S,
)
    requires
        forall|total: int, a: S, b: S, o: S|
            #![trigger channel_weighed(math, 0, total, a, o), channel_weighed(math, 0, total, b, o)]
            channel_weighed(math, 0, total, a, o) ==> channel_weighed(math, 0, total, b, o),
        p.r > 0 ==> a.0 == b.0,
        p.g > 0 ==> a.1 == b.1,
        p.b > 0 ==> a.2 == b.2,
        weighed(math, p, a.0, a.1, a.2, s),
    ensures
        weighed(math, p, b.0, b.1, b.2, s),
{
    let (x, y, z, xy) = choose|x: S, y: S, z: S, xy: S|
        channel_weighed(math, p.r, p.total(), a.0, x) && channel_weighed(math, p.g, p.total(), a.1, y)
            && channel_weighed(math, p.b, p.total(), a.2, z) && #[trigger] call_ensures(
            math.plus,
            (x, y),
            xy,
        ) && #[trigger] call_ensures(math.plus, (xy, z), s);
    assert(channel_weighed(math, p.r, p.total(), b.0, x));
    assert(channel_weighed(math, p.g, p.total(), b.1, y));
    assert(channel_weighed(math, p.b, p.total(), b.2, z));
}

/// What each filter passes, in ten-thousandths of white's luminance: red all of red for
/// the left eye and green for the right; green for the left and magenta, red and blue as
/// bright as they are, for the right; red and blue; amber, red and green as bright as
/// they are, and blue.
pub proof fn law_filters_pass_their_own_colours(
    format: AnaglyphFormat,
    r: (EyeProjection, EyeProjection),
)
    requires
        call_ensures(projections, (format,), r),
    ensures
        format == AnaglyphFormat::RedCyan ==> r == (
            EyeProjection { r: 10000, g: 0, b: 0 },
            EyeProjection { r: 0, g: 10000, b: 0 },
        ),
        format == AnaglyphFormat::GreenMagenta ==> r == (
            EyeProjection { r: 0, g: 10000, b: 0 },
            EyeProjection { r: 2126, g: 0, b: 722 },
        ),
        format == AnaglyphFormat::RedBlue ==> r == (
            EyeProjection { r: 10000, g: 0, b: 0 },
            EyeProjection { r: 0, g: 0, b: 10000 },
        ),
        format == AnaglyphFormat::ColorCode ==> r == (
            EyeProjection { r: 2126, g: 7152, b: 0 },
            EyeProjection { r: 0, g: 0, b: 10000 },
        ),
        filters(format) == r,
{
}

/// A filter passes the sum of the three channels, each times its own share of the
/// filter's parts.
pub proof fn law_a_filter_weighs_each_channel<
    S: Copy,
    W: Fn(u32, u64) -> S,
    T: Fn(S, S) -> S,
    A: Fn(S, S) -> S,
>(p: &EyeProjection, r: S, g: S, b: S, math: &ProjectMath<W, T, A>, out: S)
    requires
        call_ensures(EyeProjection::apply::<S, W, T, A>, (p, r, g, b, math), out),
    ensures
        exists|shares: (S, S, S), parts: (S, S, S), two: S|
            #![trigger call_ensures(math.times, (shares.0, r), parts.0), call_ensures(math.times, (shares.1, g), parts.1), call_ensures(math.times, (shares.2, b), parts.2), call_ensures(math.plus, (parts.0, parts.1), two)]
            {
                &&& call_ensures(math.weight, (p.r, (p.r + p.g + p.b) as u64), shares.0)
                &&& call_ensures(math.weight, (p.g, (p.r + p.g + p.b) as u64), shares.1)
                &&& call_ensures(math.weight, (p.b, (p.r + p.g + p.b) as u64), shares.2)
                &&& call_ensures(math.times, (shares.0, r), parts.0)
                &&& call_ensures(math.times, (shares.1, g), parts.1)
                &&& call_ensures(math.times, (shares.2, b), parts.2)
                &&& call_ensures(math.plus, (parts.0, parts.1), two)
                &&& call_ensures(math.plus, (two, parts.2), out)
            },
{
    let total = p.total();
    let (x, y, z, xy) = choose|x: S, y: S, z: S, xy: S|
        channel_weighed(math, p.r, total, r, x) && channel_weighed(math, p.g, total, g, y)
            && channel_weighed(math, p.b, total, b, z) && #[trigger] call_ensures(
            math.plus,
            (x, y),
            xy,
        ) && #[trigger] call_ensures(math.plus, (xy, z), out);
    let a = choose|a: S| #[trigger]
        call_ensures(math.weight, (p.r, total as u64), a) && call_ensures(math.times, (a, r), x);
    let k = choose|k: S| #[trigger]
        call_ensures(math.weight, (p.g, total as u64), k) && call_ensures(math.times, (k, g), y);
    let e = choose|e: S| #[trigger]
        call_ensures(math.weight, (p.b, total as u64), e) && call_ensures(math.times, (e, b), z);
    let shares = (a, k, e);
    let parts = (x, y, z);
    assert(call_ensures(math.times, (shares.0, r), parts.0));
    assert(call_ensures(math.times, (shares.1, g), parts.1));
    assert(call_ensures(math.times, (shares.2, b), parts.2));
    assert(call_ensures(math.plus, (parts.0, parts.1), xy));
}

/// Luminance is what a filter of the Rec.709 weights passes.
pub proof fn law_luminance_is_rec_709<
    S: Copy,
    W: Fn(u32, u64) -> S,
    T: Fn(S, S) -> S,
    A: Fn(S, S) -> S,
>(r: S, g: S, b: S, math: &ProjectMath<W, T, A>, out: S)
    requires
        call_ensures(luminance::<S, W, T, A>, (r, g, b, math), out),
    ensures
        weighed(math, (EyeProjection { r: 2126, g: 7152, b: 722 }), r, g, b, out),
        LUMA_R + LUMA_G + LUMA_B == 10000,
{
}

/// Extraction gives the left eye's signal first, each sample what that eye's filter
/// passes of the pixel in the same place.
pub proof fn law_each_eye_is_read_through_its_own_filter<
    S: Copy + Send + Sync,
    W: Fn(u32, u64) -> S + Sync + Send,
    T: Fn(S, S) -> S + Sync + Send,
    A: Fn(S, S) -> S + Sync + Send,
>(
    anaglyph: &FrameF32<S>,
    format: AnaglyphFormat,
    math: &ProjectMath<W, T, A>,
    eyes: (FrameF32<S>, FrameF32<S>),
    seen: (EyeProjection, EyeProjection),
    y: int,
    x: int,
)
    requires
        anaglyph@.wf(),
        anaglyph@.channels == 3,
        call_ensures(projections, (format,), seen),
        call_ensures(extract_eyes::<S, W, T, A>, (anaglyph, format, math), eyes),
        0 <= y < anaglyph@.height,
        0 <= x < anaglyph@.width,
    ensures
        eyes.0@.channels == 1 && eyes.1@.channels == 1,
        eyes.0@.same_size(anaglyph@) && eyes.1@.same_size(anaglyph@),
        weighed(
            math,
            seen.0,
            anaglyph@.at(0, y, x),
            anaglyph@.at(1, y, x),
            anaglyph@.at(2, y, x),
            eyes.0@.at(0, y, x),
        ),
        weighed(
            math,
            seen.1,
            anaglyph@.at(0, y, x),
            anaglyph@.at(1, y, x),
            anaglyph@.at(2, y, x),
            eyes.1@.at(0, y, x),
        ),
{
    law_samples_lie_plane_by_plane(anaglyph@, 0, y, x);
    law_samples_lie_plane_by_plane(eyes.0@, 0, y, x);
    law_samples_lie_plane_by_plane(eyes.1@, 0, y, x);
    let i = y * anaglyph@.width + x;
    assert(0 * (anaglyph@.width * anaglyph@.height) == 0);
    assert(eyes.0@.at(0, y, x) == eyes.0@.samples[i]);
    assert(eyes.1@.at(0, y, x) == eyes.1@.samples[i]);
}

/// An anaglyph takes each channel from one eye, in place: red from the left and the rest
/// from the right; green from the left and the rest from the right; or red and green
/// from the left and blue from the right.
pub proof fn law_an_anaglyph_takes_each_channel_from_one_eye<S: Copy>(
    left: &FrameF32<S>,
    right: &FrameF32<S>,
    format: AnaglyphFormat,
    out: FrameF32<S>,
    y: int,
    x: int,
)
    requires
        left@.wf() && right@.wf(),
        left@.channels == 3 && right@.channels == 3,
        left@.same_size(right@),
        call_ensures(encode_anaglyph::<S>, (left, right, format), out),
        0 <= y < left@.height,
        0 <= x < left@.width,
    ensures
        out@.same_size(left@) && out@.channels == 3,
        format == AnaglyphFormat::RedCyan ==> (out@.at(0, y, x), out@.at(1, y, x), out@.at(2, y, x)) == (
            left@.at(0, y, x),
            right@.at(1, y, x),
            right@.at(2, y, x),
        ),
        format == AnaglyphFormat::GreenMagenta ==> (out@.at(0, y, x), out@.at(1, y, x), out@.at(2, y, x))
            == (right@.at(0, y, x), left@.at(1, y, x), right@.at(2, y, x)),
        format == AnaglyphFormat::RedBlue ==> (out@.at(0, y, x), out@.at(1, y, x), out@.at(2, y, x)) == (
            left@.at(0, y, x),
            left@.at(1, y, x),
            right@.at(2, y, x),
        ),
        format == AnaglyphFormat::ColorCode ==> (out@.at(0, y, x), out@.at(1, y, x), out@.at(2, y, x))
            == (left@.at(0, y, x), left@.at(1, y, x), right@.at(2, y, x)),
{
    lemma_muxed_plane(left@, right@, format, 0);
    law_samples_lie_plane_by_plane(left@, 0, y, x);
    law_samples_lie_plane_by_plane(right@, 0, y, x);
    law_samples_lie_plane_by_plane(out@, 0, y, x);
    lemma_muxed_pixel(left@, right@, format, y * left@.width + x);
}

/// Each encoding goes by its own name.
pub proof fn law_encodings_are_told_apart(
    a: AnaglyphFormat,
    b: AnaglyphFormat,
    x: &'static str,
    y: &'static str,
)
    requires
        call_ensures(AnaglyphFormat::label, (a,), x),
        call_ensures(AnaglyphFormat::label, (b,), y),
        a != b,
    ensures
        x@ != y@,
        a == AnaglyphFormat::RedCyan ==> x@ == "Red / cyan"@,
        a == AnaglyphFormat::GreenMagenta ==> x@ == "Green / magenta"@,
        a == AnaglyphFormat::RedBlue ==> x@ == "Red / blue"@,
        a == AnaglyphFormat::ColorCode ==> x@ == "ColorCode (amber / blue)"@,
{
    reveal_strlit("Red / cyan");
    reveal_strlit("Green / magenta");
    reveal_strlit("Red / blue");
    reveal_strlit("ColorCode (amber / blue)");
    assert("Red / cyan"@.len() == 10 && "Green / magenta"@.len() == 15);
    assert("Red / blue"@.len() == 10 && "ColorCode (amber / blue)"@.len() == 24);
    assert("Red / cyan"@[6] == 'c' && "Red / blue"@[6] == 'b');
}

/// The parts of a filter are added up over all three channels, and an encoding is called
/// by the colours of its two filters.
pub proof fn law_parts_add_up_and_encodings_have_names(
    projection: &EyeProjection,
    sum: u64,
    format: AnaglyphFormat,
    name: &'static str,
)
    requires
        call_ensures(EyeProjection::weight_sum, (projection,), sum),
        call_ensures(crate::choices::format_name, (format,), name),
    ensures
        sum == projection.r + projection.g + projection.b,
        format == AnaglyphFormat::RedCyan ==> name@ == "Red / cyan"@,
        format == AnaglyphFormat::GreenMagenta ==> name@ == "Green / magenta"@,
        format == AnaglyphFormat::RedBlue ==> name@ == "Red / blue"@,
        format == AnaglyphFormat::ColorCode ==> name@ == "ColorCode (amber / blue)"@,
{
}

/// Every encoding is offered, the most common first.
pub proof fn law_every_encoding_is_offered(format: AnaglyphFormat)
    ensures
        AnaglyphFormat::ALL@[0] == AnaglyphFormat::RedCyan,
        AnaglyphFormat::ALL@[1] == AnaglyphFormat::GreenMagenta,
        AnaglyphFormat::ALL@[2] == AnaglyphFormat::RedBlue,
        AnaglyphFormat::ALL@[3] == AnaglyphFormat::ColorCode,
        AnaglyphFormat::ALL@.len() == 4,
        AnaglyphFormat::ALL@.contains(format),
{
    let all = AnaglyphFormat::ALL@;
    assert(all[0] == AnaglyphFormat::RedCyan);
    assert(all[1] == AnaglyphFormat::GreenMagenta);
    assert(all[2] == AnaglyphFormat::RedBlue);
    assert(all[3] == AnaglyphFormat::ColorCode);
}

} // verus!
