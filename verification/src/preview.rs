//! Keeping the preview both fast and honest.
//!
//! Two problems, neither of them about drawing. Decoding a frame costs an
//! ffmpeg launch, so it must not happen every time a slider moves; and a
//! preview shown at reduced resolution must display the *same* conversion the
//! full render will produce, or the tuning it enables is worthless.

use crate::blur::{shrink_used, spreads_percent};
use crate::compose::{resizable, stretched, stretches};
use crate::frame::{FrameF32, Image};
use crate::params::ConvertParams;
use crate::pipeline::{strengths_of, StrengthMath, Strengths};
use crate::scalar::{
    float, lemma_constants, lemma_magnitude_order, unit32, unsigned32, F32, HUNDRED, ONE, TENTH,
    THIRTY_TWO,
};
use vstd::prelude::*;

verus! {

/// What has to be recomputed before the preview is correct again.
#[derive(Debug, Clone, Copy, PartialEq, Eq, Structural)]
pub enum PreviewWork {
    /// The cached image is current.
    Nothing,
    /// The decoded frame still applies; only the conversion must be redone.
    Reprocess,
    /// A different frame is wanted, so it must be decoded first.
    DecodeAndProcess,
}

/// Tracks what the preview already holds, so a slider drag never triggers a
/// decode and a scrub never skips one.
#[derive(Debug)]
pub struct PreviewCache {
    decoded_frame: Option<u64>,
    processed: Option<(u64, ConvertParams)>,
}

/// What a cache holds.
pub struct CacheView {
    pub decoded: Option<u64>,
    pub processed: Option<(u64, ConvertParams)>,
}

impl View for PreviewCache {
    type V = CacheView;

    closed spec fn view(&self) -> CacheView {
        CacheView { decoded: self.decoded_frame, processed: self.processed }
    }
}

impl CacheView {
    /// What must happen to show a frame under some settings.
    pub open spec fn work(self, frame: u64, params: ConvertParams) -> PreviewWork {
        if self.decoded != Some(frame) {
            PreviewWork::DecodeAndProcess
        } else {
            match self.processed {
                Some((done, under)) => if done == frame && under.equals(params) {
                    PreviewWork::Nothing
                } else {
                    PreviewWork::Reprocess
                },
                None => PreviewWork::Reprocess,
            }
        }
    }

    /// The cache once a frame has been decoded. A new frame invalidates whatever
    /// was converted from the old one.
    pub open spec fn with_decode(self, frame: u64) -> CacheView {
        CacheView { decoded: Some(frame), processed: None }
    }

    /// The cache once a frame has been converted.
    pub open spec fn with_process(self, frame: u64, params: ConvertParams) -> CacheView {
        CacheView { processed: Some((frame, params)), ..self }
    }
}

/// The cache that holds nothing.
pub open spec fn empty_cache() -> CacheView {
    CacheView { decoded: None, processed: None }
}

impl Default for PreviewCache {
    fn default() -> (r: Self)
        ensures
            r@ == empty_cache(),
    {
        PreviewCache { decoded_frame: None, processed: None }
    }
}

impl PreviewCache {
    pub fn new() -> (r: Self)
        ensures
            r@ == empty_cache(),
    {
        PreviewCache { decoded_frame: None, processed: None }
    }

    /// What must happen to show `frame` under `params`.
    pub fn work_for(&self, frame: u64, params: &ConvertParams) -> (r: PreviewWork)
        ensures
            r == self@.work(frame, *params),
    {
        match self.decoded_frame {
            Some(decoded) => {
                if decoded != frame {
                    return PreviewWork::DecodeAndProcess;
                }
            },
            None => return PreviewWork::DecodeAndProcess,
        }
        match &self.processed {
            Some((done_frame, done_params)) => if *done_frame == frame && *done_params == *params {
                PreviewWork::Nothing
            } else {
                PreviewWork::Reprocess
            },
            None => PreviewWork::Reprocess,
        }
    }

    /// Records that `frame` has been decoded and is in hand.
    pub fn record_decode(&mut self, frame: u64)
        ensures
            final(self)@ == old(self)@.with_decode(frame),
    {
        self.decoded_frame = Some(frame);
        self.processed = None;
    }

    /// Records that `frame` has been converted under `params`.
    pub fn record_process(&mut self, frame: u64, params: &ConvertParams)
        ensures
            final(self)@ == old(self)@.with_process(frame, *params),
    {
        self.processed = Some((frame, *params));
    }

    /// Drops everything, for when the source files change underneath us.
    pub fn invalidate(&mut self)
        ensures
            final(self)@ == empty_cache(),
    {
        self.decoded_frame = None;
        self.processed = None;
    }
}

/// Once a frame has been decoded and converted under settings without a NaN among
/// them, nothing is needed to show it again; another frame has to be decoded, and
/// other settings only have to be converted under.
pub proof fn law_only_what_changed_is_redone(
    cache: CacheView,
    frame: u64,
    params: ConvertParams,
    other_frame: u64,
    other: ConvertParams,
)
    requires
        params.equals(params),
        other_frame != frame,
        !params.equals(other),
    ensures
        ({
            let held = cache.with_decode(frame).with_process(frame, params);
            &&& held.work(frame, params) == PreviewWork::Nothing
            &&& held.work(frame, other) == PreviewWork::Reprocess
            &&& held.work(other_frame, params) == PreviewWork::DecodeAndProcess
        }),
{
}

/// Dropping everything forces a decode, whatever is to be shown.
pub proof fn law_invalidating_forces_a_decode(frame: u64, params: ConvertParams)
    ensures
        empty_cache().work(frame, params) == PreviewWork::DecodeAndProcess,
{
}

/// 0.01, to the nearest float: a preview counts as no smaller than this.
pub const SMALLEST: u32 = 0x3C23_D70A;

/// The scale that counts: from a hundredth up to 1.
pub open spec fn scale_used(scale: F32) -> F32 {
    scale.clamped(float(SMALLEST), float(ONE))
}

/// `out` is a shrink percentage at a scale: turned into a factor, eased, and turned
/// back, within the range of percentages before and after.
pub open spec fn percent_eased<D: Fn(F32) -> F32, H: Fn(F32, F32) -> F32>(
    factor: D,
    ease: H,
    percent: F32,
    scale: F32,
    out: F32,
) -> bool {
    exists|f: F32, g: F32, p: F32|
        call_ensures(factor, (percent.clamped(float(TENTH), float(HUNDRED)),), f)
            && #[trigger] call_ensures(ease, (f, scale_used(scale)), g) && #[trigger] call_ensures(
            factor,
            (g,),
            p,
        ) && out == p.clamped(float(TENTH), float(HUNDRED))
}

/// `out` is a shrink factor at a scale: eased, within the range of factors before and
/// after.
pub open spec fn shrink_eased<H: Fn(F32, F32) -> F32>(
    ease: H,
    shrink: F32,
    scale: F32,
    out: F32,
) -> bool {
    exists|g: F32| #[trigger]
        call_ensures(ease, (shrink_used(shrink), scale_used(scale)), g) && out == g.clamped(
            float(ONE),
            float(THIRTY_TWO),
        )
}

/// The settings of a preview: those of the render, with the blurs rescaled.
pub open spec fn rescaled<D: Fn(F32) -> F32, H: Fn(F32, F32) -> F32>(
    factor: D,
    ease: H,
    params: ConvertParams,
    scale: F32,
    out: ConvertParams,
) -> bool {
    &&& percent_eased(factor, ease, params.decimate_horiz, scale, out.decimate_horiz)
    &&& percent_eased(factor, ease, params.decimate_vert, scale, out.decimate_vert)
    &&& shrink_eased(ease, params.defringe_left, scale, out.defringe_left)
    &&& shrink_eased(ease, params.defringe_right, scale, out.defringe_right)
    &&& out == (ConvertParams {
        decimate_horiz: out.decimate_horiz,
        decimate_vert: out.decimate_vert,
        defringe_left: out.defringe_left,
        defringe_right: out.defringe_right,
        ..params
    })
}

/// Rewrites the blur settings so a preview rendered at `scale` shows the same
/// blur *relative to the frame* as the full-size render.
///
/// Both blur controls are pixel radii, not fractions of frame width. Previewing
/// a half-size frame with the settings meant for full size would show half the
/// blur, and every value dialled in against it would be wrong. `scale` is the
/// preview's width divided by the source's; `factor` is 100 over a percentage, or over
/// a factor, and `ease` brings a factor nearer to 1 by a scale.
pub fn scale_params_for_preview<D: Fn(F32) -> F32, H: Fn(F32, F32) -> F32>(
    params: &ConvertParams,
    scale: F32,
    factor: &D,
    ease: &H,
) -> (out: ConvertParams)
    requires
        forall|v: F32| #[trigger] call_requires(*factor, (v,)),
        forall|v: F32, s: F32| #[trigger] call_requires(*ease, (v, s)),
    ensures
        rescaled(*factor, *ease, *params, scale, out),
{
    ConvertParams {
        decimate_horiz: ease_percent(params.decimate_horiz, scale, factor, ease),
        decimate_vert: ease_percent(params.decimate_vert, scale, factor, ease),
        defringe_left: ease_shrink(params.defringe_left, scale, ease),
        defringe_right: ease_shrink(params.defringe_right, scale, ease),
        ..*params
    }
}

/// A shrink percentage whose sigma is `scale` times that of another.
fn ease_percent<D: Fn(F32) -> F32, H: Fn(F32, F32) -> F32>(
    percent: F32,
    scale: F32,
    factor: &D,
    ease: &H,
) -> (out: F32)
    requires
        forall|v: F32| #[trigger] call_requires(*factor, (v,)),
        forall|v: F32, s: F32| #[trigger] call_requires(*ease, (v, s)),
    ensures
        percent_eased(*factor, *ease, percent, scale, out),
{
    let (least, most) = (F32 { bits: TENTH }, F32 { bits: HUNDRED });
    let used = scale.clamp(F32 { bits: SMALLEST }, F32 { bits: ONE });
    let f = factor(percent.clamp(least, most));
    let g = ease(f, used);
    let p = factor(g);
    assert(call_ensures(*factor, (percent.clamped(float(TENTH), float(HUNDRED)),), f));
    assert(call_ensures(*ease, (f, scale_used(scale)), g));
    p.clamp(least, most)
}

/// The same for a shrink factor.
fn ease_shrink<H: Fn(F32, F32) -> F32>(shrink: F32, scale: F32, ease: &H) -> (out: F32)
    requires
        forall|v: F32, s: F32| #[trigger] call_requires(*ease, (v, s)),
    ensures
        shrink_eased(*ease, shrink, scale, out),
{
    let one = F32 { bits: ONE };
    let used = scale.clamp(F32 { bits: SMALLEST }, one);
    let f = if one.le(shrink) {
        shrink
    } else {
        one
    };
    let g = ease(f, used);
    assert(call_ensures(*ease, (shrink_used(shrink), scale_used(scale)), g));
    g.clamp(one, F32 { bits: THIRTY_TWO })
}

/// 0.999: from this scale on a preview is drawn at full size.
pub const FULL_SIZE: u32 = 0x3F7F_BE77;

/// The even number at or below `n`, and at least 2.
pub open spec fn evened(n: nat) -> nat {
    let even = (n - n % 2) as nat;
    if even < 2 {
        2
    } else {
        even
    }
}

/// The even number at or below `n`, and at least 2.
pub fn even(n: usize) -> (r: usize)
    ensures
        r == evened(n as nat),
        r % 2 == 0,
        r >= 2,
{
    let even: usize = n - n % 2;
    if even < 2 {
        2
    } else {
        even
    }
}

/// `out` is `image` at a preview's scale.
pub open spec fn downscaled<
    S,
    N: Fn(usize, F32) -> usize,
    V: Fn(&FrameF32<S>, usize, usize) -> FrameF32<S>,
>(round: N, stretch: V, image: Image<S>, scale: F32, out: Image<S>) -> bool {
    if float(FULL_SIZE).at_most(scale) {
        out == image
    } else {
        shrunk(round, stretch, image, scale, out)
    }
}

/// `out` is `image` at a smaller even size.
pub open spec fn shrunk<
    S,
    N: Fn(usize, F32) -> usize,
    V: Fn(&FrameF32<S>, usize, usize) -> FrameF32<S>,
>(round: N, stretch: V, image: Image<S>, scale: F32, out: Image<S>) -> bool {
    exists|w: usize, h: usize| #[trigger]
        call_ensures(round, (image.width as usize, scale), w) && #[trigger] call_ensures(
            round,
            (image.height as usize, scale),
            h,
        ) && (if image.width == evened(w as nat) && image.height == evened(h as nat) {
            out == image
        } else {
            stretched(stretch, image, evened(w as nat) as usize, evened(h as nat) as usize, out)
        })
}

/// Shrinks a frame for the preview, skipping the work at full size.
///
/// Always to an even size. A packed source is split down the middle, and an odd
/// frame has no middle: the preview would drop a different seam column than the
/// render does, and the two would quietly disagree. `round` says how many pixels
/// are left of so many.
pub fn downscale<
    S: Copy,
    N: Fn(usize, F32) -> usize,
    V: Fn(&FrameF32<S>, usize, usize) -> FrameF32<S>,
>(frame: &FrameF32<S>, scale: F32, round: &N, stretch: &V) -> (out: FrameF32<S>)
    requires
        frame@.wf(),
        frame@.width > 0,
        frame@.height > 0,
        stretches(stretch),
        forall|n: usize, s: F32| #[trigger] call_requires(*round, (n, s)),
        forall|n: usize, s: F32, r: usize| #[trigger] call_ensures(*round, (n, s), r) ==> r <= n,
        (frame@.width + 2) * (frame@.height + 2) * frame@.channels <= usize::MAX,
    ensures
        downscaled(*round, *stretch, frame@, scale, out@),
        out@.wf(),
        out@.channels == frame@.channels,
        !float(FULL_SIZE).at_most(scale) ==> out@.width % 2 == 0 && out@.height % 2 == 0
            && out@.width >= 2 && out@.height >= 2,
        0 < out@.width && (out@.width <= frame@.width || out@.width == 2),
        0 < out@.height && (out@.height <= frame@.height || out@.height == 2),
{
    if (F32 { bits: FULL_SIZE }).le(scale) {
        return frame.clone();
    }
    let w: usize = round(frame.width(), scale);
    let h: usize = round(frame.height(), scale);
    let (even_w, even_h) = (even(w), even(h));
    assert(call_ensures(*round, (frame@.width as usize, scale), w));
    assert(call_ensures(*round, (frame@.height as usize, scale), h));
    if frame.width() == even_w && frame.height() == even_h {
        return frame.clone();
    }
    proof {
        let (fw, fh, c) = (frame@.width as int, frame@.height as int, frame@.channels as int);
        assert(even_w * fh * c <= (fw + 2) * (fh + 2) * c) by (nonlinear_arith)
            requires
                0 <= even_w <= fw + 2,
                0 <= fh,
                0 <= c,
        ;
        assert(even_w * even_h * c <= (fw + 2) * (fh + 2) * c) by (nonlinear_arith)
            requires
                0 <= even_w <= fw + 2,
                0 <= even_h <= fh + 2,
                0 <= c,
        ;
        assert(resizable(frame@, even_w as int, even_h as int));
    }
    let out = stretch(frame, even_w, even_h);
    assert(call_ensures(*stretch, (frame, even_w, even_h), out));
    assert(stretched(*stretch, frame@, even_w, even_h, out@));
    assert(evened(w as nat) as usize == even_w && evened(h as nat) as usize == even_h);
    out
}

/// Whether the preview is being played.
#[derive(Debug, Clone, Copy, PartialEq, Eq, Structural)]
pub struct Playback {
    pub playing: bool,
}

impl Playback {
    /// The label of the one button.
    pub open spec fn label_text(self) -> Seq<char> {
        if self.playing {
            "Pause"@
        } else {
            "Play"@
        }
    }

    pub fn label(&self) -> (r: &'static str)
        ensures
            r@ == self.label_text(),
    {
        if self.playing {
            "Pause"
        } else {
            "Play"
        }
    }

    /// The button is pressed.
    pub fn toggle(&mut self)
        ensures
            final(self).playing == !old(self).playing,
    {
        self.playing = !self.playing;
    }

    /// One repaint: the frame to show next, of those up to `last`. While playing, a
    /// frame that is due moves the preview on by one; a frame that is not yet due
    /// leaves it, so playback does not outrun the source; and on the last frame
    /// playback stops, rather than looping.
    pub fn advance(&mut self, frame: u64, last: u64, due: bool) -> (next: u64)
        ensures
            !old(self).playing ==> next == frame && !final(self).playing,
            old(self).playing && !due ==> next == frame && final(self).playing,
            old(self).playing && due && frame < last ==> next == frame + 1 && final(self).playing == (
            frame + 1 < last),
            old(self).playing && due && frame >= last ==> next == frame && !final(self).playing,
    {
        if !self.playing || !due {
            return frame;
        }
        if frame >= last {
            self.playing = false;
            return frame;
        }
        if frame + 1 >= last {
            self.playing = false;
        }
        frame + 1
    }
}

/// A percentage has one factor, and it is a factor of at least 1 that is no greater than
/// the smallest percentage asks for.
pub open spec fn factors_closely<D: Fn(F32) -> F32>(factor: D) -> bool {
    &&& forall|p: F32, x: F32, y: F32| #[trigger]
        call_ensures(factor, (p,), x) && #[trigger] call_ensures(factor, (p,), y) ==> x == y
    &&& forall|p: F32, f: F32| #[trigger]
        call_ensures(factor, (p,), f) && float(TENTH).at_most(p) && p.at_most(float(HUNDRED))
            ==> usable(f)
}

/// A factor that a percentage can ask for.
pub open spec fn usable(f: F32) -> bool {
    float(ONE).at_most(f) && f.value() <= 1000 * unit32()
}

/// A factor turned into a percentage and back is the factor, to within a thousandth.
pub open spec fn returns_closely<D: Fn(F32) -> F32>(factor: D) -> bool {
    forall|g: F32, p: F32, f: F32| #[trigger]
        call_ensures(factor, (g,), p) && usable(g) && #[trigger] call_ensures(
            factor,
            (p.clamped(float(TENTH), float(HUNDRED)),),
            f,
        ) ==> !p.nan() && -unit32() <= 1000 * (f.value() - g.value()) <= unit32()
}

/// A factor is eased to between 1 and itself, and to within a thousandth of where its
/// distance from 1, times the scale, puts it.
pub open spec fn eases_closely<H: Fn(F32, F32) -> F32>(ease: H, scale: F32) -> bool {
    forall|f: F32, g: F32| #[trigger]
        call_ensures(ease, (f, scale), g) && usable(f) ==> float(ONE).at_most(g) && g.at_most(f)
            && -(unit32() * unit32()) <= 1000 * (g.value() * unit32() - unit32() * unit32() - (
        f.value() - unit32()) * scale.value()) <= unit32() * unit32()
}

/// The sigma of a factor is half its distance from 1, to within a thousandth of it.
pub open spec fn spreads_closely<S: Fn(F32) -> F32>(spread: S) -> bool {
    forall|f: F32, sigma: F32| #[trigger]
        call_ensures(spread, (f,), sigma) && usable(f) ==> -unit32() <= 1000 * (2 * sigma.value() - (
        f.value() - unit32())) <= unit32()
}

/// `small` is `scale` times `sigma`, to within two thousandths of a pixel.
pub open spec fn blurs_to_scale(sigma: F32, scale: F32, small: F32) -> bool {
    -2 * (unit32() * unit32()) <= 1000 * (small.value() * unit32() - sigma.value() * scale.value())
        <= 2 * (unit32() * unit32())
}

/// A preview shows the same blur relative to the frame as the full-size render: each of
/// its four sigmas is the scale times that of the render, and a de-fringe of exactly 1
/// stays 1. Its settings are valid where those of the render are.
pub proof fn law_a_preview_blurs_to_scale<
    I: Fn(F32) -> F32,
    D: Fn(F32) -> F32,
    O: Fn(F32) -> F32,
    H: Fn(F32, F32) -> F32,
>(
    by: &StrengthMath<I, D, O>,
    ease: H,
    params: ConvertParams,
    scale: F32,
    out: ConvertParams,
    full: Strengths,
    small: Strengths,
)
    requires
        params.fault() is None,
        !scale.nan(),
        factors_closely(by.factor),
        returns_closely(by.factor),
        eases_closely(ease, scale_used(scale)),
        spreads_closely(by.spread),
        rescaled(by.factor, ease, params, scale, out),
        strengths_of(by, params, full),
        strengths_of(by, out, small),
    ensures
        out.fault() is None,
        blurs_to_scale(full.colour_x, scale_used(scale), small.colour_x),
        blurs_to_scale(full.colour_y, scale_used(scale), small.colour_y),
        blurs_to_scale(full.defringe_left, scale_used(scale), small.defringe_left),
        blurs_to_scale(full.defringe_right, scale_used(scale), small.defringe_right),
        params.defringe_left.equals(float(ONE)) ==> out.defringe_left.equals(float(ONE)),
        params.defringe_right.equals(float(ONE)) ==> out.defringe_right.equals(float(ONE)),
{
    lemma_percent_to_scale(
        by.factor,
        ease,
        by.spread,
        params.decimate_horiz,
        scale,
        out.decimate_horiz,
        full.colour_x,
        small.colour_x,
    );
    lemma_percent_to_scale(
        by.factor,
        ease,
        by.spread,
        params.decimate_vert,
        scale,
        out.decimate_vert,
        full.colour_y,
        small.colour_y,
    );
    lemma_shrink_to_scale(
        ease,
        by.spread,
        params.defringe_left,
        scale,
        out.defringe_left,
        full.defringe_left,
        small.defringe_left,
    );
    lemma_shrink_to_scale(
        ease,
        by.spread,
        params.defringe_right,
        scale,
        out.defringe_right,
        full.defringe_right,
        small.defringe_right,
    );
}

/// A scale that counts is from 0 up to 1.
proof fn lemma_scale_used(scale: F32)
    requires
        !scale.nan(),
    ensures
        0 <= scale_used(scale).value() <= unit32(),
{
    lemma_constants();
    lemma_magnitude_order(unsigned32(SMALLEST), unsigned32(ONE));
    lemma_magnitude_order(unsigned32(scale.bits), unsigned32(ONE));
}

/// A number between two settings is finite.
proof fn lemma_between_is_finite(x: F32, max: u32)
    requires
        max == HUNDRED || max == THIRTY_TWO,
        !x.nan(),
        0 <= x.value() <= float(max).value(),
    ensures
        x.finite(),
{
    lemma_magnitude_order(unsigned32(max), unsigned32(x.bits));
    lemma_magnitude_order(unsigned32(x.bits), unsigned32(x.bits));
    lemma_constants();
}

/// One sigma of a percentage, at a scale.
proof fn lemma_percent_to_scale<D: Fn(F32) -> F32, H: Fn(F32, F32) -> F32, S: Fn(F32) -> F32>(
    factor: D,
    ease: H,
    spread: S,
    percent: F32,
    scale: F32,
    out: F32,
    sigma: F32,
    small: F32,
)
    requires
        percent.finite(),
        float(TENTH).at_most(percent),
        percent.at_most(float(HUNDRED)),
        !scale.nan(),
        factors_closely(factor),
        returns_closely(factor),
        eases_closely(ease, scale_used(scale)),
        spreads_closely(spread),
        percent_eased(factor, ease, percent, scale, out),
        spreads_percent(factor, spread, percent, sigma),
        spreads_percent(factor, spread, out, small),
    ensures
        out.finite(),
        float(TENTH).at_most(out),
        out.at_most(float(HUNDRED)),
        blurs_to_scale(sigma, scale_used(scale), small),
{
    let (least, most) = (float(TENTH), float(HUNDRED));
    let k = scale_used(scale);
    lemma_constants();
    lemma_scale_used(scale);
    let (f, g, p) = choose|f: F32, g: F32, p: F32|
        call_ensures(factor, (percent.clamped(least, most),), f) && #[trigger] call_ensures(
            ease,
            (f, k),
            g,
        ) && #[trigger] call_ensures(factor, (g,), p) && out == p.clamped(least, most);
    let full = choose|full: F32| #[trigger]
        call_ensures(factor, (percent.clamped(least, most),), full) && call_ensures(
            spread,
            (shrink_used(full),),
            sigma,
        );
    assert(full == f && usable(f) && shrink_used(f) == f);
    assert(usable(g));
    let back = choose|back: F32| #[trigger]
        call_ensures(factor, (out.clamped(least, most),), back) && call_ensures(
            spread,
            (shrink_used(back),),
            small,
        );
    assert(least.value() < most.value()) by {
        lemma_magnitude_order(unsigned32(TENTH), unsigned32(HUNDRED));
    }
    assert(out.clamped(least, most) == out);
    assert(!p.nan());
    assert(0 <= out.value()) by {
        lemma_magnitude_order(unsigned32(TENTH), unsigned32(HUNDRED));
    }
    lemma_between_is_finite(out, HUNDRED);
    assert(usable(back) && shrink_used(back) == back);
    lemma_sigma_scales(
        unit32(),
        k.value(),
        f.value(),
        g.value(),
        back.value(),
        sigma.value(),
        small.value(),
    );
}

/// One sigma of a shrink factor, at a scale.
proof fn lemma_shrink_to_scale<H: Fn(F32, F32) -> F32, S: Fn(F32) -> F32>(
    ease: H,
    spread: S,
    shrink: F32,
    scale: F32,
    out: F32,
    sigma: F32,
    small: F32,
)
    requires
        shrink.finite(),
        float(ONE).at_most(shrink),
        shrink.at_most(float(THIRTY_TWO)),
        !scale.nan(),
        eases_closely(ease, scale_used(scale)),
        spreads_closely(spread),
        shrink_eased(ease, shrink, scale, out),
        call_ensures(spread, (shrink_used(shrink),), sigma),
        call_ensures(spread, (shrink_used(out),), small),
    ensures
        out.finite(),
        float(ONE).at_most(out),
        out.at_most(float(THIRTY_TWO)),
        blurs_to_scale(sigma, scale_used(scale), small),
        shrink.equals(float(ONE)) ==> out.equals(float(ONE)),
{
    let k = scale_used(scale);
    lemma_constants();
    lemma_scale_used(scale);
    lemma_magnitude_order(unsigned32(ONE), unsigned32(THIRTY_TWO));
    assert(shrink_used(shrink) == shrink && usable(shrink));
    let g = choose|g: F32| #[trigger]
        call_ensures(ease, (shrink_used(shrink), k), g) && out == g.clamped(
            float(ONE),
            float(THIRTY_TWO),
        );
    assert(float(ONE).at_most(g) && g.at_most(shrink));
    assert(out.value() == g.value() && !out.nan());
    lemma_between_is_finite(out, THIRTY_TWO);
    assert(usable(out) && shrink_used(out) == out);
    lemma_sigma_scales(
        unit32(),
        k.value(),
        shrink.value(),
        g.value(),
        out.value(),
        sigma.value(),
        small.value(),
    );
}

/// The errors of easing a factor stay within two thousandths of a sigma.
proof fn lemma_sigma_scales(u: int, k: int, f: int, g: int, b: int, sigma: int, small: int)
    requires
        0 <= k <= u,
        -u <= 1000 * (b - g) <= u,
        -(u * u) <= 1000 * (g * u - u * u - (f - u) * k) <= u * u,
        -u <= 1000 * (2 * sigma - (f - u)) <= u,
        -u <= 1000 * (2 * small - (b - u)) <= u,
    ensures
        -2 * (u * u) <= 1000 * (small * u - sigma * k) <= 2 * (u * u),
{
    let q = u * u;
    assert(-q <= 1000 * (b * u - g * u) <= q) by (nonlinear_arith)
        requires
            -u <= 1000 * (b - g) <= u,
            0 <= u,
            q == u * u,
    ;
    assert(-q <= 1000 * (2 * (small * u) - (b * u - q)) <= q) by (nonlinear_arith)
        requires
            -u <= 1000 * (2 * small - (b - u)) <= u,
            0 <= u,
            q == u * u,
    ;
    assert(-q <= 1000 * (2 * (sigma * k) - (f - u) * k) <= q) by (nonlinear_arith)
        requires
            -u <= 1000 * (2 * sigma - (f - u)) <= u,
            0 <= k <= u,
            q == u * u,
    ;
}

/// An even size is the size itself or one less, and at least two.
pub proof fn law_an_even_size_is_next_to_the_size(n: usize, r: usize)
    requires
        call_ensures(even, (n,), r),
    ensures
        r % 2 == 0 && r >= 2,
        n >= 2 ==> r == n || r + 1 == n,
        n < 2 ==> r == 2,
{
}

/// What a preview shows is known by what was last done: a decoded frame only has to be
/// converted, a frame converted under the same settings is there, and everything is
/// redone once it was dropped.
pub proof fn law_a_preview_knows_what_it_shows(
    decoding: &mut PreviewCache,
    converting: &mut PreviewCache,
    dropping: &mut PreviewCache,
    cache: &PreviewCache,
    frame: u64,
    params: &ConvertParams,
    asked: u64,
    under: &ConvertParams,
    work: PreviewWork,
)
    requires
        call_ensures(PreviewCache::record_decode, (decoding, frame), ()),
        call_ensures(PreviewCache::record_process, (converting, frame, params), ()),
        call_ensures(PreviewCache::invalidate, (dropping,), ()),
        call_ensures(PreviewCache::work_for, (cache, asked, under), work),
    ensures
        cache@ == final(decoding)@ && asked == frame ==> work == PreviewWork::Reprocess,
        cache@ == final(decoding)@ && asked != frame ==> work == PreviewWork::DecodeAndProcess,
        cache@ == final(converting)@ && old(converting)@.decoded == Some(frame) && asked == frame
            && params.equals(*under) ==> work == PreviewWork::Nothing,
        cache@ == final(converting)@ && old(converting)@.decoded == Some(frame) && asked == frame
            && !params.equals(*under) ==> work == PreviewWork::Reprocess,
        cache@ == final(converting)@ && old(converting)@.decoded == Some(frame) && asked != frame
            ==> work == PreviewWork::DecodeAndProcess,
        cache@ == final(dropping)@ ==> work == PreviewWork::DecodeAndProcess,
{
}

/// A preview's settings are the render's in everything but the four blurs.
pub proof fn law_a_preview_changes_only_the_blurs<D: Fn(F32) -> F32, H: Fn(F32, F32) -> F32>(
    params: &ConvertParams,
    scale: F32,
    factor: &D,
    ease: &H,
    out: ConvertParams,
)
    requires
        call_ensures(scale_params_for_preview::<D, H>, (params, scale, factor, ease), out),
    ensures
        out.input == params.input && out.input_format == params.input_format,
        out.output_format == params.output_format && out.transfer == params.transfer,
        out.work_in_linear_light == params.work_in_linear_light && out.restore == params.restore,
        out.leak_correct_left == params.leak_correct_left,
        out.leak_correct_right == params.leak_correct_right,
        out.grade_left == params.grade_left && out.grade_right == params.grade_right,
        out.mono_eye == params.mono_eye && out.convergence == params.convergence,
        out.anaglyph_trim == params.anaglyph_trim && out.colour_trim == params.colour_trim,
        out.mono_trim == params.mono_trim && out.swap_eyes == params.swap_eyes,
        out.layout == params.layout && out.eye_order == params.eye_order,
        out.output_size == params.output_size,
{
}

/// Each blur of a preview is made of its own setting: two sets of settings that agree in
/// one blur come to the same in that blur, whatever else differs.
pub proof fn law_a_preview_blur_is_of_its_own_setting<D: Fn(F32) -> F32, H: Fn(F32, F32) -> F32>(
    params: &ConvertParams,
    other: &ConvertParams,
    scale: F32,
    factor: &D,
    ease: &H,
    a: ConvertParams,
    b: ConvertParams,
)
    requires
        forall|p: F32, x: F32, y: F32| #[trigger]
            call_ensures(*factor, (p,), x) && #[trigger] call_ensures(*factor, (p,), y) ==> x == y,
        forall|f: F32, s: F32, x: F32, y: F32| #[trigger]
            call_ensures(*ease, (f, s), x) && #[trigger] call_ensures(*ease, (f, s), y) ==> x == y,
        call_ensures(scale_params_for_preview::<D, H>, (params, scale, factor, ease), a),
        call_ensures(scale_params_for_preview::<D, H>, (other, scale, factor, ease), b),
    ensures
        params.decimate_horiz == other.decimate_horiz ==> a.decimate_horiz == b.decimate_horiz,
        params.decimate_vert == other.decimate_vert ==> a.decimate_vert == b.decimate_vert,
        params.defringe_left == other.defringe_left ==> a.defringe_left == b.defringe_left,
        params.defringe_right == other.defringe_right ==> a.defringe_right == b.defringe_right,
{
}

/// A preview is shrunk to what its scale leaves of each side, even, and not at all where
/// the scale is full size: 0.999 or more.
pub proof fn law_a_preview_is_shrunk_to_scale<
    S: Copy,
    N: Fn(usize, F32) -> usize,
    V: Fn(&FrameF32<S>, usize, usize) -> FrameF32<S>,
>(frame: &FrameF32<S>, scale: F32, round: &N, stretch: &V, out: FrameF32<S>)
    requires
        call_ensures(downscale::<S, N, V>, (frame, scale, round, stretch), out),
        stretches(stretch),
        frame@.wf() && frame@.width > 0 && frame@.height > 0,
        frame@.width <= usize::MAX && frame@.height <= usize::MAX,
    ensures
        (F32 { bits: 0x3F7F_BE77 }).at_most(scale) ==> out@ == frame@,
        !(F32 { bits: 0x3F7F_BE77 }).at_most(scale) ==> out@.width % 2 == 0 && out@.height % 2 == 0,
        !(F32 { bits: 0x3F7F_BE77 }).at_most(scale) ==> exists|w: usize, h: usize| #[trigger]
            call_ensures(*round, (frame@.width as usize, scale), w) && #[trigger] call_ensures(
                *round,
                (frame@.height as usize, scale),
                h,
            ) && (frame@.width == evened(w as nat) && frame@.height == evened(h as nat) && out@
                == frame@ || stretched(
                *stretch,
                frame@,
                evened(w as nat) as usize,
                evened(h as nat) as usize,
                out@,
            )),
        float(SMALLEST).bits == 0x3C23_D70A,
{
}

/// The button says what pressing it does: pause while playing, play otherwise, and
/// pressing it changes which.
pub proof fn law_the_button_says_what_it_does(play: &mut Playback, shown: &Playback, name: &'static str)
    requires
        call_ensures(Playback::toggle, (play,), ()),
        call_ensures(Playback::label, (shown,), name),
    ensures
        final(play).playing <==> !old(play).playing,
        shown.playing ==> name@ == "Pause"@,
        !shown.playing ==> name@ == "Play"@,
{
}

/// Playback moves on one frame at a time, only while it is playing and a frame is due, and
/// stops on the last frame rather than going past it.
pub proof fn law_playback_moves_on_and_stops(
    play: &mut Playback,
    frame: u64,
    last: u64,
    due: bool,
    next: u64,
)
    requires
        call_ensures(Playback::advance, (play, frame, last, due), next),
        frame <= last,
    ensures
        next == frame || next == frame + 1,
        next <= last,
        next == frame + 1 <==> old(play).playing && due && frame < last,
        final(play).playing ==> old(play).playing,
        old(play).playing && due && next == last ==> !final(play).playing,
        old(play).playing && !due ==> final(play).playing,
        old(play).playing && next < last ==> final(play).playing,
{
}

} // verus!
