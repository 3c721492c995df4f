//! What the preview pane is showing.
//!
//! Five ways of looking at one recovered pair, each answering a different
//! question: is this eye right, do they line up, does it still read through the
//! glasses, and where exactly is the disparity.

use crate::compose::{beside, stack_horizontal, EyeOrder};
use crate::extract::{encode_anaglyph, muxed, AnaglyphFormat};
use crate::frame::{FrameF32, Image};
use crate::params::Ratio;
use crate::pipeline::{Eyes, StereoPair};
use vstd::prelude::*;

verus! {

/// Which view the preview pane is showing.
#[derive(Debug, Clone, Copy, PartialEq, Eq, Structural)]
pub enum ViewMode {
    /// The recovered left eye alone.
    Left,
    /// The recovered right eye alone.
    Right,
    /// Both eyes, as the output will be packed.
    SideBySide,
    /// The pair muxed back into an anaglyph: the check you can make with the
    /// glasses still on your desk.
    Anaglyph,
    /// Absolute difference between the eyes, which is where the depth is.
    Difference,
}

impl Default for ViewMode {
    fn default() -> (r: Self)
        ensures
            r == ViewMode::Left,
    {
        ViewMode::Left
    }
}

impl ViewMode {
    /// Every mode, in the order they should appear in a toolbar.
    pub const ALL: [ViewMode; 5] = [
        ViewMode::Left,
        ViewMode::Right,
        ViewMode::SideBySide,
        ViewMode::Anaglyph,
        ViewMode::Difference,
    ];

    pub open spec fn label_text(self) -> Seq<char> {
        match self {
            ViewMode::Left => "Left"@,
            ViewMode::Right => "Right"@,
            ViewMode::SideBySide => "Side by side"@,
            ViewMode::Anaglyph => "Anaglyph"@,
            ViewMode::Difference => "Difference"@,
        }
    }

    /// Short label for a button.
    pub fn label(self) -> (r: &'static str)
        ensures
            r@ == self.label_text(),
    {
        match self {
            ViewMode::Left => "Left",
            ViewMode::Right => "Right",
            ViewMode::SideBySide => "Side by side",
            ViewMode::Anaglyph => "Anaglyph",
            ViewMode::Difference => "Difference",
        }
    }

    /// The shape this view should be drawn at, as a multiple of one eye's.
    ///
    /// The preview must honour pixel shape as much as the render does: tuning
    /// against a stretched picture is tuning against the wrong picture.
    pub fn display_aspect(self) -> (r: Ratio)
        ensures
            r == (Ratio { num: if self == ViewMode::SideBySide { 2 } else { 1 }, den: 1 }),
    {
        match self {
            ViewMode::SideBySide => Ratio { num: 2, den: 1 },
            _ => Ratio { num: 1, den: 1 },
        }
    }

    pub open spec fn hint_text(self) -> Seq<char> {
        match self {
            ViewMode::Left => "The recovered left eye on its own"@,
            ViewMode::Right => "The recovered right eye on its own"@,
            ViewMode::SideBySide => "Both eyes, packed as the output will be"@,
            ViewMode::Anaglyph => "Re-encoded to anaglyph, to check through the glasses"@,
            ViewMode::Difference => "Where the two eyes disagree \u{2014} this is the depth"@,
        }
    }

    /// One line explaining what the view is for.
    pub fn hint(self) -> (r: &'static str)
        ensures
            r@ == self.hint_text(),
    {
        match self {
            ViewMode::Left => "The recovered left eye on its own",
            ViewMode::Right => "The recovered right eye on its own",
            ViewMode::SideBySide => "Both eyes, packed as the output will be",
            ViewMode::Anaglyph => "Re-encoded to anaglyph, to check through the glasses",
            ViewMode::Difference => "Where the two eyes disagree \u{2014} this is the depth",
        }
    }
}

/// `out` is two pictures compared sample by sample.
pub open spec fn compared<S, D: Fn(S, S) -> S>(
    differ: D,
    left: Image<S>,
    right: Image<S>,
    out: Image<S>,
) -> bool {
    &&& out.wf()
    &&& out.same_size(left)
    &&& out.channels == left.channels
    &&& forall|i: int|
        0 <= i < left.samples.len() ==> call_ensures(
            differ,
            (left.samples[i], right.samples[i]),
            #[trigger] out.samples[i],
        )
}

/// `out` is a pair looked at in one way.
pub open spec fn viewed<S, D: Fn(S, S) -> S>(
    differ: D,
    eyes: Eyes<S>,
    mode: ViewMode,
    format: AnaglyphFormat,
    order: EyeOrder,
    out: Image<S>,
) -> bool {
    match mode {
        ViewMode::Left => out == eyes.left,
        ViewMode::Right => out == eyes.right,
        ViewMode::SideBySide => out == (match order {
            EyeOrder::LeftFirst => beside(eyes.left, eyes.right),
            EyeOrder::RightFirst => beside(eyes.right, eyes.left),
        }),
        ViewMode::Anaglyph => out == muxed(eyes.left, eyes.right, format),
        ViewMode::Difference => compared(differ, eyes.left, eyes.right, out),
    }
}

/// Builds the image for a view. `differ` says how far apart two samples are, as
/// it is to be shown.
pub fn compose_view<S: Copy, D: Fn(S, S) -> S>(
    pair: &StereoPair<S>,
    mode: ViewMode,
    format: AnaglyphFormat,
    order: EyeOrder,
    differ: &D,
) -> (out: FrameF32<S>)
    requires
        pair.wf(),
        pair.left@.channels == 3,
        2 * pair.left@.width <= usize::MAX,
        (2 * pair.left@.width) * pair.left@.height * 3 <= usize::MAX,
        forall|a: S, b: S| #[trigger] call_requires(*differ, (a, b)),
    ensures
        viewed(
            *differ,
            (Eyes { left: pair.left@, right: pair.right@ }),
            mode,
            format,
            order,
            out@,
        ),
        out@.wf(),
        out@.channels == 3,
{
    proof {
        let w = pair.left@.width;
        assert(w + w == 2 * w);
    }
    match mode {
        ViewMode::Left => pair.left.clone(),
        ViewMode::Right => pair.right.clone(),
        ViewMode::SideBySide => match order {
            EyeOrder::LeftFirst => stack_horizontal(&pair.left, &pair.right),
            EyeOrder::RightFirst => stack_horizontal(&pair.right, &pair.left),
        },
        ViewMode::Anaglyph => encode_anaglyph(&pair.left, &pair.right, format),
        ViewMode::Difference => difference(&pair.left, &pair.right, differ),
    }
}

/// Compares two frames sample by sample.
fn difference<S: Copy, D: Fn(S, S) -> S>(
    left: &FrameF32<S>,
    right: &FrameF32<S>,
    differ: &D,
) -> (out: FrameF32<S>)
    requires
        left@.wf(),
        right@.wf(),
        left@.same_size(right@),
        left@.channels == right@.channels,
        forall|a: S, b: S| #[trigger] call_requires(*differ, (a, b)),
    ensures
        compared(*differ, left@, right@, out@),
{
    let (ls, rs) = (left.as_slice(), right.as_slice());
    let mut data: Vec<S> = Vec::new();
    let mut i: usize = 0;
    while i < ls.len()
        invariant
            i <= ls@.len() == rs@.len(),
            data@.len() == i,
            forall|a: S, b: S| #[trigger] call_requires(*differ, (a, b)),
            forall|k: int|
                0 <= k < i ==> call_ensures(*differ, (ls@[k], rs@[k]), #[trigger] data@[k]),
        decreases ls@.len() - i,
    {
        data.push(differ(ls[i], rs[i]));
        i += 1;
    }
    FrameF32::from_planar(left.width(), left.height(), left.channels(), data)
}

/// Which eye is called left makes no difference to the difference, where it makes
/// none to one sample's.
pub proof fn law_the_difference_is_symmetric<S, D: Fn(S, S) -> S>(
    differ: D,
    left: Image<S>,
    right: Image<S>,
    out: Image<S>,
)
    requires
        left.wf() && right.wf(),
        left.same_size(right),
        left.channels == right.channels,
        forall|a: S, b: S, d: S| #[trigger]
            call_ensures(differ, (a, b), d) ==> call_ensures(differ, (b, a), d),
        compared(differ, left, right, out),
    ensures
        compared(differ, right, left, out),
{
    assert forall|i: int| 0 <= i < right.samples.len() implies call_ensures(
        differ,
        (right.samples[i], left.samples[i]),
        #[trigger] out.samples[i],
    ) by {
        assert(call_ensures(differ, (left.samples[i], right.samples[i]), out.samples[i]));
    }
}

/// A view of one eye is that eye; the difference is taken sample by sample, the left
/// eye's first; an anaglyph view takes each channel from the eye that sees it.
pub proof fn law_a_view_shows_what_it_says<S: Copy, D: Fn(S, S) -> S>(
    pair: &StereoPair<S>,
    mode: ViewMode,
    format: AnaglyphFormat,
    order: EyeOrder,
    differ: &D,
    out: FrameF32<S>,
    i: int,
)
    requires
        pair.wf(),
        pair.left@.channels == 3,
        call_ensures(compose_view::<S, D>, (pair, mode, format, order, differ), out),
        0 <= i < pair.left@.width * pair.left@.height,
    ensures
        mode == ViewMode::Left ==> out@ == pair.left@,
        mode == ViewMode::Right ==> out@ == pair.right@,
        mode == ViewMode::Difference ==> out@.same_size(pair.left@) && call_ensures(
            *differ,
            (pair.left@.pixel(i).0, pair.right@.pixel(i).0),
            out@.pixel(i).0,
        ) && call_ensures(
            *differ,
            (pair.left@.pixel(i).1, pair.right@.pixel(i).1),
            out@.pixel(i).1,
        ) && call_ensures(
            *differ,
            (pair.left@.pixel(i).2, pair.right@.pixel(i).2),
            out@.pixel(i).2,
        ),
        mode == ViewMode::Anaglyph ==> ({
            let (m, l, r) = (out@.pixel(i), pair.left@.pixel(i), pair.right@.pixel(i));
            match format {
                AnaglyphFormat::RedCyan => m == (l.0, r.1, r.2),
                AnaglyphFormat::GreenMagenta => m == (r.0, l.1, r.2),
                AnaglyphFormat::RedBlue => m == (l.0, l.1, r.2),
                AnaglyphFormat::ColorCode => m == (l.0, l.1, r.2),
            }
        }),
{
    crate::extract::lemma_muxed_pixel(pair.left@, pair.right@, format, i);
    let len = pair.left@.width * pair.left@.height;
    assert(pair.left@.width * pair.left@.height * 3 == len + len + len);
    if mode == ViewMode::Difference {
        let (a, b, c) = (out@.samples[i], out@.samples[len + i], out@.samples[len + len + i]);
    }
}

/// A side-by-side view is twice as wide as one eye and has the eye that comes first on
/// the left.
pub proof fn law_a_side_by_side_view_has_both_eyes<S: Copy, D: Fn(S, S) -> S>(
    pair: &StereoPair<S>,
    format: AnaglyphFormat,
    order: EyeOrder,
    differ: &D,
    out: FrameF32<S>,
    c: int,
    y: int,
    x: int,
)
    requires
        pair.wf(),
        call_ensures(compose_view::<S, D>, (pair, ViewMode::SideBySide, format, order, differ), out),
        pair.left@.has(c, y, x),
    ensures
        out@.width == 2 * pair.left@.width,
        order == EyeOrder::LeftFirst ==> out@.at(c, y, x) == pair.left@.at(c, y, x) && out@.at(
            c,
            y,
            pair.left@.width + x,
        ) == pair.right@.at(c, y, x),
        order == EyeOrder::RightFirst ==> out@.at(c, y, x) == pair.right@.at(c, y, x) && out@.at(
            c,
            y,
            pair.left@.width + x,
        ) == pair.left@.at(c, y, x),
{
    let (a, b) = (pair.left@, pair.right@);
    crate::compose::lemma_beside_at(a, b, c, y, x);
    crate::compose::lemma_beside_at(a, b, c, y, a.width + x);
    crate::compose::lemma_beside_at(b, a, c, y, x);
    crate::compose::lemma_beside_at(b, a, c, y, a.width + x);
}

/// A side-by-side view is drawn twice as wide as one eye; every other view has the shape
/// of an eye. Each view goes by its own name.
pub proof fn law_views_are_shaped_and_named(mode: ViewMode, r: Ratio, name: &'static str)
    requires
        call_ensures(ViewMode::display_aspect, (mode,), r),
        call_ensures(ViewMode::label, (mode,), name),
    ensures
        r.den == 1,
        mode == ViewMode::SideBySide ==> r.num == 2,
        mode != ViewMode::SideBySide ==> r.num == 1,
        mode == ViewMode::Left ==> name@ == "Left"@,
        mode == ViewMode::Right ==> name@ == "Right"@,
        mode == ViewMode::SideBySide ==> name@ == "Side by side"@,
        mode == ViewMode::Anaglyph ==> name@ == "Anaglyph"@,
        mode == ViewMode::Difference ==> name@ == "Difference"@,
{
}

/// Each view is explained by what it shows.
pub proof fn law_views_are_explained(mode: ViewMode, hint: &'static str)
    requires
        call_ensures(ViewMode::hint, (mode,), hint),
    ensures
        mode == ViewMode::Left ==> hint@ == "The recovered left eye on its own"@,
        mode == ViewMode::Right ==> hint@ == "The recovered right eye on its own"@,
        mode == ViewMode::SideBySide ==> hint@ == "Both eyes, packed as the output will be"@,
        mode == ViewMode::Anaglyph ==> hint@
            == "Re-encoded to anaglyph, to check through the glasses"@,
        mode == ViewMode::Difference ==> hint@
            == "Where the two eyes disagree \u{2014} this is the depth"@,
{
}

/// Every view is offered, the single eyes first.
pub proof fn law_every_view_is_offered(view: ViewMode)
    ensures
        ViewMode::ALL@[0] == ViewMode::Left,
        ViewMode::ALL@[1] == ViewMode::Right,
        ViewMode::ALL@[2] == ViewMode::SideBySide,
        ViewMode::ALL@[3] == ViewMode::Anaglyph,
        ViewMode::ALL@[4] == ViewMode::Difference,
        ViewMode::ALL@.len() == 5,
        ViewMode::ALL@.contains(view),
{
    let all = ViewMode::ALL@;
    assert(all[0] == ViewMode::Left);
    assert(all[1] == ViewMode::Right);
    assert(all[2] == ViewMode::SideBySide);
    assert(all[3] == ViewMode::Anaglyph);
    assert(all[4] == ViewMode::Difference);
}

} // verus!
