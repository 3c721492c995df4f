//! Taking apart a stereo pair that is already packed into one frame.
//!
//! The reverse of [`crate::compose`]. Useful in its own right: a side-by-side
//! file is the input when you want an anaglyph back out, or when you just want
//! one eye as a flat 2D file.
//!
//! The wrinkle is anamorphic packing. Broadcast and disc stereo usually squeeze
//! each eye to half width (or half height) so the pair fits in one ordinary
//! frame; split naively, everyone comes out half as wide as they should be.

use crate::compose::{
    above, beside, crop, cropped, law_halves_of_above, law_halves_of_beside, resizable, stretched,
    stretches, EyeOrder,
};
use crate::frame::{FrameF32, Image};
use crate::pipeline::StereoPair;
use vstd::prelude::*;

verus! {

/// How two eyes are arranged inside one frame.
#[derive(Debug, Clone, Copy, PartialEq, Eq, Structural)]
pub enum StereoPacking {
    /// Two eyes across the frame.
    SideBySide,
    /// Two eyes down the frame.
    TopBottom,
}

impl Default for StereoPacking {
    fn default() -> (r: Self)
        ensures
            r == StereoPacking::SideBySide,
    {
        StereoPacking::SideBySide
    }
}

impl StereoPacking {
    pub open spec fn label_text(self) -> Seq<char> {
        match self {
            StereoPacking::SideBySide => "Side by side"@,
            StereoPacking::TopBottom => "Top and bottom"@,
        }
    }

    pub fn label(self) -> (r: &'static str)
        ensures
            r@ == self.label_text(),
    {
        match self {
            StereoPacking::SideBySide => "Side by side",
            StereoPacking::TopBottom => "Top and bottom",
        }
    }
}

/// The two halves of a packed picture, each exactly half: an odd picture loses
/// the row or column straddling the seam.
pub open spec fn halves<S>(image: Image<S>, packing: StereoPacking) -> (Image<S>, Image<S>) {
    let (w, h) = (image.width, image.height);
    let (half_w, half_h) = (w / 2, h / 2);
    match packing {
        StereoPacking::SideBySide => (
            cropped(image, 0, 0, half_w, h),
            cropped(image, (w - half_w) as nat, 0, half_w, h),
        ),
        StereoPacking::TopBottom => (
            cropped(image, 0, 0, w, half_h),
            cropped(image, 0, (h - half_h) as nat, w, half_h),
        ),
    }
}

/// The size each eye has once split.
pub open spec fn eye_dims(w: nat, h: nat, packing: StereoPacking, anamorphic: bool) -> (nat, nat) {
    if anamorphic {
        (w, h)
    } else {
        match packing {
            StereoPacking::SideBySide => (w / 2, h),
            StereoPacking::TopBottom => (w, h / 2),
        }
    }
}

/// `left` and `right` are the two eyes of a packed picture.
pub open spec fn splits<S, R: Fn(&FrameF32<S>, usize, usize) -> FrameF32<S>>(
    stretch: R,
    image: Image<S>,
    packing: StereoPacking,
    order: EyeOrder,
    anamorphic: bool,
    left: Image<S>,
    right: Image<S>,
) -> bool {
    let (a, b) = halves(image, packing);
    let (first, second) = match order {
        EyeOrder::LeftFirst => (left, right),
        EyeOrder::RightFirst => (right, left),
    };
    if anamorphic {
        &&& stretched(stretch, a, image.width as usize, image.height as usize, first)
        &&& stretched(stretch, b, image.width as usize, image.height as usize, second)
    } else {
        first == a && second == b
    }
}

/// A packed picture that has two eyes to stretch.
pub open spec fn stretchable<S>(image: Image<S>, packing: StereoPacking) -> bool {
    match packing {
        StereoPacking::SideBySide => image.width >= 2 && image.height >= 1,
        StereoPacking::TopBottom => image.width >= 1 && image.height >= 2,
    }
}

/// Splits a packed frame into its two eyes.
///
/// With `anamorphic`, each eye is stretched back to the full frame's size,
/// undoing the squeeze that let the pair share one frame. Without it each eye
/// keeps the dimensions it occupied, which is right for full-resolution packing.
///
/// Both eyes get exactly half, and an odd frame loses the row or column
/// straddling the seam rather than handing back a mismatched pair. Everything
/// downstream requires them to be the same size, and preview frames are scaled
/// to whatever a pane offers, so odd sizes turn up constantly.
pub fn split_packed<S: Copy, R: Fn(&FrameF32<S>, usize, usize) -> FrameF32<S>>(
    frame: &FrameF32<S>,
    packing: StereoPacking,
    order: EyeOrder,
    anamorphic: bool,
    stretch: &R,
) -> (pair: StereoPair<S>)
    requires
        frame@.wf(),
        stretches(stretch),
        anamorphic ==> stretchable(frame@, packing),
    ensures
        splits(*stretch, frame@, packing, order, anamorphic, pair.left@, pair.right@),
        pair.wf(),
        (pair.left@.width, pair.left@.height) == eye_dims(
            frame@.width,
            frame@.height,
            packing,
            anamorphic,
        ),
        pair.left@.channels == frame@.channels,
{
    let (w, h) = (frame.width(), frame.height());
    let half_w: usize = w / 2;
    let half_h: usize = h / 2;

    let (first, second) = match packing {
        StereoPacking::SideBySide => (
            crop(frame, 0, 0, half_w, h),
            crop(frame, w - half_w, 0, half_w, h),
        ),
        StereoPacking::TopBottom => (
            crop(frame, 0, 0, w, half_h),
            crop(frame, 0, h - half_h, w, half_h),
        ),
    };

    // Undo the squeeze that let two eyes share one frame.
    let (first, second) = if anamorphic {
        proof {
            frame.lemma_fits();
            assert(w * half_h * frame@.channels <= w * h * frame@.channels) by (nonlinear_arith)
                requires
                    0 <= half_h <= h,
                    0 <= w,
                    0 <= frame@.channels,
            ;
            assert(resizable(first@, w as int, h as int));
            assert(resizable(second@, w as int, h as int));
        }
        let a = stretch(&first, w, h);
        let b = stretch(&second, w, h);
        assert(stretched(*stretch, first@, w, h, a@));
        assert(stretched(*stretch, second@, w, h, b@));
        (a, b)
    } else {
        (first, second)
    };

    match order {
        EyeOrder::LeftFirst => StereoPair { left: first, right: second },
        EyeOrder::RightFirst => StereoPair { left: second, right: first },
    }
}

/// The size each eye will have once split.
pub fn eye_size(frame: (usize, usize), packing: StereoPacking, anamorphic: bool) -> (r: (usize, usize))
    ensures
        (r.0 as nat, r.1 as nat) == eye_dims(frame.0 as nat, frame.1 as nat, packing, anamorphic),
{
    let (w, h) = frame;
    if anamorphic {
        return (w, h);
    }
    match packing {
        StereoPacking::SideBySide => (w / 2, h),
        StereoPacking::TopBottom => (w, h / 2),
    }
}

/// Splitting undoes stacking: two pictures of one size, packed and taken apart
/// again without a stretch, come back exactly, in either order.
pub proof fn law_splitting_undoes_stacking<S, R: Fn(&FrameF32<S>, usize, usize) -> FrameF32<S>>(
    stretch: R,
    a: Image<S>,
    b: Image<S>,
    order: EyeOrder,
    left: Image<S>,
    right: Image<S>,
)
    requires
        a.wf(),
        b.wf(),
        a.same_size(b),
        a.channels == b.channels,
        splits(stretch, beside(a, b), StereoPacking::SideBySide, order, false, left, right) || splits(
            stretch,
            above(a, b),
            StereoPacking::TopBottom,
            order,
            false,
            left,
            right,
        ),
    ensures
        (left, right) == (match order {
            EyeOrder::LeftFirst => (a, b),
            EyeOrder::RightFirst => (b, a),
        }),
{
    law_halves_of_beside(a, b);
    law_halves_of_above(a, b);
}

/// The halves of a picture are pictures of its kind.
pub proof fn lemma_halves_are_pictures<S>(image: Image<S>, packing: StereoPacking)
    requires
        image.wf(),
    ensures
        halves(image, packing).0.wf() && halves(image, packing).1.wf(),
        halves(image, packing).0.channels == image.channels,
        halves(image, packing).1.channels == image.channels,
{
}

/// Splitting takes a packed frame apart at the seam: the eye stored first is what is left
/// of it, or over it, and the other what is right of it, or under it, each sample as it
/// was. An odd frame loses the column or row in the middle.
pub proof fn law_a_packed_frame_comes_apart_at_the_seam<
    S: Copy,
    R: Fn(&FrameF32<S>, usize, usize) -> FrameF32<S>,
>(
    frame: &FrameF32<S>,
    packing: StereoPacking,
    order: EyeOrder,
    stretch: &R,
    pair: StereoPair<S>,
    c: int,
    y: int,
    x: int,
)
    requires
        frame@.wf(),
        call_ensures(split_packed::<S, R>, (frame, packing, order, false, stretch), pair),
        pair.left@.has(c, y, x),
    ensures
        ({
            let (w, h) = (frame@.width, frame@.height);
            let (first, second) = match order {
                EyeOrder::LeftFirst => (pair.left@, pair.right@),
                EyeOrder::RightFirst => (pair.right@, pair.left@),
            };
            match packing {
                StereoPacking::SideBySide => {
                    &&& first.width == w / 2 && first.height == h
                    &&& first.at(c, y, x) == frame@.at(c, y, x)
                    &&& second.at(c, y, x) == frame@.at(c, y, x + (w - w / 2))
                },
                StereoPacking::TopBottom => {
                    &&& first.width == w && first.height == h / 2
                    &&& first.at(c, y, x) == frame@.at(c, y, x)
                    &&& second.at(c, y, x) == frame@.at(c, y + (h - h / 2), x)
                },
            }
        }),
{
    let (w, h) = (frame@.width, frame@.height);
    match packing {
        StereoPacking::SideBySide => {
            crate::compose::lemma_cropped_at(frame@, 0, 0, w / 2, h, c, y, x);
            crate::compose::lemma_cropped_at(frame@, (w - w / 2) as nat, 0, w / 2, h, c, y, x);
        },
        StereoPacking::TopBottom => {
            crate::compose::lemma_cropped_at(frame@, 0, 0, w, h / 2, c, y, x);
            crate::compose::lemma_cropped_at(frame@, 0, (h - h / 2) as nat, w, h / 2, c, y, x);
        },
    }
}

/// A squeezed pair is stretched back to the size of the whole frame, each half as the eye
/// it would be without the squeeze; a pair at full resolution keeps half a frame each.
pub proof fn law_a_squeezed_pair_fills_the_frame<
    S: Copy,
    R: Fn(&FrameF32<S>, usize, usize) -> FrameF32<S>,
>(
    frame: &FrameF32<S>,
    packing: StereoPacking,
    order: EyeOrder,
    stretch: &R,
    plain: StereoPair<S>,
    full: StereoPair<S>,
)
    requires
        call_ensures(split_packed::<S, R>, (frame, packing, order, false, stretch), plain),
        call_ensures(split_packed::<S, R>, (frame, packing, order, true, stretch), full),
    ensures
        full.left@.same_size(frame@) && full.right@.same_size(frame@),
        stretched(
            *stretch,
            plain.left@,
            frame@.width as usize,
            frame@.height as usize,
            full.left@,
        ),
        stretched(
            *stretch,
            plain.right@,
            frame@.width as usize,
            frame@.height as usize,
            full.right@,
        ),
{
}

/// The size of an eye: the whole frame where the pair is squeezed, otherwise half of it
/// along the side that the eyes share.
pub proof fn law_an_eye_is_half_a_frame_or_squeezed(
    frame: (usize, usize),
    packing: StereoPacking,
    anamorphic: bool,
    r: (usize, usize),
)
    requires
        call_ensures(eye_size, (frame, packing, anamorphic), r),
    ensures
        anamorphic ==> r == frame,
        !anamorphic && packing == StereoPacking::SideBySide ==> r.0 == frame.0 / 2 && r.1 == frame.1,
        !anamorphic && packing == StereoPacking::TopBottom ==> r.0 == frame.0 && r.1 == frame.1 / 2,
{
}

/// The two packings go by their own names.
pub proof fn law_packings_are_told_apart(packing: StereoPacking, x: &'static str)
    requires
        call_ensures(StereoPacking::label, (packing,), x),
    ensures
        packing == StereoPacking::SideBySide <==> x@ == "Side by side"@,
        packing == StereoPacking::TopBottom <==> x@ == "Top and bottom"@,
{
    reveal_strlit("Side by side");
    reveal_strlit("Top and bottom");
    assert("Side by side"@.len() == 12 && "Top and bottom"@.len() == 14);
}

} // verus!
