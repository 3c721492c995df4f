//! The per-movie conversion settings.
//!
//! Units are the ones notes on a transfer are kept in: decimate percentages,
//! leak percentages, a de-fringe where `1` means off.

use crate::blur::{shrink_used, sigma_from_decimate, sigma_from_shrink, spreads_percent};
use crate::compose::{converged_to, converged_width, EyeOrder, OutputLayout};
use crate::extract::AnaglyphFormat;
use crate::grade::{no_grade, Grade};
use crate::packed::{eye_dims, StereoPacking};
use crate::restore::ColourRestore;
use crate::scalar::{
    float, lemma_constants, unit32, F32, FIVE, HUNDRED, MINUS_HUNDRED, MINUS_TEN, ONE, TEN, TENTH,
    THIRTY_TWO, TWENTY, ZERO,
};
use crate::text::{decimal, decimal_text};
use crate::transfer::TransferFunction;
use vstd::prelude::*;
use vstd::std_specs::cmp::PartialEqSpecImpl;
use vstd::string::*;

verus! {

/// The largest frame edge the pipeline will accept, in pixels.
///
/// Comfortably past anything real (a 16K stereo pair packed side by side is
/// 30720 wide) but small enough that a frame's sample count cannot come near
/// overflowing a `usize`. Without a bound somewhere, dimensions taken from a
/// file's own metadata or from a preset go straight into buffer arithmetic.
pub const MAX_DIMENSION: usize = 32768;

/// Which eye, if any, is supplied by a separate 2D release instead of being
/// recovered from the anaglyph.
#[derive(Debug, Clone, Copy, PartialEq, Eq, Structural)]
pub enum MonoEye {
    /// Recover both eyes from the anaglyph.
    Neither,
    Left,
    Right,
}

impl Default for MonoEye {
    fn default() -> (r: Self)
        ensures
            r == MonoEye::Neither,
    {
        MonoEye::Neither
    }
}

/// Which part of one source file to use.
///
/// A 2D release and the anaglyph it accompanies rarely start on the same frame
/// (different distributors, different logos, different credit rolls) and may not
/// run the same length either. Giving every source its own range says "these two
/// frames are the same moment" without assuming anything about what came before.
///
/// `end` is inclusive, because it names a frame someone looked at and marked.
#[derive(Debug, Clone, Copy, PartialEq, Eq, Structural)]
pub struct SourceTrim {
    /// First frame to read from this source.
    pub start: u64,
    /// Last frame to read, inclusive. `None` runs to the end of the file.
    pub end: Option<u64>,
}

impl Default for SourceTrim {
    fn default() -> (r: Self)
        ensures
            r == whole_source(),
    {
        SourceTrim { start: 0, end: None }
    }
}

/// The trim that leaves nothing out.
pub open spec fn whole_source() -> SourceTrim {
    SourceTrim { start: 0, end: None }
}

impl SourceTrim {
    /// Whether a frame is inside the trim.
    pub open spec fn contains(self, frame: nat) -> bool {
        &&& self.start <= frame
        &&& self.end matches Some(end) ==> frame <= end
    }

    /// How many frames the trim yields from a source of `total` frames.
    pub open spec fn count(self, total: nat) -> nat {
        let stop = match self.end {
            Some(end) => if end + 1 < total { (end + 1) as nat } else { total },
            None => total,
        };
        if self.start < stop {
            (stop - self.start) as nat
        } else {
            0
        }
    }

    /// A trim that uses the whole file.
    pub fn whole() -> (r: Self)
        ensures
            r == whole_source(),
    {
        SourceTrim { start: 0, end: None }
    }

    /// True when this uses the whole file, so the UI can stay quiet about it.
    pub fn is_whole(&self) -> (r: bool)
        ensures
            r == (*self == whole_source()),
    {
        self.start == 0 && self.end.is_none()
    }

    /// How many frames this trim yields from a source of `total` frames.
    ///
    /// Zero for a range that starts past the end or finishes before it starts,
    /// rather than an error: a half-set alignment should stop the render, not
    /// crash it.
    pub fn length(&self, total: u64) -> (r: u64)
        ensures
            r == self.count(total as nat),
    {
        if total == 0 {
            return 0;
        }
        let last: u64 = match self.end {
            Some(end) => if end < total - 1 { end } else { total - 1 },
            None => total - 1,
        };
        if self.start > last {
            return 0;
        }
        last - self.start + 1
    }

    /// The absolute frame `offset` frames into this trim.
    pub fn frame_at(&self, offset: u64) -> (r: u64)
        ensures
            r == saturated(self.start + offset),
    {
        self.start.saturating_add(offset)
    }

    /// How far into this trim an absolute frame sits, if it is inside at all.
    pub fn offset_of(&self, frame: u64) -> (r: Option<u64>)
        ensures
            r == (if self.contains(frame as nat) {
                Some((frame - self.start) as u64)
            } else {
                None
            }),
    {
        if frame < self.start {
            return None;
        }
        match self.end {
            Some(end) => if frame > end { None } else { Some(frame - self.start) },
            None => Some(frame - self.start),
        }
    }
}

/// A frame number as far as a machine counts.
pub open spec fn saturated(frame: int) -> int {
    if frame > u64::MAX {
        u64::MAX as int
    } else {
        frame
    }
}

/// A trim yields exactly the frames of a source that are inside it, and they are
/// consecutive: frame `start + k` for each `k` below its length.
pub proof fn law_trim_length_counts_its_frames(trim: SourceTrim, total: nat, frame: nat)
    ensures
        trim.contains(frame) && frame < total <==> trim.start <= frame < trim.start + trim.count(
            total,
        ),
        trim.count(total) <= total,
{
}

/// A trim that uses the whole file yields every frame of it.
pub proof fn law_whole_source_yields_every_frame(total: nat)
    ensures
        whole_source().count(total) == total,
{
}

/// What the input file holds, and therefore what has to be done to it.
#[derive(Debug, Clone, Copy, PartialEq, Eq, Structural)]
pub enum InputMode {
    /// An anaglyph, to be recovered.
    Anaglyph,
    /// A stereo pair already packed into one frame. Nothing needs recovering:
    /// the two eyes only have to be taken apart.
    Packed {
        packing: StereoPacking,
        /// Which eye is stored first.
        order: EyeOrder,
        /// Each eye is squeezed to half size and must be stretched back.
        anamorphic: bool,
    },
    /// Two files, one per eye. Nothing needs recovering or splitting; the pair
    /// is simply read from two places at once.
    TwoFiles,
}

impl Default for InputMode {
    fn default() -> (r: Self)
        ensures
            r == InputMode::Anaglyph,
    {
        InputMode::Anaglyph
    }
}

impl InputMode {
    /// The size of one eye of a source of a given size.
    pub open spec fn eye_dims(self, w: nat, h: nat) -> (nat, nat) {
        match self {
            InputMode::Anaglyph | InputMode::TwoFiles => (w, h),
            InputMode::Packed { packing, anamorphic, .. } => eye_dims(w, h, packing, anamorphic),
        }
    }

    /// A packed source with the usual arrangement.
    pub fn packed(packing: StereoPacking, anamorphic: bool) -> (r: Self)
        ensures
            r == (InputMode::Packed { packing, order: EyeOrder::LeftFirst, anamorphic }),
    {
        InputMode::Packed { packing, order: EyeOrder::LeftFirst, anamorphic }
    }

    pub fn is_anaglyph(self) -> (r: bool)
        ensures
            r == (self is Anaglyph),
    {
        matches!(self, InputMode::Anaglyph)
    }

    /// True when a second video file supplies the other eye.
    pub fn needs_second_file(self) -> (r: bool)
        ensures
            r == (self is TwoFiles),
    {
        matches!(self, InputMode::TwoFiles)
    }

    /// The size of one eye, given the source frame size.
    pub fn eye_size(self, source: (usize, usize)) -> (r: (usize, usize))
        ensures
            (r.0 as nat, r.1 as nat) == self.eye_dims(source.0 as nat, source.1 as nat),
    {
        match self {
            // Recovery works at full frame size.
            InputMode::Anaglyph => source,
            InputMode::Packed { packing, order: _, anamorphic } => crate::packed::eye_size(
                source,
                packing,
                anamorphic,
            ),
            // Each file is already one whole eye.
            InputMode::TwoFiles => source,
        }
    }
}

/// Everything needed to convert one movie.
#[derive(Debug, Clone, Copy)]
pub struct ConvertParams {
    /// What the source file holds.
    pub input: InputMode,
    /// Which anaglyph encoding the source uses.
    pub input_format: AnaglyphFormat,
    /// The encoding written when the output layout is [`OutputLayout::Anaglyph`].
    ///
    /// Deliberately separate from the source's. Recovering a red/cyan transfer
    /// and writing it back as green/magenta is a reasonable thing to want, since
    /// green/magenta glasses hold colour better, and tying the two together
    /// would make it impossible.
    pub output_format: AnaglyphFormat,
    /// The transfer function the decoded samples carry.
    pub transfer: TransferFunction,
    /// Convert to linear light before extraction, cross-talk and blur.
    pub work_in_linear_light: bool,
    /// Horizontal colour blur, as a shrink percentage. Small numbers blur harder;
    /// anaglyph disparity is horizontal, so this is normally much stronger than
    /// the vertical figure.
    pub decimate_horiz: F32,
    /// Vertical colour blur. Raise it for films whose cameras were misaligned.
    pub decimate_vert: F32,
    /// Percentage of the right eye to remove from the left (-100 to 100).
    pub leak_correct_left: F32,
    /// Percentage of the left eye to remove from the right (-100 to 100).
    pub leak_correct_right: F32,
    /// Horizontal de-fringe for the left eye. Exactly 1 disables it.
    pub defringe_left: F32,
    /// Horizontal de-fringe for the right eye. Exactly 1 disables it.
    pub defringe_right: F32,
    /// How eye brightness and reference colour are recombined.
    pub restore: ColourRestore,
    pub grade_left: Grade,
    pub grade_right: Grade,
    /// Which eye comes from a 2D release rather than the anaglyph.
    pub mono_eye: MonoEye,
    /// The part of the anaglyph to convert.
    pub anaglyph_trim: SourceTrim,
    /// The part of the colour source that lines up with it.
    pub colour_trim: SourceTrim,
    /// The part of the 2D eye source that lines up with it.
    pub mono_trim: SourceTrim,
    /// Horizontal convergence, as a percentage of frame width.
    ///
    /// Positive moves the eyes apart and the scene behind the screen; negative
    /// brings them together and the scene forward, placing the plane of zero
    /// parallax, the ground plane, where the viewer wants it. High-disparity
    /// shots are what make this worth having: the depth that reads as thrown
    /// at the camera is also what makes an audience's eyes ache.
    ///
    /// The output keeps only what both eyes cover, so it narrows by exactly
    /// this percentage.
    pub convergence: F32,
    /// Exchange the two eyes before layout.
    pub swap_eyes: bool,
    pub layout: OutputLayout,
    pub eye_order: EyeOrder,
    /// Final output size. `None` keeps the stacked size.
    pub output_size: Option<(usize, usize)>,
}

/// The settings a new film starts from: recover, and correct nothing.
pub open spec fn default_params() -> ConvertParams {
    ConvertParams {
        input: InputMode::Anaglyph,
        input_format: AnaglyphFormat::RedCyan,
        output_format: AnaglyphFormat::RedCyan,
        transfer: TransferFunction::Srgb,
        work_in_linear_light: true,
        decimate_horiz: float(FIVE),
        decimate_vert: float(TWENTY),
        leak_correct_left: float(ZERO),
        leak_correct_right: float(ZERO),
        defringe_left: float(ONE),
        defringe_right: float(ONE),
        restore: ColourRestore::Offset,
        grade_left: no_grade(),
        grade_right: no_grade(),
        mono_eye: MonoEye::Neither,
        anaglyph_trim: whole_source(),
        colour_trim: whole_source(),
        mono_trim: whole_source(),
        convergence: float(ZERO),
        swap_eyes: false,
        layout: OutputLayout::SideBySide,
        eye_order: EyeOrder::LeftFirst,
        output_size: None,
    }
}

impl Default for ConvertParams {
    fn default() -> (r: Self)
        ensures
            r == default_params(),
    {
        ConvertParams {
            input: InputMode::Anaglyph,
            input_format: AnaglyphFormat::RedCyan,
            output_format: AnaglyphFormat::RedCyan,
            transfer: TransferFunction::Srgb,
            work_in_linear_light: true,
            // The usual starting point.
            decimate_horiz: F32 { bits: FIVE },
            decimate_vert: F32 { bits: TWENTY },
            // Corrections start off; they are per-movie by nature.
            leak_correct_left: F32 { bits: ZERO },
            leak_correct_right: F32 { bits: ZERO },
            defringe_left: F32 { bits: ONE },
            defringe_right: F32 { bits: ONE },
            restore: ColourRestore::default(),
            grade_left: Grade::default(),
            grade_right: Grade::default(),
            mono_eye: MonoEye::Neither,
            anaglyph_trim: SourceTrim::whole(),
            colour_trim: SourceTrim::whole(),
            mono_trim: SourceTrim::whole(),
            convergence: F32 { bits: ZERO },
            swap_eyes: false,
            layout: OutputLayout::SideBySide,
            eye_order: EyeOrder::LeftFirst,
            output_size: None,
        }
    }
}

impl ConvertParams {
    /// Equality of settings, with floats compared as floats compare.
    pub open spec fn equals(self, other: ConvertParams) -> bool {
        &&& self.input == other.input
        &&& self.input_format == other.input_format
        &&& self.output_format == other.output_format
        &&& self.transfer == other.transfer
        &&& self.work_in_linear_light == other.work_in_linear_light
        &&& self.decimate_horiz.equals(other.decimate_horiz)
        &&& self.decimate_vert.equals(other.decimate_vert)
        &&& self.leak_correct_left.equals(other.leak_correct_left)
        &&& self.leak_correct_right.equals(other.leak_correct_right)
        &&& self.defringe_left.equals(other.defringe_left)
        &&& self.defringe_right.equals(other.defringe_right)
        &&& self.restore == other.restore
        &&& self.grade_left.equals(other.grade_left)
        &&& self.grade_right.equals(other.grade_right)
        &&& self.mono_eye == other.mono_eye
        &&& self.anaglyph_trim == other.anaglyph_trim
        &&& self.colour_trim == other.colour_trim
        &&& self.mono_trim == other.mono_trim
        &&& self.convergence.equals(other.convergence)
        &&& self.swap_eyes == other.swap_eyes
        &&& self.layout == other.layout
        &&& self.eye_order == other.eye_order
        &&& self.output_size == other.output_size
    }
}

impl PartialEq for ConvertParams {
    fn eq(&self, other: &ConvertParams) -> (r: bool) {
        self.input == other.input && self.input_format == other.input_format && self.output_format
            == other.output_format && self.transfer == other.transfer && self.work_in_linear_light
            == other.work_in_linear_light && self.decimate_horiz == other.decimate_horiz
            && self.decimate_vert == other.decimate_vert && self.leak_correct_left
            == other.leak_correct_left && self.leak_correct_right == other.leak_correct_right
            && self.defringe_left == other.defringe_left && self.defringe_right
            == other.defringe_right && self.restore == other.restore && self.grade_left
            == other.grade_left && self.grade_right == other.grade_right && self.mono_eye
            == other.mono_eye && self.anaglyph_trim == other.anaglyph_trim && self.colour_trim
            == other.colour_trim && self.mono_trim == other.mono_trim && self.convergence
            == other.convergence && self.swap_eyes == other.swap_eyes && self.layout == other.layout
            && self.eye_order == other.eye_order && match (self.output_size, other.output_size) {
            (None, None) => true,
            (Some(a), Some(b)) => a.0 == b.0 && a.1 == b.1,
            _ => false,
        }
    }
}

impl PartialEqSpecImpl for ConvertParams {
    open spec fn obeys_eq_spec() -> bool {
        true
    }

    open spec fn eq_spec(&self, other: &ConvertParams) -> bool {
        self.equals(*other)
    }
}

/// A parameter that would produce nonsense downstream.
#[derive(Debug, Clone, Copy)]
pub enum ParamsError {
    OutOfRange { name: &'static str, value: F32, min: F32, max: F32 },
    EmptyOutputSize(usize, usize),
    OutputSizeTooLarge(usize, usize),
}

/// What an error says, in mathematical terms.
pub enum Fault {
    OutOfRange { name: Seq<char>, value: F32, min: F32, max: F32 },
    EmptyOutputSize(nat, nat),
    OutputSizeTooLarge(nat, nat),
}

impl ParamsError {
    pub open spec fn fault(self) -> Fault {
        match self {
            ParamsError::OutOfRange { name, value, min, max } => Fault::OutOfRange {
                name: name@,
                value,
                min,
                max,
            },
            ParamsError::EmptyOutputSize(w, h) => Fault::EmptyOutputSize(w as nat, h as nat),
            ParamsError::OutputSizeTooLarge(w, h) => Fault::OutputSizeTooLarge(w as nat, h as nat),
        }
    }

    /// What the error tells the user; `show` writes a float.
    pub fn message<F: Fn(F32) -> String>(&self, show: &F) -> (text: String)
        requires
            forall|v: F32| #[trigger] call_requires(*show, (v,)),
        ensures
            tells(*show, self.fault(), text@),
    {
        match self {
            ParamsError::OutOfRange { name, value, min, max } => {
                let a = show(*min);
                let b = show(*max);
                let v = show(*value);
                let mut text = (*name).to_owned();
                text.append(" must be between ");
                text.append(a.as_str());
                text.append(" and ");
                text.append(b.as_str());
                text.append(", got ");
                text.append(v.as_str());
                assert(shown(*show, *min, *max, *value, a, b, v));
                assert(text@ == range_text(name@, a@, b@, v@));
                text
            },
            ParamsError::EmptyOutputSize(w, h) => {
                let mut text = "output size must be non-zero in both dimensions, got ".to_owned();
                text.append(decimal(*w as u64).as_str());
                text.push('x');
                text.append(decimal(*h as u64).as_str());
                assert(tells(*show, self.fault(), text@));
                text
            },
            ParamsError::OutputSizeTooLarge(w, h) => {
                let mut text = "output size must be at most ".to_owned();
                text.append(decimal(MAX_DIMENSION as u64).as_str());
                text.append(" in each dimension, got ");
                text.append(decimal(*w as u64).as_str());
                text.push('x');
                text.append(decimal(*h as u64).as_str());
                assert(tells(*show, self.fault(), text@));
                text
            },
        }
    }
}

/// `text` is what is told of the fault, with floats as `show` writes them.
pub open spec fn tells<F: Fn(F32) -> String>(show: F, fault: Fault, text: Seq<char>) -> bool {
    match fault {
        Fault::OutOfRange { name, value, min, max } => tells_range(
            show,
            name,
            value,
            min,
            max,
            text,
        ),
        Fault::EmptyOutputSize(w, h) => text
            == ("output size must be non-zero in both dimensions, got "@ + decimal_text(w)).push(
            'x',
        ) + decimal_text(h),
        Fault::OutputSizeTooLarge(w, h) => text == ("output size must be at most "@
            + decimal_text(MAX_DIMENSION as nat) + " in each dimension, got "@ + decimal_text(
            w,
        )).push('x') + decimal_text(h),
    }
}

/// `text` is what is told of a setting out of range.
pub open spec fn tells_range<F: Fn(F32) -> String>(
    show: F,
    name: Seq<char>,
    value: F32,
    min: F32,
    max: F32,
    text: Seq<char>,
) -> bool {
    exists|a: String, b: String, v: String| #[trigger]
        shown(show, min, max, value, a, b, v) && text == range_text(name, a@, b@, v@)
}

/// What is said of a setting out of range.
pub open spec fn range_text(name: Seq<char>, min: Seq<char>, max: Seq<char>, value: Seq<char>) -> Seq<
    char,
> {
    name + " must be between "@ + min + " and "@ + max + ", got "@ + value
}

/// `a`, `b` and `v` are how `show` may write `min`, `max` and `value`.
pub open spec fn shown<F: Fn(F32) -> String>(
    show: F,
    min: F32,
    max: F32,
    value: F32,
    a: String,
    b: String,
    v: String,
) -> bool {
    &&& call_ensures(show, (min,), a)
    &&& call_ensures(show, (max,), b)
    &&& call_ensures(show, (value,), v)
}

/// The fault of a setting that is not a number from `min` up to `max`.
pub open spec fn range_fault(name: Seq<char>, value: F32, min: u32, max: u32) -> Option<Fault> {
    if value.finite() && float(min).at_most(value) && value.at_most(float(max)) {
        None
    } else {
        Some(Fault::OutOfRange { name, value, min: float(min), max: float(max) })
    }
}

/// The fault of an output size.
pub open spec fn size_fault(size: Option<(usize, usize)>) -> Option<Fault> {
    match size {
        Some((w, h)) => if w == 0 || h == 0 {
            Some(Fault::EmptyOutputSize(w as nat, h as nat))
        } else if w > MAX_DIMENSION || h > MAX_DIMENSION {
            Some(Fault::OutputSizeTooLarge(w as nat, h as nat))
        } else {
            None
        },
        None => None,
    }
}

/// The first fault, or else the next.
pub open spec fn or_else(first: Option<Fault>, next: Option<Fault>) -> Option<Fault> {
    if first is Some {
        first
    } else {
        next
    }
}

impl ConvertParams {
    /// What is wrong with the settings: the first fault, in the order they are
    /// looked at.
    pub open spec fn fault(self) -> Option<Fault> {
        or_else(
            range_fault("decimate_horiz"@, self.decimate_horiz, TENTH, HUNDRED),
            or_else(
                range_fault("decimate_vert"@, self.decimate_vert, TENTH, HUNDRED),
                or_else(
                    range_fault("leak_correct_left"@, self.leak_correct_left, MINUS_HUNDRED, HUNDRED),
                    or_else(
                        range_fault(
                            "leak_correct_right"@,
                            self.leak_correct_right,
                            MINUS_HUNDRED,
                            HUNDRED,
                        ),
                        or_else(
                            range_fault("convergence"@, self.convergence, MINUS_TEN, TEN),
                            or_else(
                                range_fault("defringe_left"@, self.defringe_left, ONE, THIRTY_TWO),
                                or_else(
                                    range_fault("defringe_right"@, self.defringe_right, ONE, THIRTY_TWO),
                                    size_fault(self.output_size),
                                ),
                            ),
                        ),
                    ),
                ),
            ),
        )
    }

    /// Rejects settings that cannot produce a sensible result.
    pub fn validate(&self) -> (r: Result<(), ParamsError>)
        ensures
            r is Ok ==> self.fault() is None,
            r matches Err(e) ==> self.fault() == Some(e.fault()),
    {
        check_range("decimate_horiz", self.decimate_horiz, TENTH, HUNDRED)?;
        check_range("decimate_vert", self.decimate_vert, TENTH, HUNDRED)?;
        check_range("leak_correct_left", self.leak_correct_left, MINUS_HUNDRED, HUNDRED)?;
        check_range("leak_correct_right", self.leak_correct_right, MINUS_HUNDRED, HUNDRED)?;
        check_range("convergence", self.convergence, MINUS_TEN, TEN)?;
        check_range("defringe_left", self.defringe_left, ONE, THIRTY_TWO)?;
        check_range("defringe_right", self.defringe_right, ONE, THIRTY_TWO)?;

        if let Some((w, h)) = self.output_size {
            if w == 0 || h == 0 {
                return Err(ParamsError::EmptyOutputSize(w, h));
            }
            if w > MAX_DIMENSION || h > MAX_DIMENSION {
                return Err(ParamsError::OutputSizeTooLarge(w, h));
            }
        }
        Ok(())
    }

    /// Cross-talk fraction for the left eye, as the maths wants it; `fraction` is a
    /// percentage's.
    pub fn leak_left_fraction<F: Fn(F32) -> F32>(&self, fraction: &F) -> (r: F32)
        requires
            forall|p: F32| #[trigger] call_requires(*fraction, (p,)),
        ensures
            call_ensures(*fraction, (self.leak_correct_left,), r),
    {
        fraction(self.leak_correct_left)
    }

    /// Cross-talk fraction for the right eye.
    pub fn leak_right_fraction<F: Fn(F32) -> F32>(&self, fraction: &F) -> (r: F32)
        requires
            forall|p: F32| #[trigger] call_requires(*fraction, (p,)),
        ensures
            call_ensures(*fraction, (self.leak_correct_right,), r),
    {
        fraction(self.leak_correct_right)
    }

    /// Horizontal sigma for the colour reference blur.
    pub fn colour_sigma_x<D: Fn(F32) -> F32, H: Fn(F32) -> F32>(&self, factor: &D, spread: &H) -> (r:
        F32)
        requires
            forall|p: F32| #[trigger] call_requires(*factor, (p,)),
            forall|f: F32| #[trigger] call_requires(*spread, (f,)),
        ensures
            spreads_percent(*factor, *spread, self.decimate_horiz, r),
    {
        sigma_from_decimate(self.decimate_horiz, factor, spread)
    }

    /// Vertical sigma for the colour reference blur.
    pub fn colour_sigma_y<D: Fn(F32) -> F32, H: Fn(F32) -> F32>(&self, factor: &D, spread: &H) -> (r:
        F32)
        requires
            forall|p: F32| #[trigger] call_requires(*factor, (p,)),
            forall|f: F32| #[trigger] call_requires(*spread, (f,)),
        ensures
            spreads_percent(*factor, *spread, self.decimate_vert, r),
    {
        sigma_from_decimate(self.decimate_vert, factor, spread)
    }

    /// Horizontal de-fringe sigma for the left eye.
    pub fn defringe_sigma_left<H: Fn(F32) -> F32>(&self, spread: &H) -> (r: F32)
        requires
            forall|f: F32| #[trigger] call_requires(*spread, (f,)),
        ensures
            call_ensures(*spread, (shrink_used(self.defringe_left),), r),
    {
        sigma_from_shrink(self.defringe_left, spread)
    }

    /// Horizontal de-fringe sigma for the right eye.
    pub fn defringe_sigma_right<H: Fn(F32) -> F32>(&self, spread: &H) -> (r: F32)
        requires
            forall|f: F32| #[trigger] call_requires(*spread, (f,)),
        ensures
            call_ensures(*spread, (shrink_used(self.defringe_right),), r),
    {
        sigma_from_shrink(self.defringe_right, spread)
    }

    /// The frame to read from a secondary source when the anaglyph is at
    /// `frame`, so that both land on the same moment.
    pub fn aligned_frame(&self, other: &SourceTrim, frame: u64) -> (r: u64)
        ensures
            r == self.aligned(*other, frame as nat),
    {
        other.frame_at(frame.saturating_sub(self.anaglyph_trim.start))
    }

    pub open spec fn aligned(self, other: SourceTrim, frame: nat) -> int {
        let offset = if frame < self.anaglyph_trim.start {
            0
        } else {
            frame - self.anaglyph_trim.start
        };
        saturated(other.start + offset)
    }

    /// The size of each recovered eye, given the source frame size.
    pub fn eye_size(&self, source: (usize, usize)) -> (r: (usize, usize))
        ensures
            (r.0 as nat, r.1 as nat) == self.input.eye_dims(source.0 as nat, source.1 as nat),
    {
        self.input.eye_size(source)
    }

    /// The size of the finished frame.
    pub open spec fn geometry(self, w: nat, h: nat) -> (nat, nat) {
        match self.output_size {
            Some((out_w, out_h)) => (out_w as nat, out_h as nat),
            None => {
                let (eye_w, eye_h) = self.input.eye_dims(w, h);
                let kept = converged_to(eye_w, self.convergence);
                match self.layout {
                    OutputLayout::SideBySide => (kept * 2, eye_h),
                    OutputLayout::TopBottom => (kept, eye_h * 2),
                    _ => (kept, eye_h),
                }
            },
        }
    }

    /// The size of the finished frame the encoder will be handed.
    pub fn output_geometry(&self, source: (usize, usize)) -> (r: (usize, usize))
        requires
            self.geometry(source.0 as nat, source.1 as nat).0 <= usize::MAX,
            self.geometry(source.0 as nat, source.1 as nat).1 <= usize::MAX,
        ensures
            (r.0 as nat, r.1 as nat) == self.geometry(source.0 as nat, source.1 as nat),
    {
        if let Some(size) = self.output_size {
            return size;
        }
        let (eye_w, h) = self.eye_size(source);
        let w: usize = converged_width(eye_w, self.convergence);
        match self.layout {
            OutputLayout::SideBySide => (w * 2, h),
            OutputLayout::TopBottom => (w, h * 2),
            OutputLayout::Separate
            | OutputLayout::Anaglyph
            | OutputLayout::LeftOnly
            | OutputLayout::RightOnly => (w, h),
        }
    }

    /// What packing alone does to an eye's shape: the two numbers whose ratio
    /// the source's display aspect is to be multiplied by.
    pub open spec fn packed_scale(self) -> (nat, nat) {
        match self.input {
            // A full-resolution pair holds two frames' worth, so each eye is
            // half as wide (or twice as tall) as the packed frame.
            InputMode::Packed { packing: StereoPacking::SideBySide, anamorphic: false, .. } => (1, 2),
            InputMode::Packed { packing: StereoPacking::TopBottom, anamorphic: false, .. } => (2, 1),
            // The eye is the whole frame, or a squeezed eye that is meant to fill
            // the frame's own shape.
            _ => (1, 1),
        }
    }

    /// What converging does to it besides: the eye narrows from its width to what
    /// is kept of it.
    pub open spec fn eye_scale(self, w: nat, h: nat) -> (nat, nat) {
        let eye_w = self.input.eye_dims(w, h).0;
        let kept = converged_to(eye_w, self.convergence);
        (self.packed_scale().0 * kept, self.packed_scale().1 * eye_w)
    }

    /// What stacking does to it besides.
    pub open spec fn output_scale(self, w: nat, h: nat) -> (nat, nat) {
        let (num, den) = self.eye_scale(w, h);
        match self.layout {
            OutputLayout::SideBySide => (num * 2, den),
            OutputLayout::TopBottom => (num, den * 2),
            _ => (num, den),
        }
    }

    /// The display aspect ratio of one eye, as a multiple of the source's.
    ///
    /// Cropping narrows the picture without touching pixel shape, so the shape
    /// must narrow with it. Taking the ratio from the pixel widths rather than
    /// from the percentage keeps this in step with `output_geometry` even when
    /// the shift rounds.
    pub fn eye_display_aspect(&self, source: (usize, usize)) -> (r: Ratio)
        ensures
            (r.num as nat, r.den as nat) == self.eye_scale(source.0 as nat, source.1 as nat),
            r.num <= 2 * usize::MAX,
            r.den <= 2 * usize::MAX,
    {
        let (w, _) = self.eye_size(source);
        let kept: usize = converged_width(w, self.convergence);
        proof {
            let (a, b) = self.packed_scale();
            let (k, n) = (kept as nat, w as nat);
            assert(a == 1 || a == 2);
            assert(b == 1 || b == 2);
            assert(1 * k == k && 1 * n == n);
            if a == 1 {
                assert(a * k == k);
            } else {
                assert(a * k == 2 * k);
            }
            if b == 1 {
                assert(b * n == n);
            } else {
                assert(b * n == 2 * n);
            }
        }
        match self.input {
            InputMode::Packed { packing: StereoPacking::SideBySide, anamorphic: false, order: _ } => Ratio {
                num: kept as u128,
                den: 2 * (w as u128),
            },
            InputMode::Packed { packing: StereoPacking::TopBottom, anamorphic: false, order: _ } => Ratio {
                num: 2 * (kept as u128),
                den: w as u128,
            },
            _ => Ratio { num: kept as u128, den: w as u128 },
        }
    }

    /// The display aspect ratio the finished frame should be seen at, as a
    /// multiple of the source's.
    ///
    /// Stacking two eyes doubles the width or the height, so the shape of the
    /// output is not the shape of an eye. Without this the encoder assumes
    /// square pixels and every non-square source comes out stretched.
    pub fn output_display_aspect(&self, source: (usize, usize)) -> (r: Ratio)
        ensures
            (r.num as nat, r.den as nat) == self.output_scale(source.0 as nat, source.1 as nat),
    {
        let eye = self.eye_display_aspect(source);
        match self.layout {
            OutputLayout::SideBySide => Ratio { num: eye.num * 2, den: eye.den },
            OutputLayout::TopBottom => Ratio { num: eye.num, den: eye.den * 2 },
            OutputLayout::Separate
            | OutputLayout::Anaglyph
            | OutputLayout::LeftOnly
            | OutputLayout::RightOnly => eye,
        }
    }
}

/// A ratio of two whole numbers.
#[derive(Debug, Clone, Copy, PartialEq, Eq, Structural)]
pub struct Ratio {
    pub num: u128,
    pub den: u128,
}

/// Rejects a setting that is not a number from `min` up to `max`.
fn check_range(name: &'static str, value: F32, min: u32, max: u32) -> (r: Result<(), ParamsError>)
    ensures
        r is Ok ==> range_fault(name@, value, min, max) is None,
        r matches Err(e) ==> range_fault(name@, value, min, max) == Some(e.fault()),
{
    if value.in_range(F32 { bits: min }, F32 { bits: max }) {
        Ok(())
    } else {
        Err(ParamsError::OutOfRange { name, value, min: F32 { bits: min }, max: F32 { bits: max } })
    }
}

/// The settings a new film starts from are valid.
pub proof fn law_defaults_are_valid()
    ensures
        default_params().fault() is None,
{
    lemma_constants();
}

/// The defaults correct nothing: no leak, no de-fringe, no grade, no swap, no
/// convergence.
pub proof fn law_defaults_do_nothing_but_recover()
    ensures
        ({
            let p = default_params();
            &&& p.leak_correct_left.value() == 0 && p.leak_correct_right.value() == 0
            &&& p.defringe_left.value() == crate::scalar::unit32()
            &&& p.defringe_right.value() == crate::scalar::unit32()
            &&& p.grade_left.identity() && p.grade_right.identity()
            &&& !p.swap_eyes
            &&& p.mono_eye == MonoEye::Neither
            &&& p.convergence.value() == 0
        }),
{
    lemma_constants();
}

/// A validated setting is a number inside its range.
pub proof fn law_valid_settings_are_in_range(p: ConvertParams)
    requires
        p.fault() is None,
    ensures
        p.decimate_horiz.finite() && p.decimate_vert.finite() && p.leak_correct_left.finite(),
        p.leak_correct_right.finite() && p.convergence.finite() && p.defringe_left.finite(),
        p.defringe_right.finite(),
        -100 * crate::scalar::unit32() <= p.leak_correct_left.value() <= 100 * crate::scalar::unit32(),
        -100 * crate::scalar::unit32() <= p.leak_correct_right.value() <= 100
            * crate::scalar::unit32(),
        -10 * crate::scalar::unit32() <= p.convergence.value() <= 10 * crate::scalar::unit32(),
        crate::scalar::unit32() <= p.defringe_left.value() <= 32 * crate::scalar::unit32(),
        crate::scalar::unit32() <= p.defringe_right.value() <= 32 * crate::scalar::unit32(),
        0 < p.decimate_horiz.value() <= 100 * crate::scalar::unit32(),
        0 < p.decimate_vert.value() <= 100 * crate::scalar::unit32(),
        p.output_size matches Some((w, h)) ==> 0 < w <= MAX_DIMENSION && 0 < h <= MAX_DIMENSION,
{
    lemma_constants();
    vstd::arithmetic::power2::lemma_pow2_pos(122);
}

/// Two sources aligned at their trims stay aligned: `k` frames into the
/// anaglyph's range is `k` frames into the other's, so no two frames of the one
/// read the same frame of the other.
pub proof fn law_alignment_is_one_to_one(p: ConvertParams, other: SourceTrim, k: nat)
    requires
        other.start + k <= u64::MAX,
    ensures
        p.aligned(other, p.anaglyph_trim.start as nat + k) == other.start + k,
{
}

/// Pixel shape is carried through from the source: with no resize, the finished
/// frame's display aspect over its pixel aspect is the source's. (An odd packed
/// frame loses its seam, so the packed side must be even.)
pub proof fn law_pixel_shape_is_carried_through(p: ConvertParams, w: nat, h: nat)
    requires
        p.output_size is None,
        p.input matches InputMode::Packed { packing, anamorphic, .. } ==> anamorphic || (
        match packing {
            StereoPacking::SideBySide => w % 2 == 0,
            StereoPacking::TopBottom => h % 2 == 0,
        }),
    ensures
        p.output_scale(w, h).0 * p.geometry(w, h).1 * w == p.output_scale(w, h).1 * p.geometry(
            w,
            h,
        ).0 * h,
{
    let (num, den) = p.output_scale(w, h);
    let (gw, gh) = p.geometry(w, h);
    let (eye_w, eye_h) = p.input.eye_dims(w, h);
    let kept = converged_to(eye_w, p.convergence);
    let (a, b) = p.packed_scale();
    // The eye's own pixels keep the source's shape.
    assert(a * eye_h * w == b * eye_w * h) by {
        if let InputMode::Packed { packing, anamorphic, .. } = p.input {
            if !anamorphic {
                match packing {
                    StereoPacking::SideBySide => {
                        assert(2 * eye_w == w);
                        assert(1 * eye_h * w == 2 * eye_w * h) by (nonlinear_arith)
                            requires
                                2 * eye_w == w,
                                eye_h == h,
                        ;
                    },
                    StereoPacking::TopBottom => {
                        assert(2 * eye_h == h);
                        assert(2 * eye_h * w == 1 * eye_w * h) by (nonlinear_arith)
                            requires
                                2 * eye_h == h,
                                eye_w == w,
                        ;
                    },
                }
            } else {
                assert(1 * eye_h * w == 1 * eye_w * h) by (nonlinear_arith)
                    requires
                        eye_h == h,
                        eye_w == w,
                ;
            }
        } else {
            assert(1 * eye_h * w == 1 * eye_w * h) by (nonlinear_arith)
                requires
                    eye_h == h,
                    eye_w == w,
            ;
        }
    }
    assert((a * kept) * eye_h * w == (b * eye_w) * kept * h) by (nonlinear_arith)
        requires
            a * eye_h * w == b * eye_w * h,
    ;
    let (n, d) = (a * kept, b * eye_w);
    match p.layout {
        OutputLayout::SideBySide => {
            assert((n * 2) * eye_h * w == d * (kept * 2) * h) by (nonlinear_arith)
                requires
                    n * eye_h * w == d * kept * h,
            ;
        },
        OutputLayout::TopBottom => {
            assert(n * (eye_h * 2) * w == (d * 2) * kept * h) by (nonlinear_arith)
                requires
                    n * eye_h * w == d * kept * h,
            ;
        },
        _ => {},
    }
}

/// Converging narrows the shape by exactly what it crops: the finished frame's
/// display aspect and its width shrink by the same factor.
pub proof fn law_convergence_narrows_shape_and_pixels_alike(
    p: ConvertParams,
    plain: ConvertParams,
    w: nat,
    h: nat,
)
    requires
        p.output_size is None,
        plain == (ConvertParams { convergence: float(ZERO), ..p }),
    ensures
        p.output_scale(w, h).0 * plain.geometry(w, h).0 == plain.output_scale(w, h).0 * p.geometry(
            w,
            h,
        ).0,
        p.output_scale(w, h).1 == plain.output_scale(w, h).1,
        p.geometry(w, h).1 == plain.geometry(w, h).1,
{
    let eye_w = p.input.eye_dims(w, h).0;
    let kept = converged_to(eye_w, p.convergence);
    let all = converged_to(eye_w, plain.convergence);
    let a = p.packed_scale().0;
    assert((a * kept) * all == (a * all) * kept) by (nonlinear_arith);
    assert((a * kept * 2) * (all * 2) == (a * all * 2) * (kept * 2)) by (nonlinear_arith);
}

/// Without convergence nothing is cropped.
pub proof fn law_zero_convergence_changes_no_geometry(width: nat, convergence: F32)
    requires
        convergence.equals(float(ZERO)),
    ensures
        converged_to(width, convergence) == width,
{
    lemma_constants();
    vstd::arithmetic::power2::lemma_pow2_pos(149);
    let unit = crate::scalar::unit32();
    assert(convergence.magnitude() == 0);
    assert(2 * width * 0 == 0);
    assert((100 * unit) / (200 * unit) == 0) by (nonlinear_arith)
        requires
            unit > 0,
    ;
}

/// Taking a full-resolution pair apart and stacking it again the same way gives
/// back the shape it came in, and its size where the packed side is even.
pub proof fn law_repacking_returns_the_shape(p: ConvertParams, w: nat, h: nat)
    requires
        p.output_size is None,
        p.convergence.equals(float(ZERO)),
        p.input matches InputMode::Packed { packing, anamorphic, .. } && !anamorphic && p.layout == (
        match packing {
            StereoPacking::SideBySide => OutputLayout::SideBySide,
            StereoPacking::TopBottom => OutputLayout::TopBottom,
        }),
    ensures
        p.output_scale(w, h).0 == p.output_scale(w, h).1,
        p.layout == OutputLayout::SideBySide && w % 2 == 0 ==> p.geometry(w, h) == (w, h),
        p.layout == OutputLayout::TopBottom && h % 2 == 0 ==> p.geometry(w, h) == (w, h),
{
    let eye = p.input.eye_dims(w, h).0;
    law_zero_convergence_changes_no_geometry(eye, p.convergence);
    let (num, den) = p.packed_scale();
    assert(p.eye_scale(w, h) == (num * eye, den * eye));
    assert(num * eye * 2 == den * eye || num * eye == den * eye * 2) by (nonlinear_arith)
        requires
            num * 2 == den || num == den * 2,
    ;
    if p.layout == OutputLayout::SideBySide {
        assert(num == 1 && den == 2);
    } else {
        assert(num == 2 && den == 1);
    }
}

/// The float nearest to a tenth, counted in the smallest positive float.
pub open spec fn tenth() -> int {
    13421773 * vstd::arithmetic::power2::pow2(122) as int
}

/// A number from `min` up to `max`, counted in the smallest positive float.
pub open spec fn within(x: F32, min: int, max: int) -> bool {
    x.finite() && min <= x.value() <= max
}

/// `r` says that a setting is out of its range.
pub open spec fn blames(
    r: Result<(), ParamsError>,
    which: Seq<char>,
    is: F32,
    from: int,
    to: int,
) -> bool {
    r matches Err(ParamsError::OutOfRange { name, value, min, max }) && name@ == which && value == is
        && min.value() == from && max.value() == to
}

/// The first setting that is out of its range is the one that is told of, by its own name
/// and with its own range: colour percentages from 0.1 to 100, leaks from -100 to 100,
/// convergence from -10 to 10, de-fringes from 1 to 32; then the output size, which is
/// not empty and no larger than 32768 either way. Settings with nothing wrong pass.
pub proof fn law_the_first_fault_is_told(p: &ConvertParams, r: Result<(), ParamsError>)
    requires
        call_ensures(ConvertParams::validate, (p,), r),
    ensures
        ({
            let across = within(p.decimate_horiz, tenth(), 100 * unit32());
            let down = within(p.decimate_vert, tenth(), 100 * unit32());
            let left = within(p.leak_correct_left, -100 * unit32(), 100 * unit32());
            let right = within(p.leak_correct_right, -100 * unit32(), 100 * unit32());
            let apart = within(p.convergence, -10 * unit32(), 10 * unit32());
            let soft_left = within(p.defringe_left, unit32(), 32 * unit32());
            let soft_right = within(p.defringe_right, unit32(), 32 * unit32());
            &&& !across ==> blames(r, "decimate_horiz"@, p.decimate_horiz, tenth(), 100 * unit32())
            &&& across && !down ==> blames(r, "decimate_vert"@, p.decimate_vert, tenth(), 100 * unit32())
            &&& across && down && !left ==> blames(r, "leak_correct_left"@, p.leak_correct_left, -100 * unit32(), 100 * unit32())
            &&& across && down && left && !right ==> blames(r, "leak_correct_right"@, p.leak_correct_right, -100 * unit32(), 100 * unit32())
            &&& across && down && left && right && !apart ==> blames(r, "convergence"@, p.convergence, -10 * unit32(), 10 * unit32())
            &&& across && down && left && right && apart && !soft_left ==> blames(r, "defringe_left"@, p.defringe_left, unit32(), 32 * unit32())
            &&& across && down && left && right && apart && soft_left && !soft_right ==> blames(r, "defringe_right"@, p.defringe_right, unit32(), 32 * unit32())
            &&& across && down && left && right && apart && soft_left && soft_right ==> match p.output_size {
                None => r is Ok,
                Some((w, h)) => if w == 0 || h == 0 {
                    r matches Err(ParamsError::EmptyOutputSize(x, y)) && x == w && y == h
                } else if w > 32768 || h > 32768 {
                    r matches Err(ParamsError::OutputSizeTooLarge(x, y)) && x == w && y == h
                } else {
                    r is Ok
                },
            }
        }),
{
    lemma_constants();
}

/// Settings are equal when every one of them is: no two that differ in any are equal, and
/// settings that are all numbers equal themselves.
pub proof fn law_settings_are_equal_when_each_is(a: ConvertParams, b: ConvertParams)
    ensures
        a.equals(b) ==> a.input == b.input,
        a.equals(b) ==> a.input_format == b.input_format,
        a.equals(b) ==> a.output_format == b.output_format,
        a.equals(b) ==> a.transfer == b.transfer,
        a.equals(b) ==> a.work_in_linear_light == b.work_in_linear_light,
        a.equals(b) ==> a.restore == b.restore,
        a.equals(b) ==> a.mono_eye == b.mono_eye,
        a.equals(b) ==> a.anaglyph_trim == b.anaglyph_trim,
        a.equals(b) ==> a.colour_trim == b.colour_trim,
        a.equals(b) ==> a.mono_trim == b.mono_trim,
        a.equals(b) ==> a.swap_eyes == b.swap_eyes,
        a.equals(b) ==> a.layout == b.layout,
        a.equals(b) ==> a.eye_order == b.eye_order,
        a.equals(b) ==> a.output_size == b.output_size,
        a.equals(b) ==> a.decimate_horiz.value() == b.decimate_horiz.value(),
        a.equals(b) ==> a.decimate_vert.value() == b.decimate_vert.value(),
        a.equals(b) ==> a.leak_correct_left.value() == b.leak_correct_left.value(),
        a.equals(b) ==> a.leak_correct_right.value() == b.leak_correct_right.value(),
        a.equals(b) ==> a.defringe_left.value() == b.defringe_left.value(),
        a.equals(b) ==> a.defringe_right.value() == b.defringe_right.value(),
        a.equals(b) ==> a.convergence.value() == b.convergence.value(),
        a.equals(b) ==> a.grade_left.brightness.value() == b.grade_left.brightness.value(),
        a.equals(b) ==> a.grade_left.contrast.value() == b.grade_left.contrast.value(),
        a.equals(b) ==> a.grade_left.saturation.value() == b.grade_left.saturation.value(),
        a.equals(b) ==> a.grade_right.brightness.value() == b.grade_right.brightness.value(),
        a.equals(b) ==> a.grade_right.contrast.value() == b.grade_right.contrast.value(),
        a.equals(b) ==> a.grade_right.saturation.value() == b.grade_right.saturation.value(),
        !a.decimate_horiz.nan() && !a.decimate_vert.nan() && !a.leak_correct_left.nan() && !a.leak_correct_right.nan() && !a.defringe_left.nan() && !a.defringe_right.nan() && !a.convergence.nan() && !a.grade_left.brightness.nan() && !a.grade_left.contrast.nan() && !a.grade_left.saturation.nan() && !a.grade_right.brightness.nan() && !a.grade_right.contrast.nan() && !a.grade_right.saturation.nan() ==> a.equals(a),
{
}

/// A range starts and ends where it says, both ends in it: the frames it holds are those
/// from its start to its end, `k` frames in is `k` past its start, and how far in a frame
/// is leads back to it.
pub proof fn law_a_range_holds_its_frames(
    trim: &SourceTrim,
    frame: u64,
    into: Option<u64>,
    back: u64,
    whole: bool,
)
    requires
        call_ensures(SourceTrim::offset_of, (trim, frame), into),
        call_ensures(SourceTrim::is_whole, (trim,), whole),
        into matches Some(k) ==> call_ensures(SourceTrim::frame_at, (trim, k), back),
    ensures
        into is Some <==> trim.start <= frame && (match trim.end {
            Some(end) => frame <= end,
            None => true,
        }),
        into is Some ==> back == frame,
        into matches Some(k) ==> trim.start + k == frame,
        whole <==> trim.start == 0 && trim.end is None,
{
}

/// A range that lies inside its source is as long as it says, counting both ends; one
/// without an end runs to the last frame; one that starts past the end has nothing.
pub proof fn law_a_range_counts_both_ends(trim: &SourceTrim, total: u64, n: u64)
    requires
        call_ensures(SourceTrim::length, (trim, total), n),
    ensures
        trim.end matches Some(end) ==> trim.start <= end < total ==> n == end - trim.start + 1,
        trim.end matches Some(end) ==> end >= total && trim.start <= total ==> n == total - trim.start,
        trim.end is None && trim.start <= total ==> n == total - trim.start,
        trim.start >= total ==> n == 0,
        trim.end matches Some(end) ==> end < trim.start ==> n == 0,
{
}

/// The frame of another source that lines up: where the film is at its start the other is
/// at its own, and they move on together. Before the start the other waits at its own.
pub proof fn law_sources_move_on_together(
    p: &ConvertParams,
    other: &SourceTrim,
    frame: u64,
    r: u64,
)
    requires
        call_ensures(ConvertParams::aligned_frame, (p, other, frame), r),
        other.start + frame <= u64::MAX,
    ensures
        frame >= p.anaglyph_trim.start ==> r - other.start == frame - p.anaglyph_trim.start,
        frame < p.anaglyph_trim.start ==> r == other.start,
{
}

/// A film's eye is as large as the film, except of a pair packed at full resolution,
/// where it is half as wide or half as high.
pub proof fn law_an_eye_has_its_share_of_the_frame(input: InputMode, w: usize, h: usize, r: (usize, usize))
    requires
        call_ensures(InputMode::eye_size, (input, (w, h)), r),
    ensures
        input is Anaglyph || input is TwoFiles ==> r == (w, h),
        input matches InputMode::Packed { anamorphic, .. } ==> anamorphic ==> r == (w, h),
        input matches InputMode::Packed { packing, anamorphic, .. } ==> !anamorphic && packing
            == StereoPacking::SideBySide ==> r.0 == w / 2 && r.1 == h,
        input matches InputMode::Packed { packing, anamorphic, .. } ==> !anamorphic && packing
            == StereoPacking::TopBottom ==> r.0 == w && r.1 == h / 2,
{
}

/// The finished frame is the output size where one is asked for, and otherwise what the
/// eyes come to: twice as wide side by side, twice as high one above the other, and one
/// eye's size in every other layout, each eye as wide as convergence leaves it.
pub proof fn law_the_finished_frame_has_its_size(
    p: &ConvertParams,
    source: (usize, usize),
    eye: (usize, usize),
    kept: usize,
    r: (usize, usize),
)
    requires
        call_ensures(ConvertParams::output_geometry, (p, source), r),
        call_ensures(ConvertParams::eye_size, (p, source), eye),
        call_ensures(converged_width, (eye.0, p.convergence), kept),
    ensures
        p.output_size matches Some(size) ==> r == size,
        p.output_size is None && p.layout == OutputLayout::SideBySide ==> r.0 == 2 * kept && r.1
            == eye.1,
        p.output_size is None && p.layout == OutputLayout::TopBottom ==> r.0 == kept && r.1 == 2
            * eye.1,
        p.output_size is None && p.layout != OutputLayout::SideBySide && p.layout
            != OutputLayout::TopBottom ==> r.0 == kept && r.1 == eye.1,
{
}

/// The shape of one eye, as a multiple of the source's: narrower by what convergence
/// takes; half as wide for a pair packed side by side at full resolution and half as
/// high, so twice as wide for its height, for one packed top and bottom. Stacking the
/// finished pair doubles it one way or the other.
pub proof fn law_an_eye_has_its_share_of_the_shape(
    p: &ConvertParams,
    source: (usize, usize),
    eye: (usize, usize),
    kept: usize,
    one: Ratio,
    both: Ratio,
)
    requires
        call_ensures(ConvertParams::eye_size, (p, source), eye),
        call_ensures(converged_width, (eye.0, p.convergence), kept),
        call_ensures(ConvertParams::eye_display_aspect, (p, source), one),
        call_ensures(ConvertParams::output_display_aspect, (p, source), both),
    ensures
        p.input !is Packed ==> one.num * eye.0 == one.den * kept,
        p.input matches InputMode::Packed { anamorphic, .. } ==> anamorphic ==> one.num * eye.0
            == one.den * kept,
        p.input matches InputMode::Packed { packing, anamorphic, .. } ==> !anamorphic && packing
            == StereoPacking::SideBySide ==> 2 * one.num * eye.0 == one.den * kept,
        p.input matches InputMode::Packed { packing, anamorphic, .. } ==> !anamorphic && packing
            == StereoPacking::TopBottom ==> one.num * eye.0 == 2 * one.den * kept,
        p.layout == OutputLayout::SideBySide ==> both.num == 2 * one.num && both.den == one.den,
        p.layout == OutputLayout::TopBottom ==> both.num == one.num && both.den == 2 * one.den,
        p.layout != OutputLayout::SideBySide && p.layout != OutputLayout::TopBottom ==> both == one,
{
    let (k, n) = (kept as int, eye.0 as int);
    assert(1 * k == k && 1 * n == n);
    assert(k * n == n * k) by (nonlinear_arith);
    assert(2 * k * n == (2 * n) * k) by (nonlinear_arith);
    assert((2 * k) * n == 2 * n * k) by (nonlinear_arith);
}

/// A new film is taken for a red/cyan anaglyph of sRGB samples, worked on in linear light
/// with colour blurred by 5 percent across and 20 down, put back by offsetting, and
/// delivered side by side, left eye first, whole and at its own size.
pub proof fn law_a_new_film_starts_so()
    ensures
        ({
            let p = default_params();
            &&& p.input == InputMode::Anaglyph
            &&& p.input_format == AnaglyphFormat::RedCyan
            &&& p.output_format == AnaglyphFormat::RedCyan
            &&& p.transfer == TransferFunction::Srgb
            &&& p.work_in_linear_light
            &&& p.decimate_horiz.value() == 5 * unit32()
            &&& p.decimate_vert.value() == 20 * unit32()
            &&& p.restore == ColourRestore::Offset
            &&& p.anaglyph_trim.start == 0 && p.anaglyph_trim.end is None
            &&& p.colour_trim.start == 0 && p.colour_trim.end is None
            &&& p.mono_trim.start == 0 && p.mono_trim.end is None
            &&& p.layout == OutputLayout::SideBySide
            &&& p.eye_order == EyeOrder::LeftFirst
            &&& p.output_size is None
        }),
{
    lemma_constants();
}

/// Each correction is worked out of its own eye's setting.
pub proof fn law_a_correction_is_of_its_own_eye<F: Fn(F32) -> F32, H: Fn(F32) -> F32>(
    p: &ConvertParams,
    fraction: &F,
    spread: &H,
    leaks: (F32, F32),
    fringes: (F32, F32),
)
    requires
        call_ensures(ConvertParams::leak_left_fraction::<F>, (p, fraction), leaks.0),
        call_ensures(ConvertParams::leak_right_fraction::<F>, (p, fraction), leaks.1),
        call_ensures(ConvertParams::defringe_sigma_left::<H>, (p, spread), fringes.0),
        call_ensures(ConvertParams::defringe_sigma_right::<H>, (p, spread), fringes.1),
    ensures
        call_ensures(*fraction, (p.leak_correct_left,), leaks.0),
        call_ensures(*fraction, (p.leak_correct_right,), leaks.1),
        float(ONE).at_most(p.defringe_left) ==> call_ensures(*spread, (p.defringe_left,), fringes.0),
        float(ONE).at_most(p.defringe_right) ==> call_ensures(*spread, (p.defringe_right,), fringes.1),
{
}

/// What is told of a setting out of range is its name, its range from least to most and
/// what it is; of an output size, the size, width first, and what the most is.
pub proof fn law_a_fault_is_told_in_full<F: Fn(F32) -> String>(
    e: &ParamsError,
    show: &F,
    text: String,
)
    requires
        call_ensures(ParamsError::message::<F>, (e, show), text),
    ensures
        *e matches ParamsError::OutOfRange { name, value, min, max } ==> exists|
            a: String,
            b: String,
            v: String,
        | #[trigger]
            call_ensures(*show, (min,), a) && #[trigger] call_ensures(*show, (max,), b)
                && #[trigger] call_ensures(*show, (value,), v) && text@ == name@
                + " must be between "@ + a@ + " and "@ + b@ + ", got "@ + v@,
        *e matches ParamsError::EmptyOutputSize(w, h) ==> text@
            == "output size must be non-zero in both dimensions, got "@ + (decimal_text(w as nat).push(
            'x',
        ) + decimal_text(h as nat)),
        *e matches ParamsError::OutputSizeTooLarge(w, h) ==> text@ == "output size must be at most "@
            + decimal_text(32768) + " in each dimension, got "@ + (decimal_text(w as nat).push('x')
            + decimal_text(h as nat)),
{
    match *e {
        ParamsError::OutOfRange { name, value, min, max } => {
            let (a, b, v) = choose|a: String, b: String, v: String| #[trigger]
                shown(*show, min, max, value, a, b, v) && text@ == range_text(name@, a@, b@, v@);
            assert(call_ensures(*show, (min,), a) && call_ensures(*show, (max,), b) && call_ensures(
                *show,
                (value,),
                v,
            ));
        },
        ParamsError::EmptyOutputSize(w, h) => {
            assert(text@ =~= "output size must be non-zero in both dimensions, got "@ + (decimal_text(
                w as nat,
            ).push('x') + decimal_text(h as nat)));
        },
        ParamsError::OutputSizeTooLarge(w, h) => {
            assert(text@ =~= "output size must be at most "@ + decimal_text(32768)
                + " in each dimension, got "@ + (decimal_text(w as nat).push('x') + decimal_text(
                h as nat,
            )));
        },
    }
}

/// The colour is blurred across by the horizontal setting and down by the vertical one.
pub proof fn law_each_axis_has_its_own_blur<D: Fn(F32) -> F32, H: Fn(F32) -> F32>(
    params: &ConvertParams,
    factor: &D,
    spread: &H,
    across: F32,
    down: F32,
)
    requires
        call_ensures(ConvertParams::colour_sigma_x::<D, H>, (params, factor, spread), across),
        call_ensures(ConvertParams::colour_sigma_y::<D, H>, (params, factor, spread), down),
    ensures
        crate::blur::spreads_percent(*factor, *spread, params.decimate_horiz, across),
        crate::blur::spreads_percent(*factor, *spread, params.decimate_vert, down),
{
}

/// A source is an anaglyph, two files or a packed frame, and only one of them; a packed
/// frame has the left eye first unless it is said otherwise. A whole source has no end.
pub proof fn law_a_source_is_of_one_kind(
    input: InputMode,
    anaglyph: bool,
    second: bool,
    packing: StereoPacking,
    anamorphic: bool,
    packed: InputMode,
    whole: SourceTrim,
)
    requires
        call_ensures(InputMode::is_anaglyph, (input,), anaglyph),
        call_ensures(InputMode::needs_second_file, (input,), second),
        call_ensures(InputMode::packed, (packing, anamorphic), packed),
        call_ensures(SourceTrim::whole, (), whole),
    ensures
        anaglyph <==> input is Anaglyph,
        second <==> input is TwoFiles,
        !(anaglyph && second),
        !anaglyph && !second <==> input is Packed,
        packed == (InputMode::Packed { packing, order: EyeOrder::LeftFirst, anamorphic }),
        whole.start == 0 && whole.end is None,
{
}

} // verus!
