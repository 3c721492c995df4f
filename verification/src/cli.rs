//! What the command line asks for, and what it says back.
//!
//! This is the whole conversion without a window. Reading arguments and drawing on
//! the terminal are the program's; which settings the flags come to, which job
//! they make and how it is reported are here.

use crate::choices::SourceKind;
use crate::compose::{EyeOrder, OutputLayout};
use crate::encode::{text_of, texts, EncodeSettings, VideoCodec, FILM_RATE};
use crate::extract::AnaglyphFormat;
use crate::locate::{FfmpegTools, ToolSource};
use crate::media::{size, size_text};
use crate::packed::StereoPacking;
use crate::params::{tells, ConvertParams, InputMode, MonoEye, SourceTrim, MAX_DIMENSION};
use crate::probe::VideoInfo;
use crate::progress::{duration_text, verb};
use crate::render::{Progress, RenderJob, RenderSummary};
use crate::scalar::{F32, F64};
use crate::text::{
    chars_of, decimal, decimal_text, parse_number, parsed_number, quoted, quoted_text, string_of,
    trim, trimmed,
};
use crate::timecode::{parse_position, reads_position, times_all, TimeMath};
use vstd::prelude::*;
use vstd::string::*;

verus! {

/// Everything the render command is told.
#[derive(Debug)]
pub struct RenderArgs {
    /// The anaglyph video.
    pub input: String,
    /// Where to write the result.
    pub out: String,
    /// The right eye, when the source is two files.
    pub right_eye: Option<String>,
    /// A 2D release to take colour from.
    pub colour: Option<String>,
    /// A 2D release to use verbatim as one eye.
    pub mono: Option<String>,
    /// Which eye the 2D release supplies.
    pub mono_eye: MonoEye,
    /// Where to start in the anaglyph.
    pub start: Option<String>,
    /// Where to finish in the anaglyph, inclusive.
    pub end: Option<String>,
    pub colour_start: Option<String>,
    pub colour_end: Option<String>,
    pub mono_start: Option<String>,
    pub mono_end: Option<String>,
    /// Where to copy the audio track from.
    pub audio: Option<String>,
    /// What the input file holds. An anaglyph, where neither this nor a preset says.
    pub source: Option<SourceKind>,
    /// The packed source squeezes each eye to half size.
    pub anamorphic: bool,
    pub format: Option<AnaglyphFormat>,
    pub output_format: Option<AnaglyphFormat>,
    pub layout: Option<OutputLayout>,
    pub eye_order: Option<EyeOrder>,
    pub swap_eyes: bool,
    pub decimate_horiz: Option<F32>,
    pub decimate_vert: Option<F32>,
    pub leak_left: Option<F32>,
    pub leak_right: Option<F32>,
    /// Horizontal convergence, as a percentage.
    pub convergence: Option<F32>,
    pub codec: VideoCodec,
    /// Perceptual quality, 0 to 100.
    pub quality: u8,
    /// Resize the finished frame, as WxH.
    pub size: Option<String>,
}

/// A setting that a flag overrides, where it was given.
pub open spec fn or<T>(flag: Option<T>, set: T) -> T {
    match flag {
        Some(v) => v,
        None => set,
    }
}

impl RenderArgs {
    /// What the film holds: what the source flag says, or else what the preset does.
    /// The squeeze of a packed pair is the preset's unless a flag speaks of it.
    pub open spec fn input_over(self, preset: InputMode) -> InputMode {
        match self.source {
            Some(kind) => kind.input(self.anamorphic),
            None => match preset {
                InputMode::Packed { packing, order, anamorphic } => InputMode::Packed {
                    packing,
                    order,
                    anamorphic: anamorphic || self.anamorphic,
                },
                _ => preset,
            },
        }
    }

    /// The settings of a preset with the plain flags on top.
    pub open spec fn over(self, preset: ConvertParams) -> ConvertParams {
        ConvertParams {
            input: self.input_over(preset.input),
            input_format: or(self.format, preset.input_format),
            output_format: or(self.output_format, preset.output_format),
            layout: or(self.layout, preset.layout),
            eye_order: or(self.eye_order, preset.eye_order),
            swap_eyes: self.swap_eyes || preset.swap_eyes,
            decimate_horiz: or(self.decimate_horiz, preset.decimate_horiz),
            decimate_vert: or(self.decimate_vert, preset.decimate_vert),
            leak_correct_left: or(self.leak_left, preset.leak_correct_left),
            leak_correct_right: or(self.leak_right, preset.leak_correct_right),
            convergence: or(self.convergence, preset.convergence),
            mono_eye: if self.mono_eye != MonoEye::Neither {
                self.mono_eye
            } else {
                preset.mono_eye
            },
            ..preset
        }
    }
}

fn given<T: Copy>(flag: Option<T>, set: T) -> (r: T)
    ensures
        r == or(flag, set),
{
    match flag {
        Some(v) => v,
        None => set,
    }
}

/// What the film holds: what the source flag says, or else what the preset does.
fn override_input(args: &RenderArgs, preset: InputMode) -> (r: InputMode)
    ensures
        r == args.input_over(preset),
{
    match args.source {
        Some(kind) => kind.to_input(args.anamorphic),
        None => match preset {
            InputMode::Packed { packing, order, anamorphic } => InputMode::Packed {
                packing,
                order,
                anamorphic: anamorphic || args.anamorphic,
            },
            _ => preset,
        },
    }
}

/// The settings of a preset with the plain flags on top.
fn override_params(args: &RenderArgs, preset: &ConvertParams) -> (r: ConvertParams)
    ensures
        r == args.over(*preset),
{
    ConvertParams {
        input: override_input(args, preset.input),
        input_format: given(args.format, preset.input_format),
        output_format: given(args.output_format, preset.output_format),
        layout: given(args.layout, preset.layout),
        eye_order: given(args.eye_order, preset.eye_order),
        swap_eyes: args.swap_eyes || preset.swap_eyes,
        decimate_horiz: given(args.decimate_horiz, preset.decimate_horiz),
        decimate_vert: given(args.decimate_vert, preset.decimate_vert),
        leak_correct_left: given(args.leak_left, preset.leak_correct_left),
        leak_correct_right: given(args.leak_right, preset.leak_correct_right),
        convergence: given(args.convergence, preset.convergence),
        mono_eye: if args.mono_eye != MonoEye::Neither {
            args.mono_eye
        } else {
            preset.mono_eye
        },
        ..*preset
    }
}

/// `r` is what a position flag comes to: nothing where it is absent, the frame it
/// names, or what is wrong with it, under the name of the range it belongs to.
pub open spec fn places<
    P: Fn(&str) -> Option<F64>,
    T: Fn(u64, u64, F64) -> F64,
    C: Fn(F64, F64) -> u64,
>(
    math: &TimeMath<P, T, C>,
    fps: F64,
    which: Seq<char>,
    text: Option<Seq<char>>,
    r: Result<Option<u64>, String>,
) -> bool {
    match text {
        None => r == Ok::<Option<u64>, String>(None),
        Some(text) => places_at(math, fps, which, text, r),
    }
}

/// `r` is the frame that a position flag names, or what is wrong with it.
pub open spec fn places_at<
    P: Fn(&str) -> Option<F64>,
    T: Fn(u64, u64, F64) -> F64,
    C: Fn(F64, F64) -> u64,
>(
    math: &TimeMath<P, T, C>,
    fps: F64,
    which: Seq<char>,
    text: Seq<char>,
    r: Result<Option<u64>, String>,
) -> bool {
    exists|read: Result<u64, String>| #[trigger]
        reads_position(math, fps, text, read) && match read {
            Ok(n) => r == Ok::<Option<u64>, String>(Some(n)),
            Err(e) => r matches Err(message) && message@ == which + ": "@ + e@,
        }
}

/// Reads a position flag, if it was given.
fn place<P: Fn(&str) -> Option<F64>, T: Fn(u64, u64, F64) -> F64, C: Fn(F64, F64) -> u64>(
    text: &Option<String>,
    which: &str,
    fps: F64,
    math: &TimeMath<P, T, C>,
) -> (r: Result<Option<u64>, String>)
    requires
        times_all(math),
    ensures
        places(math, fps, which@, text_of(*text), r),
{
    match text {
        None => Ok(None),
        Some(text) => {
            let read = parse_position(text.as_str(), fps, math);
            assert(reads_position(math, fps, text@, read));
            let r = match read {
                Ok(n) => Ok(Some(n)),
                Err(e) => Err(which.to_owned().concat(": ").concat(e.as_str())),
            };
            assert(places_at(math, fps, which@, text@, r));
            r
        },
    }
}

/// A range with what the flags say of it.
pub open spec fn retrimmed(trim: SourceTrim, start: Option<u64>, end: Option<u64>) -> SourceTrim {
    SourceTrim {
        start: or(start, trim.start),
        end: if end is Some {
            end
        } else {
            trim.end
        },
    }
}

/// `r` is a range with what its two flags say, the start read first.
pub open spec fn trims<
    P: Fn(&str) -> Option<F64>,
    T: Fn(u64, u64, F64) -> F64,
    C: Fn(F64, F64) -> u64,
>(
    math: &TimeMath<P, T, C>,
    fps: F64,
    which: Seq<char>,
    start: Option<Seq<char>>,
    end: Option<Seq<char>>,
    trim: SourceTrim,
    r: Result<SourceTrim, String>,
) -> bool {
    exists|a: Result<Option<u64>, String>| #[trigger]
        places(math, fps, which, start, a) && match a {
            Err(e) => r == Err::<SourceTrim, String>(e),
            Ok(from) => trims_end(math, fps, which, end, trim, from, r),
        }
}

/// `r` is a range whose start is known, with what its other flag says.
pub open spec fn trims_end<
    P: Fn(&str) -> Option<F64>,
    T: Fn(u64, u64, F64) -> F64,
    C: Fn(F64, F64) -> u64,
>(
    math: &TimeMath<P, T, C>,
    fps: F64,
    which: Seq<char>,
    end: Option<Seq<char>>,
    trim: SourceTrim,
    from: Option<u64>,
    r: Result<SourceTrim, String>,
) -> bool {
    exists|b: Result<Option<u64>, String>| #[trigger]
        places(math, fps, which, end, b) && match b {
            Err(e) => r == Err::<SourceTrim, String>(e),
            Ok(to) => r == Ok::<SourceTrim, String>(retrimmed(trim, from, to)),
        }
}

/// A range with what its two flags say.
fn read_trim<P: Fn(&str) -> Option<F64>, T: Fn(u64, u64, F64) -> F64, C: Fn(F64, F64) -> u64>(
    trim: SourceTrim,
    start: &Option<String>,
    end: &Option<String>,
    which: &str,
    fps: F64,
    math: &TimeMath<P, T, C>,
) -> (r: Result<SourceTrim, String>)
    requires
        times_all(math),
    ensures
        trims(math, fps, which@, text_of(*start), text_of(*end), trim, r),
{
    let a = place(start, which, fps, math);
    assert(places(math, fps, which@, text_of(*start), a));
    let from = match a {
        Ok(from) => from,
        Err(e) => return Err(e),
    };
    let b = place(end, which, fps, math);
    assert(places(math, fps, which@, text_of(*end), b));
    let r = match b {
        Ok(to) => Ok(
            SourceTrim {
                start: given(from, trim.start),
                end: if to.is_some() {
                    to
                } else {
                    trim.end
                },
            },
        ),
        Err(e) => Err(e),
    };
    assert(trims_end(math, fps, which@, text_of(*end), trim, from, r));
    r
}

/// Where a size is taken apart: at its first `x` or `X`. Its length where it has
/// none.
pub open spec fn cross_at(s: Seq<char>) -> int
    decreases s.len(),
{
    if s.len() == 0 || s[0] == 'x' || s[0] == 'X' {
        0
    } else {
        1 + cross_at(s.skip(1))
    }
}

/// One edge of a size, or what is wrong with it.
pub open spec fn edge(v: Seq<char>, which: Seq<char>) -> Result<nat, Seq<char>> {
    match parsed_number(trimmed(v), usize::MAX as nat) {
        Some(n) => Ok(n),
        None => Err("--size "@ + which + " is not a number: "@ + quoted_text(v)),
    }
}

/// The size that a text names, or what is wrong with it.
pub open spec fn size_in(s: Seq<char>) -> Result<(nat, nat), Seq<char>> {
    if cross_at(s) == s.len() {
        Err("--size wants WxH, got "@ + quoted_text(s))
    } else {
        let (w, h) = (s.take(cross_at(s)), s.skip(cross_at(s) + 1));
        match (edge(w, "width"@), edge(h, "height"@)) {
            (Err(e), _) => Err(e),
            (_, Err(e)) => Err(e),
            (Ok(w), Ok(h)) => Ok((w, h)),
        }
    }
}

fn read_edge(v: &[char], which: &str) -> (r: Result<usize, String>)
    ensures
        match (r, edge(v@, which@)) {
            (Ok(n), Ok(m)) => n == m,
            (Err(e), Err(m)) => e@ == m,
            _ => false,
        },
{
    match parse_number(trim(v), usize::MAX as u64) {
        Some(n) => Ok(n as usize),
        None => {
            let shown = string_of(v);
            Err(
                "--size ".to_owned().concat(which).concat(" is not a number: ").concat(
                    quoted(shown.as_str()).as_str(),
                ),
            )
        },
    }
}

/// Whether a text and what it is said to hold agree.
pub open spec fn sizes(s: Seq<char>, r: Result<(usize, usize), String>) -> bool {
    match (r, size_in(s)) {
        (Ok(a), Ok(b)) => a.0 == b.0 && a.1 == b.1,
        (Err(e), Err(m)) => e@ == m,
        _ => false,
    }
}

/// Reads a size given as `WxH`.
pub fn parse_size(text: &str) -> (r: Result<(usize, usize), String>)
    ensures
        sizes(text@, r),
{
    let chars = chars_of(text);
    let mut at: usize = 0;
    assert(chars@.skip(0) =~= chars@);
    while at < chars.len() && chars[at] != 'x' && chars[at] != 'X'
        invariant
            at <= chars@.len(),
            cross_at(chars@) == at + cross_at(chars@.skip(at as int)),
        decreases chars@.len() - at,
    {
        assert(chars@.skip(at as int).skip(1) =~= chars@.skip(at + 1));
        at += 1;
    }
    assert(cross_at(chars@) == at);
    if at == chars.len() {
        return Err("--size wants WxH, got ".to_owned().concat(quoted(text).as_str()));
    }
    let w = vstd::slice::slice_subrange(chars.as_slice(), 0, at);
    let h = vstd::slice::slice_subrange(chars.as_slice(), at + 1, chars.len());
    assert(w@ =~= chars@.take(at as int));
    assert(h@ =~= chars@.skip(at + 1));
    match read_edge(w, "width") {
        Err(e) => Err(e),
        Ok(width) => match read_edge(h, "height") {
            Err(e) => Err(e),
            Ok(height) => Ok((width, height)),
        },
    }
}

/// A size survives being written down and read back.
pub proof fn law_sizes_round_trip(w: usize, h: usize)
    ensures
        size_in(size_text(w as nat, h as nat)) == Ok::<(nat, nat), Seq<char>>((w as nat, h as nat)),
{
    reveal_strlit("x");
    let (a, b) = (decimal_text(w as nat), decimal_text(h as nat));
    let s = size_text(w as nat, h as nat);
    crate::text::law_decimal_round_trips(w as nat, usize::MAX as nat);
    crate::text::law_decimal_round_trips(h as nat, usize::MAX as nat);
    crate::text::lemma_decimal_digits(w as nat);
    crate::text::lemma_decimal_digits(h as nat);
    assert(s =~= a + seq!['x'] + b);
    lemma_cross_behind_digits(a, b);
    assert(s.take(a.len() as int) =~= a);
    assert(s.skip(a.len() as int + 1) =~= b);
    lemma_digits_are_trimmed(a);
    lemma_digits_are_trimmed(b);
}

/// The `x` behind a run of digits is the first one.
proof fn lemma_cross_behind_digits(a: Seq<char>, b: Seq<char>)
    requires
        crate::text::all_digits(a),
    ensures
        cross_at(a + seq!['x'] + b) == a.len(),
    decreases a.len(),
{
    let s = a + seq!['x'] + b;
    if a.len() > 0 {
        assert(crate::text::is_digit(a[0]));
        assert(s.skip(1) =~= a.skip(1) + seq!['x'] + b);
        assert forall|i: int| 0 <= i < a.skip(1).len() implies crate::text::is_digit(
            #[trigger] a.skip(1)[i],
        ) by {
            assert(crate::text::is_digit(a[i + 1]));
        }
        lemma_cross_behind_digits(a.skip(1), b);
    }
}

/// Digits have nothing to trim.
proof fn lemma_digits_are_trimmed(s: Seq<char>)
    requires
        s.len() > 0,
        crate::text::all_digits(s),
    ensures
        trimmed(s) == s,
{
    assert(crate::text::is_digit(s[0]));
    assert(crate::text::is_digit(s.last()));
}

/// Settings with their three ranges.
pub open spec fn ranged(
    p: ConvertParams,
    a: SourceTrim,
    c: SourceTrim,
    m: SourceTrim,
) -> ConvertParams {
    ConvertParams { anaglyph_trim: a, colour_trim: c, mono_trim: m, ..p }
}

/// `r` is what the flags come to once everything but the finished size is known.
pub open spec fn sizes_params<F: Fn(F32) -> String>(
    show: F,
    text: Option<Seq<char>>,
    p: ConvertParams,
    r: Result<ConvertParams, String>,
) -> bool {
    match text {
        None => checks_params(show, p, r),
        Some(text) => resizes_params(show, text, p, r),
    }
}

/// `r` is what the flags come to with a finished size among them.
pub open spec fn resizes_params<F: Fn(F32) -> String>(
    show: F,
    text: Seq<char>,
    p: ConvertParams,
    r: Result<ConvertParams, String>,
) -> bool {
    exists|read: Result<(usize, usize), String>| #[trigger]
        sizes(text, read) && match read {
            Err(e) => r == Err::<ConvertParams, String>(e),
            Ok(size) => checks_params(show, ConvertParams { output_size: Some(size), ..p }, r),
        }
}

/// `r` is finished settings, or what is wrong with them.
pub open spec fn checks_params<F: Fn(F32) -> String>(
    show: F,
    p: ConvertParams,
    r: Result<ConvertParams, String>,
) -> bool {
    match p.fault() {
        None => r == Ok::<ConvertParams, String>(p),
        Some(fault) => r matches Err(e) && tells(show, fault, e@),
    }
}

/// `r` is what the flags come to, a preset underneath: the plain flags, then the
/// range of the anaglyph, of the colour source and of the 2D eye, then the size of
/// the finished frame, and the whole of it valid. The first thing that is wrong is
/// what is said.
pub open spec fn builds<
    P: Fn(&str) -> Option<F64>,
    T: Fn(u64, u64, F64) -> F64,
    C: Fn(F64, F64) -> u64,
    F: Fn(F32) -> String,
>(
    math: &TimeMath<P, T, C>,
    show: F,
    args: RenderArgs,
    preset: ConvertParams,
    fps: F64,
    r: Result<ConvertParams, String>,
) -> bool {
    let p = args.over(preset);
    exists|a: Result<SourceTrim, String>| #[trigger]
        trims(
            math,
            fps,
            "--start"@,
            text_of(args.start),
            text_of(args.end),
            p.anaglyph_trim,
            a,
        ) && match a {
            Err(e) => r == Err::<ConvertParams, String>(e),
            Ok(main) => builds_colour(math, show, args, p, fps, main, r),
        }
}

/// `r` is what the flags come to once the range of the anaglyph is known.
pub open spec fn builds_colour<
    P: Fn(&str) -> Option<F64>,
    T: Fn(u64, u64, F64) -> F64,
    C: Fn(F64, F64) -> u64,
    F: Fn(F32) -> String,
>(
    math: &TimeMath<P, T, C>,
    show: F,
    args: RenderArgs,
    p: ConvertParams,
    fps: F64,
    main: SourceTrim,
    r: Result<ConvertParams, String>,
) -> bool {
    exists|a: Result<SourceTrim, String>| #[trigger]
        trims(
            math,
            fps,
            "--colour-start"@,
            text_of(args.colour_start),
            text_of(args.colour_end),
            p.colour_trim,
            a,
        ) && match a {
            Err(e) => r == Err::<ConvertParams, String>(e),
            Ok(colour) => builds_mono(math, show, args, p, fps, main, colour, r),
        }
}

/// `r` is what the flags come to once two ranges are known.
pub open spec fn builds_mono<
    P: Fn(&str) -> Option<F64>,
    T: Fn(u64, u64, F64) -> F64,
    C: Fn(F64, F64) -> u64,
    F: Fn(F32) -> String,
>(
    math: &TimeMath<P, T, C>,
    show: F,
    args: RenderArgs,
    p: ConvertParams,
    fps: F64,
    main: SourceTrim,
    colour: SourceTrim,
    r: Result<ConvertParams, String>,
) -> bool {
    exists|a: Result<SourceTrim, String>| #[trigger]
        trims(
            math,
            fps,
            "--mono-start"@,
            text_of(args.mono_start),
            text_of(args.mono_end),
            p.mono_trim,
            a,
        ) && match a {
            Err(e) => r == Err::<ConvertParams, String>(e),
            Ok(mono) => sizes_params(
                show,
                text_of(args.size),
                ranged(p, main, colour, mono),
                r,
            ),
        }
}

/// The settings the flags come to: preset first, then explicit flags on top.
pub fn build_params<
    P: Fn(&str) -> Option<F64>,
    T: Fn(u64, u64, F64) -> F64,
    C: Fn(F64, F64) -> u64,
    F: Fn(F32) -> String,
>(
    args: &RenderArgs,
    preset: &ConvertParams,
    fps: F64,
    math: &TimeMath<P, T, C>,
    show: &F,
) -> (r: Result<ConvertParams, String>)
    requires
        times_all(math),
        forall|v: F32| #[trigger] call_requires(*show, (v,)),
    ensures
        builds(math, *show, *args, *preset, fps, r),
{
    let mut params = override_params(args, preset);
    let ghost p = params;
    let main = read_trim(params.anaglyph_trim, &args.start, &args.end, "--start", fps, math);
    assert(trims(math, fps, "--start"@, text_of(args.start), text_of(args.end), p.anaglyph_trim, main));
    let main = match main {
        Ok(main) => main,
        Err(e) => return Err(e),
    };
    let colour = read_trim(
        params.colour_trim,
        &args.colour_start,
        &args.colour_end,
        "--colour-start",
        fps,
        math,
    );
    assert(trims(
        math,
        fps,
        "--colour-start"@,
        text_of(args.colour_start),
        text_of(args.colour_end),
        p.colour_trim,
        colour,
    ));
    let colour = match colour {
        Ok(colour) => colour,
        Err(e) => {
            let r = Err(e);
            assert(builds_colour(math, *show, *args, p, fps, main, r));
            return r;
        },
    };
    let mono = read_trim(
        params.mono_trim,
        &args.mono_start,
        &args.mono_end,
        "--mono-start",
        fps,
        math,
    );
    assert(trims(
        math,
        fps,
        "--mono-start"@,
        text_of(args.mono_start),
        text_of(args.mono_end),
        p.mono_trim,
        mono,
    ));
    let mono = match mono {
        Ok(mono) => mono,
        Err(e) => {
            let r = Err(e);
            assert(builds_mono(math, *show, *args, p, fps, main, colour, r));
            assert(builds_colour(math, *show, *args, p, fps, main, r));
            return r;
        },
    };
    params.anaglyph_trim = main;
    params.colour_trim = colour;
    params.mono_trim = mono;
    assert(params == ranged(p, main, colour, mono));
    let r = finish_params(params, &args.size, show);
    assert(builds_mono(math, *show, *args, p, fps, main, colour, r));
    assert(builds_colour(math, *show, *args, p, fps, main, r));
    r
}

/// Adds the size of the finished frame and checks the whole.
fn finish_params<F: Fn(F32) -> String>(params: ConvertParams, size: &Option<String>, show: &F) -> (r:
    Result<ConvertParams, String>)
    requires
        forall|v: F32| #[trigger] call_requires(*show, (v,)),
    ensures
        sizes_params(*show, text_of(*size), params, r),
{
    match size {
        Some(text) => {
            let read = parse_size(text.as_str());
            assert(sizes(text@, read));
            let r = match read {
                Ok(size) => check_params(ConvertParams { output_size: Some(size), ..params }, show),
                Err(e) => Err(e),
            };
            assert(resizes_params(*show, text@, params, r));
            r
        },
        None => check_params(params, show),
    }
}

/// Lets valid settings through.
fn check_params<F: Fn(F32) -> String>(params: ConvertParams, show: &F) -> (r: Result<
    ConvertParams,
    String,
>)
    requires
        forall|v: F32| #[trigger] call_requires(*show, (v,)),
    ensures
        checks_params(*show, params, r),
{
    match params.validate() {
        Ok(()) => Ok(params),
        Err(e) => Err(e.message(show)),
    }
}

/// Settings that come out of the flags are valid, whatever was given.
pub proof fn law_built_settings_are_valid<
    P: Fn(&str) -> Option<F64>,
    T: Fn(u64, u64, F64) -> F64,
    C: Fn(F64, F64) -> u64,
    F: Fn(F32) -> String,
>(
    math: &TimeMath<P, T, C>,
    show: F,
    args: RenderArgs,
    preset: ConvertParams,
    fps: F64,
    r: Result<ConvertParams, String>,
)
    requires
        builds(math, show, args, preset, fps, r),
    ensures
        r matches Ok(p) ==> p.fault() is None,
{
}

/// Flags that say nothing leave a preset as it is, whatever its input.
pub proof fn law_absent_flags_leave_the_preset(args: RenderArgs, preset: ConvertParams)
    requires
        args.source is None && !args.anamorphic,
        args.format is None && args.output_format is None && args.layout is None,
        args.eye_order is None && !args.swap_eyes,
        args.decimate_horiz is None && args.decimate_vert is None,
        args.leak_left is None && args.leak_right is None && args.convergence is None,
        args.mono_eye == MonoEye::Neither,
    ensures
        args.over(preset) == preset,
{
}

/// The rate a film is converted at: its own where it reports one, so that the
/// audio does not drift, and otherwise that of cinema.
pub open spec fn working_rate(fps: F64) -> F64 {
    if fps.above_zero() {
        fps
    } else {
        F64 { bits: FILM_RATE }
    }
}

/// The rate a film is converted at: its own where it reports one, so that the
/// audio does not drift, and otherwise that of cinema.
pub fn frame_rate(fps: F64) -> (r: F64)
    ensures
        r == working_rate(fps),
{
    if fps.is_above_zero() {
        fps
    } else {
        F64 { bits: FILM_RATE }
    }
}

/// `job` is what the command asks for.
pub open spec fn job_for(args: RenderArgs, info: VideoInfo, params: ConvertParams, job: RenderJob) -> bool {
    &&& job.anaglyph@ == args.input@
    &&& text_of(job.right_eye) == text_of(args.right_eye)
    &&& text_of(job.colour) == (if args.colour is Some {
        text_of(args.colour)
    } else {
        text_of(args.mono)
    })
    &&& text_of(job.mono) == text_of(args.mono)
    &&& text_of(job.audio) == (if args.audio is Some {
        text_of(args.audio)
    } else if info.has_audio {
        Some(args.input@)
    } else {
        None
    })
    &&& job.output@ == args.out@
    &&& job.params == params
    &&& job.encode == (EncodeSettings {
        codec: args.codec,
        quality: args.quality,
        fps: working_rate(info.fps),
        ..crate::encode::default_settings()
    })
}

/// Makes the job the command asks for.
///
/// The audio defaults to the anaglyph, which is what almost everyone wants, but
/// only when it actually has a track: plenty of anaglyph rips are silent. A 2D
/// release that is one of the eyes is also the best colour reference for the
/// other, so naming it once is enough.
pub fn make_job(args: &RenderArgs, info: &VideoInfo, params: ConvertParams) -> (job: RenderJob)
    ensures
        job_for(*args, *info, params, job),
{
    let audio = match &args.audio {
        Some(path) => Some(path.clone()),
        None => if info.has_audio {
            Some(args.input.clone())
        } else {
            None
        },
    };
    let colour = match &args.colour {
        Some(path) => Some(path.clone()),
        None => args.mono.clone(),
    };
    let mut encode = EncodeSettings::default();
    encode.codec = args.codec;
    encode.quality = args.quality;
    encode.fps = frame_rate(info.fps);
    RenderJob {
        anaglyph: args.input.clone(),
        right_eye: args.right_eye.clone(),
        colour,
        mono: args.mono.clone(),
        audio,
        output: args.out.clone(),
        params,
        encode,
    }
}

/// What a run says once it is over; `time` and `rate` are how long it took and how
/// fast it was, as they are to be shown.
pub fn closing_line(summary: &RenderSummary, time: &str, rate: &str) -> (text: String)
    ensures
        text@ == verb(summary.cancelled) + " "@ + decimal_text(summary.frames as nat)
            + " frames in "@ + time@ + "s ("@ + rate@ + " fps)"@,
{
    let verb = if summary.cancelled {
        "stopped after"
    } else {
        "converted"
    };
    verb.to_owned().concat(" ").concat(decimal(summary.frames).as_str()).concat(
        " frames in ",
    ).concat(time).concat("s (").concat(rate).concat(" fps)")
}

/// The exit status of a run. A cancelled run leaves a partial file, so it must not
/// look like success to a script that only checks the status.
pub fn exit_status(summary: &RenderSummary) -> (code: u8)
    ensures
        code == (if summary.cancelled {
            130u8
        } else {
            0u8
        }),
{
    if summary.cancelled {
        130
    } else {
        0
    }
}

/// `text` is a time in seconds, readable at a glance.
pub open spec fn reads_duration<R: Fn(F64) -> u64>(round: R, seconds: F64, text: Seq<char>) -> bool {
    if !seconds.finite() || seconds.below_zero() {
        text == "?"@
    } else {
        exists|n: u64| #[trigger] call_ensures(round, (seconds,), n) && text == duration_text(n as nat)
    }
}

/// Turns a time in seconds into something readable at a glance; `round` is to the
/// nearest whole second.
pub fn format_duration<R: Fn(F64) -> u64>(seconds: F64, round: &R) -> (text: String)
    requires
        forall|t: F64| #[trigger] call_requires(*round, (t,)),
    ensures
        reads_duration(*round, seconds, text@),
{
    if !seconds.is_finite() || seconds.is_below_zero() {
        return "?".to_owned();
    }
    let n: u64 = round(seconds);
    assert(call_ensures(*round, (seconds,), n));
    crate::progress::format_duration(n)
}

/// How long to leave the progress line alone, in milliseconds. Redrawing every
/// frame would spend more time on the terminal than on the conversion.
pub const REDRAW_AFTER: u64 = 100;

/// Draws a single progress line, rewritten in place. Times are in milliseconds.
#[derive(Debug, Clone, Copy)]
pub struct ProgressReporter {
    pub started: u64,
    pub last_drawn: u64,
}

/// The arithmetic of the progress line.
pub struct ReportMath<V, X, W, L, R> {
    /// Frames per second, of so many frames in so many milliseconds.
    pub rate: V,
    /// How many in a hundred, of so many of so many, as it is to be shown.
    pub percent: X,
    /// A rate, as it is to be shown.
    pub show: W,
    /// How long so many frames take at a rate.
    pub left: L,
    /// A time to the nearest second.
    pub round: R,
}

/// The arithmetic takes every number.
pub open spec fn reports_all<
    V: Fn(u64, u64) -> F64,
    X: Fn(u64, u64) -> String,
    W: Fn(F64) -> String,
    L: Fn(u64, F64) -> F64,
    R: Fn(F64) -> u64,
>(math: &ReportMath<V, X, W, L, R>) -> bool {
    &&& forall|n: u64, t: u64| #[trigger] call_requires(math.rate, (n, t))
    &&& forall|a: u64, b: u64| #[trigger] call_requires(math.percent, (a, b))
    &&& forall|v: F64| #[trigger] call_requires(math.show, (v,))
    &&& forall|n: u64, v: F64| #[trigger] call_requires(math.left, (n, v))
    &&& forall|t: F64| #[trigger] call_requires(math.round, (t,))
}

/// How a piece of text is to be written to the terminal.
#[derive(Debug)]
pub enum Line {
    /// On a line of its own.
    Whole(String),
    /// Over what the progress line showed before.
    Redrawn(String),
}

/// The time between two moments; none where the clock has gone back.
pub open spec fn since(then: u64, now: u64) -> u64 {
    if then < now {
        (now - then) as u64
    } else {
        0
    }
}

fn elapsed(then: u64, now: u64) -> (r: u64)
    ensures
        r == since(then, now),
{
    if then < now {
        now - then
    } else {
        0
    }
}

/// The first line of a run.
pub open spec fn started_text(total: Option<u64>, width: nat, height: nat) -> Seq<char> {
    size_text(width, height) + ", "@ + match total {
        Some(n) => decimal_text(n as nat) + " frames"@,
        None => "length unknown"@,
    }
}

/// `text` is the progress line after so many frames.
pub open spec fn progress_line<
    V: Fn(u64, u64) -> F64,
    X: Fn(u64, u64) -> String,
    W: Fn(F64) -> String,
    L: Fn(u64, F64) -> F64,
    R: Fn(F64) -> u64,
>(
    math: &ReportMath<V, X, W, L, R>,
    done: u64,
    total: Option<u64>,
    elapsed: u64,
    text: Seq<char>,
) -> bool {
    exists|rate: F64, shown: String| #[trigger]
        call_ensures(math.rate, (done, elapsed), rate) && #[trigger] call_ensures(
            math.show,
            (rate,),
            shown,
        ) && match total {
            Some(total) => if total > 0 {
                full_line(math, done, total, rate, shown@, text)
            } else {
                text == "  "@ + decimal_text(done as nat) + " frames, "@ + shown@ + " fps    "@
            },
            None => text == "  "@ + decimal_text(done as nat) + " frames, "@ + shown@ + " fps    "@,
        }
}

/// How many frames of a run are still to come.
pub open spec fn still_to_come(done: u64, total: u64) -> u64 {
    if done < total {
        (total - done) as u64
    } else {
        0
    }
}

/// `text` is the progress line of a run whose length is known.
pub open spec fn full_line<
    V: Fn(u64, u64) -> F64,
    X: Fn(u64, u64) -> String,
    W: Fn(F64) -> String,
    L: Fn(u64, F64) -> F64,
    R: Fn(F64) -> u64,
>(
    math: &ReportMath<V, X, W, L, R>,
    done: u64,
    total: u64,
    rate: F64,
    shown: Seq<char>,
    text: Seq<char>,
) -> bool {
    exists|percent: String, left: F64, time: Seq<char>| #[trigger]
        call_ensures(math.percent, (done, total), percent) && #[trigger] call_ensures(
            math.left,
            (still_to_come(done, total), rate),
            left,
        ) && #[trigger] reads_duration(math.round, left, time) && text == "  "@ + decimal_text(
            done as nat,
        ) + "/"@ + decimal_text(total as nat) + " ("@ + percent@ + "%) "@ + shown + " fps, "@ + time
            + " left    "@
}

impl ProgressReporter {
    pub fn new(started: u64) -> (r: Self)
        ensures
            r.started == started,
            r.last_drawn == started,
    {
        ProgressReporter { started, last_drawn: started }
    }

    /// What to write of a report that comes in at `now`, if anything.
    pub fn report<
        V: Fn(u64, u64) -> F64,
        X: Fn(u64, u64) -> String,
        W: Fn(F64) -> String,
        L: Fn(u64, F64) -> F64,
        R: Fn(F64) -> u64,
    >(&mut self, progress: &Progress, now: u64, math: &ReportMath<V, X, W, L, R>) -> (r: Option<Line>)
        requires
            reports_all(math),
        ensures
            final(self).started == old(self).started,
            final(self).last_drawn == (if progress is Frame && since(old(self).last_drawn, now)
                >= REDRAW_AFTER {
                now
            } else {
                old(self).last_drawn
            }),
            match *progress {
                Progress::Started { total_frames, width, height } => r matches Some(
                    Line::Whole(text),
                ) && text@ == started_text(total_frames, width as nat, height as nat),
                Progress::Frame { done, total } => if since(old(self).last_drawn, now) < REDRAW_AFTER {
                    r is None
                } else {
                    r matches Some(Line::Redrawn(text)) && progress_line(
                        math,
                        done,
                        total,
                        since(old(self).started, now),
                        text@,
                    )
                },
                Progress::Note(message) => r matches Some(Line::Whole(text)) && text@ == "note: "@
                    + message@,
                Progress::Finished { .. } => r is None,
            },
    {
        match progress {
            Progress::Started { total_frames, width, height } => {
                let text = size(*width, *height).concat(", ");
                let length = match total_frames {
                    Some(n) => decimal(*n).concat(" frames"),
                    None => "length unknown".to_owned(),
                };
                Some(Line::Whole(text.concat(length.as_str())))
            },
            Progress::Frame { done, total } => {
                if elapsed(self.last_drawn, now) < REDRAW_AFTER {
                    return None;
                }
                self.last_drawn = now;
                Some(Line::Redrawn(draw_line(*done, *total, elapsed(self.started, now), math)))
            },
            Progress::Note(message) => Some(
                Line::Whole("note: ".to_owned().concat(message.as_str())),
            ),
            Progress::Finished { frames: _, cancelled: _ } => None,
        }
    }
}

/// The progress line after so many frames.
fn draw_line<
    V: Fn(u64, u64) -> F64,
    X: Fn(u64, u64) -> String,
    W: Fn(F64) -> String,
    L: Fn(u64, F64) -> F64,
    R: Fn(F64) -> u64,
>(done: u64, total: Option<u64>, elapsed: u64, math: &ReportMath<V, X, W, L, R>) -> (text: String)
    requires
        reports_all(math),
    ensures
        progress_line(math, done, total, elapsed, text@),
{
    let rate = (math.rate)(done, elapsed);
    let shown = (math.show)(rate);
    assert(call_ensures(math.rate, (done, elapsed), rate));
    assert(call_ensures(math.show, (rate,), shown));
    if let Some(total) = total {
        if total > 0 {
            let remaining: u64 = if done < total {
                total - done
            } else {
                0
            };
            let percent = (math.percent)(done, total);
            let left = (math.left)(remaining, rate);
            let time = format_duration(left, &math.round);
            assert(call_ensures(math.percent, (done, total), percent));
            assert(call_ensures(math.left, (still_to_come(done, total), rate), left));
            assert(reads_duration(math.round, left, time@));
            let text = "  ".to_owned().concat(decimal(done).as_str()).concat("/").concat(
                decimal(total).as_str(),
            ).concat(" (").concat(percent.as_str()).concat("%) ").concat(shown.as_str()).concat(
                " fps, ",
            ).concat(time.as_str()).concat(" left    ");
            assert(full_line(math, done, total, rate, shown@, text@));
            return text;
        }
    }
    "  ".to_owned().concat(decimal(done).as_str()).concat(" frames, ").concat(
        shown.as_str(),
    ).concat(" fps    ")
}

/// What the probe command works out of a file, as it is to be shown.
#[derive(Debug)]
pub struct ProbeFacts {
    pub frame_rate: String,
    /// How many frames there are, where that can be told.
    pub frames: Option<u64>,
    /// The shape of one stored pixel.
    pub pixel_shape: String,
    /// Whether that is square.
    pub square: bool,
    /// The shape the film is seen at.
    pub displays: String,
    /// How wide the film is in square pixels.
    pub square_width: String,
    /// The shapes that results in three layouts are seen at.
    pub side_by_side: String,
    pub top_bottom: String,
    pub left_only: String,
    /// How long the film is.
    pub length: String,
}

/// Text filled up with spaces to a width.
pub open spec fn padded(text: Seq<char>, width: nat) -> Seq<char>
    decreases width - text.len(),
{
    if text.len() >= width {
        text
    } else {
        padded(text.push(' '), width)
    }
}

fn pad(text: &str, width: usize) -> (r: String)
    ensures
        r@ == padded(text@, width as nat),
{
    let mut r = text.to_owned();
    let mut len: usize = chars_of(text).len();
    while len < width
        invariant
            len == r@.len(),
            padded(r@, width as nat) == padded(text@, width as nat),
        decreases width - len,
    {
        r.push(' ');
        len += 1;
    }
    r
}

/// The settings a film is first offered, in some layout.
pub open spec fn default_in(layout: OutputLayout) -> ConvertParams {
    ConvertParams { layout, ..crate::params::default_params() }
}

/// What a conversion to a layout would write of a source of a size.
pub open spec fn layout_line(layout: OutputLayout, w: nat, h: nat, shape: Seq<char>) -> Seq<char> {
    let (out_w, out_h) = default_in(layout).geometry(w, h);
    "    as "@ + padded(layout.label_text(), 14) + " "@ + size_text(out_w, out_h) + " displaying "@
        + shape + ":1"@
}

fn write_layout(layout: OutputLayout, source: (usize, usize), shape: &str) -> (text: String)
    requires
        source.0 <= MAX_DIMENSION,
        source.1 <= MAX_DIMENSION,
    ensures
        text@ == layout_line(layout, source.0 as nat, source.1 as nat, shape@),
{
    let mut params = ConvertParams::default();
    params.layout = layout;
    proof {
        crate::scalar::lemma_percent_of_is_a_part(source.0 as nat, params.convergence);
    }
    let (w, h) = params.output_geometry(source);
    "    as ".to_owned().concat(pad(layout.label(), 14).as_str()).concat(" ").concat(
        size(w, h).as_str(),
    ).concat(" displaying ").concat(shape).concat(":1")
}

/// What the probe command says of a file.
pub open spec fn probe_text(path: Seq<char>, info: VideoInfo, facts: ProbeFacts) -> Seq<Seq<char>> {
    let (w, h) = (info.width as nat, info.height as nat);
    let lines = seq![
        path,
        "  size        "@ + size_text(w, h),
        "  frame rate  "@ + facts.frame_rate@ + " fps"@,
        "  frames      "@ + match facts.frames {
            Some(n) => decimal_text(n as nat),
            None => "unknown"@,
        },
        "  pixels      "@ + info.pix_fmt@ + " ("@ + decimal_text(info.bit_depth as nat) + "-bit)"@,
        "  pixel shape "@ + facts.pixel_shape@ + (if facts.square {
            " (square)"@
        } else {
            " (not square)"@
        }),
        "  displays at "@ + facts.displays@ + ":1  ("@ + facts.square_width@ + "x"@ + decimal_text(h)
            + " of square pixels)"@,
        layout_line(OutputLayout::SideBySide, w, h, facts.side_by_side@),
        layout_line(OutputLayout::TopBottom, w, h, facts.top_bottom@),
        layout_line(OutputLayout::LeftOnly, w, h, facts.left_only@),
        "  audio       "@ + (if info.has_audio {
            "yes"@
        } else {
            "no"@
        }),
    ];
    if facts.frames is Some {
        lines.push("  length      "@ + facts.length@)
    } else {
        lines
    }
}

/// What the probe command says of a file, line by line.
pub fn probe_lines(path: &str, info: &VideoInfo, facts: &ProbeFacts) -> (lines: Vec<String>)
    requires
        info.width <= MAX_DIMENSION,
        info.height <= MAX_DIMENSION,
    ensures
        texts(lines@) == probe_text(path@, *info, *facts),
{
    let source = (info.width, info.height);
    let frames = match facts.frames {
        Some(n) => decimal(n),
        None => "unknown".to_owned(),
    };
    let square = if facts.square {
        " (square)"
    } else {
        " (not square)"
    };
    let audio = if info.has_audio {
        "yes"
    } else {
        "no"
    };
    let mut lines: Vec<String> = Vec::new();
    lines.push(path.to_owned());
    lines.push("  size        ".to_owned().concat(size(info.width, info.height).as_str()));
    lines.push("  frame rate  ".to_owned().concat(facts.frame_rate.as_str()).concat(" fps"));
    lines.push("  frames      ".to_owned().concat(frames.as_str()));
    lines.push(
        "  pixels      ".to_owned().concat(info.pix_fmt.as_str()).concat(" (").concat(
            decimal(info.bit_depth as u64).as_str(),
        ).concat("-bit)"),
    );
    lines.push("  pixel shape ".to_owned().concat(facts.pixel_shape.as_str()).concat(square));
    lines.push(
        "  displays at ".to_owned().concat(facts.displays.as_str()).concat(":1  (").concat(
            facts.square_width.as_str(),
        ).concat("x").concat(decimal(info.height as u64).as_str()).concat(" of square pixels)"),
    );
    lines.push(write_layout(OutputLayout::SideBySide, source, facts.side_by_side.as_str()));
    lines.push(write_layout(OutputLayout::TopBottom, source, facts.top_bottom.as_str()));
    lines.push(write_layout(OutputLayout::LeftOnly, source, facts.left_only.as_str()));
    lines.push("  audio       ".to_owned().concat(audio));
    if facts.frames.is_some() {
        lines.push("  length      ".to_owned().concat(facts.length.as_str()));
    }
    assert(texts(lines@) =~= probe_text(path@, *info, *facts));
    lines
}

/// How a trial run of ffmpeg went.
#[derive(Debug)]
pub enum Trial {
    /// It ran and said this.
    Ran(String),
    /// It ran, failed and complained like this.
    Refused(String),
    /// It could not be started, for this reason.
    Failed(String),
}

/// What the tool check says.
#[derive(Debug)]
pub struct ToolsReport {
    pub lines: Vec<String>,
    /// What is wrong, if anything.
    pub trouble: Option<String>,
    /// The exit status.
    pub status: u8,
}

pub open spec fn found_text(source: ToolSource) -> Seq<char> {
    match source {
        ToolSource::Override => "Override"@,
        ToolSource::Bundled => "Bundled"@,
        ToolSource::SystemPath => "SystemPath"@,
    }
}

/// How a pair of tools was found, in one word.
pub fn found_as(source: ToolSource) -> (r: &'static str)
    ensures
        r@ == found_text(source),
{
    match source {
        ToolSource::Override => "Override",
        ToolSource::Bundled => "Bundled",
        ToolSource::SystemPath => "SystemPath",
    }
}

/// Where the first line break is; the length of the text where there is none.
pub open spec fn break_at(s: Seq<char>) -> int
    decreases s.len(),
{
    if s.len() == 0 || s[0] == '\n' {
        0
    } else {
        1 + break_at(s.skip(1))
    }
}

/// The first line of a text, without its line break.
pub open spec fn first_line(s: Seq<char>) -> Seq<char> {
    let at = break_at(s);
    if 0 < at < s.len() && s[at - 1] == '\r' {
        s.take(at - 1)
    } else {
        s.take(at)
    }
}

fn read_first_line(s: &[char]) -> (r: String)
    ensures
        r@ == first_line(s@),
{
    let mut at: usize = 0;
    assert(s@.skip(0) =~= s@);
    while at < s.len() && s[at] != '\n'
        invariant
            at <= s@.len(),
            break_at(s@) == at + break_at(s@.skip(at as int)),
        decreases s@.len() - at,
    {
        assert(s@.skip(at as int).skip(1) =~= s@.skip(at + 1));
        at += 1;
    }
    assert(break_at(s@) == at);
    let end: usize = if at < s.len() && at > 0 && s[at - 1] == '\r' {
        at - 1
    } else {
        at
    };
    let line = vstd::slice::slice_subrange(s, 0, end);
    assert(line@ =~= first_line(s@));
    string_of(line)
}

/// Where the tools are, as it is said.
pub open spec fn places_of(tools: FfmpegTools, source: ToolSource) -> Seq<Seq<char>> {
    seq![
        "ffmpeg   "@ + tools.ffmpeg@,
        "ffprobe  "@ + tools.ffprobe@,
        "found as "@ + found_text(source),
    ]
}

/// Says where the conversion tools were found and whether they run.
pub fn report_tools(tools: &FfmpegTools, source: ToolSource, trial: &Trial) -> (r: ToolsReport)
    ensures
        match *trial {
            Trial::Ran(said) => {
                &&& texts(r.lines@) == places_of(*tools, source).push(
                    "running  "@ + (if said@.len() == 0 {
                        "?"@
                    } else {
                        first_line(said@)
                    }),
                )
                &&& r.trouble is None
                &&& r.status == 0
            },
            Trial::Refused(said) => {
                &&& texts(r.lines@) == places_of(*tools, source)
                &&& text_of(r.trouble) == Some("it will not run: "@ + trimmed(said@))
                &&& r.status == 1
            },
            Trial::Failed(reason) => {
                &&& texts(r.lines@) == places_of(*tools, source)
                &&& text_of(r.trouble) == Some("it will not run: "@ + reason@)
                &&& r.status == 1
            },
        },
{
    let mut lines: Vec<String> = Vec::new();
    lines.push("ffmpeg   ".to_owned().concat(tools.ffmpeg.as_str()));
    lines.push("ffprobe  ".to_owned().concat(tools.ffprobe.as_str()));
    lines.push("found as ".to_owned().concat(found_as(source)));
    assert(texts(lines@) =~= places_of(*tools, source));
    let ghost places = lines@;
    match trial {
        Trial::Ran(said) => {
            let chars = chars_of(said.as_str());
            let first = if chars.len() == 0 {
                "?".to_owned()
            } else {
                read_first_line(chars.as_slice())
            };
            lines.push("running  ".to_owned().concat(first.as_str()));
            assert(texts(lines@) =~= texts(places).push(lines@.last()@));
            ToolsReport { lines, trouble: None, status: 0 }
        },
        Trial::Refused(said) => {
            let chars = chars_of(said.as_str());
            let heard = string_of(trim(chars.as_slice()));
            let trouble = "it will not run: ".to_owned().concat(heard.as_str());
            ToolsReport { lines, trouble: Some(trouble), status: 1 }
        },
        Trial::Failed(reason) => {
            let trouble = "it will not run: ".to_owned().concat(reason.as_str());
            ToolsReport { lines, trouble: Some(trouble), status: 1 }
        },
    }
}

/// A range that came out of its two flags: each end that a flag gives is the frame
/// the flag names, each end that none gives is what it was.
proof fn lemma_trimmed_by_its_flags<
    P: Fn(&str) -> Option<F64>,
    T: Fn(u64, u64, F64) -> F64,
    C: Fn(F64, F64) -> u64,
>(
    math: &TimeMath<P, T, C>,
    fps: F64,
    which: Seq<char>,
    start: Option<Seq<char>>,
    end: Option<Seq<char>>,
    trim: SourceTrim,
    out: SourceTrim,
)
    requires
        trims(math, fps, which, start, end, trim, Ok::<SourceTrim, String>(out)),
    ensures
        start matches Some(t) ==> reads_position(math, fps, t, Ok::<u64, String>(out.start)),
        start is None ==> out.start == trim.start,
        end matches Some(t) ==> out.end matches Some(n) && reads_position(
            math,
            fps,
            t,
            Ok::<u64, String>(n),
        ),
        end is None ==> out.end == trim.end,
{
}

/// A flag that carries a value wins over the preset, each over the setting it is named
/// after, and a flag that is not given leaves its setting as the preset has it.
pub proof fn law_a_given_flag_wins<
    P: Fn(&str) -> Option<F64>,
    T: Fn(u64, u64, F64) -> F64,
    C: Fn(F64, F64) -> u64,
    F: Fn(F32) -> String,
>(
    args: &RenderArgs,
    preset: &ConvertParams,
    fps: F64,
    math: &TimeMath<P, T, C>,
    show: &F,
    p: ConvertParams,
)
    requires
        call_ensures(
            build_params::<P, T, C, F>,
            (args, preset, fps, math, show),
            Ok::<ConvertParams, String>(p),
        ),
    ensures
        p.input_format == (match args.format {
            Some(v) => v,
            None => preset.input_format,
        }),
        p.output_format == (match args.output_format {
            Some(v) => v,
            None => preset.output_format,
        }),
        p.layout == (match args.layout {
            Some(v) => v,
            None => preset.layout,
        }),
        p.eye_order == (match args.eye_order {
            Some(v) => v,
            None => preset.eye_order,
        }),
        p.decimate_horiz == (match args.decimate_horiz {
            Some(v) => v,
            None => preset.decimate_horiz,
        }),
        p.decimate_vert == (match args.decimate_vert {
            Some(v) => v,
            None => preset.decimate_vert,
        }),
        p.leak_correct_left == (match args.leak_left {
            Some(v) => v,
            None => preset.leak_correct_left,
        }),
        p.leak_correct_right == (match args.leak_right {
            Some(v) => v,
            None => preset.leak_correct_right,
        }),
        p.convergence == (match args.convergence {
            Some(v) => v,
            None => preset.convergence,
        }),
        p.mono_eye == (match args.mono_eye {
            MonoEye::Neither => preset.mono_eye,
            MonoEye::Left => MonoEye::Left,
            MonoEye::Right => MonoEye::Right,
        }),
        args.swap_eyes ==> p.swap_eyes,
        !args.swap_eyes ==> p.swap_eyes == preset.swap_eyes,
{
}

/// What the source flag says the film holds is what it is taken to hold, a packed pair
/// with its left eye first and squeezed where that was said. Without the flag the
/// preset decides, and a squeeze that was asked for is added to a packed pair alone.
pub proof fn law_the_source_flag_says_what_the_film_holds<
    P: Fn(&str) -> Option<F64>,
    T: Fn(u64, u64, F64) -> F64,
    C: Fn(F64, F64) -> u64,
    F: Fn(F32) -> String,
>(
    args: &RenderArgs,
    preset: &ConvertParams,
    fps: F64,
    math: &TimeMath<P, T, C>,
    show: &F,
    p: ConvertParams,
)
    requires
        call_ensures(
            build_params::<P, T, C, F>,
            (args, preset, fps, math, show),
            Ok::<ConvertParams, String>(p),
        ),
    ensures
        args.source matches Some(SourceKind::Anaglyph) ==> p.input == InputMode::Anaglyph,
        args.source matches Some(SourceKind::TwoFiles) ==> p.input == InputMode::TwoFiles,
        args.source matches Some(SourceKind::SideBySide) ==> p.input == (InputMode::Packed {
            packing: StereoPacking::SideBySide,
            order: EyeOrder::LeftFirst,
            anamorphic: args.anamorphic,
        }),
        args.source matches Some(SourceKind::TopBottom) ==> p.input == (InputMode::Packed {
            packing: StereoPacking::TopBottom,
            order: EyeOrder::LeftFirst,
            anamorphic: args.anamorphic,
        }),
        args.source is None && !args.anamorphic ==> p.input == preset.input,
        args.source is None && preset.input !is Packed ==> p.input == preset.input,
        args.source is None ==> (preset.input matches InputMode::Packed { packing, order, .. }
            ==> args.anamorphic ==> p.input == (InputMode::Packed {
            packing,
            order,
            anamorphic: true,
        })),
{
}

/// What no flag speaks of is the preset's.
pub proof fn law_the_rest_is_the_presets<
    P: Fn(&str) -> Option<F64>,
    T: Fn(u64, u64, F64) -> F64,
    C: Fn(F64, F64) -> u64,
    F: Fn(F32) -> String,
>(
    args: &RenderArgs,
    preset: &ConvertParams,
    fps: F64,
    math: &TimeMath<P, T, C>,
    show: &F,
    p: ConvertParams,
)
    requires
        call_ensures(
            build_params::<P, T, C, F>,
            (args, preset, fps, math, show),
            Ok::<ConvertParams, String>(p),
        ),
    ensures
        p.transfer == preset.transfer,
        p.work_in_linear_light == preset.work_in_linear_light,
        p.defringe_left == preset.defringe_left,
        p.defringe_right == preset.defringe_right,
        p.restore == preset.restore,
        p.grade_left == preset.grade_left,
        p.grade_right == preset.grade_right,
{
}

/// Each position flag moves its own end of its own range to the frame it names, and no
/// other; a range of which no flag speaks is the preset's.
pub proof fn law_a_position_flag_moves_its_own_end<
    P: Fn(&str) -> Option<F64>,
    T: Fn(u64, u64, F64) -> F64,
    C: Fn(F64, F64) -> u64,
    F: Fn(F32) -> String,
>(
    args: &RenderArgs,
    preset: &ConvertParams,
    fps: F64,
    math: &TimeMath<P, T, C>,
    show: &F,
    p: ConvertParams,
)
    requires
        call_ensures(
            build_params::<P, T, C, F>,
            (args, preset, fps, math, show),
            Ok::<ConvertParams, String>(p),
        ),
    ensures
        match args.start {
            Some(t) => reads_position(math, fps, t@, Ok::<u64, String>(p.anaglyph_trim.start)),
            None => p.anaglyph_trim.start == preset.anaglyph_trim.start,
        },
        match args.end {
            Some(t) => p.anaglyph_trim.end matches Some(n) && reads_position(
                math,
                fps,
                t@,
                Ok::<u64, String>(n),
            ),
            None => p.anaglyph_trim.end == preset.anaglyph_trim.end,
        },
        match args.colour_start {
            Some(t) => reads_position(math, fps, t@, Ok::<u64, String>(p.colour_trim.start)),
            None => p.colour_trim.start == preset.colour_trim.start,
        },
        match args.colour_end {
            Some(t) => p.colour_trim.end matches Some(n) && reads_position(
                math,
                fps,
                t@,
                Ok::<u64, String>(n),
            ),
            None => p.colour_trim.end == preset.colour_trim.end,
        },
        match args.mono_start {
            Some(t) => reads_position(math, fps, t@, Ok::<u64, String>(p.mono_trim.start)),
            None => p.mono_trim.start == preset.mono_trim.start,
        },
        match args.mono_end {
            Some(t) => p.mono_trim.end matches Some(n) && reads_position(
                math,
                fps,
                t@,
                Ok::<u64, String>(n),
            ),
            None => p.mono_trim.end == preset.mono_trim.end,
        },
{
    let r = Ok::<ConvertParams, String>(p);
    let q = args.over(*preset);
    let a = choose|a: Result<SourceTrim, String>| #[trigger]
        trims(math, fps, "--start"@, text_of(args.start), text_of(args.end), q.anaglyph_trim, a)
            && match a {
            Err(e) => r == Err::<ConvertParams, String>(e),
            Ok(main) => builds_colour(math, *show, *args, q, fps, main, r),
        };
    let main = a->Ok_0;
    let b = choose|b: Result<SourceTrim, String>| #[trigger]
        trims(
            math,
            fps,
            "--colour-start"@,
            text_of(args.colour_start),
            text_of(args.colour_end),
            q.colour_trim,
            b,
        ) && match b {
            Err(e) => r == Err::<ConvertParams, String>(e),
            Ok(colour) => builds_mono(math, *show, *args, q, fps, main, colour, r),
        };
    let colour = b->Ok_0;
    let c = choose|c: Result<SourceTrim, String>| #[trigger]
        trims(
            math,
            fps,
            "--mono-start"@,
            text_of(args.mono_start),
            text_of(args.mono_end),
            q.mono_trim,
            c,
        ) && match c {
            Err(e) => r == Err::<ConvertParams, String>(e),
            Ok(mono) => sizes_params(*show, text_of(args.size), ranged(q, main, colour, mono), r),
        };
    let mono = c->Ok_0;
    assert(p.anaglyph_trim == main && p.colour_trim == colour && p.mono_trim == mono);
    lemma_trimmed_by_its_flags(
        math,
        fps,
        "--start"@,
        text_of(args.start),
        text_of(args.end),
        preset.anaglyph_trim,
        main,
    );
    lemma_trimmed_by_its_flags(
        math,
        fps,
        "--colour-start"@,
        text_of(args.colour_start),
        text_of(args.colour_end),
        preset.colour_trim,
        colour,
    );
    lemma_trimmed_by_its_flags(
        math,
        fps,
        "--mono-start"@,
        text_of(args.mono_start),
        text_of(args.mono_end),
        preset.mono_trim,
        mono,
    );
}

/// The size flag is the size of the finished frame, width first: what it reads
/// `WxH` is `W` wide and `H` high. Without it the size is the preset's.
pub proof fn law_the_size_flag_sizes_the_finished_frame<
    P: Fn(&str) -> Option<F64>,
    T: Fn(u64, u64, F64) -> F64,
    C: Fn(F64, F64) -> u64,
    F: Fn(F32) -> String,
>(
    args: &RenderArgs,
    preset: &ConvertParams,
    fps: F64,
    math: &TimeMath<P, T, C>,
    show: &F,
    p: ConvertParams,
    w: usize,
    h: usize,
)
    requires
        call_ensures(
            build_params::<P, T, C, F>,
            (args, preset, fps, math, show),
            Ok::<ConvertParams, String>(p),
        ),
    ensures
        args.size is None ==> p.output_size == preset.output_size,
        args.size matches Some(t) ==> t@ == decimal_text(w as nat) + "x"@ + decimal_text(h as nat)
            ==> p.output_size == Some((w, h)),
{
    reveal_strlit("x");
    law_sizes_round_trip(w, h);
    if let Some(t) = args.size {
        if t@ == decimal_text(w as nat) + "x"@ + decimal_text(h as nat) {
            assert(t@ =~= size_text(w as nat, h as nat));
            assert(text_of(args.size) == Some(t@));
        }
    }
}

/// A position that cannot be read stops the run, and the flag of its range is named. The
/// film's own range comes first, then that of the colour, then that of the 2D eye.
pub proof fn law_an_unreadable_position_is_blamed_on_its_flag<
    P: Fn(&str) -> Option<F64>,
    T: Fn(u64, u64, F64) -> F64,
    C: Fn(F64, F64) -> u64,
    F: Fn(F32) -> String,
>(
    args: &RenderArgs,
    preset: &ConvertParams,
    fps: F64,
    math: &TimeMath<P, T, C>,
    show: &F,
    r: Result<ConvertParams, String>,
    text: String,
)
    requires
        call_ensures(build_params::<P, T, C, F>, (args, preset, fps, math, show), r),
        forall|read: Result<u64, String>| #[trigger]
            reads_position(math, fps, text@, read) ==> read is Err,
    ensures
        args.start == Some(text) ==> exists|why: String| #[trigger]
            reads_position(math, fps, text@, Err::<u64, String>(why)) && (r matches Err(e) && e@
                == "--start: "@ + why@),
        args.start is None && args.end is None && args.colour_start == Some(text) ==> exists|
            why: String,
        | #[trigger]
            reads_position(math, fps, text@, Err::<u64, String>(why)) && (r matches Err(e) && e@
                == "--colour-start: "@ + why@),
        args.start is None && args.end is None && args.colour_start is None && args.colour_end is None
            && args.mono_start == Some(text) ==> exists|why: String| #[trigger]
            reads_position(math, fps, text@, Err::<u64, String>(why)) && (r matches Err(e) && e@
                == "--mono-start: "@ + why@),
{
    reveal_strlit(": ");
    reveal_strlit("--start");
    reveal_strlit("--start: ");
    reveal_strlit("--colour-start");
    reveal_strlit("--colour-start: ");
    reveal_strlit("--mono-start");
    reveal_strlit("--mono-start: ");
    assert("--start"@ + ": "@ =~= "--start: "@);
    assert("--colour-start"@ + ": "@ =~= "--colour-start: "@);
    assert("--mono-start"@ + ": "@ =~= "--mono-start: "@);
}

/// A job holds each thing it was given in its own place: the film, the right eye, the 2D
/// release and the result under the names they came under, the settings and the
/// encoder as they are. Colour comes from the file named for it or else from the 2D
/// release; audio from the file named for it, or else from the film where it has any.
pub proof fn law_a_job_is_what_was_asked_for(
    args: &RenderArgs,
    info: &VideoInfo,
    params: ConvertParams,
    job: RenderJob,
)
    requires
        call_ensures(make_job, (args, info, params), job),
    ensures
        job.anaglyph@ == args.input@,
        job.output@ == args.out@,
        match (job.right_eye, args.right_eye) {
            (Some(a), Some(b)) => a@ == b@,
            (a, b) => a is None && b is None,
        },
        match (job.mono, args.mono) {
            (Some(a), Some(b)) => a@ == b@,
            (a, b) => a is None && b is None,
        },
        args.colour matches Some(named) ==> job.colour matches Some(path) && path@ == named@,
        args.colour is None ==> (args.mono matches Some(flat) ==> job.colour matches Some(path)
            && path@ == flat@),
        args.colour is None && args.mono is None ==> job.colour is None,
        args.audio matches Some(named) ==> job.audio matches Some(path) && path@ == named@,
        args.audio is None && info.has_audio ==> (job.audio matches Some(path) && path@
            == args.input@),
        args.audio is None && !info.has_audio ==> job.audio is None,
        job.params == params,
        job.encode.codec == args.codec,
        job.encode.quality == args.quality,
        job.encode.bitrate_kbps is None && job.encode.keyframe_interval is None,
        job.encode.audio_from is None && job.encode.display_aspect is None,
        info.fps.above_zero() ==> job.encode.fps == info.fps,
        !info.fps.above_zero() ==> job.encode.fps.bits == 0x4038_0000_0000_0000,
{
}

/// A film that reports a rate keeps it, to the bit; one that reports none runs at 24
/// frames a second. Every film has a rate above zero.
pub proof fn law_a_film_keeps_the_rate_it_reports(fps: F64, r: F64)
    requires
        call_ensures(frame_rate, (fps,), r),
    ensures
        fps.finite() && fps.value() > 0 ==> r == fps,
        fps.finite() && fps.value() <= 0 ==> r.bits == 0x4038_0000_0000_0000,
        !fps.finite() && fps.bits % 0x10_0000_0000_0000 != 0 ==> r.bits == 0x4038_0000_0000_0000,
        r.above_zero(),
{
    if fps.bits % 0x8000_0000_0000_0000 != 0 {
        let m = fps.bits as int % 0x8000_0000_0000_0000;
        let exponent = m / 0x10_0000_0000_0000;
        let fraction = m % 0x10_0000_0000_0000;
        if exponent != 0 {
            vstd::arithmetic::power2::lemma_pow2_pos((exponent - 1) as nat);
            let power = vstd::arithmetic::power2::pow2((exponent - 1) as nat) as int;
            assert((fraction + 0x10_0000_0000_0000) * power > 0) by (nonlinear_arith)
                requires
                    fraction >= 0,
                    power > 0,
            ;
        }
        assert(fps.magnitude() > 0);
    }
}

/// Only a run that was let finish looks like success to a script.
pub proof fn law_only_a_finished_run_succeeds(summary: &RenderSummary, code: u8)
    requires
        call_ensures(exit_status, (summary,), code),
    ensures
        code == 0 <==> !summary.cancelled,
        code != 0 ==> code == 130,
{
}

/// A finished run says it converted its frames; a cancelled one that it stopped after
/// them. Either says how many there were, how long they took and how fast they came.
pub proof fn law_the_closing_line_says_how_it_went(
    summary: &RenderSummary,
    time: &str,
    rate: &str,
    text: String,
)
    requires
        call_ensures(closing_line, (summary, time, rate), text),
    ensures
        !summary.cancelled ==> text@ == "converted "@ + decimal_text(summary.frames as nat)
            + " frames in "@ + time@ + "s ("@ + rate@ + " fps)"@,
        summary.cancelled ==> text@ == "stopped after "@ + decimal_text(summary.frames as nat)
            + " frames in "@ + time@ + "s ("@ + rate@ + " fps)"@,
{
    reveal_strlit("converted");
    reveal_strlit("converted ");
    reveal_strlit("stopped after");
    reveal_strlit("stopped after ");
    reveal_strlit(" ");
    assert("converted"@ + " "@ =~= "converted "@);
    assert("stopped after"@ + " "@ =~= "stopped after "@);
}

/// A time that is not a number, not finite or below zero is not told; any other is told
/// as the whole seconds nearest to it.
pub proof fn law_only_a_time_is_told<R: Fn(F64) -> u64>(seconds: F64, round: &R, text: String)
    requires
        call_ensures(format_duration::<R>, (seconds, round), text),
    ensures
        !seconds.finite() ==> text@ == "?"@,
        seconds.finite() && seconds.value() < 0 ==> text@ == "?"@,
        seconds.finite() && seconds.value() >= 0 ==> exists|n: u64| #[trigger]
            call_ensures(*round, (seconds,), n) && text@ == duration_text(n as nat),
{
    let m = seconds.bits as int % 0x8000_0000_0000_0000;
    let exponent = m / 0x10_0000_0000_0000;
    let fraction = m % 0x10_0000_0000_0000;
    if exponent != 0 {
        vstd::arithmetic::power2::lemma_pow2_pos((exponent - 1) as nat);
        let power = vstd::arithmetic::power2::pow2((exponent - 1) as nat) as int;
        assert((fraction + 0x10_0000_0000_0000) * power > 0) by (nonlinear_arith)
            requires
                fraction >= 0,
                power > 0,
        ;
    }
    assert(m != 0 ==> seconds.magnitude() > 0);
    assert(m == 0 ==> seconds.magnitude() == 0);
}

/// A size is read with its width before the `x` and its height behind it.
pub proof fn law_a_size_is_read_width_first(text: &str, w: usize, h: usize, r: Result<(usize, usize), String>)
    requires
        text@ == decimal_text(w as nat) + "x"@ + decimal_text(h as nat) || text@ == decimal_text(
            w as nat,
        ) + "X"@ + decimal_text(h as nat),
        call_ensures(parse_size, (text,), r),
    ensures
        r matches Ok(size) && size.0 == w && size.1 == h,
{
    reveal_strlit("x");
    reveal_strlit("X");
    let (a, b) = (decimal_text(w as nat), decimal_text(h as nat));
    let s = text@;
    crate::text::law_decimal_round_trips(w as nat, usize::MAX as nat);
    crate::text::law_decimal_round_trips(h as nat, usize::MAX as nat);
    crate::text::lemma_decimal_digits(w as nat);
    crate::text::lemma_decimal_digits(h as nat);
    let cross = s[a.len() as int];
    assert(cross == 'x' || cross == 'X');
    assert(s =~= a + seq![cross] + b);
    lemma_cross_behind_number(a, cross, b);
    assert(s.take(a.len() as int) =~= a);
    assert(s.skip(a.len() as int + 1) =~= b);
    lemma_digits_are_trimmed(a);
    lemma_digits_are_trimmed(b);
}

/// The cross behind a run of digits is the first one.
proof fn lemma_cross_behind_number(a: Seq<char>, cross: char, b: Seq<char>)
    requires
        crate::text::all_digits(a),
        cross == 'x' || cross == 'X',
    ensures
        cross_at(a + seq![cross] + b) == a.len(),
    decreases a.len(),
{
    let s = a + seq![cross] + b;
    if a.len() > 0 {
        assert(crate::text::is_digit(a[0]));
        assert(s.skip(1) =~= a.skip(1) + seq![cross] + b);
        assert forall|i: int| 0 <= i < a.skip(1).len() implies crate::text::is_digit(
            #[trigger] a.skip(1)[i],
        ) by {
            assert(crate::text::is_digit(a[i + 1]));
        }
        lemma_cross_behind_number(a.skip(1), cross, b);
    }
}

/// Where the tools were found is said of each under its own name, and no two ways of
/// finding them are called the same.
pub proof fn law_tools_are_reported_under_their_names(
    tools: &FfmpegTools,
    source: ToolSource,
    trial: &Trial,
    r: ToolsReport,
)
    requires
        call_ensures(report_tools, (tools, source, trial), r),
    ensures
        r.lines@.len() >= 3,
        r.lines@[0]@ == "ffmpeg   "@ + tools.ffmpeg@,
        r.lines@[1]@ == "ffprobe  "@ + tools.ffprobe@,
        source == ToolSource::Override ==> r.lines@[2]@ == "found as "@ + "Override"@,
        source == ToolSource::Bundled ==> r.lines@[2]@ == "found as "@ + "Bundled"@,
        source == ToolSource::SystemPath ==> r.lines@[2]@ == "found as "@ + "SystemPath"@,
        r.status == 0 <==> *trial is Ran,
        r.trouble is None <==> *trial is Ran,
        *trial is Ran <==> r.lines@.len() == 4,
        *trial matches Trial::Refused(said) ==> r.trouble matches Some(t) && t@
            == "it will not run: "@ + trimmed(said@),
        *trial matches Trial::Failed(reason) ==> r.trouble matches Some(t) && t@
            == "it will not run: "@ + reason@,
{
    let lines = texts(r.lines@);
    assert(lines.len() == r.lines@.len());
    assert(lines[0] == r.lines@[0]@);
    assert(lines[1] == r.lines@[1]@);
    assert(lines[2] == r.lines@[2]@);
}

/// What a trial run said first is quoted: everything up to the first line break, and
/// nothing of what is behind it.
pub proof fn law_a_trial_is_quoted_by_its_first_line(
    tools: &FfmpegTools,
    source: ToolSource,
    trial: &Trial,
    said: String,
    line: Seq<char>,
    rest: Seq<char>,
    r: ToolsReport,
)
    requires
        *trial == Trial::Ran(said),
        line.len() > 0,
        forall|i: int| 0 <= i < line.len() ==> #[trigger] line[i] != '\n' && line[i] != '\r',
        said@ == line || said@ == line + seq!['\n'] + rest || said@ == line + seq!['\r', '\n']
            + rest,
        call_ensures(report_tools, (tools, source, trial), r),
    ensures
        r.lines@[3]@ == "running  "@ + line,
{
    let s = said@;
    let lines = texts(r.lines@);
    assert(lines.len() == 4);
    assert(lines[3] == r.lines@[3]@);
    if s == line {
        lemma_break_behind(line, Seq::empty());
        assert(line + Seq::<char>::empty() =~= line);
        assert(s.take(s.len() as int) =~= line);
    } else if s == line + seq!['\n'] + rest {
        lemma_break_behind(line, seq!['\n'] + rest);
        assert(s =~= line + (seq!['\n'] + rest));
        assert(s[line.len() - 1] == line[line.len() - 1]);
        assert(s.take(line.len() as int) =~= line);
    } else {
        let front = line.push('\r');
        assert forall|i: int| 0 <= i < front.len() implies #[trigger] front[i] != '\n' by {
            if i < line.len() {
                assert(front[i] == line[i]);
            }
        }
        lemma_break_behind(front, seq!['\n'] + rest);
        assert(s =~= front + (seq!['\n'] + rest));
        assert(s.take(front.len() - 1) =~= line);
    }
}

/// A line break behind text that has none is the first.
proof fn lemma_break_behind(front: Seq<char>, rest: Seq<char>)
    requires
        forall|i: int| 0 <= i < front.len() ==> #[trigger] front[i] != '\n',
        rest.len() == 0 || rest[0] == '\n',
    ensures
        break_at(front + rest) == front.len(),
    decreases front.len(),
{
    let s = front + rest;
    if front.len() > 0 {
        assert(s[0] == front[0]);
        assert(s.skip(1) =~= front.skip(1) + rest);
        assert forall|i: int| 0 <= i < front.skip(1).len() implies #[trigger] front.skip(1)[i]
            != '\n' by {
            assert(front.skip(1)[i] == front[i + 1]);
        }
        lemma_break_behind(front.skip(1), rest);
    } else {
        assert(s =~= rest);
    }
}

/// The probe command says of a film what was found of it, each thing in a line of its
/// own, and its length only where its frames could be counted.
pub proof fn law_a_probe_tells_what_was_found(
    path: &str,
    info: &VideoInfo,
    facts: &ProbeFacts,
    lines: Vec<String>,
)
    requires
        call_ensures(probe_lines, (path, info, facts), lines),
    ensures
        lines@.len() == (if facts.frames is Some { 12int } else { 11 }),
        lines@[0]@ == path@,
        lines@[1]@ == "  size        "@ + (decimal_text(info.width as nat).push('x') + decimal_text(
            info.height as nat,
        )),
        lines@[2]@ == "  frame rate  "@ + facts.frame_rate@ + " fps"@,
        facts.frames matches Some(n) ==> lines@[3]@ == "  frames      "@ + decimal_text(n as nat),
        facts.frames is None ==> lines@[3]@ == "  frames      "@ + "unknown"@,
        lines@[4]@ == "  pixels      "@ + info.pix_fmt@ + " ("@ + decimal_text(info.bit_depth as nat)
            + "-bit)"@,
        facts.square ==> lines@[5]@ == "  pixel shape "@ + facts.pixel_shape@ + " (square)"@,
        !facts.square ==> lines@[5]@ == "  pixel shape "@ + facts.pixel_shape@ + " (not square)"@,
        lines@[6]@ == "  displays at "@ + facts.displays@ + ":1  ("@ + facts.square_width@ + "x"@
            + decimal_text(info.height as nat) + " of square pixels)"@,
        info.has_audio ==> lines@[10]@ == "  audio       "@ + "yes"@,
        !info.has_audio ==> lines@[10]@ == "  audio       "@ + "no"@,
        facts.frames is Some ==> lines@[11]@ == "  length      "@ + facts.length@,
{
    let all = texts(lines@);
    assert(all.len() == lines@.len());
    assert forall|i: int| 0 <= i < lines@.len() implies all[i] == (#[trigger] lines@[i])@ by {}
}

/// The first line of a run says how large its frames are, width first, and how many
/// there will be, where that is known.
pub proof fn law_a_run_starts_with_its_size_and_length(total: Option<u64>, width: nat, height: nat)
    ensures
        total matches Some(n) ==> started_text(total, width, height) == decimal_text(width).push('x')
            + decimal_text(height) + ", "@ + (decimal_text(n as nat) + " frames"@),
        total is None ==> started_text(total, width, height) == decimal_text(width).push('x')
            + decimal_text(height) + ", "@ + "length unknown"@,
{
}

/// What is still to come of a run and what is done add up to the whole, and a run that
/// is past its end has nothing to come. The clock counts the time that has passed, and
/// none where it was set back.
pub proof fn law_counts_add_up(done: u64, total: u64)
    ensures
        done <= total ==> still_to_come(done, total) + done == total,
        done > total ==> still_to_come(done, total) == 0,
        done <= total ==> since(done, total) + done == total,
        done > total ==> since(done, total) == 0,
        REDRAW_AFTER == 100,
{
}

/// Every report is shown in its own way: a start and a note on lines of their own, frames
/// over the line before but no more often than every tenth of a second, and an end not at
/// all.
pub proof fn law_a_report_is_shown_in_its_own_way<
    V: Fn(u64, u64) -> F64,
    X: Fn(u64, u64) -> String,
    W: Fn(F64) -> String,
    L: Fn(u64, F64) -> F64,
    R: Fn(F64) -> u64,
>(
    reporter: &mut ProgressReporter,
    progress: &Progress,
    now: u64,
    math: &ReportMath<V, X, W, L, R>,
    r: Option<Line>,
)
    requires
        call_ensures(ProgressReporter::report::<V, X, W, L, R>, (reporter, progress, now, math), r),
    ensures
        final(reporter).started == old(reporter).started,
        *progress is Started ==> (r matches Some(line) && line is Whole),
        *progress matches Progress::Note(message) ==> (r matches Some(Line::Whole(text)) && text@
            == "note: "@ + message@),
        *progress is Finished ==> r is None,
        *progress is Frame ==> (r is Some <==> old(reporter).last_drawn + 100 <= now),
        *progress is Frame ==> (r matches Some(line) ==> line is Redrawn),
        *progress is Frame && r is Some ==> final(reporter).last_drawn == now,
        r is None || !(*progress is Frame) ==> final(reporter).last_drawn == old(reporter).last_drawn,
{
}

/// The progress line says how many frames are done at what rate since the start; where the
/// length is known, of how many, how far along that is, and how long the rest will take.
pub proof fn law_the_progress_line_counts_from_the_start<
    V: Fn(u64, u64) -> F64,
    X: Fn(u64, u64) -> String,
    W: Fn(F64) -> String,
    L: Fn(u64, F64) -> F64,
    R: Fn(F64) -> u64,
>(
    reporter: &mut ProgressReporter,
    progress: &Progress,
    done: u64,
    total: Option<u64>,
    now: u64,
    math: &ReportMath<V, X, W, L, R>,
    r: Option<Line>,
)
    requires
        call_ensures(ProgressReporter::report::<V, X, W, L, R>, (reporter, progress, now, math), r),
        *progress == (Progress::Frame { done, total }),
        r is Some,
    ensures
        exists|elapsed: u64, rate: F64, shown: String|
            (old(reporter).started <= now ==> elapsed == now - old(reporter).started) && (old(reporter).started > now ==> elapsed == 0) && #[trigger] call_ensures(
                math.rate,
                (done, elapsed),
                rate,
            ) && #[trigger] call_ensures(math.show, (rate,), shown) && (total is None || total == Some(
                0u64,
            ) ==> (r matches Some(Line::Redrawn(text)) && text@ == "  "@ + decimal_text(done as nat)
                + " frames, "@ + shown@ + " fps    "@)) && (total matches Some(n) ==> (n > 0 ==> exists|
                percent: String,
                rest: u64,
                left: F64,
                time: Seq<char>,
            | #[trigger]
                call_ensures(math.percent, (done, n), percent) && #[trigger] call_ensures(
                    math.left,
                    (rest, rate),
                    left,
                ) && (done < n ==> rest == n - done) && (done >= n ==> rest == 0) && #[trigger] reads_duration(math.round, left, time) && (r matches Some(
                    Line::Redrawn(text),
                ) && text@ == "  "@ + decimal_text(done as nat) + "/"@ + decimal_text(n as nat) + " ("@
                    + percent@ + "%) "@ + shown@ + " fps, "@ + time + " left    "@))),
{
    let elapsed = since(old(reporter).started, now);
    let text = (r->0)->Redrawn_0;
    let (rate, shown) = choose|rate: F64, shown: String| #[trigger]
        call_ensures(math.rate, (done, elapsed), rate) && #[trigger] call_ensures(
            math.show,
            (rate,),
            shown,
        ) && match total {
            Some(total) => if total > 0 {
                full_line(math, done, total, rate, shown@, text@)
            } else {
                text@ == "  "@ + decimal_text(done as nat) + " frames, "@ + shown@ + " fps    "@
            },
            None => text@ == "  "@ + decimal_text(done as nat) + " frames, "@ + shown@ + " fps    "@,
        };
    assert(call_ensures(math.rate, (done, elapsed), rate));
    assert(call_ensures(math.show, (rate,), shown));
}

/// Text that is padded keeps its front, gets nothing but spaces behind it, and is at least
/// as wide as asked for.
pub proof fn law_padding_adds_spaces_behind(text: Seq<char>, width: nat)
    ensures
        text.len() >= width ==> padded(text, width) == text,
        text.len() < width ==> padded(text, width).len() == width,
        padded(text, width).take(text.len() as int) == text,
        forall|i: int|
            text.len() <= i < padded(text, width).len() ==> #[trigger] padded(text, width)[i] == ' ',
    decreases width - text.len(),
{
    if text.len() < width {
        law_padding_adds_spaces_behind(text.push(' '), width);
        let all = padded(text, width);
        assert(all.take(text.len() as int + 1) == text.push(' '));
        assert(all.take(text.len() as int) =~= all.take(text.len() as int + 1).take(text.len() as int));
        assert(text.push(' ').take(text.len() as int) =~= text);
        assert(all[text.len() as int] == all.take(text.len() as int + 1)[text.len() as int]);
    } else {
        assert(text.take(text.len() as int) =~= text);
    }
}

/// A layout is listed with its label, the size of the finished frame and its shape.
pub proof fn law_a_layout_is_listed_with_its_size(
    layout: OutputLayout,
    w: nat,
    h: nat,
    shape: Seq<char>,
)
    ensures
        layout_line(layout, w, h, shape) == "    as "@ + padded(layout.label_text(), 14) + " "@ + (
        decimal_text(
            (ConvertParams { layout, ..crate::params::default_params() }).geometry(w, h).0,
        ).push('x') + decimal_text(
            (ConvertParams { layout, ..crate::params::default_params() }).geometry(w, h).1,
        )) + " displaying "@ + shape + ":1"@,
{
}

/// A size without a cross is refused as a whole; one with a side that is no number is
/// refused for that side, the width before the height.
pub proof fn law_an_unreadable_size_is_blamed_on_its_side(
    text: &str,
    w: Seq<char>,
    h: Seq<char>,
    cross: char,
    r: Result<(usize, usize), String>,
)
    requires
        call_ensures(parse_size, (text,), r),
        cross == 'x' || cross == 'X',
        forall|i: int| 0 <= i < w.len() ==> #[trigger] w[i] != 'x' && w[i] != 'X',
    ensures
        text@ == w ==> (r matches Err(e) && e@ == "--size wants WxH, got "@ + quoted_text(w)),
        text@ == w.push(cross) + h && parsed_number(trimmed(w), usize::MAX as nat) is None ==> (
        r matches Err(e) && e@ == "--size "@ + "width"@ + " is not a number: "@ + quoted_text(w)),
        text@ == w.push(cross) + h && parsed_number(trimmed(w), usize::MAX as nat) is Some
            && parsed_number(trimmed(h), usize::MAX as nat) is None ==> (r matches Err(e) && e@
            == "--size "@ + "height"@ + " is not a number: "@ + quoted_text(h)),
        text@ == w.push(cross) + h ==> (parsed_number(trimmed(w), usize::MAX as nat) matches Some(a)
            ==> (parsed_number(trimmed(h), usize::MAX as nat) matches Some(b) ==> (r matches Ok(size)
            && size.0 == a && size.1 == b))),
{
    lemma_cross_behind_anything(w, cross, h);
    let s = w.push(cross) + h;
    assert(s.take(w.len() as int) =~= w);
    assert(s.skip(w.len() as int + 1) =~= h);
}

/// The cross behind what has none is the first one, and without it there is none.
proof fn lemma_cross_behind_anything(a: Seq<char>, cross: char, b: Seq<char>)
    requires
        cross == 'x' || cross == 'X',
        forall|i: int| 0 <= i < a.len() ==> #[trigger] a[i] != 'x' && a[i] != 'X',
    ensures
        cross_at(a) == a.len(),
        cross_at(a.push(cross) + b) == a.len(),
    decreases a.len(),
{
    let s = a.push(cross) + b;
    if a.len() > 0 {
        assert(a[0] != 'x' && a[0] != 'X');
        assert(s[0] == a[0]);
        assert(s.skip(1) =~= a.skip(1).push(cross) + b);
        assert forall|i: int| 0 <= i < a.skip(1).len() implies #[trigger] a.skip(1)[i] != 'x'
            && a.skip(1)[i] != 'X' by {
            assert(a[i + 1] != 'x');
        }
        lemma_cross_behind_anything(a.skip(1), cross, b);
    }
}

} // verus!
