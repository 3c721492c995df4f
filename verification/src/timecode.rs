//! Moving between frame numbers and the times a person reads off a player.
//!
//! Alignment is a frame-accurate job, so frames are the unit everything is
//! stored and computed in. But nobody finds a cut by frame number, they find it
//! at "about nine minutes twelve", so both have to be sayable.

use crate::scalar::{unit64, F64};
use crate::text::{
    all_digits, all_space, chars_of, decimal, decimal_text, is_digit, is_space,
    law_decimal_round_trips, law_white_space_around_is_left_off, lemma_decimal_digits,
    lemma_split_behind, lemma_split_whole, lemma_two_digits, parse_number, parsed_number, quoted,
    quoted_text, split, split_text, string_of, trim, trimmed, two_digit_text, two_digits,
};
use vstd::arithmetic::power2::lemma_pow2_pos;
use vstd::prelude::*;
use vstd::string::*;

verus! {

/// So many hundredths of a second as `M:SS.hh`, or `H:MM:SS.hh` past an hour.
pub open spec fn clock_text(hundredths: nat) -> Seq<char> {
    let h = hundredths / 360_000;
    let m = hundredths / 6_000 % 60;
    let s = hundredths / 100 % 60;
    let cs = hundredths % 100;
    let tail = seq![':'] + two_digit_text(s) + seq!['.'] + two_digit_text(cs);
    if h > 0 {
        decimal_text(h) + seq![':'] + two_digit_text(m) + tail
    } else {
        decimal_text(m) + tail
    }
}

/// Writes hundredths of a second the way a player shows them.
pub fn clock(hundredths: u64) -> (text: String)
    ensures
        text@ == clock_text(hundredths as nat),
{
    let h: u64 = hundredths / 360_000;
    let m: u64 = hundredths / 6_000 % 60;
    let s: u64 = hundredths / 100 % 60;
    let cs: u64 = hundredths % 100;
    let mut text = if h > 0 {
        let mut t = decimal(h);
        t.push(':');
        t.append(two_digits(m).as_str());
        t
    } else {
        decimal(m)
    };
    text.push(':');
    text.append(two_digits(s).as_str());
    text.push('.');
    text.append(two_digits(cs).as_str());
    proof {
        let tail = seq![':'] + two_digit_text(s as nat) + seq!['.'] + two_digit_text(cs as nat);
        if h > 0 {
            assert(text@ =~= decimal_text(h as nat) + seq![':'] + two_digit_text(m as nat) + tail);
        } else {
            assert(text@ =~= decimal_text(m as nat) + tail);
        }
    }
    text
}

/// Renders a frame number as `M:SS.hh`, or `H:MM:SS.hh` past an hour.
///
/// `hundredths` says how far into a film of a given rate a frame is. Some
/// containers report no frame rate at all; that is said rather than divided by.
pub fn format_timecode<C: Fn(u64, F64) -> u64>(frame: u64, fps: F64, hundredths: &C) -> (text: String)
    requires
        fps.positive() ==> call_requires(*hundredths, (frame, fps)),
    ensures
        !fps.positive() ==> text@ == "?"@,
        fps.positive() ==> exists|n: u64| #[trigger]
            call_ensures(*hundredths, (frame, fps), n) && text@ == clock_text(n as nat),
{
    if !fps.is_positive() {
        return "?".to_owned();
    }
    let n: u64 = hundredths(frame, fps);
    let text = clock(n);
    assert(call_ensures(*hundredths, (frame, fps), n));
    text
}

/// The hours, minutes and seconds that a time names: `SS`, `M:SS` or `H:MM:SS`.
/// Hours and minutes are whole; the seconds are left as they are written.
pub open spec fn time_parts(s: Seq<char>) -> Option<(nat, nat, Seq<char>)> {
    let parts = split_text(s, ':');
    let max = u64::MAX as nat;
    if parts.len() == 1 {
        Some((0, 0, parts[0]))
    } else if parts.len() == 2 && parsed_number(parts[0], max) is Some {
        Some((0, parsed_number(parts[0], max)->0, parts[1]))
    } else if parts.len() == 3 && parsed_number(parts[0], max) is Some && parsed_number(
        parts[1],
        max,
    ) is Some {
        Some((parsed_number(parts[0], max)->0, parsed_number(parts[1], max)->0, parts[2]))
    } else {
        None
    }
}

/// Takes a time apart at its colons.
pub fn split_time(s: &[char]) -> (r: Option<(u64, u64, String)>)
    ensures
        r matches Some(t) ==> time_parts(s@) == Some((t.0 as nat, t.1 as nat, t.2@)),
        r is None ==> time_parts(s@) is None,
{
    let parts = split(s, ':');
    if parts.len() == 1 {
        return Some((0, 0, string_of(parts[0].as_slice())));
    }
    if parts.len() == 2 {
        return match parse_number(parts[0].as_slice(), u64::MAX) {
            Some(m) => Some((0, m, string_of(parts[1].as_slice()))),
            None => None,
        };
    }
    if parts.len() == 3 {
        return match (
            parse_number(parts[0].as_slice(), u64::MAX),
            parse_number(parts[1].as_slice(), u64::MAX),
        ) {
            (Some(h), Some(m)) => Some((h, m, string_of(parts[2].as_slice()))),
            _ => None,
        };
    }
    None
}

/// What is said of text that is no time.
pub open spec fn not_a_time(s: Seq<char>) -> Seq<char> {
    quoted_text(s) + " is not a time like 1:35 or 1:02:05"@
}

/// The arithmetic of times: `seconds` reads a number of seconds, `total` adds up
/// hours, minutes and seconds, and `frames` says how many frames fill a time at a
/// rate.
pub struct TimeMath<P, T, C> {
    pub seconds: P,
    pub total: T,
    pub frames: C,
}

/// The arithmetic takes every text and number.
pub open spec fn times_all<
    P: Fn(&str) -> Option<F64>,
    T: Fn(u64, u64, F64) -> F64,
    C: Fn(F64, F64) -> u64,
>(math: &TimeMath<P, T, C>) -> bool {
    &&& forall|s: &str| #[trigger] call_requires(math.seconds, (s,))
    &&& forall|h: u64, m: u64, s: F64| #[trigger] call_requires(math.total, (h, m, s))
    &&& forall|t: F64, fps: F64|
        t.finite() && fps.positive() ==> #[trigger] call_requires(math.frames, (t, fps))
}

/// `r` is the frame that the parts of a time name, or `bad` where they name none.
pub open spec fn frame_of_parts<
    P: Fn(&str) -> Option<F64>,
    T: Fn(u64, u64, F64) -> F64,
    C: Fn(F64, F64) -> u64,
>(
    math: &TimeMath<P, T, C>,
    fps: F64,
    parts: (nat, nat, Seq<char>),
    bad: Seq<char>,
    r: Result<u64, String>,
) -> bool {
    exists|text: &str, read: Option<F64>|
        text@ == parts.2 && #[trigger] call_ensures(math.seconds, (text,), read) && match read {
            None => r matches Err(e) && e@ == bad,
            Some(s) => exists|t: F64| #[trigger]
                call_ensures(math.total, (parts.0 as u64, parts.1 as u64, s), t) && (if !t.finite()
                    || t.below_zero() {
                    r matches Err(e) && e@ == bad
                } else {
                    r matches Ok(n) && call_ensures(math.frames, (t, fps), n)
                }),
        }
}

/// `r` is the frame that a time names, or what is said of it where it names none.
pub open spec fn reads_time<
    P: Fn(&str) -> Option<F64>,
    T: Fn(u64, u64, F64) -> F64,
    C: Fn(F64, F64) -> u64,
>(math: &TimeMath<P, T, C>, fps: F64, text: Seq<char>, r: Result<u64, String>) -> bool {
    let s = trimmed(text);
    if !fps.positive() {
        r matches Err(e) && e@ == "this file reports no frame rate, so times cannot be used"@
    } else if s.len() == 0 {
        r matches Err(e) && e@ == "expected a time like 1:35 or 1:02:05"@
    } else if s[0] == '-' {
        r matches Err(e) && e@ == quoted_text(s) + " is before the start of the file"@
    } else {
        match time_parts(s) {
            None => r matches Err(e) && e@ == not_a_time(s),
            Some(parts) => frame_of_parts(math, fps, parts, not_a_time(s), r),
        }
    }
}

/// Parses `SS`, `M:SS` or `H:MM:SS`, each allowing a fractional seconds part,
/// into a frame number.
pub fn parse_timecode<
    P: Fn(&str) -> Option<F64>,
    T: Fn(u64, u64, F64) -> F64,
    C: Fn(F64, F64) -> u64,
>(text: &str, fps: F64, math: &TimeMath<P, T, C>) -> (r: Result<u64, String>)
    requires
        times_all(math),
    ensures
        reads_time(math, fps, text@, r),
{
    if !fps.is_positive() {
        return Err("this file reports no frame rate, so times cannot be used".to_owned());
    }
    let chars = chars_of(text);
    let s = trim(chars.as_slice());
    if s.len() == 0 {
        return Err("expected a time like 1:35 or 1:02:05".to_owned());
    }
    let shown = string_of(s);
    if s[0] == '-' {
        return Err(quoted(shown.as_str()).concat(" is before the start of the file"));
    }
    let bad = quoted(shown.as_str()).concat(" is not a time like 1:35 or 1:02:05");
    match split_time(s) {
        None => Err(bad),
        Some((h, m, secs)) => {
            let ghost parts = (h as nat, m as nat, secs@);
            let written = secs.as_str();
            let read = (math.seconds)(written);
            assert(call_ensures(math.seconds, (written,), read));
            let r = match read {
                None => Err(bad),
                Some(sec) => {
                    let t = (math.total)(h, m, sec);
                    assert(call_ensures(math.total, (parts.0 as u64, parts.1 as u64, sec), t));
                    if !t.is_finite() || t.is_below_zero() {
                        Err(bad)
                    } else {
                        Ok((math.frames)(t, fps))
                    }
                },
            };
            assert(frame_of_parts(math, fps, parts, not_a_time(trimmed(text@)), r));
            r
        },
    }
}

/// `r` is the frame that a position names.
pub open spec fn reads_position<
    P: Fn(&str) -> Option<F64>,
    T: Fn(u64, u64, F64) -> F64,
    C: Fn(F64, F64) -> u64,
>(math: &TimeMath<P, T, C>, fps: F64, text: Seq<char>, r: Result<u64, String>) -> bool {
    let s = trimmed(text);
    if s.len() > 0 && (s.last() == 'f' || s.last() == 'F') {
        match parsed_number(trimmed(s.drop_last()), u64::MAX as nat) {
            Some(n) => r matches Ok(frame) && frame == n,
            None => r matches Err(e) && e@ == quoted_text(s) + " is not a frame number like 900f"@,
        }
    } else {
        reads_time(math, fps, s, r)
    }
}

/// Parses a position given either as a time or as an explicit frame number.
///
/// A bare number is ambiguous, since `120` could mean two minutes or frame 120,
/// so frames are marked with a trailing `f`: `1:35` is a time, `900f` is a frame.
pub fn parse_position<
    P: Fn(&str) -> Option<F64>,
    T: Fn(u64, u64, F64) -> F64,
    C: Fn(F64, F64) -> u64,
>(text: &str, fps: F64, math: &TimeMath<P, T, C>) -> (r: Result<u64, String>)
    requires
        times_all(math),
    ensures
        reads_position(math, fps, text@, r),
{
    let chars = chars_of(text);
    let s = trim(chars.as_slice());
    let shown = string_of(s);
    if s.len() > 0 && (s[s.len() - 1] == 'f' || s[s.len() - 1] == 'F') {
        let number = vstd::slice::slice_subrange(s, 0, s.len() - 1);
        assert(number@ =~= s@.drop_last());
        match parse_number(trim(number), u64::MAX) {
            Some(n) => Ok(n),
            None => Err(quoted(shown.as_str()).concat(" is not a frame number like 900f")),
        }
    } else {
        parse_timecode(shown.as_str(), fps, math)
    }
}

/// White space around a time does not change what it names.
pub proof fn law_white_space_around_a_time_is_ignored<
    P: Fn(&str) -> Option<F64>,
    T: Fn(u64, u64, F64) -> F64,
    C: Fn(F64, F64) -> u64,
>(
    math: &TimeMath<P, T, C>,
    fps: F64,
    front: Seq<char>,
    text: Seq<char>,
    back: Seq<char>,
    r: Result<u64, String>,
)
    requires
        all_space(front),
        all_space(back),
    ensures
        reads_time(math, fps, front + text + back, r) <==> reads_time(math, fps, text, r),
{
    law_white_space_around_is_left_off(front, text, back);
}

/// The seconds of a written time: two digits, a point and two more.
pub open spec fn seconds_text(hundredths: nat) -> Seq<char> {
    two_digit_text(hundredths / 100 % 60) + seq!['.'] + two_digit_text(hundredths % 100)
}

/// A written time is taken apart into just the hours, minutes and seconds it was
/// written from, and there is nothing to trim from it.
pub proof fn law_a_written_time_is_taken_apart(hundredths: nat)
    requires
        hundredths <= u64::MAX,
    ensures
        trimmed(clock_text(hundredths)) == clock_text(hundredths),
        clock_text(hundredths).len() > 0,
        clock_text(hundredths)[0] != '-',
        time_parts(clock_text(hundredths)) == Some(
            (hundredths / 360_000, hundredths / 6_000 % 60, seconds_text(hundredths)),
        ),
{
    let n = hundredths;
    let (h, m, s, cs) = (n / 360_000, n / 6_000 % 60, n / 100 % 60, n % 100);
    let max = u64::MAX as nat;
    let text = clock_text(n);
    let secs = seconds_text(n);
    lemma_decimal_digits(h);
    lemma_decimal_digits(m);
    lemma_two_digits(m, max);
    lemma_two_digits(s, max);
    lemma_two_digits(cs, max);
    law_decimal_round_trips(h, max);
    law_decimal_round_trips(m, max);
    let tail = seq![':'] + two_digit_text(s) + seq!['.'] + two_digit_text(cs);
    assert(tail =~= seq![':'] + secs);
    assert forall|i: int| 0 <= i < secs.len() implies secs[i] != ':' by {
        let k = two_digit_text(s).len();
        if i < k {
            assert(is_digit(two_digit_text(s)[i]));
        } else if i > k {
            assert(is_digit(two_digit_text(cs)[i - k - 1]));
        }
    }
    assert(text.last() == two_digit_text(cs).last());
    assert(is_digit(two_digit_text(cs)[two_digit_text(cs).len() - 1]));
    if h > 0 {
        let front = decimal_text(h).push(':') + two_digit_text(m);
        assert(text =~= front.push(':') + secs);
        lemma_split_behind(front, ':', secs);
        lemma_no_colon(two_digit_text(m));
        lemma_split_behind(decimal_text(h), ':', two_digit_text(m));
        lemma_no_colon(decimal_text(h));
        lemma_split_whole(decimal_text(h), ':');
        assert(is_digit(decimal_text(h)[0]));
        assert(text[0] == decimal_text(h)[0]);
    } else {
        assert(text =~= decimal_text(m).push(':') + secs);
        lemma_split_behind(decimal_text(m), ':', secs);
        lemma_no_colon(decimal_text(m));
        lemma_split_whole(decimal_text(m), ':');
        assert(is_digit(decimal_text(m)[0]));
        assert(text[0] == decimal_text(m)[0]);
    }
    assert(!is_space(text[0]) && !is_space(text.last()));
}

/// Digits hold no colon.
proof fn lemma_no_colon(s: Seq<char>)
    requires
        all_digits(s),
    ensures
        !s.contains(':'),
{
    assert forall|i: int| 0 <= i < s.len() implies s[i] != ':' by {
        assert(is_digit(s[i]));
    }
}

/// `hundredths` says where a frame is to within a hundredth of a second.
pub open spec fn places_closely<C: Fn(u64, F64) -> u64>(hundredths: &C, frame: u64, fps: F64) -> bool {
    forall|n: u64| #[trigger]
        call_ensures(*hundredths, (frame, fps), n) ==> -fps.value() <= n * fps.value() - 100 * frame
            * unit64() <= fps.value()
}

/// Seconds as they are written are read to within a thousandth.
pub open spec fn reads_closely<P: Fn(&str) -> Option<F64>>(seconds: &P) -> bool {
    forall|text: &str, n: nat, read: Option<F64>|
        #![trigger call_ensures(*seconds, (text,), read), seconds_text(n)]
        call_ensures(*seconds, (text,), read) && text@ == seconds_text(n) ==> (read matches Some(s)
            && s.finite() && !s.below_zero() && -unit64() <= 1000 * s.value() - (1000 * (n / 100
            % 60) + 10 * (n % 100)) * unit64() <= unit64())
}

/// Hours, minutes and seconds are added up to within a thousandth of a second, for
/// any length of film.
pub open spec fn adds_closely<T: Fn(u64, u64, F64) -> F64>(total: &T) -> bool {
    forall|h: u64, m: u64, s: F64, t: F64| #[trigger]
        call_ensures(*total, (h, m, s), t) && h < 1_200_000 && m < 60 && s.finite() && !s.below_zero()
            && s.value() <= 60 * unit64() ==> t.finite() && !t.below_zero() && -unit64() <= 1000 * (
        t.value() - (3600 * h + 60 * m) * unit64() - s.value()) <= unit64()
}

/// The frames that fill a time are counted to within six tenths of a frame.
pub open spec fn fills_closely<C: Fn(F64, F64) -> u64>(frames: &C, fps: F64) -> bool {
    forall|t: F64, n: u64| #[trigger]
        call_ensures(*frames, (t, fps), n) && t.finite() && !t.below_zero() && t.value()
            <= 5_000_000_000 * unit64() ==> -6 * (unit64() * unit64()) <= 10 * (n * (unit64()
            * unit64()) - t.value() * fps.value()) <= 6 * (unit64() * unit64())
}

/// A frame written as a time reads back within one frame, at any rate from one frame a
/// second to sixty, where the arithmetic is as close as floating point is.
pub proof fn law_a_timecode_reads_back_within_a_frame<
    D: Fn(u64, F64) -> u64,
    P: Fn(&str) -> Option<F64>,
    T: Fn(u64, u64, F64) -> F64,
    C: Fn(F64, F64) -> u64,
>(
    hundredths: &D,
    math: &TimeMath<P, T, C>,
    frame: u64,
    fps: F64,
    n: u64,
    front: Seq<char>,
    back: Seq<char>,
    r: Result<u64, String>,
)
    requires
        fps.positive(),
        unit64() <= fps.value() <= 60 * unit64(),
        frame < 0x1_0000_0000,
        places_closely(hundredths, frame, fps),
        reads_closely(&math.seconds),
        adds_closely(&math.total),
        fills_closely(&math.frames, fps),
        call_ensures(*hundredths, (frame, fps), n),
        all_space(front),
        all_space(back),
        reads_time(math, fps, front + clock_text(n as nat) + back, r),
    ensures
        r is Ok,
        frame - 1 <= r->Ok_0 <= frame + 1,
{
    let text = clock_text(n as nat);
    law_white_space_around_a_time_is_ignored(math, fps, front, text, back, r);
    law_a_written_time_is_taken_apart(n as nat);
    let (u, f) = (unit64(), fps.value());
    assert(u > 0) by {
        lemma_pow2_pos(1074);
    }
    lemma_few_hours(u, f, n as nat, frame as nat);
    let parts = (n as nat / 360_000, n as nat / 6_000 % 60, seconds_text(n as nat));
    let bad = not_a_time(text);
    assert(frame_of_parts(math, fps, parts, bad, r));
    lemma_parts_read_back(math, frame, fps, n, bad, r);
}

/// The parts of a written time name a frame next to the one it was written of.
proof fn lemma_parts_read_back<
    P: Fn(&str) -> Option<F64>,
    T: Fn(u64, u64, F64) -> F64,
    C: Fn(F64, F64) -> u64,
>(
    math: &TimeMath<P, T, C>,
    frame: u64,
    fps: F64,
    n: u64,
    bad: Seq<char>,
    r: Result<u64, String>,
)
    requires
        0 < unit64() <= fps.value() <= 60 * unit64(),
        n <= 100 * 0x1_0000_0000,
        -fps.value() <= n * fps.value() - 100 * frame * unit64() <= fps.value(),
        reads_closely(&math.seconds),
        adds_closely(&math.total),
        fills_closely(&math.frames, fps),
        frame_of_parts(
            math,
            fps,
            (n as nat / 360_000, n as nat / 6_000 % 60, seconds_text(n as nat)),
            bad,
            r,
        ),
    ensures
        r is Ok,
        frame - 1 <= r->Ok_0 <= frame + 1,
{
    let (u, f) = (unit64(), fps.value());
    let parts = (n as nat / 360_000, n as nat / 6_000 % 60, seconds_text(n as nat));
    let (written, read) = choose|written: &str, read: Option<F64>|
        written@ == parts.2 && #[trigger] call_ensures(math.seconds, (written,), read)
            && match read {
            None => r matches Err(e) && e@ == bad,
            Some(s) => exists|t: F64| #[trigger]
                call_ensures(math.total, (parts.0 as u64, parts.1 as u64, s), t) && (if !t.finite()
                    || t.below_zero() {
                    r matches Err(e) && e@ == bad
                } else {
                    r matches Ok(k) && call_ensures(math.frames, (t, fps), k)
                }),
        };
    let s = read->0;
    let w = 1000 * (n as nat / 100 % 60) + 10 * (n as nat % 100);
    assert(-u <= 1000 * s.value() - w * u <= u);
    lemma_under_a_minute(u, w as int, s.value());
    let t = choose|t: F64| #[trigger]
        call_ensures(math.total, (parts.0 as u64, parts.1 as u64, s), t) && (if !t.finite()
            || t.below_zero() {
            r matches Err(e) && e@ == bad
        } else {
            r matches Ok(k) && call_ensures(math.frames, (t, fps), k)
        });
    assert(t.finite() && !t.below_zero());
    let whole = 3600 * parts.0 + 60 * parts.1;
    assert(1000 * whole + w == 10 * n);
    lemma_time_sum(u, whole as int, w as int, n as int, s.value(), t.value());
    lemma_within_a_frame(u, f, n as int, t.value(), frame as int, r->Ok_0 as int);
}

/// A film of fewer than two to the 32 frames is short enough to be timed closely.
proof fn lemma_few_hours(u: int, f: int, n: nat, frame: nat)
    requires
        0 < u <= f,
        n * f - 100 * frame * u <= f,
        frame < 0x1_0000_0000,
    ensures
        n <= 100 * 0x1_0000_0000,
{
    assert(n <= 100 * frame + 1) by (nonlinear_arith)
        requires
            n * f - 100 * frame * u <= f,
            0 < u <= f,
            0 <= frame,
            0 <= n,
    ;
}

/// Seconds as they are written are under a minute, however they are read.
proof fn lemma_under_a_minute(u: int, w: int, s: int)
    requires
        0 < u,
        0 <= w <= 59_990,
        1000 * s - w * u <= u,
    ensures
        s <= 60 * u,
{
    assert(s <= 60 * u) by (nonlinear_arith)
        requires
            1000 * s - w * u <= u,
            w <= 59_990,
            0 < u,
    ;
}

/// Hours, minutes and seconds that were read and added up are close to the hundredths
/// they were written from.
proof fn lemma_time_sum(u: int, whole: int, w: int, n: int, s: int, t: int)
    requires
        0 < u,
        n <= 100 * 0x1_0000_0000,
        1000 * whole + w == 10 * n,
        -u <= 1000 * s - w * u <= u,
        -u <= 1000 * (t - whole * u - s) <= u,
    ensures
        (10 * n - 2) * u <= 1000 * t <= (10 * n + 2) * u,
        t <= 5_000_000_000 * u,
{
    assert((10 * n - 2) * u == 1000 * (whole * u) + w * u - 2 * u && (10 * n + 2) * u == 1000 * (whole
        * u) + w * u + 2 * u) by (nonlinear_arith)
        requires
            1000 * whole + w == 10 * n,
    ;
    assert((10 * n + 2) * u <= 1000 * (5_000_000_000 * u)) by (nonlinear_arith)
        requires
            n <= 100 * 0x1_0000_0000,
            0 < u,
    ;
}

/// The errors of writing a time down and reading it back stay within a frame.
proof fn lemma_within_a_frame(u: int, f: int, n: int, t: int, frame: int, k: int)
    requires
        0 < u <= f <= 60 * u,
        -f <= n * f - 100 * frame * u <= f,
        (10 * n - 2) * u <= 1000 * t <= (10 * n + 2) * u,
        -6 * (u * u) <= 10 * (k * (u * u) - t * f) <= 6 * (u * u),
    ensures
        frame - 1 <= k <= frame + 1,
{
    let q = u * u;
    assert(q > 0) by (nonlinear_arith)
        requires
            u > 0,
            q == u * u,
    ;
    // What is lost in hundredths, in frames.
    assert(1000 * (t * f) <= 10 * (n * f * u) + 2 * (u * f) && 1000 * (t * f) >= 10 * (n * f * u) - 2
        * (u * f)) by (nonlinear_arith)
        requires
            (10 * n - 2) * u <= 1000 * t <= (10 * n + 2) * u,
            f > 0,
    ;
    assert(n * f * u <= 100 * (frame * q) + u * f && n * f * u >= 100 * (frame * q) - u * f)
        by (nonlinear_arith)
        requires
            -f <= n * f - 100 * frame * u <= f,
            u > 0,
            q == u * u,
    ;
    assert(u * f <= 60 * q) by (nonlinear_arith)
        requires
            f <= 60 * u,
            u > 0,
            q == u * u,
    ;
    let d = k - frame;
    assert(k * q - frame * q == d * q) by (nonlinear_arith)
        requires
            d == k - frame,
    ;
    assert(-1320 * q <= 1000 * (d * q) <= 1320 * q);
    assert(-1 <= d <= 1) by (nonlinear_arith)
        requires
            -1320 * q <= 1000 * (d * q) <= 1320 * q,
            q > 0,
    ;
}

/// A time is written as a player shows it: hours where there are any, minutes, seconds
/// and hundredths, two digits each behind the first.
pub proof fn law_a_time_is_written_as_a_player_shows_it(h: nat, m: nat, s: nat, cs: nat, n: u64, text: String)
    requires
        m < 60 && s < 60 && cs < 100,
        n == 360_000 * h + 6_000 * m + 100 * s + cs,
        call_ensures(clock, (n,), text),
    ensures
        h == 0 ==> text@ == decimal_text(m) + seq![':'] + two_digit_text(s) + seq!['.']
            + two_digit_text(cs),
        h > 0 ==> text@ == decimal_text(h) + seq![':'] + two_digit_text(m) + seq![':']
            + two_digit_text(s) + seq!['.'] + two_digit_text(cs),
{
    lemma_clock_parts(h, m, s, cs);
    if h == 0 {
        assert(text@ =~= decimal_text(m) + seq![':'] + two_digit_text(s) + seq!['.'] + two_digit_text(
            cs,
        ));
    } else {
        assert(text@ =~= decimal_text(h) + seq![':'] + two_digit_text(m) + seq![':'] + two_digit_text(
            s,
        ) + seq!['.'] + two_digit_text(cs));
    }
}

/// Hours, minutes, seconds and hundredths are told apart again.
proof fn lemma_clock_parts(h: nat, m: nat, s: nat, cs: nat)
    requires
        m < 60 && s < 60 && cs < 100,
    ensures
        ({
            let t = 360_000 * h + 6_000 * m + 100 * s + cs;
            &&& t / 360_000 == h
            &&& t / 6_000 % 60 == m
            &&& t / 100 % 60 == s
            &&& t % 100 == cs
        }),
{
    let t = (360_000 * h + 6_000 * m + 100 * s + cs) as int;
    vstd::arithmetic::div_mod::lemma_fundamental_div_mod_converse(
        t,
        360_000,
        h as int,
        (6_000 * m + 100 * s + cs) as int,
    );
    vstd::arithmetic::div_mod::lemma_fundamental_div_mod_converse(
        t,
        6_000,
        (60 * h + m) as int,
        (100 * s + cs) as int,
    );
    vstd::arithmetic::div_mod::lemma_fundamental_div_mod_converse(
        (60 * h + m) as int,
        60,
        h as int,
        m as int,
    );
    vstd::arithmetic::div_mod::lemma_fundamental_div_mod_converse(
        t,
        100,
        (3_600 * h + 60 * m + s) as int,
        cs as int,
    );
    vstd::arithmetic::div_mod::lemma_fundamental_div_mod_converse(
        (3_600 * h + 60 * m + s) as int,
        60,
        (60 * h + m) as int,
        s as int,
    );
}

/// A time is read from the right: seconds alone, minutes and seconds, or hours, minutes
/// and seconds.
pub proof fn law_a_time_is_read_from_the_right(h: u64, m: u64, secs: Seq<char>)
    requires
        !secs.contains(':'),
    ensures
        time_parts(secs) == Some((0nat, 0nat, secs)),
        time_parts(decimal_text(m as nat).push(':') + secs) == Some((0nat, m as nat, secs)),
        time_parts((decimal_text(h as nat).push(':') + decimal_text(m as nat)).push(':') + secs) == Some(
            (h as nat, m as nat, secs),
        ),
{
    let max = u64::MAX as nat;
    let (a, b) = (decimal_text(h as nat), decimal_text(m as nat));
    lemma_decimal_digits(h as nat);
    lemma_decimal_digits(m as nat);
    law_decimal_round_trips(h as nat, max);
    law_decimal_round_trips(m as nat, max);
    lemma_no_colon(a);
    lemma_no_colon(b);
    lemma_split_whole(secs, ':');
    lemma_split_whole(a, ':');
    lemma_split_whole(b, ':');
    lemma_split_behind(b, ':', secs);
    lemma_split_behind(a, ':', b);
    lemma_split_behind(a.push(':') + b, ':', secs);
}

/// The frame of a time is the one that its hours, minutes and seconds, added up in that
/// order, fill at the film's rate; a film without a rate, no text and a time before the
/// start are told as such, and a time that is not finite or below zero is none.
pub proof fn law_a_time_names_the_frame_it_falls_on<
    P: Fn(&str) -> Option<F64>,
    T: Fn(u64, u64, F64) -> F64,
    C: Fn(F64, F64) -> u64,
>(
    text: &str,
    fps: F64,
    math: &TimeMath<P, T, C>,
    r: Result<u64, String>,
    h: u64,
    m: u64,
    secs: Seq<char>,
)
    requires
        call_ensures(parse_timecode::<P, T, C>, (text, fps, math), r),
    ensures
        !fps.positive() ==> (r matches Err(e) && e@
            == "this file reports no frame rate, so times cannot be used"@),
        fps.positive() && trimmed(text@).len() == 0 ==> (r matches Err(e) && e@
            == "expected a time like 1:35 or 1:02:05"@),
        fps.positive() && trimmed(text@).len() > 0 && trimmed(text@)[0] == '-' ==> (r matches Err(e)
            && e@ == quoted_text(trimmed(text@)) + " is before the start of the file"@),
        fps.positive() && trimmed(text@).len() > 0 && trimmed(text@)[0] != '-' && time_parts(
            trimmed(text@),
        ) == Some((h as nat, m as nat, secs)) && r is Ok ==> exists|s: &str, read: F64, t: F64|
            #[trigger]
            call_ensures(math.seconds, (s,), Some(read)) && #[trigger] call_ensures(
                math.total,
                (h, m, read),
                t,
            ) && s@ == secs && t.finite() && !t.below_zero() && call_ensures(
                math.frames,
                (t, fps),
                r->Ok_0,
            ),
        fps.positive() && trimmed(text@).len() > 0 && trimmed(text@)[0] != '-' && r is Err ==> r->Err_0@
            == quoted_text(trimmed(text@)) + " is not a time like 1:35 or 1:02:05"@,
{
}

/// A number with an `f` behind it is that frame, whatever the rate; anything else that
/// ends in `f` is no frame number, and what does not is read as a time.
pub proof fn law_an_f_marks_a_frame<
    P: Fn(&str) -> Option<F64>,
    T: Fn(u64, u64, F64) -> F64,
    C: Fn(F64, F64) -> u64,
>(text: &str, fps: F64, math: &TimeMath<P, T, C>, r: Result<u64, String>, n: u64)
    requires
        call_ensures(parse_position::<P, T, C>, (text, fps, math), r),
    ensures
        text@ == decimal_text(n as nat).push('f') || text@ == decimal_text(n as nat).push('F')
            ==> (r matches Ok(frame) && frame == n),
        trimmed(text@).len() > 0 && trimmed(text@).last() != 'f' && trimmed(text@).last() != 'F'
            ==> reads_time(math, fps, trimmed(text@), r),
        trimmed(text@) == seq!['f'] ==> (r matches Err(e) && e@ == quoted_text(trimmed(text@))
            + " is not a frame number like 900f"@),
{
    let digits = decimal_text(n as nat);
    lemma_decimal_digits(n as nat);
    law_decimal_round_trips(n as nat, u64::MAX as nat);
    assert(is_digit(digits[0]) && is_digit(digits[digits.len() - 1]));
    if text@ == digits.push('f') || text@ == digits.push('F') {
        assert(text@[0] == digits[0]);
        assert(!is_space(text@[0]) && !is_space(text@.last()));
        assert(trimmed(text@) == text@);
        assert(text@.drop_last() =~= digits);
        assert(trimmed(digits) == digits);
    }
    if trimmed(text@) == seq!['f'] {
        assert(seq!['f'].drop_last() =~= Seq::<char>::empty());
    }
}

/// A frame is shown at the time it is at, where the film has a rate, and not at all where
/// it has none.
pub proof fn law_a_frame_is_shown_at_its_time<C: Fn(u64, F64) -> u64>(
    frame: u64,
    fps: F64,
    hundredths: &C,
    text: String,
)
    requires
        call_ensures(format_timecode::<C>, (frame, fps, hundredths), text),
    ensures
        fps.finite() && 0 < fps.bits < 0x8000_0000_0000_0000 ==> exists|n: u64| #[trigger]
            call_ensures(*hundredths, (frame, fps), n) && text@ == clock_text(n as nat),
        !fps.finite() || fps.bits == 0 || fps.bits >= 0x8000_0000_0000_0000 ==> text@ == "?"@,
{
}

} // verus!
