//! Reading a file's shape from what `ffprobe` says of it.
//!
//! Parsing is kept separate from running the process so the awkward cases
//! (missing frame counts, unset frame rates, high bit depths) can be looked at
//! one by one rather than requiring a file that exhibits each.

use crate::media::MediaError;
use crate::params::MAX_DIMENSION;
use crate::scalar::F64;
use crate::text::{chars_of, parse_number, parsed_number, string_of};
use serde_json::Value;
use vstd::prelude::*;
use vstd::string::*;

verus! {

/// One JSON value, taken apart as far as its own kind: what a list or an object
/// holds is left as JSON text.
pub enum JsonNode {
    Null,
    Bool(bool),
    /// A number as it is written, and its value where that is a whole number
    /// from zero up.
    Number(String, Option<u64>),
    Text(String),
    List(Vec<String>),
    Object(Vec<(String, String)>),
}

/// What a [`JsonNode`] holds.
pub enum JsonView {
    Null,
    Bool(bool),
    Number(Seq<char>, Option<u64>),
    Text(Seq<char>),
    List(Seq<Seq<char>>),
    Object(Seq<(Seq<char>, Seq<char>)>),
}

impl View for JsonNode {
    type V = JsonView;

    open spec fn view(&self) -> JsonView {
        match *self {
            JsonNode::Null => JsonView::Null,
            JsonNode::Bool(b) => JsonView::Bool(b),
            JsonNode::Number(text, whole) => JsonView::Number(text@, whole),
            JsonNode::Text(text) => JsonView::Text(text@),
            JsonNode::List(items) => JsonView::List(
                Seq::new(items@.len(), |i: int| items@[i]@),
            ),
            JsonNode::Object(fields) => JsonView::Object(
                Seq::new(fields@.len(), |i: int| (fields@[i].0@, fields@[i].1@)),
            ),
        }
    }
}

/// The JSON value that a text stands for, or what is said against it.
pub uninterp spec fn json_of(text: Seq<char>) -> Result<JsonView, Seq<char>>;

/// What a reading holds.
pub open spec fn reading_view(r: Result<JsonNode, String>) -> Result<JsonView, Seq<char>> {
    match r {
        Ok(node) => Ok(node@),
        Err(e) => Err(e@),
    }
}

/// Reads one JSON value with `serde_json::from_str`, and takes it apart by its
/// kind; the values inside it are written out again by `Value`'s `Display`. The
/// result depends on the text alone and has a name here; the grammar of JSON is
/// not stated.
#[verifier::external_body]
pub(crate) fn read_json(text: &str) -> (r: Result<JsonNode, String>)
    ensures
        reading_view(r) == json_of(text@),
{
    match serde_json::from_str(text) {
        Err(e) => Err(e.to_string()),
        Ok(Value::Null) => Ok(JsonNode::Null),
        Ok(Value::Bool(b)) => Ok(JsonNode::Bool(b)),
        Ok(Value::Number(n)) => Ok(JsonNode::Number(n.to_string(), n.as_u64())),
        Ok(Value::String(s)) => Ok(JsonNode::Text(s)),
        Ok(Value::Array(v)) => Ok(JsonNode::List(v.iter().map(|x| x.to_string()).collect())),
        Ok(Value::Object(m)) => {
            Ok(JsonNode::Object(m.into_iter().map(|(k, x)| (k, x.to_string())).collect()))
        }
    }
}

/// One field of what ffprobe reports, as far as anything is made of it.
pub enum Field {
    /// Not there, or neither a number nor text.
    Missing,
    /// A JSON number: as it is written, and as a whole number where it is one.
    Number(String, Option<u64>),
    Text(String),
}

/// What a [`Field`] holds.
pub enum FieldView {
    Missing,
    Number(Seq<char>, Option<u64>),
    Text(Seq<char>),
}

impl View for Field {
    type V = FieldView;

    open spec fn view(&self) -> FieldView {
        match *self {
            Field::Missing => FieldView::Missing,
            Field::Number(text, whole) => FieldView::Number(text@, whole),
            Field::Text(text) => FieldView::Text(text@),
        }
    }
}

impl FieldView {
    /// The field as text.
    pub open spec fn as_text(self) -> Option<Seq<char>> {
        match self {
            FieldView::Text(text) => Some(text),
            _ => None,
        }
    }

    /// The field as a whole number. ffprobe reports some numbers as JSON numbers
    /// and others as strings.
    pub open spec fn as_whole(self) -> Option<nat> {
        match self {
            FieldView::Missing => None,
            FieldView::Number(_, Some(n)) => Some(n as nat),
            FieldView::Number(_, None) => None,
            FieldView::Text(text) => parsed_number(text, u64::MAX as nat),
        }
    }

    /// The text of the field as a number that need not be whole.
    pub open spec fn as_written(self) -> Option<Seq<char>> {
        match self {
            FieldView::Missing => None,
            FieldView::Number(text, _) => Some(text),
            FieldView::Text(text) => Some(text),
        }
    }
}

impl Field {
    fn whole(&self) -> (r: Option<u64>)
        ensures
            r matches Some(n) ==> self@.as_whole() == Some(n as nat),
            r is None ==> self@.as_whole() is None,
    {
        match self {
            Field::Missing => None,
            Field::Number(_, whole) => *whole,
            Field::Text(text) => parse_number(chars_of(text.as_str()).as_slice(), u64::MAX),
        }
    }

    fn written(&self) -> (r: Option<&str>)
        ensures
            r matches Some(s) ==> self@.as_written() == Some(s@),
            r is None ==> self@.as_written() is None,
    {
        match self {
            Field::Missing => None,
            Field::Number(text, _) => Some(text.as_str()),
            Field::Text(text) => Some(text.as_str()),
        }
    }

    fn text(&self) -> (r: Option<&str>)
        ensures
            r matches Some(s) ==> self@.as_text() == Some(s@),
            r is None ==> self@.as_text() is None,
    {
        match self {
            Field::Text(text) => Some(text.as_str()),
            _ => None,
        }
    }
}

/// The fields of one stream that anything is made of.
pub struct ProbeStream {
    pub codec_type: Field,
    pub width: Field,
    pub height: Field,
    pub avg_frame_rate: Field,
    pub r_frame_rate: Field,
    pub pix_fmt: Field,
    pub bits_per_raw_sample: Field,
    pub duration: Field,
    pub nb_frames: Field,
    pub sample_aspect_ratio: Field,
    pub display_aspect_ratio: Field,
}

/// What a [`ProbeStream`] holds.
pub struct StreamView {
    pub codec_type: FieldView,
    pub width: FieldView,
    pub height: FieldView,
    pub avg_frame_rate: FieldView,
    pub r_frame_rate: FieldView,
    pub pix_fmt: FieldView,
    pub bits_per_raw_sample: FieldView,
    pub duration: FieldView,
    pub nb_frames: FieldView,
    pub sample_aspect_ratio: FieldView,
    pub display_aspect_ratio: FieldView,
}

impl View for ProbeStream {
    type V = StreamView;

    open spec fn view(&self) -> StreamView {
        StreamView {
            codec_type: self.codec_type@,
            width: self.width@,
            height: self.height@,
            avg_frame_rate: self.avg_frame_rate@,
            r_frame_rate: self.r_frame_rate@,
            pix_fmt: self.pix_fmt@,
            bits_per_raw_sample: self.bits_per_raw_sample@,
            duration: self.duration@,
            nb_frames: self.nb_frames@,
            sample_aspect_ratio: self.sample_aspect_ratio@,
            display_aspect_ratio: self.display_aspect_ratio@,
        }
    }
}

impl StreamView {
    pub open spec fn is_kind(self, kind: Seq<char>) -> bool {
        self.codec_type.as_text() == Some(kind)
    }
}

/// What one source file contains.
#[derive(Debug)]
pub struct VideoInfo {
    pub width: usize,
    pub height: usize,
    /// Frames per second, from `avg_frame_rate` where it is usable.
    pub fps: F64,
    /// Frame count as reported by the container, when it reports one at all.
    pub frame_count: Option<u64>,
    pub duration_secs: Option<F64>,
    /// Pixel aspect ratio: the shape of one stored pixel.
    ///
    /// Not always square. A DVD-sourced transfer routinely stores 708x276 with
    /// 8:9 pixels, meaning it displays narrower than its stored dimensions
    /// suggest. Raw video carries no such metadata, so this has to be read here
    /// and put back at encode time or every output comes out stretched.
    pub sample_aspect: F64,
    /// Bits per component in the source, derived from the pixel format.
    pub bit_depth: u8,
    pub pix_fmt: String,
    pub has_audio: bool,
}

impl Clone for VideoInfo {
    fn clone(&self) -> (r: Self)
        ensures
            r == *self,
    {
        VideoInfo {
            width: self.width,
            height: self.height,
            fps: self.fps,
            frame_count: self.frame_count,
            duration_secs: self.duration_secs,
            sample_aspect: self.sample_aspect,
            bit_depth: self.bit_depth,
            pix_fmt: self.pix_fmt.clone(),
            has_audio: self.has_audio,
        }
    }
}

/// The pixel format to ask ffmpeg for when decoding.
#[derive(Debug, Clone, Copy, PartialEq, Eq, Structural)]
pub enum SourceDepth {
    /// `rgb24`: three bytes per pixel.
    Eight,
    /// `rgb48le`: six bytes per pixel, for sources carrying more than 8 bits.
    Sixteen,
}

impl SourceDepth {
    pub open spec fn pix_fmt_text(self) -> Seq<char> {
        match self {
            SourceDepth::Eight => "rgb24"@,
            SourceDepth::Sixteen => "rgb48le"@,
        }
    }

    pub open spec fn pixel_bytes(self) -> nat {
        match self {
            SourceDepth::Eight => 3,
            SourceDepth::Sixteen => 6,
        }
    }

    /// The ffmpeg pixel format name.
    pub fn pix_fmt(self) -> (r: &'static str)
        ensures
            r@ == self.pix_fmt_text(),
    {
        match self {
            SourceDepth::Eight => "rgb24",
            SourceDepth::Sixteen => "rgb48le",
        }
    }

    /// Bytes per pixel in that format.
    pub fn bytes_per_pixel(self) -> (r: usize)
        ensures
            r == self.pixel_bytes(),
    {
        match self {
            SourceDepth::Eight => 3,
            SourceDepth::Sixteen => 6,
        }
    }
}

impl VideoInfo {
    /// Which raw format to decode into: enough to carry the source without
    /// wasting pipe bandwidth on sources that never had the precision.
    pub fn source_depth(&self) -> (r: SourceDepth)
        ensures
            r == self.depth(),
    {
        if self.bit_depth > 8 {
            SourceDepth::Sixteen
        } else {
            SourceDepth::Eight
        }
    }

    pub open spec fn depth(self) -> SourceDepth {
        if self.bit_depth > 8 {
            SourceDepth::Sixteen
        } else {
            SourceDepth::Eight
        }
    }

    /// Bytes in one decoded frame at the given depth.
    pub fn frame_bytes(&self, depth: SourceDepth) -> (r: usize)
        requires
            self.width * self.height * depth.pixel_bytes() <= usize::MAX,
        ensures
            r == self.width * self.height * depth.pixel_bytes(),
    {
        proof {
            assert(self.width * self.height <= self.width * self.height * depth.pixel_bytes())
                by (nonlinear_arith)
                requires
                    depth.pixel_bytes() >= 1,
            ;
        }
        self.width * self.height * depth.bytes_per_pixel()
    }

    /// The shape the frame is meant to be seen at, accounting for pixel shape.
    ///
    /// `shape` works it out from the width, the pixel shape and the height. An
    /// empty frame is square.
    pub fn display_aspect<F: Fn(usize, F64, usize) -> F64>(&self, square: F64, shape: &F) -> (r: F64)
        requires
            self.height > 0 ==> call_requires(*shape, (self.width, self.sample_aspect, self.height)),
        ensures
            self.height == 0 ==> r == square,
            self.height > 0 ==> call_ensures(*shape, (self.width, self.sample_aspect, self.height), r),
    {
        if self.height == 0 {
            return square;
        }
        shape(self.width, self.sample_aspect, self.height)
    }

    /// Best available frame count, falling back to duration times frame rate
    /// for containers that do not store one. `frames` says how many frames fill
    /// a duration at a rate.
    pub fn estimated_frame_count<F: Fn(F64, F64) -> u64>(&self, frames: &F) -> (r: Option<u64>)
        requires
            forall|d: F64, fps: F64| #[trigger] call_requires(*frames, (d, fps)),
        ensures
            match (self.frame_count, self.duration_secs) {
                (Some(n), _) => r == Some(n),
                (None, Some(d)) => if self.fps.above_zero() && d.above_zero() {
                    r matches Some(n) && call_ensures(*frames, (d, self.fps), n)
                } else {
                    r is None
                },
                (None, None) => r is None,
            },
    {
        if let Some(n) = self.frame_count {
            return Some(n);
        }
        match self.duration_secs {
            Some(d) => if self.fps.is_above_zero() && d.is_above_zero() {
                Some(frames(d, self.fps))
            } else {
                None
            },
            None => None,
        }
    }
}

/// A text without any number of one two-letter ending.
pub open spec fn without_ending(s: Seq<char>, a: char, b: char) -> Seq<char>
    decreases s.len(),
{
    if s.len() >= 2 && s[s.len() - 2] == a && s[s.len() - 1] == b {
        without_ending(s.take(s.len() - 2), a, b)
    } else {
        s
    }
}

/// The digits a text ends in.
pub open spec fn ending_digits(s: Seq<char>) -> Seq<char>
    decreases s.len(),
{
    if s.len() > 0 && crate::text::is_digit(s.last()) {
        ending_digits(s.drop_last()).push(s.last())
    } else {
        Seq::empty()
    }
}

/// What the last `n` characters of a pixel format name follow says that they are a
/// depth: the `p` or `s` of a plane layout, or the `y` of `gray`. In `nv12` they
/// count bits per pixel.
pub open spec fn follows_marker(name: Seq<char>, n: nat) -> bool {
    &&& n < name.len()
    &&& is_marker(name[name.len() - n - 1])
}

pub open spec fn is_marker(c: char) -> bool {
    c == 'p' || c == 's' || c == 'y'
}

/// The component depth that a pixel format name carries, e.g. `yuv420p10le`.
///
/// "yuv420p" has "420" in it, which is subsampling, not depth. Only formats whose
/// trailing digits follow a marker like "p" or "s" carry a depth, and real depths
/// are 9 or more: 8-bit formats simply omit the suffix.
pub open spec fn depth_in(pix_fmt: Seq<char>) -> Option<nat> {
    let name = without_ending(without_ending(pix_fmt, 'l', 'e'), 'b', 'e');
    let digits = ending_digits(name);
    match parsed_number(digits, u8::MAX as nat) {
        Some(depth) => if 9 <= depth <= 16 && follows_marker(name, digits.len()) {
            Some(depth)
        } else {
            None
        },
        None => None,
    }
}

/// Reads the component depth out of a pixel format name.
pub fn bit_depth_of(pix_fmt: &str) -> (r: Option<u8>)
    ensures
        r matches Some(d) ==> depth_in(pix_fmt@) == Some(d as nat),
        r is None ==> depth_in(pix_fmt@) is None,
{
    let chars = chars_of(pix_fmt);
    let s = chars.as_slice();
    let mut end: usize = s.len();
    assert(s@.take(end as int) =~= s@);
    while end >= 2 && s[end - 2] == 'l' && s[end - 1] == 'e'
        invariant
            end <= s@.len(),
            without_ending(s@, 'l', 'e') == without_ending(s@.take(end as int), 'l', 'e'),
        decreases end,
    {
        assert(s@.take(end as int).take(end - 2) =~= s@.take(end - 2));
        end -= 2;
    }
    let ghost bare = s@.take(end as int);
    assert(bare == without_ending(s@, 'l', 'e'));
    while end >= 2 && s[end - 2] == 'b' && s[end - 1] == 'e'
        invariant
            end <= s@.len(),
            without_ending(bare, 'b', 'e') == without_ending(s@.take(end as int), 'b', 'e'),
        decreases end,
    {
        assert(s@.take(end as int).take(end - 2) =~= s@.take(end - 2));
        end -= 2;
    }
    let ghost name = s@.take(end as int);
    assert(name == without_ending(bare, 'b', 'e'));
    let mut start: usize = end;
    assert(s@.subrange(start as int, end as int) =~= Seq::empty());
    assert(ending_digits(name) =~= ending_digits(s@.take(start as int)) + s@.subrange(
        start as int,
        end as int,
    ));
    while start > 0 && '0' <= s[start - 1] && s[start - 1] <= '9'
        invariant
            start <= end <= s@.len(),
            ending_digits(name) == ending_digits(s@.take(start as int)) + s@.subrange(
                start as int,
                end as int,
            ),
        decreases start,
    {
        let ghost here = s@.take(start as int);
        assert(here.drop_last() =~= s@.take(start - 1));
        assert(ending_digits(here) + s@.subrange(start as int, end as int) =~= ending_digits(
            s@.take(start - 1),
        ) + s@.subrange(start - 1, end as int));
        start -= 1;
    }
    assert(ending_digits(s@.take(start as int)) =~= Seq::empty());
    let digits = vstd::slice::slice_subrange(s, start, end);
    assert(ending_digits(name) =~= digits@);
    let marked: bool = start > 0 && (s[start - 1] == 'p' || s[start - 1] == 's' || s[start - 1] == 'y');
    assert(marked == follows_marker(name, digits@.len()));
    match parse_number(digits, 255) {
        Some(depth) => if 9 <= depth && depth <= 16 && marked {
            Some(depth as u8)
        } else {
            None
        },
        None => None,
    }
}

/// The arithmetic of what a probe reports.
pub struct ProbeMath<N, D, P> {
    /// Reads a number that need not be whole.
    pub number: N,
    /// Divides one number by another.
    pub divide: D,
    /// The shape of a pixel, from the shape of the picture and its height and
    /// width.
    pub pixel: P,
}

/// The pattern of 1.
pub const ONE_64: u64 = 0x3FF0_0000_0000_0000;

/// The arithmetic takes every text and number.
pub open spec fn probes_all<
    N: Fn(&str) -> Option<F64>,
    D: Fn(F64, F64) -> F64,
    P: Fn(F64, usize, usize) -> F64,
>(math: &ProbeMath<N, D, P>) -> bool {
    &&& forall|s: &str| #[trigger] call_requires(math.number, (s,))
    &&& forall|a: F64, b: F64| #[trigger] call_requires(math.divide, (a, b))
    &&& forall|a: F64, h: usize, w: usize| #[trigger] call_requires(math.pixel, (a, h, w))
}

/// `r` is the number that `number` may read from a text.
pub open spec fn reads_number<N: Fn(&str) -> Option<F64>>(
    number: N,
    text: Seq<char>,
    r: Option<F64>,
) -> bool {
    exists|s: &str| s@ == text && #[trigger] call_ensures(number, (s,), r)
}

/// Where the first slash or colon of a text is, or its length where it has none.
pub open spec fn separator_at(s: Seq<char>) -> int
    decreases s.len(),
{
    if s.len() == 0 || s[0] == '/' || s[0] == ':' {
        0
    } else {
        1 + separator_at(s.skip(1))
    }
}

/// `r` is the ratio of two numbers, unless one of them is missing or zero.
pub open spec fn divides<D: Fn(F64, F64) -> F64>(
    divide: D,
    num: Option<F64>,
    den: Option<F64>,
    r: Option<F64>,
) -> bool {
    match (num, den) {
        (Some(n), Some(d)) => if d.zero() || n.zero() {
            r is None
        } else {
            r matches Some(q) && call_ensures(divide, (n, d), q)
        },
        _ => r is None,
    }
}

/// `r` is the value of one of ffprobe's rationals. Frame rates arrive as
/// `"24000/1001"` and aspect ratios as `"8:9"`, so both separators are accepted.
/// Unusable values like `"0/0"`, `"0:1"` or `"N/A"` have none.
pub open spec fn reads_rational<
    N: Fn(&str) -> Option<F64>,
    D: Fn(F64, F64) -> F64,
    P: Fn(F64, usize, usize) -> F64,
>(math: &ProbeMath<N, D, P>, text: Option<Seq<char>>, r: Option<F64>) -> bool {
    match text {
        None => r is None,
        Some(s) => if separator_at(s) == s.len() {
            r is None
        } else {
            reads_quotient(math, s.take(separator_at(s)), s.skip(separator_at(s) + 1), r)
        },
    }
}

/// `r` is the value of a quotient.
pub open spec fn reads_quotient<
    N: Fn(&str) -> Option<F64>,
    D: Fn(F64, F64) -> F64,
    P: Fn(F64, usize, usize) -> F64,
>(math: &ProbeMath<N, D, P>, above: Seq<char>, below: Seq<char>, r: Option<F64>) -> bool {
    exists|num: Option<F64>, den: Option<F64>| #[trigger]
        reads_number(math.number, above, num) && #[trigger] reads_number(math.number, below, den)
            && divides(math.divide, num, den, r)
}

/// Evaluates one of ffprobe's rationals, if it is there.
fn parse_rational<
    N: Fn(&str) -> Option<F64>,
    D: Fn(F64, F64) -> F64,
    P: Fn(F64, usize, usize) -> F64,
>(text: Option<&str>, math: &ProbeMath<N, D, P>) -> (r: Option<F64>)
    requires
        probes_all(math),
    ensures
        match text {
            Some(t) => reads_rational(math, Some(t@), r),
            None => r is None,
        },
{
    let text = match text {
        Some(t) => t,
        None => return None,
    };
    let chars = chars_of(text);
    let s = chars.as_slice();
    let mut at: usize = 0;
    assert(s@.skip(0) =~= s@);
    while at < s.len() && s[at] != '/' && s[at] != ':'
        invariant
            at <= s@.len(),
            separator_at(s@) == at + separator_at(s@.skip(at as int)),
        decreases s@.len() - at,
    {
        assert(s@.skip(at as int).skip(1) =~= s@.skip(at + 1));
        at += 1;
    }
    if at == s.len() {
        return None;
    }
    let above = string_of(vstd::slice::slice_subrange(s, 0, at));
    let below = string_of(vstd::slice::slice_subrange(s, at + 1, s.len()));
    assert(above@ =~= s@.take(at as int));
    assert(below@ =~= s@.skip(at + 1));
    let (written_above, written_below) = (above.as_str(), below.as_str());
    let num = (math.number)(written_above);
    let den = (math.number)(written_below);
    assert(call_ensures(math.number, (written_above,), num));
    assert(call_ensures(math.number, (written_below,), den));
    assert(reads_number(math.number, above@, num));
    assert(reads_number(math.number, below@, den));
    let r = match (num, den) {
        (Some(n), Some(d)) => if d.is_zero() || n.is_zero() {
            None
        } else {
            Some((math.divide)(n, d))
        },
        _ => None,
    };
    assert(divides(math.divide, num, den, r));
    assert(reads_quotient(math, above@, below@, r));
    r
}

/// `fps` is the frame rate of a stream.
///
/// `avg_frame_rate` first, deliberately. `r_frame_rate` is the lowest rate that
/// can represent every timestamp, which on a real 29.97 disc rip reads as a round
/// 30: enough to seek nearly six frames wrong three minutes in, and to drift the
/// audio across a feature. `avg_frame_rate` is frames over duration, which is
/// exactly the frame-to-time mapping seeking needs. It is "0/0" on some sources,
/// hence the fallback.
pub open spec fn rates<
    N: Fn(&str) -> Option<F64>,
    D: Fn(F64, F64) -> F64,
    P: Fn(F64, usize, usize) -> F64,
>(math: &ProbeMath<N, D, P>, stream: StreamView, fps: F64) -> bool {
    exists|average: Option<F64>, lowest: Option<F64>| #[trigger]
        reads_rational(math, stream.avg_frame_rate.as_text(), average) && #[trigger]
            reads_rational(math, stream.r_frame_rate.as_text(), lowest) && fps == (match (
            average,
            lowest,
        ) {
            (Some(rate), _) => rate,
            (None, Some(rate)) => rate,
            (None, None) => (F64 { bits: 0 }),
        })
}

/// `shape` is the shape of one stored pixel.
///
/// `sample_aspect_ratio` states the fact directly. Some containers give only
/// `display_aspect_ratio`, what the picture should look like, which the pixel
/// shape can be worked back out of. Failing both, square.
pub open spec fn shapes<
    N: Fn(&str) -> Option<F64>,
    D: Fn(F64, F64) -> F64,
    P: Fn(F64, usize, usize) -> F64,
>(math: &ProbeMath<N, D, P>, stream: StreamView, width: usize, height: usize, shape: F64) -> bool {
    exists|sample: Option<F64>, display: Option<F64>| #[trigger]
        reads_rational(math, stream.sample_aspect_ratio.as_text(), sample) && #[trigger]
            reads_rational(math, stream.display_aspect_ratio.as_text(), display) && match (
            sample,
            display,
        ) {
            (Some(sar), _) => shape == sar,
            (None, Some(dar)) => if width > 0 {
                call_ensures(math.pixel, (dar, height, width), shape)
            } else {
                shape.bits == ONE_64
            },
            (None, None) => shape.bits == ONE_64,
        }
}

/// `r` is the number in a field, where there is one.
pub open spec fn reads_field<N: Fn(&str) -> Option<F64>>(
    number: N,
    field: FieldView,
    r: Option<F64>,
) -> bool {
    match field.as_written() {
        Some(text) => reads_number(number, text, r),
        None => r is None,
    }
}

/// `r` is the duration of a stream, or else of the whole file.
pub open spec fn lasts<N: Fn(&str) -> Option<F64>>(
    number: N,
    stream: StreamView,
    file: FieldView,
    r: Option<F64>,
) -> bool {
    exists|own: Option<F64>, whole: Option<F64>| #[trigger]
        reads_field(number, stream.duration, own) && #[trigger] reads_field(number, file, whole) && r
            == (if own is Some {
            own
        } else {
            whole
        })
}

/// A number as far as a machine counts sizes.
pub open spec fn as_size(n: nat) -> usize {
    if n > usize::MAX {
        usize::MAX
    } else {
        n as usize
    }
}

/// The bits per component of a stream.
pub open spec fn stream_depth(stream: StreamView) -> nat {
    let name = match stream.pix_fmt.as_text() {
        Some(text) => text,
        None => Seq::empty(),
    };
    match (depth_in(name), stream.bits_per_raw_sample.as_whole()) {
        (Some(depth), _) => depth,
        (None, Some(depth)) => depth % 256,
        (None, None) => 8,
    }
}

/// `info` is what a video stream of a size says of itself.
pub open spec fn informs<
    N: Fn(&str) -> Option<F64>,
    D: Fn(F64, F64) -> F64,
    P: Fn(F64, usize, usize) -> F64,
>(
    math: &ProbeMath<N, D, P>,
    stream: StreamView,
    width: nat,
    height: nat,
    file_duration: FieldView,
    has_audio: bool,
    info: VideoInfo,
) -> bool {
    &&& info.width == width
    &&& info.height == height
    &&& rates(math, stream, info.fps)
    &&& shapes(math, stream, info.width, info.height, info.sample_aspect)
    &&& info.frame_count == (match stream.nb_frames.as_whole() {
        Some(n) => if n > 0 {
            Some(n as u64)
        } else {
            None
        },
        None => None,
    })
    &&& lasts(math.number, stream, file_duration, info.duration_secs)
    &&& info.bit_depth == stream_depth(stream)
    &&& info.pix_fmt@ == (match stream.pix_fmt.as_text() {
        Some(text) => text,
        None => Seq::empty(),
    })
    &&& info.has_audio == has_audio
}

/// The position of the first stream of a kind, or how many streams there are.
pub open spec fn first_of(streams: Seq<StreamView>, kind: Seq<char>) -> int
    decreases streams.len(),
{
    if streams.len() == 0 || streams[0].is_kind(kind) {
        0
    } else {
        1 + first_of(streams.skip(1), kind)
    }
}

/// `r` is what a list of streams, and the duration of the file, say of a video.
pub open spec fn describes<
    N: Fn(&str) -> Option<F64>,
    D: Fn(F64, F64) -> F64,
    P: Fn(F64, usize, usize) -> F64,
>(
    math: &ProbeMath<N, D, P>,
    streams: Seq<StreamView>,
    file_duration: FieldView,
    r: Result<VideoInfo, MediaError>,
) -> bool {
    let at = first_of(streams, "video"@);
    if at == streams.len() {
        r matches Err(MediaError::NoVideoStream { path }) && path@ == "input"@
    } else {
        let stream = streams[at];
        match (stream.width.as_whole(), stream.height.as_whole()) {
            (None, _) => r matches Err(MediaError::ProbeParse(what)) && what@
                == "video stream has no width"@,
            (Some(_), None) => r matches Err(MediaError::ProbeParse(what)) && what@
                == "video stream has no height"@,
            (Some(w), Some(h)) => if w > MAX_DIMENSION || h > MAX_DIMENSION {
                r matches Err(MediaError::ImplausibleGeometry { width, height }) && width == as_size(w)
                    && height == as_size(h)
            } else {
                r matches Ok(info) && informs(
                    math,
                    stream,
                    w,
                    h,
                    file_duration,
                    first_of(streams, "audio"@) < streams.len(),
                    info,
                )
            },
        }
    }
}

/// The views of a list of streams.
pub open spec fn stream_views(streams: Seq<ProbeStream>) -> Seq<StreamView> {
    Seq::new(streams.len(), |i: int| streams[i]@)
}

/// Whether a field is a given text.
fn field_is(field: &Field, text: &str) -> (r: bool)
    ensures
        r == (field@.as_text() == Some(text@)),
{
    match field {
        Field::Text(t) => {
            let same = same_text(t.as_str(), text);
            same
        },
        _ => false,
    }
}

/// Whether two texts are the same.
pub fn same_text(a: &str, b: &str) -> (r: bool)
    ensures
        r == (a@ == b@),
{
    let (x, y) = (chars_of(a), chars_of(b));
    if x.len() != y.len() {
        return false;
    }
    let mut i: usize = 0;
    while i < x.len()
        invariant
            i <= x@.len(),
            x@.len() == y@.len(),
            x@ == a@,
            y@ == b@,
            forall|k: int| 0 <= k < i ==> x@[k] == y@[k],
        decreases x@.len() - i,
    {
        if x[i] != y[i] {
            return false;
        }
        i += 1;
    }
    assert(a@ =~= b@);
    true
}

/// The position of the first stream of a kind.
fn find_kind(streams: &Vec<ProbeStream>, kind: &str) -> (r: usize)
    ensures
        r == first_of(stream_views(streams@), kind@),
        r <= streams@.len(),
{
    let ghost views = stream_views(streams@);
    let mut i: usize = 0;
    assert(views.skip(0) =~= views);
    while i < streams.len()
        invariant
            i <= streams@.len(),
            views == stream_views(streams@),
            first_of(views, kind@) == i + first_of(views.skip(i as int), kind@),
        decreases streams@.len() - i,
    {
        if field_is(&streams[i].codec_type, kind) {
            return i;
        }
        assert(views.skip(i as int).skip(1) =~= views.skip(i + 1));
        i += 1;
    }
    i
}

/// Reads a number out of a field, where there is one.
fn field_number<
    N: Fn(&str) -> Option<F64>,
    D: Fn(F64, F64) -> F64,
    P: Fn(F64, usize, usize) -> F64,
>(field: &Field, math: &ProbeMath<N, D, P>) -> (r: Option<F64>)
    requires
        probes_all(math),
    ensures
        reads_field(math.number, field@, r),
{
    match field.written() {
        Some(text) => {
            let r = (math.number)(text);
            assert(call_ensures(math.number, (text,), r));
            r
        },
        None => None,
    }
}

/// Makes out of the streams of a file, and the file's own duration, what is to be
/// known of its video.
pub fn describe_video<
    N: Fn(&str) -> Option<F64>,
    D: Fn(F64, F64) -> F64,
    P: Fn(F64, usize, usize) -> F64,
>(streams: &Vec<ProbeStream>, file_duration: &Field, math: &ProbeMath<N, D, P>) -> (r: Result<
    VideoInfo,
    MediaError,
>)
    requires
        probes_all(math),
    ensures
        describes(math, stream_views(streams@), file_duration@, r),
{
    let at = find_kind(streams, "video");
    if at == streams.len() {
        return Err(MediaError::NoVideoStream { path: "input".to_owned() });
    }
    let video = &streams[at];
    let w = match video.width.whole() {
        Some(n) => n,
        None => return Err(MediaError::ProbeParse("video stream has no width".to_owned())),
    };
    let h = match video.height.whole() {
        Some(n) => n,
        None => return Err(MediaError::ProbeParse("video stream has no height".to_owned())),
    };

    // Believed without question, these size every buffer the decode allocates,
    // and they are whatever the container says they are.
    if w > MAX_DIMENSION as u64 || h > MAX_DIMENSION as u64 {
        return Err(MediaError::ImplausibleGeometry { width: to_size(w), height: to_size(h) });
    }
    let width: usize = w as usize;
    let height: usize = h as usize;

    let average = parse_rational(video.avg_frame_rate.text(), math);
    let lowest = parse_rational(video.r_frame_rate.text(), math);
    let fps = match (average, lowest) {
        (Some(rate), _) => rate,
        (None, Some(rate)) => rate,
        (None, None) => F64 { bits: 0 },
    };
    assert(rates(math, video@, fps)) by {
        assert(reads_rational(math, video@.avg_frame_rate.as_text(), average));
        assert(reads_rational(math, video@.r_frame_rate.as_text(), lowest));
    }

    let sample = parse_rational(video.sample_aspect_ratio.text(), math);
    let display = parse_rational(video.display_aspect_ratio.text(), math);
    let sample_aspect = match (sample, display) {
        (Some(sar), _) => sar,
        (None, Some(dar)) => if width > 0 {
            (math.pixel)(dar, height, width)
        } else {
            F64 { bits: ONE_64 }
        },
        (None, None) => F64 { bits: ONE_64 },
    };
    assert(shapes(math, video@, width, height, sample_aspect)) by {
        assert(reads_rational(math, video@.sample_aspect_ratio.as_text(), sample));
        assert(reads_rational(math, video@.display_aspect_ratio.as_text(), display));
    }

    let pix_fmt = match video.pix_fmt.text() {
        Some(text) => text.to_owned(),
        None => String::new(),
    };
    let bit_depth: u8 = match bit_depth_of(pix_fmt.as_str()) {
        Some(depth) => depth,
        None => match video.bits_per_raw_sample.whole() {
            Some(depth) => (depth % 256) as u8,
            None => 8,
        },
    };

    let own = field_number(&video.duration, math);
    let whole = field_number(file_duration, math);
    let duration_secs = if own.is_some() {
        own
    } else {
        whole
    };
    assert(lasts(math.number, video@, file_duration@, duration_secs)) by {
        assert(reads_field(math.number, video@.duration, own));
        assert(reads_field(math.number, file_duration@, whole));
    }

    let frame_count = match video.nb_frames.whole() {
        Some(n) => if n > 0 {
            Some(n)
        } else {
            None
        },
        None => None,
    };
    let audio = find_kind(streams, "audio");
    Ok(
        VideoInfo {
            width,
            height,
            fps,
            frame_count,
            duration_secs,
            sample_aspect,
            bit_depth,
            pix_fmt,
            has_audio: audio < streams.len(),
        },
    )
}

fn to_size(n: u64) -> (r: usize)
    ensures
        r == as_size(n as nat),
{
    if n > usize::MAX as u64 {
        usize::MAX
    } else {
        n as usize
    }
}

/// The JSON value that a text stands for; nothing where it stands for none.
pub open spec fn node_of(text: Seq<char>) -> JsonView {
    match json_of(text) {
        Ok(node) => node,
        Err(_) => JsonView::Null,
    }
}

/// Where a key first is among the fields of an object, or how many there are.
pub open spec fn key_at(fields: Seq<(Seq<char>, Seq<char>)>, key: Seq<char>) -> int
    decreases fields.len(),
{
    if fields.len() == 0 || fields[0].0 == key {
        0
    } else {
        1 + key_at(fields.skip(1), key)
    }
}

/// The JSON text under a key, where there is an object that has it.
pub open spec fn member(node: JsonView, key: Seq<char>) -> Option<Seq<char>> {
    match node {
        JsonView::Object(fields) => if key_at(fields, key) < fields.len() {
            Some(fields[key_at(fields, key)].1)
        } else {
            None
        },
        _ => None,
    }
}

/// The field under a key.
pub open spec fn field_of(node: JsonView, key: Seq<char>) -> FieldView {
    match member(node, key) {
        Some(text) => match node_of(text) {
            JsonView::Number(written, whole) => FieldView::Number(written, whole),
            JsonView::Text(t) => FieldView::Text(t),
            _ => FieldView::Missing,
        },
        None => FieldView::Missing,
    }
}

/// The stream that a JSON value describes.
pub open spec fn stream_of(node: JsonView) -> StreamView {
    StreamView {
        codec_type: field_of(node, "codec_type"@),
        width: field_of(node, "width"@),
        height: field_of(node, "height"@),
        avg_frame_rate: field_of(node, "avg_frame_rate"@),
        r_frame_rate: field_of(node, "r_frame_rate"@),
        pix_fmt: field_of(node, "pix_fmt"@),
        bits_per_raw_sample: field_of(node, "bits_per_raw_sample"@),
        duration: field_of(node, "duration"@),
        nb_frames: field_of(node, "nb_frames"@),
        sample_aspect_ratio: field_of(node, "sample_aspect_ratio"@),
        display_aspect_ratio: field_of(node, "display_aspect_ratio"@),
    }
}

/// The streams that a report lists, where it lists any.
pub open spec fn listed_streams(root: JsonView) -> Option<Seq<StreamView>> {
    match member(root, "streams"@) {
        Some(text) => match node_of(text) {
            JsonView::List(items) => Some(
                Seq::new(items.len(), |i: int| stream_of(node_of(items[i]))),
            ),
            _ => None,
        },
        None => None,
    }
}

/// The duration that a report gives of the whole file.
pub open spec fn listed_duration(root: JsonView) -> FieldView {
    match member(root, "format"@) {
        Some(text) => field_of(node_of(text), "duration"@),
        None => FieldView::Missing,
    }
}

/// `r` is what a report of ffprobe says of a video.
pub open spec fn reports<
    N: Fn(&str) -> Option<F64>,
    D: Fn(F64, F64) -> F64,
    P: Fn(F64, usize, usize) -> F64,
>(math: &ProbeMath<N, D, P>, json: Seq<char>, r: Result<VideoInfo, MediaError>) -> bool {
    match json_of(json) {
        Err(e) => r matches Err(MediaError::ProbeParse(what)) && what@ == e,
        Ok(root) => match listed_streams(root) {
            None => r matches Err(MediaError::ProbeParse(what)) && what@ == "no streams array"@,
            Some(streams) => describes(math, streams, listed_duration(root), r),
        },
    }
}

/// Reads a JSON value, nothing where the text is none.
fn read_node(text: &str) -> (node: JsonNode)
    ensures
        node@ == node_of(text@),
{
    match read_json(text) {
        Ok(node) => node,
        Err(_) => JsonNode::Null,
    }
}

/// Finds the JSON text under a key.
fn find_member<'a>(node: &'a JsonNode, key: &str) -> (r: Option<&'a str>)
    ensures
        r matches Some(t) ==> member(node@, key@) == Some(t@),
        r is None ==> member(node@, key@) is None,
{
    let fields = match node {
        JsonNode::Object(fields) => fields,
        _ => return None,
    };
    let ghost views = Seq::new(fields@.len(), |i: int| (fields@[i].0@, fields@[i].1@));
    assert(node@ == JsonView::Object(views));
    let mut i: usize = 0;
    assert(views.skip(0) =~= views);
    while i < fields.len()
        invariant
            i <= fields@.len(),
            views == Seq::new(fields@.len(), |i: int| (fields@[i].0@, fields@[i].1@)),
            node@ == JsonView::Object(views),
            key_at(views, key@) == i + key_at(views.skip(i as int), key@),
        decreases fields@.len() - i,
    {
        if same_text(fields[i].0.as_str(), key) {
            return Some(fields[i].1.as_str());
        }
        assert(views.skip(i as int).skip(1) =~= views.skip(i + 1));
        i += 1;
    }
    None
}

/// Reads the field under a key.
fn read_field(node: &JsonNode, key: &str) -> (field: Field)
    ensures
        field@ == field_of(node@, key@),
{
    match find_member(node, key) {
        Some(text) => match read_node(text) {
            JsonNode::Number(written, whole) => Field::Number(written, whole),
            JsonNode::Text(t) => Field::Text(t),
            _ => Field::Missing,
        },
        None => Field::Missing,
    }
}

/// Reads what a JSON value says of one stream.
fn read_stream(node: &JsonNode) -> (stream: ProbeStream)
    ensures
        stream@ == stream_of(node@),
{
    ProbeStream {
        codec_type: read_field(node, "codec_type"),
        width: read_field(node, "width"),
        height: read_field(node, "height"),
        avg_frame_rate: read_field(node, "avg_frame_rate"),
        r_frame_rate: read_field(node, "r_frame_rate"),
        pix_fmt: read_field(node, "pix_fmt"),
        bits_per_raw_sample: read_field(node, "bits_per_raw_sample"),
        duration: read_field(node, "duration"),
        nb_frames: read_field(node, "nb_frames"),
        sample_aspect_ratio: read_field(node, "sample_aspect_ratio"),
        display_aspect_ratio: read_field(node, "display_aspect_ratio"),
    }
}

/// Parses `ffprobe -show_streams -show_format -of json` output.
pub fn parse_probe_json<
    N: Fn(&str) -> Option<F64>,
    D: Fn(F64, F64) -> F64,
    P: Fn(F64, usize, usize) -> F64,
>(json: &str, math: &ProbeMath<N, D, P>) -> (r: Result<VideoInfo, MediaError>)
    requires
        probes_all(math),
    ensures
        reports(math, json@, r),
{
    let root = match read_json(json) {
        Ok(node) => node,
        Err(e) => return Err(MediaError::ProbeParse(e)),
    };
    let listed = match find_member(&root, "streams") {
        Some(text) => read_node(text),
        None => return Err(MediaError::ProbeParse("no streams array".to_owned())),
    };
    let items = match &listed {
        JsonNode::List(items) => items,
        _ => return Err(MediaError::ProbeParse("no streams array".to_owned())),
    };
    let ghost texts = Seq::new(items@.len(), |i: int| items@[i]@);
    assert(listed@ == JsonView::List(texts));
    let mut streams: Vec<ProbeStream> = Vec::new();
    let mut i: usize = 0;
    while i < items.len()
        invariant
            i <= items@.len(),
            streams@.len() == i,
            forall|k: int|
                0 <= k < i ==> (#[trigger] streams@[k])@ == stream_of(node_of(items@[k]@)),
        decreases items@.len() - i,
    {
        streams.push(read_stream(&read_node(items[i].as_str())));
        i += 1;
    }
    assert(listed_streams(root@) is Some);
    assert(stream_views(streams@) =~= listed_streams(root@)->0);
    let duration = match find_member(&root, "format") {
        Some(text) => read_field(&read_node(text), "duration"),
        None => Field::Missing,
    };
    describe_video(&streams, &duration, math)
}

/// Sources of more than eight bits are decoded into sixteen, six bytes a pixel; all others
/// into eight, three bytes a pixel; each under ffmpeg's name for that.
pub proof fn law_a_deep_source_is_decoded_deep(
    info: &VideoInfo,
    depth: SourceDepth,
    name: &'static str,
    bytes: usize,
    of: SourceDepth,
)
    requires
        call_ensures(VideoInfo::source_depth, (info,), depth),
        call_ensures(SourceDepth::pix_fmt, (of,), name),
        call_ensures(SourceDepth::bytes_per_pixel, (of,), bytes),
    ensures
        info.bit_depth > 8 <==> depth == SourceDepth::Sixteen,
        of == SourceDepth::Eight ==> name@ == "rgb24"@ && bytes == 3,
        of == SourceDepth::Sixteen ==> name@ == "rgb48le"@ && bytes == 6,
{
}

/// The bytes of a frame are those of a pixel times its pixels.
pub proof fn law_a_frame_has_all_its_pixels(info: &VideoInfo, depth: SourceDepth, r: usize)
    requires
        call_ensures(VideoInfo::frame_bytes, (info, depth), r),
    ensures
        depth == SourceDepth::Eight ==> r == info.width * info.height * 3,
        depth == SourceDepth::Sixteen ==> r == info.width * info.height * 6,
{
}

/// The frames a file reports are believed; failing that they are those that fill its
/// duration at its rate, where both are above zero.
pub proof fn law_a_reported_count_is_believed<F: Fn(F64, F64) -> u64>(
    info: &VideoInfo,
    frames: &F,
    r: Option<u64>,
)
    requires
        call_ensures(VideoInfo::estimated_frame_count::<F>, (info, frames), r),
    ensures
        info.frame_count is Some ==> r == info.frame_count,
        info.frame_count is None ==> (info.duration_secs matches Some(d) ==> (d.above_zero()
            && info.fps.above_zero() ==> (r matches Some(n) && call_ensures(
            *frames,
            (d, info.fps),
            n,
        )))),
        info.frame_count is None ==> (info.duration_secs matches Some(d) ==> (!d.above_zero()
            || !info.fps.above_zero() ==> r is None)),
        info.frame_count is None && info.duration_secs is None ==> r is None,
{
}

/// `i` is the first stream of a kind.
pub open spec fn is_first(streams: Seq<StreamView>, kind: Seq<char>, i: int) -> bool {
    &&& 0 <= i < streams.len()
    &&& streams[i].codec_type == FieldView::Text(kind)
    &&& forall|k: int| 0 <= k < i ==> (#[trigger] streams[k]).codec_type != FieldView::Text(kind)
}

proof fn lemma_first_of(streams: Seq<StreamView>, kind: Seq<char>)
    ensures
        0 <= first_of(streams, kind) <= streams.len(),
        first_of(streams, kind) < streams.len() ==> is_first(
            streams,
            kind,
            first_of(streams, kind),
        ),
        first_of(streams, kind) == streams.len() ==> forall|k: int|
            0 <= k < streams.len() ==> (#[trigger] streams[k]).codec_type != FieldView::Text(kind),
    decreases streams.len(),
{
    if streams.len() > 0 && !streams[0].is_kind(kind) {
        let rest = streams.skip(1);
        lemma_first_of(rest, kind);
        assert forall|k: int| 0 <= k < first_of(streams, kind) implies (#[trigger] streams[k]).codec_type
            != FieldView::Text(kind) by {
            if k > 0 {
                assert(rest[k - 1] == streams[k]);
            }
        }
        if first_of(rest, kind) < rest.len() {
            assert(rest[first_of(rest, kind)] == streams[first_of(streams, kind)]);
        }
    }
}

/// What is known of a video is read off its first video stream, each thing off its own
/// field: its size, its pixel format, how many frames it counts where that is not zero.
/// There is sound where any stream is audio, and a file without a video stream is
/// refused, as is one of no size or an implausible one.
pub proof fn law_a_video_is_read_off_its_first_video_stream<
    N: Fn(&str) -> Option<F64>,
    D: Fn(F64, F64) -> F64,
    P: Fn(F64, usize, usize) -> F64,
>(
    streams: &Vec<ProbeStream>,
    file_duration: &Field,
    math: &ProbeMath<N, D, P>,
    r: Result<VideoInfo, MediaError>,
    i: int,
)
    requires
        call_ensures(describe_video::<N, D, P>, (streams, file_duration, math), r),
    ensures
        r matches Ok(info) ==> exists|k: int| #[trigger]
            is_first(stream_views(streams@), "video"@, k) && Some(info.width as nat)
                == streams@[k].width@.as_whole() && Some(info.height as nat)
                == streams@[k].height@.as_whole() && (streams@[k].pix_fmt@ matches FieldView::Text(t)
                ==> info.pix_fmt@ == t) && (match streams@[k].nb_frames@.as_whole() {
                Some(n) => if n > 0 {
                    info.frame_count == Some(n as u64)
                } else {
                    info.frame_count is None
                },
                None => info.frame_count is None,
            }),
        r matches Ok(info) ==> info.width <= 32768 && info.height <= 32768,
        r matches Ok(info) ==> (info.has_audio <==> exists|k: int|
            0 <= k < streams@.len() && (#[trigger] streams@[k]).codec_type@ == FieldView::Text(
                "audio"@,
            )),
        (forall|k: int|
            0 <= k < streams@.len() ==> (#[trigger] streams@[k]).codec_type@ != FieldView::Text(
                "video"@,
            )) ==> r matches Err(MediaError::NoVideoStream { .. }),
{
    let views = stream_views(streams@);
    lemma_first_of(views, "video"@);
    lemma_first_of(views, "audio"@);
    assert forall|k: int| 0 <= k < streams@.len() implies views[k] == (#[trigger] streams@[k])@ by {}
    let at = first_of(views, "video"@);
    if at < views.len() {
        assert(streams@[at]@ == views[at]);
    }
    let sound = first_of(views, "audio"@);
    if sound < views.len() {
        assert(streams@[sound].codec_type@ == FieldView::Text("audio"@));
    } else {
        assert forall|k: int| 0 <= k < streams@.len() implies (#[trigger] streams@[k]).codec_type@
            != FieldView::Text("audio"@) by {
            assert(views[k].codec_type != FieldView::Text("audio"@));
        }
    }
    if exists|k: int|
        0 <= k < streams@.len() && (#[trigger] streams@[k]).codec_type@ == FieldView::Text("video"@) {
        let k = choose|k: int|
            0 <= k < streams@.len() && (#[trigger] streams@[k]).codec_type@ == FieldView::Text(
                "video"@,
            );
        assert(views[k].codec_type == FieldView::Text("video"@));
    }
}

/// The average rate is a film's rate where it can be read, then the lowest; a stored
/// pixel shape is believed before one worked out of the picture's; a stream's own
/// duration before the file's.
pub proof fn law_the_closer_report_is_believed<
    N: Fn(&str) -> Option<F64>,
    D: Fn(F64, F64) -> F64,
    P: Fn(F64, usize, usize) -> F64,
>(
    streams: &Vec<ProbeStream>,
    file_duration: &Field,
    math: &ProbeMath<N, D, P>,
    info: VideoInfo,
    i: int,
)
    requires
        call_ensures(
            describe_video::<N, D, P>,
            (streams, file_duration, math),
            Ok::<VideoInfo, MediaError>(info),
        ),
        is_first(stream_views(streams@), "video"@, i),
    ensures
        (forall|q: Option<F64>| #[trigger]
            reads_rational(math, streams@[i].avg_frame_rate@.as_text(), q) ==> q is Some)
            ==> reads_rational(math, streams@[i].avg_frame_rate@.as_text(), Some(info.fps)),
        (forall|q: Option<F64>| #[trigger]
            reads_rational(math, streams@[i].avg_frame_rate@.as_text(), q) ==> q is None) && (forall|
            q: Option<F64>,
        | #[trigger]
            reads_rational(math, streams@[i].r_frame_rate@.as_text(), q) ==> q is Some)
            ==> reads_rational(math, streams@[i].r_frame_rate@.as_text(), Some(info.fps)),
        streams@[i].avg_frame_rate@.as_text() is None && streams@[i].r_frame_rate@.as_text() is None
            ==> info.fps.bits == 0,
        (forall|q: Option<F64>| #[trigger]
            reads_rational(math, streams@[i].sample_aspect_ratio@.as_text(), q) ==> q is Some)
            ==> reads_rational(
            math,
            streams@[i].sample_aspect_ratio@.as_text(),
            Some(info.sample_aspect),
        ),
        streams@[i].sample_aspect_ratio@.as_text() is None
            && streams@[i].display_aspect_ratio@.as_text() is None ==> info.sample_aspect.bits
            == 0x3FF0_0000_0000_0000,
        streams@[i].sample_aspect_ratio@.as_text() is None && (forall|q: Option<F64>| #[trigger]
            reads_rational(math, streams@[i].display_aspect_ratio@.as_text(), q) ==> q is Some)
            && info.width > 0 ==> exists|dar: F64| #[trigger]
            reads_rational(math, streams@[i].display_aspect_ratio@.as_text(), Some(dar))
                && call_ensures(math.pixel, (dar, info.height, info.width), info.sample_aspect),
        (forall|q: Option<F64>| #[trigger]
            reads_field(math.number, streams@[i].duration@, q) ==> q is Some) ==> reads_field(
            math.number,
            streams@[i].duration@,
            info.duration_secs,
        ),
        streams@[i].duration@ == FieldView::Missing ==> reads_field(
            math.number,
            file_duration@,
            info.duration_secs,
        ),
{
    let views = stream_views(streams@);
    lemma_first_of(views, "video"@);
    let at = first_of(views, "video"@);
    assert(at == i) by {
        if at < i {
            assert(views[at].codec_type != FieldView::Text("video"@));
        } else if i < at && at < views.len() {
            assert(views[i].codec_type != FieldView::Text("video"@));
        } else if at == views.len() {
            assert(views[i].codec_type != FieldView::Text("video"@));
        }
    }
    assert(views[i] == streams@[i]@);
}

/// A ratio is what is in front of its slash or colon over what is behind, unless either
/// is zero or no number.
pub proof fn law_a_ratio_is_front_over_back<
    N: Fn(&str) -> Option<F64>,
    D: Fn(F64, F64) -> F64,
    P: Fn(F64, usize, usize) -> F64,
>(math: &ProbeMath<N, D, P>, front: Seq<char>, sep: char, back: Seq<char>, q: Option<F64>)
    requires
        sep == '/' || sep == ':',
        !front.contains('/') && !front.contains(':'),
        reads_rational(math, Some(front.push(sep) + back), q),
    ensures
        q matches Some(v) ==> exists|n: F64, d: F64| #[trigger]
            call_ensures(math.divide, (n, d), v) && reads_number(math.number, front, Some(n))
                && reads_number(math.number, back, Some(d)) && !n.zero() && !d.zero(),
        q is None ==> exists|n: Option<F64>, d: Option<F64>| #[trigger]
            reads_number(math.number, front, n) && #[trigger] reads_number(math.number, back, d) && (
            n is None || d is None || n->0.zero() || d->0.zero()),
{
    let s = front.push(sep) + back;
    lemma_separator_behind(front, sep, back);
    assert(s.take(front.len() as int) =~= front);
    assert(s.skip(front.len() as int + 1) =~= back);
}

proof fn lemma_separator_behind(front: Seq<char>, sep: char, back: Seq<char>)
    requires
        sep == '/' || sep == ':',
        !front.contains('/') && !front.contains(':'),
    ensures
        separator_at(front.push(sep) + back) == front.len(),
    decreases front.len(),
{
    let s = front.push(sep) + back;
    if front.len() > 0 {
        let rest = front.skip(1);
        assert(front[0] != '/' && front[0] != ':');
        assert(s[0] == front[0]);
        assert(s.skip(1) =~= rest.push(sep) + back);
        assert forall|i: int| 0 <= i < rest.len() implies rest[i] != '/' && rest[i] != ':' by {
            assert(front[i + 1] == rest[i]);
            assert(front.contains(rest[i]));
        }
        lemma_separator_behind(rest, sep, back);
    }
}

/// A pixel format tells its depth in the digits behind its layout, whatever the order of
/// its bytes; a number below nine or past sixteen is none.
pub proof fn law_a_pixel_format_tells_its_depth(front: Seq<char>, marker: char, d: u8)
    requires
        marker == 'p' || marker == 's' || marker == 'y',
        d >= 1,
    ensures
        ({
            let name = front.push(marker) + crate::text::decimal_text(d as nat);
            &&& 9 <= d <= 16 ==> depth_in(name) == Some(d as nat)
            &&& 9 <= d <= 16 ==> depth_in(name + seq!['l', 'e']) == Some(d as nat)
            &&& 9 <= d <= 16 ==> depth_in(name + seq!['b', 'e']) == Some(d as nat)
            &&& d < 9 || d > 16 ==> depth_in(name) is None
        }),
{
    let digits = crate::text::decimal_text(d as nat);
    let name = front.push(marker) + digits;
    crate::text::lemma_decimal_digits(d as nat);
    crate::text::law_decimal_round_trips(d as nat, 255);
    assert(crate::text::is_digit(digits[digits.len() - 1]));
    assert(name.last() == digits[digits.len() - 1]);
    lemma_ending_digits(front.push(marker), digits);
    assert(name[name.len() - 1] != 'e');
    assert(without_ending(name, 'l', 'e') == name);
    assert(without_ending(name, 'b', 'e') == name);
    let (le, be) = (name + seq!['l', 'e'], name + seq!['b', 'e']);
    assert(le.take(le.len() - 2) =~= name);
    assert(be.take(be.len() - 2) =~= name);
    assert(without_ending(be, 'l', 'e') == be);
    assert(name[name.len() - digits.len() - 1] == marker);
}

proof fn lemma_ending_digits(front: Seq<char>, digits: Seq<char>)
    requires
        crate::text::all_digits(digits),
        front.len() > 0,
        !crate::text::is_digit(front.last()),
    ensures
        ending_digits(front + digits) == digits,
    decreases digits.len(),
{
    let s = front + digits;
    if digits.len() == 0 {
        assert(s =~= front);
        assert(digits =~= Seq::empty());
    } else {
        let shorter = digits.drop_last();
        assert(crate::text::is_digit(digits[digits.len() - 1]));
        assert(s.last() == digits.last());
        assert(s.drop_last() =~= front + shorter);
        assert forall|i: int| 0 <= i < shorter.len() implies crate::text::is_digit(
            #[trigger] shorter[i],
        ) by {
            assert(crate::text::is_digit(digits[i]));
        }
        lemma_ending_digits(front, shorter);
        assert(shorter.push(digits.last()) =~= digits);
    }
}

/// Where the pixel format tells no depth, the bits per sample are it, and eight where
/// neither says.
pub proof fn law_a_depth_is_told_or_eight(stream: StreamView)
    ensures
        stream.pix_fmt == FieldView::Missing && stream.bits_per_raw_sample == FieldView::Missing
            ==> stream_depth(stream) == 8,
        stream.pix_fmt matches FieldView::Text(name) ==> (depth_in(name) matches Some(d)
            ==> stream_depth(stream) == d),
        stream.pix_fmt matches FieldView::Text(name) ==> depth_in(name) is None
            ==> (stream.bits_per_raw_sample matches FieldView::Number(_, Some(n)) ==> n < 256
            ==> stream_depth(stream) == n),
{
    if stream.pix_fmt == FieldView::Missing {
        assert(ending_digits(Seq::<char>::empty()) =~= Seq::empty());
        assert(without_ending(Seq::<char>::empty(), 'l', 'e') =~= Seq::empty());
        assert(depth_in(Seq::<char>::empty()) is None);
    }
}

/// Each field of a stream is read under its own key.
pub proof fn law_each_field_is_read_under_its_key(node: JsonView)
    ensures
        stream_of(node).codec_type == field_of(node, "codec_type"@),
        stream_of(node).width == field_of(node, "width"@),
        stream_of(node).height == field_of(node, "height"@),
        stream_of(node).avg_frame_rate == field_of(node, "avg_frame_rate"@),
        stream_of(node).r_frame_rate == field_of(node, "r_frame_rate"@),
        stream_of(node).pix_fmt == field_of(node, "pix_fmt"@),
        stream_of(node).bits_per_raw_sample == field_of(node, "bits_per_raw_sample"@),
        stream_of(node).duration == field_of(node, "duration"@),
        stream_of(node).nb_frames == field_of(node, "nb_frames"@),
        stream_of(node).sample_aspect_ratio == field_of(node, "sample_aspect_ratio"@),
        stream_of(node).display_aspect_ratio == field_of(node, "display_aspect_ratio"@),
{
}

/// A field is a number or text where the value under its key is one, written as it is,
/// and missing otherwise. As a whole number it is the number itself or what the text
/// reads.
pub proof fn law_a_field_is_what_is_written(node: JsonView, key: Seq<char>, text: Seq<char>)
    requires
        member(node, key) == Some(text),
    ensures
        json_of(text) matches Ok(JsonView::Number(w, n)) ==> field_of(node, key) == FieldView::Number(
            w,
            n,
        ),
        json_of(text) matches Ok(JsonView::Text(t)) ==> field_of(node, key) == FieldView::Text(t),
        json_of(text) matches Ok(JsonView::Bool(b)) ==> field_of(node, key) == FieldView::Missing,
        json_of(text) is Err ==> field_of(node, key) == FieldView::Missing,
        field_of(node, key) matches FieldView::Number(w, Some(n)) ==> field_of(node, key).as_whole()
            == Some(n as nat) && field_of(node, key).as_written() == Some(w) && field_of(
            node,
            key,
        ).as_text() is None,
        field_of(node, key) matches FieldView::Text(t) ==> field_of(node, key).as_whole()
            == parsed_number(t, u64::MAX as nat) && field_of(node, key).as_written() == Some(t)
            && field_of(node, key).as_text() == Some(t),
        field_of(node, key) == FieldView::Missing ==> field_of(node, key).as_whole() is None
            && field_of(node, key).as_written() is None && field_of(node, key).as_text() is None,
{
}

/// What is under a key is the first value that has that key, and there is none in what is
/// no object or has no such key.
pub proof fn law_a_key_leads_to_its_first_value(fields: Seq<(Seq<char>, Seq<char>)>, key: Seq<char>, i: int)
    requires
        0 <= i < fields.len(),
        fields[i].0 == key,
        forall|k: int| 0 <= k < i ==> (#[trigger] fields[k]).0 != key,
    ensures
        member(JsonView::Object(fields), key) == Some(fields[i].1),
        member(JsonView::Null, key) is None,
    decreases i,
{
    lemma_key_at(fields, key, i);
}

proof fn lemma_key_at(fields: Seq<(Seq<char>, Seq<char>)>, key: Seq<char>, i: int)
    requires
        0 <= i < fields.len(),
        fields[i].0 == key,
        forall|k: int| 0 <= k < i ==> (#[trigger] fields[k]).0 != key,
    ensures
        key_at(fields, key) == i,
    decreases i,
{
    if i > 0 {
        let rest = fields.skip(1);
        assert(fields[0].0 != key);
        assert forall|k: int| 0 <= k < i - 1 implies (#[trigger] rest[k]).0 != key by {
            assert(rest[k] == fields[k + 1]);
        }
        lemma_key_at(rest, key, i - 1);
    }
}

/// A report that is no JSON is refused with what was said against it, and one without a
/// list of streams as having none.
pub proof fn law_a_report_without_streams_is_refused<
    N: Fn(&str) -> Option<F64>,
    D: Fn(F64, F64) -> F64,
    P: Fn(F64, usize, usize) -> F64,
>(json: &str, math: &ProbeMath<N, D, P>, r: Result<VideoInfo, MediaError>)
    requires
        call_ensures(parse_probe_json::<N, D, P>, (json, math), r),
    ensures
        json_of(json@) matches Err(e) ==> (r matches Err(MediaError::ProbeParse(what)) && what@ == e),
        json_of(json@) matches Ok(root) ==> member(root, "streams"@) is None ==> (r matches Err(
            MediaError::ProbeParse(what),
        ) && what@ == "no streams array"@),
        json_of(json@) matches Ok(root) ==> (member(root, "streams"@) matches Some(list) ==> (json_of(
            list,
        ) matches Ok(JsonView::List(items)) ==> (r is Ok ==> items.len() > 0))),
{
    if let Ok(root) = json_of(json@) {
        if let Some(list) = member(root, "streams"@) {
            if let Ok(JsonView::List(items)) = json_of(list) {
                if items.len() == 0 {
                    assert(listed_streams(root)->0.len() == 0);
                }
            }
        }
    }
}

/// Two texts are the same where they have the same characters, and a pixel format's depth
/// is the one that it tells.
pub proof fn law_a_format_is_read_for_its_depth(
    a: &str,
    b: &str,
    same: bool,
    pix_fmt: &str,
    depth: Option<u8>,
)
    requires
        call_ensures(same_text, (a, b), same),
        call_ensures(bit_depth_of, (pix_fmt,), depth),
    ensures
        same <==> a@ == b@,
        depth matches Some(d) ==> depth_in(pix_fmt@) == Some(d as nat),
        depth is None <==> depth_in(pix_fmt@) is None,
{
}

/// A video of no size, or of one that no film has, is refused with what is wrong; one
/// without a video stream is refused as the file it came from.
pub proof fn law_an_unusable_video_is_refused_for_its_fault<
    N: Fn(&str) -> Option<F64>,
    D: Fn(F64, F64) -> F64,
    P: Fn(F64, usize, usize) -> F64,
>(
    streams: &Vec<ProbeStream>,
    file_duration: &Field,
    math: &ProbeMath<N, D, P>,
    r: Result<VideoInfo, MediaError>,
    k: int,
)
    requires
        call_ensures(describe_video::<N, D, P>, (streams, file_duration, math), r),
        0 <= k < streams@.len(),
        streams@[k].codec_type@ == FieldView::Text("video"@),
        forall|j: int|
            0 <= j < k ==> (#[trigger] streams@[j]).codec_type@ != FieldView::Text("video"@),
    ensures
        streams@[k].width@.as_whole() is None ==> (r matches Err(MediaError::ProbeParse(what)) && what@
            == "video stream has no width"@),
        streams@[k].width@.as_whole() is Some && streams@[k].height@.as_whole() is None ==> (
        r matches Err(MediaError::ProbeParse(what)) && what@ == "video stream has no height"@),
        streams@[k].width@.as_whole() matches Some(w) ==> (streams@[k].height@.as_whole() matches Some(
            h,
        ) ==> (w > 32768 || h > 32768 ==> (r matches Err(MediaError::ImplausibleGeometry {
            width,
            height,
        }) && (w <= usize::MAX ==> width == w) && (h <= usize::MAX ==> height == h)))),
        streams@[k].width@.as_whole() matches Some(w) ==> (streams@[k].height@.as_whole() matches Some(
            h,
        ) ==> (w <= 32768 && h <= 32768 ==> r is Ok || r matches Err(
            MediaError::ImplausibleGeometry { .. },
        ))),
{
    let views = stream_views(streams@);
    lemma_first_of(views, "video"@);
    let at = first_of(views, "video"@);
    assert forall|j: int| 0 <= j < streams@.len() implies views[j] == (#[trigger] streams@[j])@ by {}
    assert(views[k].codec_type == FieldView::Text("video"@));
    if at < k {
        assert(streams@[at].codec_type@ == FieldView::Text("video"@));
    }
    assert(at == k);
}

/// A file without a video stream is refused, and the file's own duration is read off what
/// is said of the file as a whole.
pub proof fn law_the_file_is_told_apart_from_its_streams<
    N: Fn(&str) -> Option<F64>,
    D: Fn(F64, F64) -> F64,
    P: Fn(F64, usize, usize) -> F64,
>(
    streams: &Vec<ProbeStream>,
    file_duration: &Field,
    math: &ProbeMath<N, D, P>,
    r: Result<VideoInfo, MediaError>,
    root: JsonView,
)
    requires
        call_ensures(describe_video::<N, D, P>, (streams, file_duration, math), r),
    ensures
        r matches Err(MediaError::NoVideoStream { path }) ==> path@ == "input"@,
        member(root, "format"@) is None ==> listed_duration(root) is Missing,
        member(root, "format"@) matches Some(text) ==> listed_duration(root) == field_of(
            node_of(text),
            "duration"@,
        ),
{
}

} // verus!
