//! Decoding video into frames.
//!
//! Two access patterns, because the app needs both: reading a whole file in
//! order, and taking one frame at a time for the preview, which jumps around.

use crate::encode::{is_encoding, little_endian, push_arg, push_args, texts};
use crate::frame::{
    deinterleaved, interleaved16, law_rgb16_round_trips, written16, FrameF32, Image, QuantiseMath,
};
use crate::media::{file_arg, file_arg_text, MediaError};
use crate::probe::{SourceDepth, VideoInfo};
use crate::scalar::F64;
use crate::text::{chars_of, decimal, decimal_text, string_of, trim, trimmed};
use vstd::prelude::*;
use vstd::string::*;

verus! {

/// The arguments that point ffmpeg at a file from its beginning.
pub open spec fn from_start_texts(path: Seq<char>) -> Seq<Seq<char>> {
    seq!["-i"@, file_arg_text(path)]
}

/// The arguments that point ffmpeg at a file from shortly before a frame: the time
/// to seek to, as it is written, and how many frames to leave out from there.
///
/// `-fps_mode passthrough` stops ffmpeg duplicating or dropping frames to hit a
/// target rate.
pub open spec fn seek_texts(path: Seq<char>, to: Seq<char>, skip: nat) -> Seq<Seq<char>> {
    seq![
        "-ss"@,
        to,
        "-i"@,
        file_arg_text(path),
        "-vf"@,
        ("select=gte(n\\,"@ + decimal_text(skip)).push(')'),
        "-fps_mode"@,
        "passthrough"@,
    ]
}

/// `args` point ffmpeg at a file, starting output at frame `index`.
pub open spec fn seeks<K: Fn(u64, F64) -> (String, u64)>(
    seek: K,
    path: Seq<char>,
    fps: F64,
    index: u64,
    args: Seq<Seq<char>>,
) -> bool {
    if index == 0 || fps.at_most_zero() {
        args == from_start_texts(path)
    } else {
        seeks_ahead(seek, path, fps, index, args)
    }
}

/// `args` seek to shortly before a frame.
pub open spec fn seeks_ahead<K: Fn(u64, F64) -> (String, u64)>(
    seek: K,
    path: Seq<char>,
    fps: F64,
    index: u64,
    args: Seq<Seq<char>>,
) -> bool {
    exists|lead: (String, u64)| #[trigger]
        call_ensures(seek, (index, fps), lead) && args == seek_texts(path, lead.0@, lead.1 as nat)
}

/// Points ffmpeg at `path`, starting output at frame `index`.
///
/// Shared by both ways of reading so that "frame N" means exactly one thing: the
/// preview and the render must never disagree about which frame they are on.
///
/// Seeks to shortly before the target so ffmpeg can start from a keyframe, then
/// selects the exact frame. Seeking straight to the frame's own timestamp risks
/// landing early or late on long-GOP sources. `seek` says where shortly before
/// is, and how many frames lie between.
pub fn seek_args<K: Fn(u64, F64) -> (String, u64)>(
    path: &str,
    fps: F64,
    index: u64,
    seek: &K,
) -> (args: Vec<String>)
    requires
        forall|i: u64, v: F64| #[trigger] call_requires(*seek, (i, v)),
    ensures
        seeks(*seek, path@, fps, index, texts(args@)),
{
    let mut args: Vec<String> = Vec::new();
    if index == 0 || fps.is_at_most_zero() {
        push_arg(&mut args, "-i");
        push_arg(&mut args, file_arg(path).as_str());
        assert(texts(args@) =~= from_start_texts(path@));
        return args;
    }
    let lead = seek(index, fps);
    let mut chosen = "select=gte(n\\,".to_owned();
    chosen.append(decimal(lead.1).as_str());
    chosen.push(')');
    push_arg(&mut args, "-ss");
    push_arg(&mut args, lead.0.as_str());
    push_arg(&mut args, "-i");
    push_arg(&mut args, file_arg(path).as_str());
    push_arg(&mut args, "-vf");
    push_arg(&mut args, chosen.as_str());
    push_arg(&mut args, "-fps_mode");
    push_arg(&mut args, "passthrough");
    assert(texts(args@) =~= seek_texts(path@, lead.0@, lead.1 as nat));
    assert(call_ensures(*seek, (index, fps), lead));
    args
}

/// The arguments that come before everything.
pub open spec fn quiet_texts() -> Seq<Seq<char>> {
    seq!["-nostdin"@, "-v"@, "error"@]
}

/// The arguments that ask for raw video, and no audio: that is carried separately
/// at encode time.
pub open spec fn raw_texts(depth: SourceDepth) -> Seq<Seq<char>> {
    seq!["-f"@, "rawvideo"@, "-pix_fmt"@, depth.pix_fmt_text(), "-an"@, "-"@]
}

/// `args` decode a file from frame `start` on, or just that one frame.
pub open spec fn decodes<K: Fn(u64, F64) -> (String, u64)>(
    seek: K,
    path: Seq<char>,
    info: VideoInfo,
    start: u64,
    only_one: bool,
    args: Seq<Seq<char>>,
) -> bool {
    exists|from: Seq<Seq<char>>| #[trigger]
        seeks(seek, path, info.fps, start, from) && args == quiet_texts() + from + (if only_one {
            seq!["-frames:v"@, "1"@]
        } else {
            Seq::empty()
        }) + raw_texts(info.depth())
}

/// The arguments that decode a file from frame `start` on, or just that one frame.
///
/// Seeking rather than discarding matters: a trim beginning half an hour into a
/// film would otherwise decode tens of thousands of frames just to throw them
/// away.
pub fn decode_args<K: Fn(u64, F64) -> (String, u64)>(
    path: &str,
    info: &VideoInfo,
    start: u64,
    only_one: bool,
    seek: &K,
) -> (args: Vec<String>)
    requires
        forall|i: u64, v: F64| #[trigger] call_requires(*seek, (i, v)),
    ensures
        decodes(*seek, path@, *info, start, only_one, texts(args@)),
{
    let mut args: Vec<String> = Vec::new();
    push_arg(&mut args, "-nostdin");
    push_arg(&mut args, "-v");
    push_arg(&mut args, "error");
    assert(texts(args@) =~= quiet_texts());
    let from = seek_args(path, info.fps, start, seek);
    push_args(&mut args, &from);
    if only_one {
        push_arg(&mut args, "-frames:v");
        push_arg(&mut args, "1");
    }
    push_arg(&mut args, "-f");
    push_arg(&mut args, "rawvideo");
    push_arg(&mut args, "-pix_fmt");
    push_arg(&mut args, info.source_depth().pix_fmt());
    push_arg(&mut args, "-an");
    push_arg(&mut args, "-");
    assert(seeks(*seek, path@, info.fps, start, texts(from@)));
    assert(texts(args@) =~= quiet_texts() + texts(from@) + (if only_one {
        seq!["-frames:v"@, "1"@]
    } else {
        Seq::empty()
    }) + raw_texts(info.depth()));
    args
}

/// The arguments that make ffprobe report on a file.
pub fn probe_args(path: &str) -> (args: Vec<String>)
    ensures
        texts(args@) == seq![
            "-v"@,
            "error"@,
            "-show_streams"@,
            "-show_format"@,
            "-of"@,
            "json"@,
            file_arg_text(path@),
        ],
{
    let mut args: Vec<String> = Vec::new();
    push_arg(&mut args, "-v");
    push_arg(&mut args, "error");
    push_arg(&mut args, "-show_streams");
    push_arg(&mut args, "-show_format");
    push_arg(&mut args, "-of");
    push_arg(&mut args, "json");
    push_arg(&mut args, file_arg(path).as_str());
    assert(texts(args@) =~= seq![
        "-v"@,
        "error"@,
        "-show_streams"@,
        "-show_format"@,
        "-of"@,
        "json"@,
        file_arg_text(path@),
    ]);
    args
}

/// The 16-bit values that bytes hold, low byte first; an odd byte at the end
/// holds none.
pub open spec fn from_little_endian(bytes: Seq<u8>) -> Seq<u16> {
    Seq::new(bytes.len() / 2, |i: int| (bytes[2 * i] + 256 * bytes[2 * i + 1]) as u16)
}

/// The 16-bit values that bytes hold, low byte first.
fn to_values(bytes: &[u8]) -> (values: Vec<u16>)
    ensures
        values@ == from_little_endian(bytes@),
{
    let n: usize = bytes.len() / 2;
    let mut values: Vec<u16> = Vec::new();
    let mut i: usize = 0;
    while i < n
        invariant
            i <= n == bytes@.len() / 2,
            bytes@.len() <= usize::MAX,
            values@ == from_little_endian(bytes@).take(i as int),
        decreases n - i,
    {
        values.push(bytes[2 * i] as u16 + 256 * (bytes[2 * i + 1] as u16));
        i += 1;
        assert(values@ =~= from_little_endian(bytes@).take(i as int));
    }
    assert(from_little_endian(bytes@).take(i as int) =~= from_little_endian(bytes@));
    values
}

/// `image` is what the raw bytes of one frame hold.
pub open spec fn is_decoding<S, E: Fn(u8) -> S, F: Fn(u16) -> S>(
    scale8: E,
    scale16: F,
    bytes: Seq<u8>,
    width: nat,
    height: nat,
    depth: SourceDepth,
    image: Image<S>,
) -> bool {
    match depth {
        SourceDepth::Eight => deinterleaved(scale8, bytes, width, height, image),
        SourceDepth::Sixteen => deinterleaved(
            scale16,
            from_little_endian(bytes),
            width,
            height,
            image,
        ),
    }
}

/// Converts one raw frame's bytes into a frame. `scale8` and `scale16` turn one
/// value into a sample.
pub fn decode_frame_bytes<S: Copy, E: Fn(u8) -> S, F: Fn(u16) -> S>(
    bytes: &[u8],
    width: usize,
    height: usize,
    depth: SourceDepth,
    scale8: &E,
    scale16: &F,
) -> (frame: FrameF32<S>)
    requires
        bytes@.len() == width * height * depth.pixel_bytes(),
        forall|v: u8| #[trigger] call_requires(*scale8, (v,)),
        forall|v: u16| #[trigger] call_requires(*scale16, (v,)),
    ensures
        is_decoding(*scale8, *scale16, bytes@, width as nat, height as nat, depth, frame@),
        frame@.wf(),
        frame@.width == width,
        frame@.height == height,
        frame@.channels == 3,
{
    match depth {
        SourceDepth::Eight => FrameF32::from_rgb8(width, height, bytes, scale8),
        SourceDepth::Sixteen => {
            let values = to_values(bytes);
            assert(values@.len() == width * height * 3);
            FrameF32::from_rgb16(width, height, values.as_slice(), scale16)
        },
    }
}

/// What is said when a single frame came out short.
pub open spec fn short_text(expected: nat, index: nat, got: nat, said: Seq<char>) -> Seq<char> {
    "wanted "@ + decimal_text(expected) + " bytes for frame "@ + decimal_text(index) + ", got "@
        + decimal_text(got) + ". "@ + trimmed(said)
}

/// `r` is the frame that the output of a decode holds.
pub open spec fn takes_frame<S, E: Fn(u8) -> S, F: Fn(u16) -> S>(
    scale8: E,
    scale16: F,
    output: Seq<u8>,
    said: Seq<char>,
    info: VideoInfo,
    index: u64,
    r: Result<FrameF32<S>, MediaError>,
) -> bool {
    let expected = info.width * info.height * info.depth().pixel_bytes();
    if output.len() < expected {
        r matches Err(MediaError::ToolFailed { tool, message }) && tool@ == "ffmpeg"@ && message@
            == short_text(expected as nat, index as nat, output.len(), said)
    } else {
        r matches Ok(frame) && is_decoding(
            scale8,
            scale16,
            output.take(expected),
            info.width as nat,
            info.height as nat,
            info.depth(),
            frame@,
        )
    }
}

/// Takes a single frame out of what ffmpeg wrote and said.
pub fn take_frame<S: Copy, E: Fn(u8) -> S, F: Fn(u16) -> S>(
    output: &Vec<u8>,
    said: &str,
    info: &VideoInfo,
    index: u64,
    scale8: &E,
    scale16: &F,
) -> (r: Result<FrameF32<S>, MediaError>)
    requires
        info.width * info.height * 6 <= usize::MAX,
        forall|v: u8| #[trigger] call_requires(*scale8, (v,)),
        forall|v: u16| #[trigger] call_requires(*scale16, (v,)),
    ensures
        takes_frame(*scale8, *scale16, output@, said@, *info, index, r),
        r matches Ok(frame) ==> frame@.wf() && frame@.width == info.width && frame@.height
            == info.height && frame@.channels == 3,
{
    let depth = info.source_depth();
    proof {
        let n = info.width * info.height;
        assert(n * depth.pixel_bytes() <= n * 6) by (nonlinear_arith)
            requires
                0 <= n,
                depth.pixel_bytes() <= 6,
        ;
    }
    let expected: usize = info.frame_bytes(depth);
    if output.len() < expected {
        let chars = chars_of(said);
        let mut message = "wanted ".to_owned();
        message.append(decimal(expected as u64).as_str());
        message.append(" bytes for frame ");
        message.append(decimal(index).as_str());
        message.append(", got ");
        message.append(decimal(output.len() as u64).as_str());
        message.append(". ");
        message.append(string_of(trim(chars.as_slice())).as_str());
        return Err(MediaError::ToolFailed { tool: "ffmpeg", message });
    }
    let bytes = vstd::slice::slice_subrange(output.as_slice(), 0, expected);
    assert(bytes@ =~= output@.take(expected as int));
    Ok(decode_frame_bytes(bytes, info.width, info.height, depth, scale8, scale16))
}

/// What became of reading one frame's bytes off the pipe.
pub enum ReadOutcome {
    /// The buffer is full.
    Full,
    /// The stream ended. A clean end lands exactly on a frame boundary.
    Ended,
    /// Reading failed.
    Failed(String),
}

impl ReadOutcome {
    /// What a read of one frame comes to that gave `read` bytes of the `wanted` before
    /// the stream ended or the buffer was full.
    ///
    /// A clean end of stream lands exactly on a frame boundary. Anything else means
    /// the stream was cut mid-frame and is a real failure.
    pub fn of(read: usize, wanted: usize) -> (r: Self)
        ensures
            read >= wanted ==> r is Full,
            read == 0 && read < wanted ==> r is Ended,
            0 < read < wanted ==> (r matches ReadOutcome::Failed(why) && why@ == cut_text(
                read as nat,
                wanted as nat,
            )),
    {
        if read >= wanted {
            ReadOutcome::Full
        } else if read == 0 {
            ReadOutcome::Ended
        } else {
            let mut why = "the stream was cut after ".to_owned();
            why.append(decimal(read as u64).as_str());
            why.append(" of a frame's ");
            why.append(decimal(wanted as u64).as_str());
            why.append(" bytes");
            ReadOutcome::Failed(why)
        }
    }
}

/// What is said of a stream that was cut in mid-frame.
pub open spec fn cut_text(read: nat, wanted: nat) -> Seq<char> {
    "the stream was cut after "@ + decimal_text(read) + " of a frame's "@ + decimal_text(wanted)
        + " bytes"@
}

/// Where a decoder is in its stream.
#[derive(Debug)]
pub struct DecoderState {
    /// Whether there is still a pipe to read from.
    pub open: bool,
    /// How many frames have been handed out so far.
    pub frames_read: u64,
    pub path: String,
}

impl DecoderState {
    pub fn new(path: &str) -> (r: Self)
        ensures
            r.open,
            r.frames_read == 0,
            r.path@ == path@,
    {
        DecoderState { open: true, frames_read: 0, path: path.to_owned() }
    }

    /// Takes note of a read, and says whether there is a frame: there is one when
    /// the buffer is full, there is none at the end of the stream, and anything
    /// else is a failure. Nothing is read once the stream has ended.
    pub fn after_read(&mut self, outcome: ReadOutcome) -> (r: Result<bool, MediaError>)
        requires
            old(self).frames_read < u64::MAX,
        ensures
            final(self).path@ == old(self).path@,
            !old(self).open ==> r == Ok::<bool, MediaError>(false) && final(self).open
                == old(self).open && final(self).frames_read == old(self).frames_read,
            old(self).open ==> match outcome {
                ReadOutcome::Full => r == Ok::<bool, MediaError>(true) && final(self).open
                    && final(self).frames_read == old(self).frames_read + 1,
                ReadOutcome::Ended => r == Ok::<bool, MediaError>(false) && !final(self).open
                    && final(self).frames_read == old(self).frames_read,
                ReadOutcome::Failed(why) => r matches Err(MediaError::Io { path, source }) && path@
                    == old(self).path@ && source@ == why@ && final(self).open
                    && final(self).frames_read == old(self).frames_read,
            },
    {
        if !self.open {
            return Ok(false);
        }
        match outcome {
            ReadOutcome::Full => {
                self.frames_read = self.frames_read + 1;
                Ok(true)
            },
            ReadOutcome::Ended => {
                self.open = false;
                Ok(false)
            },
            ReadOutcome::Failed(why) => Err(MediaError::Io { path: self.path.clone(), source: why }),
        }
    }
}

/// Sixteen-bit values survive being written as bytes and read back.
pub proof fn law_bytes_round_trip(values: Seq<u16>)
    ensures
        from_little_endian(little_endian(values)) == values,
{
    let bytes = little_endian(values);
    assert forall|i: int| 0 <= i < values.len() implies from_little_endian(bytes)[i] == values[i] by {
        assert(bytes[2 * i] == (values[i] % 256) as u8);
        assert(bytes[2 * i + 1] == (values[i] / 256) as u8);
    }
    assert(from_little_endian(bytes) =~= values);
}

/// A raw 16-bit frame survives being decoded and handed to an encoder, where
/// quantising a scaled value gives the value back.
pub proof fn law_a_raw_frame_round_trips<
    S,
    E: Fn(u8) -> S,
    F: Fn(u16) -> S,
    R: Fn(S, u32) -> S,
    N: Fn(S) -> bool,
    A: Fn(S, u32) -> bool,
    W: Fn(S) -> u32,
>(
    scale8: E,
    scale16: F,
    math: &QuantiseMath<R, N, A, W>,
    bytes: Seq<u8>,
    width: nat,
    height: nat,
    image: Image<S>,
    out: Seq<u8>,
)
    requires
        bytes.len() == width * height * 6,
        is_decoding(scale8, scale16, bytes, width, height, SourceDepth::Sixteen, image),
        is_encoding(math, image, out),
        forall|v: u16, s: S, u: u16| #[trigger]
            call_ensures(scale16, (v,), s) && #[trigger] written16(math, s, u) ==> u == v,
    ensures
        out == bytes,
{
    let values = from_little_endian(bytes);
    let written = choose|values: Seq<u16>| #[trigger]
        interleaved16(math, image, values) && out == little_endian(values);
    law_rgb16_round_trips(scale16, math, values, width, height, image, written);
    assert(width * height * 6 == 2 * (width * height * 3)) by (nonlinear_arith);
    assert forall|i: int| 0 <= i < bytes.len() implies out[i] == bytes[i] by {
        let k = i / 2;
        assert(values[k] == bytes[2 * k] + 256 * bytes[2 * k + 1]);
    }
    assert(out =~= bytes);
}

/// Which of the frames behind a seek an ffmpeg filter lets through, counted from 0: a
/// `select` with `gte`, `lte` or `eq` compares the count with a number.
pub open spec fn lets_through(filter: Seq<char>, n: nat) -> bool {
    ||| exists|k: nat| filter == ("select=gte(n\\,"@ + #[trigger] decimal_text(k)).push(')') && n >= k
    ||| exists|k: nat| filter == ("select=lte(n\\,"@ + #[trigger] decimal_text(k)).push(')') && n <= k
    ||| exists|k: nat| filter == ("select=eq(n\\,"@ + #[trigger] decimal_text(k)).push(')') && n == k
}

/// A number is written one way.
proof fn lemma_decimal_tells_apart(a: nat, b: nat)
    requires
        decimal_text(a) == decimal_text(b),
    ensures
        a == b,
{
    crate::text::lemma_decimal_digits(a);
    crate::text::lemma_decimal_digits(b);
}

/// What `select=gte` lets through is what is no earlier than its number.
proof fn lemma_gte_lets_through(skip: nat, n: nat)
    ensures
        lets_through(("select=gte(n\\,"@ + decimal_text(skip)).push(')'), n) <==> n >= skip,
{
    reveal_strlit("select=gte(n\\,");
    reveal_strlit("select=lte(n\\,");
    reveal_strlit("select=eq(n\\,");
    let filter = ("select=gte(n\\,"@ + decimal_text(skip)).push(')');
    assert(filter[7] == 'g');
    assert forall|k: nat| filter == ("select=gte(n\\,"@ + #[trigger] decimal_text(k)).push(')') implies k
        == skip by {
        let other = ("select=gte(n\\,"@ + decimal_text(k)).push(')');
        let head = "select=gte(n\\,"@.len() as int;
        assert(filter.drop_last().skip(head) =~= decimal_text(skip));
        assert(other.drop_last().skip(head) =~= decimal_text(k));
        lemma_decimal_tells_apart(k, skip);
    }
    assert forall|k: nat| filter != ("select=lte(n\\,"@ + #[trigger] decimal_text(k)).push(')') by {
        assert(("select=lte(n\\,"@ + decimal_text(k)).push(')')[7] == 'l');
    }
    assert forall|k: nat| filter != ("select=eq(n\\,"@ + #[trigger] decimal_text(k)).push(')') by {
        assert(("select=eq(n\\,"@ + decimal_text(k)).push(')')[7] == 'e');
    }
    if n >= skip {
        assert(filter == ("select=gte(n\\,"@ + decimal_text(skip)).push(')'));
    }
}

/// Output starts at the frame asked for and goes on from there: whatever frame the seek
/// lands on, the ones that are let through behind it are that frame and every later one.
/// `lands` says which frame a written time is, and the seek leaves as many frames to skip
/// as lie between.
pub proof fn law_output_starts_at_the_frame_asked_for<K: Fn(u64, F64) -> (String, u64)>(
    seek: K,
    lands: spec_fn(Seq<char>) -> nat,
    path: &str,
    fps: F64,
    index: u64,
    args: Vec<String>,
)
    requires
        call_ensures(seek_args::<K>, (path, fps, index, &seek), args),
        forall|lead: (String, u64)| #[trigger]
            call_ensures(seek, (index, fps), lead) ==> lands(lead.0@) + lead.1 == index,
    ensures
        ({
            let t = texts(args@);
            if index == 0 || fps.at_most_zero() {
                t == seq!["-i"@, "file:"@ + path@]
            } else {
                &&& t.len() == 8
                &&& t[0] == "-ss"@ && t[2] == "-i"@ && t[3] == "file:"@ + path@ && t[4] == "-vf"@
                &&& t[6] == "-fps_mode"@ && t[7] == "passthrough"@
                &&& forall|n: nat| #[trigger]
                    lets_through(t[5], n) <==> lands(t[1]) + n >= index
                &&& lands(t[1]) <= index
            }
        }),
{
    let t = texts(args@);
    if !(index == 0 || fps.at_most_zero()) {
        let lead = choose|lead: (String, u64)| #[trigger]
            call_ensures(seek, (index, fps), lead) && t == seek_texts(path@, lead.0@, lead.1 as nat);
        assert forall|n: nat| #[trigger] lets_through(t[5], n) <==> lands(t[1]) + n >= index by {
            lemma_gte_lets_through(lead.1 as nat, n);
        }
    }
}

/// What ffmpeg is asked to decode: quietly and from no terminal, the frames from the
/// start on or the first of them alone, as raw video of the source's depth, without
/// sound, on its standard output.
pub proof fn law_decoding_asks_for_raw_video<K: Fn(u64, F64) -> (String, u64)>(
    seek: K,
    path: &str,
    info: &VideoInfo,
    start: u64,
    only_one: bool,
    args: Vec<String>,
)
    requires
        call_ensures(decode_args::<K>, (path, info, start, only_one, &seek), args),
    ensures
        ({
            let t = texts(args@);
            let n = t.len() as int;
            &&& n >= 11
            &&& t[0] == "-nostdin"@ && t[1] == "-v"@ && t[2] == "error"@
            &&& t[n - 6] == "-f"@ && t[n - 5] == "rawvideo"@ && t[n - 4] == "-pix_fmt"@
            &&& t[n - 3] == (if info.bit_depth > 8 {
                "rgb48le"@
            } else {
                "rgb24"@
            })
            &&& t[n - 2] == "-an"@ && t[n - 1] == "-"@
            &&& only_one ==> t[n - 8] == "-frames:v"@ && t[n - 7] == "1"@
            &&& exists|from: Seq<Seq<char>>| #[trigger]
                seeks(seek, path@, info.fps, start, from) && t.subrange(3, (3 + from.len()) as int) == from && n
                    == 3 + from.len() + (if only_one {
                    8int
                } else {
                    6int
                })
        }),
{
    let t = texts(args@);
    let from = choose|from: Seq<Seq<char>>| #[trigger]
        seeks(seek, path@, info.fps, start, from) && t == quiet_texts() + from + (if only_one {
            seq!["-frames:v"@, "1"@]
        } else {
            Seq::empty()
        }) + raw_texts(info.depth());
    assert(t.subrange(3, (3 + from.len()) as int) =~= from);
}

/// What ffprobe is asked for: its errors alone, the streams and the container, as JSON.
pub proof fn law_probing_asks_for_json(path: &str, args: Vec<String>)
    requires
        call_ensures(probe_args, (path,), args),
    ensures
        texts(args@) == seq![
            "-v"@,
            "error"@,
            "-show_streams"@,
            "-show_format"@,
            "-of"@,
            "json"@,
            "file:"@ + path@,
        ],
{
}

/// Two bytes hold a value, the first of them its low half.
pub proof fn law_values_are_read_low_byte_first(bytes: Seq<u8>, i: int)
    requires
        0 <= 2 * i,
        2 * i + 1 < bytes.len(),
    ensures
        from_little_endian(bytes).len() == bytes.len() / 2,
        from_little_endian(bytes)[i] == bytes[2 * i] + 256 * bytes[2 * i + 1],
{
}

/// A raw frame holds its pixels one behind the other, red, green and blue in turn: in
/// three bytes each, or in three pairs of bytes where the source is deeper.
pub proof fn law_a_raw_pixel_is_red_green_blue<S, E: Fn(u8) -> S, F: Fn(u16) -> S>(
    scale8: E,
    scale16: F,
    bytes: Seq<u8>,
    width: nat,
    height: nat,
    depth: SourceDepth,
    image: Image<S>,
    i: int,
)
    requires
        is_decoding(scale8, scale16, bytes, width, height, depth, image),
        bytes.len() == width * height * depth.pixel_bytes(),
        0 <= i < width * height,
    ensures
        depth == SourceDepth::Eight ==> call_ensures(scale8, (bytes[3 * i],), image.pixel(i).0)
            && call_ensures(scale8, (bytes[3 * i + 1],), image.pixel(i).1) && call_ensures(
            scale8,
            (bytes[3 * i + 2],),
            image.pixel(i).2,
        ),
        depth == SourceDepth::Sixteen ==> call_ensures(
            scale16,
            ((bytes[6 * i] + 256 * bytes[6 * i + 1]) as u16,),
            image.pixel(i).0,
        ) && call_ensures(
            scale16,
            ((bytes[6 * i + 2] + 256 * bytes[6 * i + 3]) as u16,),
            image.pixel(i).1,
        ) && call_ensures(
            scale16,
            ((bytes[6 * i + 4] + 256 * bytes[6 * i + 5]) as u16,),
            image.pixel(i).2,
        ),
{
    assert(call_ensures(scale8, (bytes[3 * i],), image.pixel(i).0) || depth == SourceDepth::Sixteen);
    if depth == SourceDepth::Sixteen {
        let v = from_little_endian(bytes);
        let n = width * height;
        assert(width * height * 6 == 6 * n) by (nonlinear_arith)
            requires
                n == width * height,
        ;
        let (r, g, b) = (v[3 * i], v[3 * i + 1], v[3 * i + 2]);
        assert(call_ensures(scale16, (r,), image.pixel(i).0));
        assert(r == bytes[6 * i] + 256 * bytes[6 * i + 1]);
        assert(g == bytes[6 * i + 2] + 256 * bytes[6 * i + 3]);
        assert(b == bytes[6 * i + 4] + 256 * bytes[6 * i + 5]);
    }
}

/// A frame is taken where there are bytes enough, out of the first of them, and refused
/// with what was wanted and got where there are not.
pub proof fn law_a_short_frame_is_refused<S, E: Fn(u8) -> S, F: Fn(u16) -> S>(
    scale8: E,
    scale16: F,
    output: Seq<u8>,
    said: Seq<char>,
    info: VideoInfo,
    index: u64,
    r: Result<FrameF32<S>, MediaError>,
)
    requires
        takes_frame(scale8, scale16, output, said, info, index, r),
    ensures
        r is Ok <==> output.len() >= info.width * info.height * (if info.bit_depth > 8 {
            6int
        } else {
            3int
        }),
        r matches Err(e) ==> (e matches MediaError::ToolFailed { tool, message } && tool@ == "ffmpeg"@
            && message@ == "wanted "@ + decimal_text(
            (info.width * info.height * (if info.bit_depth > 8 {
                6int
            } else {
                3int
            })) as nat,
        ) + " bytes for frame "@ + decimal_text(index as nat) + ", got "@ + decimal_text(output.len())
            + ". "@ + trimmed(said)),
        r matches Ok(frame) ==> is_decoding(
            scale8,
            scale16,
            output.take(
                info.width * info.height * (if info.bit_depth > 8 {
                    6int
                } else {
                    3int
                }),
            ),
            info.width as nat,
            info.height as nat,
            if info.bit_depth > 8 {
                SourceDepth::Sixteen
            } else {
                SourceDepth::Eight
            },
            frame@,
        ),
{
}

/// A stream may end between two frames; cut in the middle of one it has failed.
pub proof fn law_a_stream_ends_between_frames(read: usize, wanted: usize, r: ReadOutcome)
    requires
        call_ensures(ReadOutcome::of, (read, wanted), r),
        wanted > 0,
    ensures
        r is Full <==> read >= wanted,
        r is Ended <==> read == 0,
        r is Failed <==> 0 < read < wanted,
        r matches ReadOutcome::Failed(why) ==> why@ == "the stream was cut after "@ + decimal_text(
            read as nat,
        ) + " of a frame's "@ + decimal_text(wanted as nat) + " bytes"@,
{
}

/// A frame of raw bytes is read pixel by pixel, and so is one that ffmpeg wrote.
pub proof fn law_raw_bytes_become_their_pixels<S: Copy, E: Fn(u8) -> S, F: Fn(u16) -> S>(
    bytes: &[u8],
    width: usize,
    height: usize,
    depth: SourceDepth,
    scale8: &E,
    scale16: &F,
    frame: FrameF32<S>,
    i: int,
)
    requires
        bytes@.len() == width * height * (if depth == SourceDepth::Eight {
            3int
        } else {
            6int
        }),
        call_ensures(
            decode_frame_bytes::<S, E, F>,
            (bytes, width, height, depth, scale8, scale16),
            frame,
        ),
        0 <= i < width * height,
    ensures
        frame@.width == width && frame@.height == height && frame@.channels == 3,
        depth == SourceDepth::Eight ==> call_ensures(
            *scale8,
            (bytes@[3 * i],),
            frame@.pixel(i).0,
        ) && call_ensures(*scale8, (bytes@[3 * i + 1],), frame@.pixel(i).1) && call_ensures(
            *scale8,
            (bytes@[3 * i + 2],),
            frame@.pixel(i).2,
        ),
        depth == SourceDepth::Sixteen ==> call_ensures(
            *scale16,
            ((bytes@[6 * i] + 256 * bytes@[6 * i + 1]) as u16,),
            frame@.pixel(i).0,
        ) && call_ensures(
            *scale16,
            ((bytes@[6 * i + 2] + 256 * bytes@[6 * i + 3]) as u16,),
            frame@.pixel(i).1,
        ) && call_ensures(
            *scale16,
            ((bytes@[6 * i + 4] + 256 * bytes@[6 * i + 5]) as u16,),
            frame@.pixel(i).2,
        ),
{
    law_a_raw_pixel_is_red_green_blue(
        *scale8,
        *scale16,
        bytes@,
        width as nat,
        height as nat,
        depth,
        frame@,
        i,
    );
}

/// What ffmpeg wrote is a frame where it is long enough, and its first bytes are the frame.
pub proof fn law_a_written_frame_is_taken<S: Copy, E: Fn(u8) -> S, F: Fn(u16) -> S>(
    output: &Vec<u8>,
    said: &str,
    info: &VideoInfo,
    index: u64,
    scale8: &E,
    scale16: &F,
    r: Result<FrameF32<S>, MediaError>,
    i: int,
)
    requires
        call_ensures(take_frame::<S, E, F>, (output, said, info, index, scale8, scale16), r),
        0 <= i < info.width * info.height,
    ensures
        r is Ok <==> output@.len() >= info.width * info.height * (if info.bit_depth > 8 {
            6int
        } else {
            3int
        }),
        r matches Ok(frame) ==> frame@.width == info.width && frame@.height == info.height,
        r matches Ok(frame) ==> (info.bit_depth <= 8 ==> call_ensures(
            *scale8,
            (output@[3 * i],),
            frame@.pixel(i).0,
        ) && call_ensures(*scale8, (output@[3 * i + 1],), frame@.pixel(i).1) && call_ensures(
            *scale8,
            (output@[3 * i + 2],),
            frame@.pixel(i).2,
        )),
        r matches Ok(frame) ==> (info.bit_depth > 8 ==> call_ensures(
            *scale16,
            ((output@[6 * i] + 256 * output@[6 * i + 1]) as u16,),
            frame@.pixel(i).0,
        ) && call_ensures(
            *scale16,
            ((output@[6 * i + 2] + 256 * output@[6 * i + 3]) as u16,),
            frame@.pixel(i).1,
        ) && call_ensures(
            *scale16,
            ((output@[6 * i + 4] + 256 * output@[6 * i + 5]) as u16,),
            frame@.pixel(i).2,
        )),
{
    law_a_short_frame_is_refused(*scale8, *scale16, output@, said@, *info, index, r);
    if let Ok(frame) = r {
        let n = info.width * info.height;
        let size = n * (if info.bit_depth > 8 {
            6int
        } else {
            3int
        });
        assert(n >= 0 && size >= 0);
        let bytes = output@.take(size);
        law_a_raw_pixel_is_red_green_blue(
            *scale8,
            *scale16,
            bytes,
            info.width as nat,
            info.height as nat,
            info.depth(),
            frame@,
            i,
        );
    }
}

} // verus!
