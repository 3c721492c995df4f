//! Writing frames back out as video.
//!
//! Frames go to ffmpeg as `rgb48le`. The pipeline works in float and the
//! recovered eyes routinely sit in narrow tonal ranges after cross-talk
//! correction and grading, so handing the encoder 8-bit samples would band
//! exactly where the interesting detail is.
//!
//! Audio is stream-copied from a nominated source rather than re-encoded: the
//! conversion has no business touching it.

use crate::frame::{interleaved16, quantises_all, FrameF32, Image, QuantiseMath};
use crate::media::{file_arg, file_arg_text, size, size_text, MediaError};
use crate::scalar::F64;
use crate::text::{chars_of, decimal, decimal_text, string_of, trim, trimmed};
use vstd::prelude::*;
use vstd::string::*;

verus! {

/// Which encoder to use.
#[derive(Debug, Clone, Copy, PartialEq, Eq, Structural)]
pub enum VideoCodec {
    /// Hardware H.264. Fast on Apple Silicon; the sensible default for review
    /// copies and for anything going to a headset.
    H264VideoToolbox,
    /// Hardware HEVC. Better compression, less universally playable.
    HevcVideoToolbox,
    /// Software H.264. Slower, but identical on every platform, which matters
    /// for anything that needs to be reproducible.
    H264,
    /// Software HEVC.
    Hevc,
    /// ProRes HQ, for keeping a master to grade or re-encode later.
    ProRes,
}

impl Default for VideoCodec {
    fn default() -> (r: Self)
        ensures
            r == VideoCodec::H264VideoToolbox,
    {
        VideoCodec::H264VideoToolbox
    }
}

/// Which ProRes profile to write.
///
/// The profile is what carries a ProRes file's rate; there is no quality knob
/// beside it. They run from a review copy to a master with an alpha channel.
#[derive(Debug, Clone, Copy, PartialEq, Eq, Structural)]
pub enum ProResProfile {
    /// Smallest. For offline review, not for grading.
    Proxy,
    /// Light. Still an editing format, still lossy in ways grading will find.
    Lt,
    /// The middle of the range.
    Standard,
    /// What a master is normally kept at, and the default here.
    Hq,
    /// 4444: higher chroma resolution, and the first profile with alpha.
    Quad,
}

impl Default for ProResProfile {
    fn default() -> (r: Self)
        ensures
            r == ProResProfile::Hq,
    {
        ProResProfile::Hq
    }
}

impl ProResProfile {
    pub const ALL: [ProResProfile; 5] = [
        ProResProfile::Proxy,
        ProResProfile::Lt,
        ProResProfile::Standard,
        ProResProfile::Hq,
        ProResProfile::Quad,
    ];

    pub open spec fn code(self) -> nat {
        match self {
            ProResProfile::Proxy => 0,
            ProResProfile::Lt => 1,
            ProResProfile::Standard => 2,
            ProResProfile::Hq => 3,
            ProResProfile::Quad => 4,
        }
    }

    /// The number `prores_ks` wants.
    pub fn number(self) -> (r: u8)
        ensures
            r == self.code(),
    {
        match self {
            ProResProfile::Proxy => 0,
            ProResProfile::Lt => 1,
            ProResProfile::Standard => 2,
            ProResProfile::Hq => 3,
            ProResProfile::Quad => 4,
        }
    }

    pub open spec fn label_text(self) -> Seq<char> {
        match self {
            ProResProfile::Proxy => "Proxy"@,
            ProResProfile::Lt => "LT"@,
            ProResProfile::Standard => "Standard"@,
            ProResProfile::Hq => "HQ"@,
            ProResProfile::Quad => "4444"@,
        }
    }

    pub fn label(self) -> (r: &'static str)
        ensures
            r@ == self.label_text(),
    {
        match self {
            ProResProfile::Proxy => "Proxy",
            ProResProfile::Lt => "LT",
            ProResProfile::Standard => "Standard",
            ProResProfile::Hq => "HQ",
            ProResProfile::Quad => "4444",
        }
    }
}

/// The text of each of a list of arguments.
pub open spec fn texts(args: Seq<String>) -> Seq<Seq<char>> {
    Seq::new(args.len(), |i: int| args[i]@)
}

/// Adds one argument.
pub(crate) fn push_arg(args: &mut Vec<String>, arg: &str)
    ensures
        texts(final(args)@) == texts(old(args)@).push(arg@),
{
    args.push(arg.to_owned());
    assert(texts(args@) =~= texts(old(args)@).push(arg@));
}

/// Adds arguments behind others.
pub(crate) fn push_args(args: &mut Vec<String>, more: &Vec<String>)
    ensures
        texts(final(args)@) == texts(old(args)@) + texts(more@),
{
    let mut i: usize = 0;
    assert(texts(args@) =~= texts(old(args)@) + texts(more@).take(0));
    while i < more.len()
        invariant
            i <= more@.len(),
            texts(args@) == texts(old(args)@) + texts(more@).take(i as int),
        decreases more@.len() - i,
    {
        push_arg(args, more[i].as_str());
        assert(texts(more@).take(i + 1) =~= texts(more@).take(i as int).push(more@[i as int]@));
        i += 1;
    }
    assert(texts(more@).take(i as int) =~= texts(more@));
}

/// CRF runs backwards: lower is better. 100 maps to a visually transparent 14, 0
/// to a deliberately poor 35, and 0.21 of a step lies between one quality and the
/// next, rounded to the nearest.
pub open spec fn crf(quality: nat) -> nat {
    (35 - (21 * quality + 50) / 100) as nat
}

/// A quality on the scale of 0 to 100.
pub open spec fn capped(quality: nat) -> nat {
    if quality > 100 {
        100
    } else {
        quality
    }
}

impl VideoCodec {
    pub open spec fn encoder(self) -> Seq<char> {
        match self {
            VideoCodec::H264VideoToolbox => "h264_videotoolbox"@,
            VideoCodec::HevcVideoToolbox => "hevc_videotoolbox"@,
            VideoCodec::H264 => "libx264"@,
            VideoCodec::Hevc => "libx265"@,
            VideoCodec::ProRes => "prores_ks"@,
        }
    }

    /// The ffmpeg encoder name.
    pub fn ffmpeg_name(self) -> (r: &'static str)
        ensures
            r@ == self.encoder(),
    {
        match self {
            VideoCodec::H264VideoToolbox => "h264_videotoolbox",
            VideoCodec::HevcVideoToolbox => "hevc_videotoolbox",
            VideoCodec::H264 => "libx264",
            VideoCodec::Hevc => "libx265",
            VideoCodec::ProRes => "prores_ks",
        }
    }

    /// True for encoders that only exist on Apple platforms.
    pub fn is_apple_only(self) -> (r: bool)
        ensures
            r == (self == VideoCodec::H264VideoToolbox || self == VideoCodec::HevcVideoToolbox),
    {
        matches!(self, VideoCodec::H264VideoToolbox | VideoCodec::HevcVideoToolbox)
    }

    pub open spec fn pixels(self) -> Seq<char> {
        if self == VideoCodec::ProRes {
            "yuv422p10le"@
        } else {
            "yuv420p"@
        }
    }

    /// The pixel format to hand the encoder.
    pub fn output_pix_fmt(self) -> (r: &'static str)
        ensures
            r@ == self.pixels(),
    {
        match self {
            // 10-bit 4:2:2 keeps a ProRes master worth having.
            VideoCodec::ProRes => "yuv422p10le",
            _ => "yuv420p",
        }
    }

    /// True where a bitrate is a meaningful thing to ask for.
    ///
    /// ProRes rate comes from the profile, so a bitrate beside it would either
    /// be ignored or quietly argue with it.
    pub fn takes_a_bitrate(self) -> (r: bool)
        ensures
            r == (self != VideoCodec::ProRes),
    {
        self != VideoCodec::ProRes
    }

    /// The arguments that ask for a perceptual quality.
    pub open spec fn quality_texts(self, quality: nat) -> Seq<Seq<char>> {
        let q = capped(quality);
        match self {
            VideoCodec::H264 | VideoCodec::Hevc => seq!["-crf"@, decimal_text(crf(q))],
            VideoCodec::H264VideoToolbox | VideoCodec::HevcVideoToolbox => seq![
                "-q:v"@,
                decimal_text(if q == 0 { 1 } else { q }),
            ],
            VideoCodec::ProRes => Seq::empty(),
        }
    }

    /// Quality arguments for a perceptual quality setting from 0 to 100.
    pub fn quality_args(self, quality: u8) -> (args: Vec<String>)
        ensures
            texts(args@) == self.quality_texts(quality as nat),
    {
        let q: u64 = if quality > 100 {
            100
        } else {
            quality as u64
        };
        let mut args: Vec<String> = Vec::new();
        match self {
            VideoCodec::H264 | VideoCodec::Hevc => {
                push_arg(&mut args, "-crf");
                push_arg(&mut args, decimal(35 - (21 * q + 50) / 100).as_str());
            },
            // VideoToolbox takes the same scale, from 1.
            VideoCodec::H264VideoToolbox | VideoCodec::HevcVideoToolbox => {
                push_arg(&mut args, "-q:v");
                push_arg(&mut args, decimal(if q == 0 { 1 } else { q }).as_str());
            },
            // Quality is carried by the profile, not by a knob beside it.
            VideoCodec::ProRes => {},
        }
        assert(texts(args@) =~= self.quality_texts(quality as nat));
        args
    }
}

/// How to write the output file.
#[derive(Debug)]
pub struct EncodeSettings {
    pub codec: VideoCodec,
    /// Perceptual quality, from 0 to 100. Ignored when a bitrate is set.
    pub quality: u8,
    /// A fixed video bitrate in kbit/s, for delivery to something that needs a
    /// known size. `None`, the default, lets quality decide, which is the
    /// better answer whenever the size is not the constraint.
    pub bitrate_kbps: Option<u32>,
    /// Frames between keyframes. `None` leaves the encoder's own choice alone.
    /// Shorter means more seekable and larger.
    pub keyframe_interval: Option<u32>,
    /// Which ProRes profile to write. Ignored by every other codec.
    pub prores_profile: ProResProfile,
    pub fps: F64,
    /// File to copy an audio track from, if any.
    pub audio_from: Option<String>,
    /// The shape the finished frame should be seen at.
    ///
    /// Raw frames carry no pixel-aspect information, so without this ffmpeg
    /// assumes square pixels and anything from a non-square source (most disc
    /// transfers) comes out stretched. `None` means square.
    pub display_aspect: Option<F64>,
}

/// The pattern of 24, the rate a film runs at.
pub const FILM_RATE: u64 = 0x4038_0000_0000_0000;

impl Default for EncodeSettings {
    fn default() -> (r: Self)
        ensures
            r == default_settings(),
    {
        EncodeSettings {
            codec: VideoCodec::default(),
            quality: 75,
            bitrate_kbps: None,
            keyframe_interval: None,
            prores_profile: ProResProfile::default(),
            fps: F64 { bits: FILM_RATE },
            audio_from: None,
            display_aspect: None,
        }
    }
}

pub open spec fn default_settings() -> EncodeSettings {
    EncodeSettings {
        codec: VideoCodec::H264VideoToolbox,
        quality: 75,
        bitrate_kbps: None,
        keyframe_interval: None,
        prores_profile: ProResProfile::Hq,
        fps: F64 { bits: FILM_RATE },
        audio_from: None,
        display_aspect: None,
    }
}

impl Clone for EncodeSettings {
    fn clone(&self) -> (r: Self)
        ensures
            r == *self,
    {
        EncodeSettings {
            codec: self.codec,
            quality: self.quality,
            bitrate_kbps: self.bitrate_kbps,
            keyframe_interval: self.keyframe_interval,
            prores_profile: self.prores_profile,
            fps: self.fps,
            audio_from: match &self.audio_from {
                Some(path) => Some(path.clone()),
                None => None,
            },
            display_aspect: self.display_aspect,
        }
    }
}

impl EncodeSettings {
    /// The arguments that ask for a rate: a bitrate where one is asked for and
    /// means something, and a quality otherwise. They are two ways of asking for
    /// the same thing, and sending both leaves the encoder to choose between them.
    pub open spec fn rate_texts(self) -> Seq<Seq<char>> {
        match self.bitrate_kbps {
            Some(kbps) => if self.codec != VideoCodec::ProRes {
                seq!["-b:v"@, decimal_text(kbps as nat).push('k')]
            } else {
                self.codec.quality_texts(self.quality as nat)
            },
            None => self.codec.quality_texts(self.quality as nat),
        }
    }

    pub open spec fn profile_texts(self) -> Seq<Seq<char>> {
        if self.codec == VideoCodec::ProRes {
            seq!["-profile:v"@, decimal_text(self.prores_profile.code())]
        } else {
            Seq::empty()
        }
    }

    pub open spec fn keyframe_texts(self) -> Seq<Seq<char>> {
        match self.keyframe_interval {
            Some(frames) => seq!["-g"@, decimal_text(frames as nat)],
            None => Seq::empty(),
        }
    }

    /// The arguments describing the video encode.
    pub open spec fn video_texts(self) -> Seq<Seq<char>> {
        seq!["-c:v"@, self.codec.encoder()] + self.rate_texts() + self.profile_texts()
            + self.keyframe_texts() + seq!["-pix_fmt"@, self.codec.pixels()]
    }
}

/// The arguments describing the video encode, with no input or output among
/// them.
///
/// Built apart from the process that runs them so what reaches ffmpeg can be
/// looked at directly.
pub fn video_args(settings: &EncodeSettings) -> (args: Vec<String>)
    ensures
        texts(args@) == settings.video_texts(),
{
    let codec = settings.codec;
    let mut args: Vec<String> = Vec::new();
    push_arg(&mut args, "-c:v");
    push_arg(&mut args, codec.ffmpeg_name());
    assert(texts(args@) =~= seq!["-c:v"@, codec.encoder()]);

    match settings.bitrate_kbps {
        Some(kbps) => {
            if codec.takes_a_bitrate() {
                push_arg(&mut args, "-b:v");
                let mut rate = decimal(kbps as u64);
                rate.push('k');
                push_arg(&mut args, rate.as_str());
            } else {
                push_args(&mut args, &codec.quality_args(settings.quality));
            }
        },
        None => push_args(&mut args, &codec.quality_args(settings.quality)),
    }
    assert(texts(args@) =~= seq!["-c:v"@, codec.encoder()] + settings.rate_texts());

    if codec == VideoCodec::ProRes {
        push_arg(&mut args, "-profile:v");
        push_arg(&mut args, decimal(settings.prores_profile.number() as u64).as_str());
    }
    assert(texts(args@) =~= seq!["-c:v"@, codec.encoder()] + settings.rate_texts()
        + settings.profile_texts());

    if let Some(frames) = settings.keyframe_interval {
        push_arg(&mut args, "-g");
        push_arg(&mut args, decimal(frames as u64).as_str());
    }
    assert(texts(args@) =~= seq!["-c:v"@, codec.encoder()] + settings.rate_texts()
        + settings.profile_texts() + settings.keyframe_texts());

    push_arg(&mut args, "-pix_fmt");
    push_arg(&mut args, codec.output_pix_fmt());
    assert(texts(args@) =~= settings.video_texts());
    args
}

/// The arguments that feed raw frames in: their format, their size and their
/// rate, as it is written.
pub open spec fn input_texts(width: nat, height: nat, rate: Seq<char>) -> Seq<Seq<char>> {
    seq![
        "-y"@,
        "-v"@,
        "error"@,
        "-f"@,
        "rawvideo"@,
        "-pix_fmt"@,
        "rgb48le"@,
        "-s"@,
        size_text(width, height),
        "-r"@,
        rate,
        "-i"@,
        "-"@,
    ]
}

/// The arguments that choose the streams. The audio source is usually the
/// full-length film, so the encode stops when the shorter of the two runs out.
pub open spec fn map_texts(audio: Option<Seq<char>>) -> Seq<Seq<char>> {
    match audio {
        Some(path) => seq![
            "-i"@,
            file_arg_text(path),
            "-map"@,
            "0:v:0"@,
            "-map"@,
            "1:a:0"@,
            "-c:a"@,
            "copy"@,
            "-shortest"@,
        ],
        None => seq!["-map"@, "0:v:0"@],
    }
}

/// The arguments that say what shape the picture is seen at.
pub open spec fn aspect_texts(aspect: Option<Seq<char>>) -> Seq<Seq<char>> {
    match aspect {
        Some(shape) => seq!["-aspect"@, shape],
        None => Seq::empty(),
    }
}

impl EncodeSettings {
    pub open spec fn audio(self) -> Option<Seq<char>> {
        match self.audio_from {
            Some(path) => Some(path@),
            None => None,
        }
    }

    /// The shape to ask for: none where it is not a shape anything can have.
    pub open spec fn shape(self) -> Option<F64> {
        match self.display_aspect {
            Some(aspect) => if aspect.positive() {
                Some(aspect)
            } else {
                None
            },
            None => None,
        }
    }
}

/// All the arguments an encode is started with, with the rate and the shape as
/// they are written.
pub open spec fn encoder_texts(
    settings: EncodeSettings,
    width: nat,
    height: nat,
    rate: Seq<char>,
    aspect: Option<Seq<char>>,
    path: Seq<char>,
) -> Seq<Seq<char>> {
    input_texts(width, height, rate) + map_texts(settings.audio()) + aspect_texts(aspect)
        + settings.video_texts() + seq![file_arg_text(path)]
}

/// `rate` and `aspect` are how the rate and the shape may be written.
pub open spec fn writes<R: Fn(F64) -> String, A: Fn(F64) -> String>(
    show_rate: R,
    show_aspect: A,
    settings: EncodeSettings,
    rate: String,
    aspect: Option<String>,
) -> bool {
    &&& call_ensures(show_rate, (settings.fps,), rate)
    &&& match (settings.shape(), aspect) {
        (Some(shape), Some(text)) => call_ensures(show_aspect, (shape,), text),
        (None, None) => true,
        _ => false,
    }
}

pub open spec fn text_of(s: Option<String>) -> Option<Seq<char>> {
    match s {
        Some(text) => Some(text@),
        None => None,
    }
}

/// The arguments that start an encoder writing to `path`. `show_rate` writes a
/// frame rate and `show_aspect` a shape.
pub fn encoder_args<R: Fn(F64) -> String, A: Fn(F64) -> String>(
    path: &str,
    width: usize,
    height: usize,
    settings: &EncodeSettings,
    show_rate: &R,
    show_aspect: &A,
) -> (args: Vec<String>)
    requires
        forall|v: F64| #[trigger] call_requires(*show_rate, (v,)),
        forall|v: F64| v.positive() ==> #[trigger] call_requires(*show_aspect, (v,)),
    ensures
        exists|rate: String, aspect: Option<String>| #[trigger]
            writes(*show_rate, *show_aspect, *settings, rate, aspect) && texts(args@)
                == encoder_texts(
                *settings,
                width as nat,
                height as nat,
                rate@,
                text_of(aspect),
                path@,
            ),
{
    let rate = show_rate(settings.fps);
    let mut args: Vec<String> = Vec::new();
    push_arg(&mut args, "-y");
    push_arg(&mut args, "-v");
    push_arg(&mut args, "error");
    push_arg(&mut args, "-f");
    push_arg(&mut args, "rawvideo");
    push_arg(&mut args, "-pix_fmt");
    push_arg(&mut args, "rgb48le");
    push_arg(&mut args, "-s");
    push_arg(&mut args, size(width, height).as_str());
    push_arg(&mut args, "-r");
    push_arg(&mut args, rate.as_str());
    push_arg(&mut args, "-i");
    push_arg(&mut args, "-");
    assert(texts(args@) =~= input_texts(width as nat, height as nat, rate@));

    let ghost before = texts(args@);
    match &settings.audio_from {
        Some(audio) => {
            push_arg(&mut args, "-i");
            push_arg(&mut args, file_arg(audio.as_str()).as_str());
            push_arg(&mut args, "-map");
            push_arg(&mut args, "0:v:0");
            push_arg(&mut args, "-map");
            push_arg(&mut args, "1:a:0");
            push_arg(&mut args, "-c:a");
            push_arg(&mut args, "copy");
            push_arg(&mut args, "-shortest");
        },
        None => {
            push_arg(&mut args, "-map");
            push_arg(&mut args, "0:v:0");
        },
    }
    assert(texts(args@) =~= before + map_texts(settings.audio()));

    let ghost before = texts(args@);
    let aspect = match settings.display_aspect {
        Some(shape) => if shape.is_positive() {
            Some(show_aspect(shape))
        } else {
            None
        },
        None => None,
    };
    if let Some(text) = &aspect {
        push_arg(&mut args, "-aspect");
        push_arg(&mut args, text.as_str());
    }
    assert(texts(args@) =~= before + aspect_texts(text_of(aspect)));

    push_args(&mut args, &video_args(settings));
    push_arg(&mut args, file_arg(path).as_str());
    assert(texts(args@) =~= encoder_texts(
        *settings,
        width as nat,
        height as nat,
        rate@,
        text_of(aspect),
        path@,
    ));
    assert(writes(*show_rate, *show_aspect, *settings, rate, aspect));
    args
}

/// The bytes of 16-bit values, low byte first.
pub open spec fn little_endian(values: Seq<u16>) -> Seq<u8> {
    Seq::new(
        2 * values.len(),
        |i: int|
            if i % 2 == 0 {
                (values[i / 2] % 256) as u8
            } else {
                (values[i / 2] / 256) as u8
            },
    )
}

/// The bytes of 16-bit values, low byte first.
fn to_bytes(values: &Vec<u16>) -> (bytes: Vec<u8>)
    ensures
        bytes@ == little_endian(values@),
{
    let mut bytes: Vec<u8> = Vec::new();
    let mut i: usize = 0;
    while i < values.len()
        invariant
            i <= values@.len(),
            bytes@ == little_endian(values@).take(2 * i as int),
        decreases values@.len() - i,
    {
        let v: u16 = values[i];
        bytes.push((v % 256) as u8);
        bytes.push((v / 256) as u8);
        i += 1;
        assert(bytes@ =~= little_endian(values@).take(2 * i as int));
    }
    assert(little_endian(values@).take(2 * i as int) =~= little_endian(values@));
    bytes
}

/// The bytes that hand one frame to an encoder that was opened for a size.
///
/// A frame of another geometry is refused.
pub fn frame_to_bytes<
    S: Copy,
    R: Fn(S, u32) -> S,
    N: Fn(S) -> bool,
    A: Fn(S, u32) -> bool,
    W: Fn(S) -> u32,
>(
    frame: &FrameF32<S>,
    width: usize,
    height: usize,
    math: &QuantiseMath<R, N, A, W>,
) -> (r: Result<Vec<u8>, MediaError>)
    requires
        frame@.wf(),
        frame@.channels == 3,
        quantises_all(math),
    ensures
        encodes_frame(math, frame@, width, height, r),
{
    if frame.width() != width || frame.height() != height {
        return Err(
            MediaError::FrameSizeMismatch {
                expected: (width, height),
                got: (frame.width(), frame.height()),
            },
        );
    }
    let values = frame.to_rgb16(math);
    assert(interleaved16(math, frame@, values@));
    Ok(to_bytes(&values))
}

/// `r` is what an encoder that was opened for a size is handed of a frame.
pub open spec fn encodes_frame<
    S,
    R: Fn(S, u32) -> S,
    N: Fn(S) -> bool,
    A: Fn(S, u32) -> bool,
    W: Fn(S) -> u32,
>(
    math: &QuantiseMath<R, N, A, W>,
    image: Image<S>,
    width: usize,
    height: usize,
    r: Result<Vec<u8>, MediaError>,
) -> bool {
    if image.width == width && image.height == height {
        r matches Ok(bytes) && is_encoding(math, image, bytes@)
    } else {
        r matches Err(MediaError::FrameSizeMismatch { expected, got }) && expected == (width, height)
            && (got.0 as nat, got.1 as nat) == (image.width, image.height)
    }
}

/// `bytes` are the samples of an image, quantised, pixel by pixel.
pub open spec fn is_encoding<
    S,
    R: Fn(S, u32) -> S,
    N: Fn(S) -> bool,
    A: Fn(S, u32) -> bool,
    W: Fn(S) -> u32,
>(math: &QuantiseMath<R, N, A, W>, image: Image<S>, bytes: Seq<u8>) -> bool {
    exists|values: Seq<u16>| #[trigger]
        interleaved16(math, image, values) && bytes == little_endian(values)
}

/// What became of a tool that has run to its end: nothing to say where it
/// succeeded, and otherwise what it said.
pub fn judge_tool(tool: &'static str, succeeded: bool, said: &str) -> (r: Result<(), MediaError>)
    ensures
        succeeded ==> r is Ok,
        !succeeded ==> (r matches Err(MediaError::ToolFailed { tool: t, message }) && t@ == tool@
            && message@ == trimmed(said@)),
{
    if succeeded {
        Ok(())
    } else {
        let chars = chars_of(said);
        Err(MediaError::ToolFailed { tool, message: string_of(trim(chars.as_slice())) })
    }
}

/// A bitrate and a quality are never both asked for.
pub proof fn law_a_bitrate_and_a_quality_are_never_both_sent(settings: EncodeSettings)
    ensures
        settings.video_texts().contains("-b:v"@) ==> !settings.video_texts().contains("-crf"@)
            && !settings.video_texts().contains("-q:v"@),
{
    reveal_strlit("-b:v");
    reveal_strlit("-crf");
    reveal_strlit("-q:v");
    reveal_strlit("-c:v");
    reveal_strlit("-profile:v");
    reveal_strlit("-g");
    reveal_strlit("-pix_fmt");
    reveal_strlit("h264_videotoolbox");
    reveal_strlit("hevc_videotoolbox");
    reveal_strlit("libx264");
    reveal_strlit("libx265");
    reveal_strlit("prores_ks");
    reveal_strlit("yuv422p10le");
    reveal_strlit("yuv420p");
    lemma_video_texts_contain(settings, "-b:v"@);
    lemma_video_texts_contain(settings, "-crf"@);
    lemma_video_texts_contain(settings, "-q:v"@);
    let (b, crf_flag, q_flag) = ("-b:v"@, "-crf"@, "-q:v"@);
    // The second and third characters tell every flag apart.
    assert(b[1] == 'b' && crf_flag[1] == 'c' && crf_flag[2] == 'r' && q_flag[1] == 'q');
    assert("-c:v"@[1] == 'c' && "-c:v"@[2] == ':');
    assert("-profile:v"@[1] == 'p' && "-g"@.len() == 2 && "-pix_fmt"@[1] == 'p');
    assert(settings.codec.encoder()[0] != '-');
    assert(settings.codec.pixels()[0] != '-');
}

/// Which texts are among the arguments of an encode.
proof fn lemma_video_texts_contain(settings: EncodeSettings, flag: Seq<char>)
    requires
        flag.len() == 4,
        flag[0] == '-',
    ensures
        settings.video_texts().contains(flag) <==> {
            ||| flag == "-c:v"@
            ||| flag == settings.codec.encoder()
            ||| settings.rate_texts().len() > 0 && flag == settings.rate_texts()[0]
            ||| settings.codec == VideoCodec::ProRes && flag == "-profile:v"@
            ||| settings.keyframe_interval is Some && flag == "-g"@
            ||| flag == "-pix_fmt"@
            ||| flag == settings.codec.pixels()
        },
{
    broadcast use vstd::seq_lib::lemma_seq_concat_contains_all_elements;

    lemma_pair_contains("-c:v"@, settings.codec.encoder(), flag);
    lemma_pair_contains("-pix_fmt"@, settings.codec.pixels(), flag);
    lemma_no_flag_in_number(flag);
    let rate = settings.rate_texts();
    if rate.len() > 0 {
        assert(rate =~= seq![rate[0], rate[1]]);
        lemma_pair_contains(rate[0], rate[1], flag);
    }
    if settings.codec == VideoCodec::ProRes {
        lemma_pair_contains("-profile:v"@, decimal_text(settings.prores_profile.code()), flag);
    }
    if let Some(frames) = settings.keyframe_interval {
        lemma_pair_contains("-g"@, decimal_text(frames as nat), flag);
    }
}

proof fn lemma_pair_contains(a: Seq<char>, b: Seq<char>, x: Seq<char>)
    ensures
        seq![a, b].contains(x) <==> x == a || x == b,
{
    let pair = seq![a, b];
    assert(pair[0] == a && pair[1] == b);
}

/// What starts with a dash is no number, nor a number with a unit.
proof fn lemma_no_flag_in_number(flag: Seq<char>)
    requires
        flag.len() > 0,
        flag[0] == '-',
    ensures
        forall|n: nat| flag != #[trigger] decimal_text(n) && flag != decimal_text(n).push('k'),
{
    assert forall|n: nat| flag != #[trigger] decimal_text(n) && flag != decimal_text(n).push('k') by {
        crate::text::lemma_decimal_digits(n);
        assert(crate::text::is_digit(decimal_text(n)[0]));
        assert(decimal_text(n).push('k')[0] == decimal_text(n)[0]);
    }
}

/// Each codec asks for its own encoder, by the name that ffmpeg knows it by, and no two
/// ask for the same one.
pub proof fn law_each_codec_has_its_own_encoder(
    a: VideoCodec,
    b: VideoCodec,
    x: &'static str,
    y: &'static str,
)
    requires
        call_ensures(VideoCodec::ffmpeg_name, (a,), x),
        call_ensures(VideoCodec::ffmpeg_name, (b,), y),
    ensures
        x@ == y@ <==> a == b,
        a == VideoCodec::H264 <==> x@ == "libx264"@,
        a == VideoCodec::Hevc <==> x@ == "libx265"@,
        a == VideoCodec::H264VideoToolbox <==> x@ == "h264_videotoolbox"@,
        a == VideoCodec::HevcVideoToolbox <==> x@ == "hevc_videotoolbox"@,
        a == VideoCodec::ProRes <==> x@ == "prores_ks"@,
{
    reveal_strlit("h264_videotoolbox");
    reveal_strlit("hevc_videotoolbox");
    reveal_strlit("libx264");
    reveal_strlit("libx265");
    reveal_strlit("prores_ks");
    assert("libx264"@[6] == '4' && "libx265"@[6] == '5');
    assert("h264_videotoolbox"@[1] == '2' && "hevc_videotoolbox"@[1] == 'e');
    assert("prores_ks"@.len() == 9);
}

/// A master keeps ten bits and half the chroma; everything else is what every player
/// takes.
pub proof fn law_only_a_master_keeps_ten_bits(codec: VideoCodec, x: &'static str)
    requires
        call_ensures(VideoCodec::output_pix_fmt, (codec,), x),
    ensures
        codec == VideoCodec::ProRes ==> x@ == "yuv422p10le"@,
        codec != VideoCodec::ProRes ==> x@ == "yuv420p"@,
{
}

/// The profiles are numbered in the order of their rate, from the smallest at 0.
pub proof fn law_profiles_are_numbered_by_rate(a: ProResProfile, b: ProResProfile, x: u8, y: u8)
    requires
        call_ensures(ProResProfile::number, (a,), x),
        call_ensures(ProResProfile::number, (b,), y),
    ensures
        x == y <==> a == b,
        x <= 4,
        a == ProResProfile::Proxy ==> x == 0,
        a == ProResProfile::Lt && b == ProResProfile::Standard ==> 0 < x < y,
        a == ProResProfile::Standard && b == ProResProfile::Hq ==> x < y,
        a == ProResProfile::Hq && b == ProResProfile::Quad ==> x < y,
{
}

/// Each profile has its own label.
pub proof fn law_profiles_are_told_apart(a: ProResProfile, x: &'static str)
    requires
        call_ensures(ProResProfile::label, (a,), x),
    ensures
        x@ == (match a {
            ProResProfile::Proxy => "Proxy"@,
            ProResProfile::Lt => "LT"@,
            ProResProfile::Standard => "Standard"@,
            ProResProfile::Hq => "HQ"@,
            ProResProfile::Quad => "4444"@,
        }),
{
}

/// Which codecs exist on Apple platforms alone, and which of them take a bitrate.
pub proof fn law_hardware_is_apple_and_a_master_has_no_bitrate(codec: VideoCodec, apple: bool, rate: bool)
    requires
        call_ensures(VideoCodec::is_apple_only, (codec,), apple),
        call_ensures(VideoCodec::takes_a_bitrate, (codec,), rate),
    ensures
        codec == VideoCodec::H264VideoToolbox || codec == VideoCodec::HevcVideoToolbox ==> apple && rate,
        codec == VideoCodec::H264 || codec == VideoCodec::Hevc ==> !apple && rate,
        codec == VideoCodec::ProRes ==> !apple && !rate,
{
}

/// What a quality asks of an encoder. In software a better quality never has a higher
/// rate factor: it runs from 35 down to 14, a fifth and a hundredth of a step for each
/// step of quality. In hardware it is the quality itself, from 1. A master's profile
/// says it all.
pub proof fn law_quality_reaches_the_encoder(
    codec: VideoCodec,
    low: u8,
    high: u8,
    x: Vec<String>,
    y: Vec<String>,
)
    requires
        low <= high <= 100,
        call_ensures(VideoCodec::quality_args, (codec, low), x),
        call_ensures(VideoCodec::quality_args, (codec, high), y),
    ensures
        codec == VideoCodec::H264 || codec == VideoCodec::Hevc ==> exists|m: nat, n: nat|
            #![trigger decimal_text(m), decimal_text(n)]
            texts(x@) == seq!["-crf"@, decimal_text(m)] && texts(y@) == seq!["-crf"@, decimal_text(n)]
                && n <= m && -50 <= 100 * (35 - m) - 21 * low <= 50 && -50 <= 100 * (35 - n) - 21
                * high <= 50,
        codec == VideoCodec::H264VideoToolbox || codec == VideoCodec::HevcVideoToolbox ==> texts(y@)
            == seq!["-q:v"@, decimal_text(if high == 0 {
            1
        } else {
            high as nat
        })],
        codec == VideoCodec::ProRes ==> texts(y@).len() == 0,
{
    let (m, n) = (crf(capped(low as nat)), crf(capped(high as nat)));
    if codec == VideoCodec::H264 || codec == VideoCodec::Hevc {
        assert(texts(x@) == seq!["-crf"@, decimal_text(m)]);
        assert(texts(y@) == seq!["-crf"@, decimal_text(n)]);
    }
}

/// A quality above the scale counts as the best on it.
pub proof fn law_quality_is_capped(codec: VideoCodec, q: u8, x: Vec<String>, y: Vec<String>)
    requires
        q >= 100,
        call_ensures(VideoCodec::quality_args, (codec, q), x),
        call_ensures(VideoCodec::quality_args, (codec, 100u8), y),
    ensures
        texts(x@) == texts(y@),
{
}

/// A value stands right behind its flag.
pub open spec fn flagged(args: Seq<Seq<char>>, at: int, flag: Seq<char>, value: Seq<char>) -> bool {
    0 <= at && at + 1 < args.len() && args[at] == flag && args[at + 1] == value
}

/// What the video encode is asked for: the encoder first, then a bitrate or a quality,
/// the profile of a master, the keyframes where they are set, and the pixel format
/// last.
pub proof fn law_the_encode_is_asked_for_in_full(settings: &EncodeSettings, args: Vec<String>)
    requires
        call_ensures(video_args, (settings,), args),
    ensures
        ({
            let t = texts(args@);
            let n = t.len() as int;
            let codec = settings.codec;
            let keys: int = if settings.keyframe_interval is Some { 2 } else { 0 };
            &&& flagged(t, 0, "-c:v"@, match codec {
                VideoCodec::H264VideoToolbox => "h264_videotoolbox"@,
                VideoCodec::HevcVideoToolbox => "hevc_videotoolbox"@,
                VideoCodec::H264 => "libx264"@,
                VideoCodec::Hevc => "libx265"@,
                VideoCodec::ProRes => "prores_ks"@,
            })
            &&& flagged(t, n - 2, "-pix_fmt"@, if codec == VideoCodec::ProRes {
                "yuv422p10le"@
            } else {
                "yuv420p"@
            })
            &&& n == 6 + keys
            &&& settings.keyframe_interval matches Some(k) ==> flagged(
                t,
                n - 4,
                "-g"@,
                decimal_text(k as nat),
            )
            &&& codec == VideoCodec::ProRes ==> flagged(
                t,
                2,
                "-profile:v"@,
                decimal_text(
                    match settings.prores_profile {
                        ProResProfile::Proxy => 0,
                        ProResProfile::Lt => 1,
                        ProResProfile::Standard => 2,
                        ProResProfile::Hq => 3,
                        ProResProfile::Quad => 4,
                    },
                ),
            )
            &&& codec != VideoCodec::ProRes ==> (settings.bitrate_kbps matches Some(kbps) ==> flagged(
                t,
                2,
                "-b:v"@,
                decimal_text(kbps as nat).push('k'),
            ))
            &&& settings.bitrate_kbps is None && (codec == VideoCodec::H264 || codec
                == VideoCodec::Hevc) ==> t[2] == "-crf"@
            &&& settings.bitrate_kbps is None && (codec == VideoCodec::H264VideoToolbox || codec
                == VideoCodec::HevcVideoToolbox) ==> t[2] == "-q:v"@
        }),
{
}

/// What an encoder is fed and where it writes: raw 16-bit frames of the size and the rate
/// on its standard input, the sound copied from its own file where one is named, the shape
/// where it is one, and the file last, pinned to the filesystem.
pub proof fn law_the_encoder_is_told_what_it_is_fed(
    settings: EncodeSettings,
    width: nat,
    height: nat,
    rate: Seq<char>,
    aspect: Option<Seq<char>>,
    path: Seq<char>,
)
    ensures
        ({
            let t = encoder_texts(settings, width, height, rate, aspect, path);
            let sound: int = if settings.audio_from is Some { 9 } else { 2 };
            &&& t.take(7) == seq![
                "-y"@,
                "-v"@,
                "error"@,
                "-f"@,
                "rawvideo"@,
                "-pix_fmt"@,
                "rgb48le"@,
            ]
            &&& flagged(t, 7, "-s"@, decimal_text(width).push('x') + decimal_text(height))
            &&& flagged(t, 9, "-r"@, rate)
            &&& flagged(t, 11, "-i"@, "-"@)
            &&& settings.audio_from matches Some(sound) ==> {
                &&& flagged(t, 13, "-i"@, "file:"@ + sound@)
                &&& flagged(t, 15, "-map"@, "0:v:0"@)
                &&& flagged(t, 17, "-map"@, "1:a:0"@)
                &&& flagged(t, 19, "-c:a"@, "copy"@)
                &&& t[21] == "-shortest"@
            }
            &&& settings.audio_from is None ==> flagged(t, 13, "-map"@, "0:v:0"@)
            &&& aspect matches Some(shape) ==> flagged(t, 13 + sound, "-aspect"@, shape)
            &&& t.last() == "file:"@ + path
        }),
{
    let t = encoder_texts(settings, width, height, rate, aspect, path);
    assert(t.take(7) =~= seq![
        "-y"@,
        "-v"@,
        "error"@,
        "-f"@,
        "rawvideo"@,
        "-pix_fmt"@,
        "rgb48le"@,
    ]);
}

/// A shape is written where it is a number above zero, and nowhere else; the rate is the
/// settings' own.
pub proof fn law_a_shape_is_written_where_it_is_one<R: Fn(F64) -> String, A: Fn(F64) -> String>(
    show_rate: R,
    show_aspect: A,
    settings: EncodeSettings,
    rate: String,
    aspect: Option<String>,
)
    requires
        writes(show_rate, show_aspect, settings, rate, aspect),
    ensures
        call_ensures(show_rate, (settings.fps,), rate),
        settings.display_aspect matches Some(shape) ==> (aspect is Some <==> shape.positive()),
        settings.display_aspect is None ==> aspect is None,
        settings.display_aspect matches Some(shape) ==> (aspect matches Some(text) ==> call_ensures(
            show_aspect,
            (shape,),
            text,
        )),
{
}

/// The bytes of a frame come low byte first, as `rgb48le` wants them: a value is its
/// first byte and 256 times its second.
pub proof fn law_values_are_written_low_byte_first(values: Seq<u16>, i: int)
    requires
        0 <= i < values.len(),
    ensures
        little_endian(values).len() == 2 * values.len(),
        little_endian(values)[2 * i] + 256 * little_endian(values)[2 * i + 1] == values[i],
{
}

/// A tool that succeeded has nothing to say; one that failed is named with what it said.
pub proof fn law_a_failed_tool_is_quoted(
    tool: &'static str,
    succeeded: bool,
    said: &str,
    r: Result<(), MediaError>,
)
    requires
        call_ensures(judge_tool, (tool, succeeded, said), r),
    ensures
        r is Ok <==> succeeded,
        r matches Err(e) ==> (e matches MediaError::ToolFailed { tool: t, message } && t@ == tool@
            && message@ == trimmed(said@)),
{
}

/// What is written unless something else is asked for.
pub proof fn law_default_encode()
    ensures
        default_settings().codec == VideoCodec::H264VideoToolbox,
        default_settings().quality == 75,
        default_settings().bitrate_kbps is None,
        default_settings().keyframe_interval is None,
        default_settings().prores_profile == ProResProfile::Hq,
        default_settings().fps.bits == 0x4038_0000_0000_0000,
        default_settings().audio_from is None,
        default_settings().display_aspect is None,
{
}

/// A frame goes to the encoder as pairs of bytes, low first, red, green and blue in turn;
/// one of another size than the encoder was told is refused, with both sizes.
pub proof fn law_a_frame_is_fed_in_pairs_of_bytes<
    S: Copy,
    R: Fn(S, u32) -> S,
    N: Fn(S) -> bool,
    A: Fn(S, u32) -> bool,
    W: Fn(S) -> u32,
>(
    frame: &FrameF32<S>,
    width: usize,
    height: usize,
    math: &QuantiseMath<R, N, A, W>,
    r: Result<Vec<u8>, MediaError>,
    i: int,
)
    requires
        frame@.wf(),
        frame@.channels == 3,
        call_ensures(frame_to_bytes::<S, R, N, A, W>, (frame, width, height, math), r),
        0 <= i < width * height,
    ensures
        r is Ok <==> frame@.width == width && frame@.height == height,
        r matches Err(e) ==> (e matches MediaError::FrameSizeMismatch { expected, got } && expected.0
            == width && expected.1 == height && got.0 == frame@.width && got.1 == frame@.height),
        r matches Ok(bytes) ==> bytes@.len() == 6 * (width * height),
        r matches Ok(bytes) ==> crate::frame::written16(
            math,
            frame@.pixel(i).0,
            (bytes@[6 * i] + 256 * bytes@[6 * i + 1]) as u16,
        ),
        r matches Ok(bytes) ==> crate::frame::written16(
            math,
            frame@.pixel(i).1,
            (bytes@[6 * i + 2] + 256 * bytes@[6 * i + 3]) as u16,
        ),
        r matches Ok(bytes) ==> crate::frame::written16(
            math,
            frame@.pixel(i).2,
            (bytes@[6 * i + 4] + 256 * bytes@[6 * i + 5]) as u16,
        ),
{
    if let Ok(bytes) = r {
        let values = choose|values: Seq<u16>| #[trigger]
            interleaved16(math, frame@, values) && bytes@ == little_endian(values);
        let n = width * height;
        assert(frame@.width * frame@.height * 3 == 3 * n);
        let px = frame@.pixel(i);
        assert(bytes@[6 * i] + 256 * bytes@[6 * i + 1] == values[3 * i]);
        assert(bytes@[6 * i + 2] + 256 * bytes@[6 * i + 3] == values[3 * i + 1]);
        assert(bytes@[6 * i + 4] + 256 * bytes@[6 * i + 5] == values[3 * i + 2]);
    }
}

/// Every profile is offered, the smallest first.
pub proof fn law_every_profile_is_offered(profile: ProResProfile)
    ensures
        ProResProfile::ALL@[0] == ProResProfile::Proxy,
        ProResProfile::ALL@[1] == ProResProfile::Lt,
        ProResProfile::ALL@[2] == ProResProfile::Standard,
        ProResProfile::ALL@[3] == ProResProfile::Hq,
        ProResProfile::ALL@[4] == ProResProfile::Quad,
        ProResProfile::ALL@.len() == 5,
        ProResProfile::ALL@.contains(profile),
{
    let all = ProResProfile::ALL@;
    assert(all[0] == ProResProfile::Proxy);
    assert(all[1] == ProResProfile::Lt);
    assert(all[2] == ProResProfile::Standard);
    assert(all[3] == ProResProfile::Hq);
    assert(all[4] == ProResProfile::Quad);
}

/// An encoder is started with all of it: frames of its own width by its own height at its
/// own rate, the sound and the shape where there are any, everything that the video encode
/// is asked for, and the file last.
pub proof fn law_an_encoder_is_started_with_all_of_it<R: Fn(F64) -> String, A: Fn(F64) -> String>(
    path: &str,
    width: usize,
    height: usize,
    settings: &EncodeSettings,
    show_rate: &R,
    show_aspect: &A,
    args: Vec<String>,
    video: Vec<String>,
)
    requires
        call_ensures(
            encoder_args::<R, A>,
            (path, width, height, settings, show_rate, show_aspect),
            args,
        ),
        call_ensures(video_args, (settings,), video),
    ensures
        exists|rate: String| #[trigger]
            call_ensures(*show_rate, (settings.fps,), rate) && flagged(
                texts(args@),
                9,
                "-r"@,
                rate@,
            ),
        flagged(
            texts(args@),
            7,
            "-s"@,
            decimal_text(width as nat).push('x') + decimal_text(height as nat),
        ),
        flagged(texts(args@), 11, "-i"@, "-"@),
        settings.audio_from matches Some(sound) ==> flagged(
            texts(args@),
            13,
            "-i"@,
            "file:"@ + sound@,
        ) && flagged(texts(args@), 17, "-map"@, "1:a:0"@),
        settings.audio_from is None ==> flagged(texts(args@), 13, "-map"@, "0:v:0"@),
        settings.display_aspect matches Some(shape) ==> (shape.positive() ==> exists|text: String|
            #[trigger]
            call_ensures(*show_aspect, (shape,), text) && flagged(
                texts(args@),
                if settings.audio_from is Some {
                    22
                } else {
                    15
                },
                "-aspect"@,
                text@,
            )),
        texts(args@).len() > texts(video@).len(),
        texts(args@).subrange(
            texts(args@).len() - 1 - texts(video@).len(),
            texts(args@).len() - 1,
        ) == texts(video@),
        texts(args@).last() == "file:"@ + path@,
{
    let t = texts(args@);
    let v = texts(video@);
    let (rate, aspect) = choose|rate: String, aspect: Option<String>| #[trigger]
        writes(*show_rate, *show_aspect, *settings, rate, aspect) && t == encoder_texts(
            *settings,
            width as nat,
            height as nat,
            rate@,
            text_of(aspect),
            path@,
        );
    law_the_encoder_is_told_what_it_is_fed(
        *settings,
        width as nat,
        height as nat,
        rate@,
        text_of(aspect),
        path@,
    );
    assert(call_ensures(*show_rate, (settings.fps,), rate));
    assert(v == settings.video_texts());
    assert(t.subrange(t.len() - 1 - v.len(), t.len() - 1) =~= v);
    if let Some(text) = aspect {
        assert(call_ensures(*show_aspect, (settings.display_aspect->0,), text));
    }
}

} // verus!
