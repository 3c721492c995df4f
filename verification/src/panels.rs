//! What each panel of the window offers and says, before any of it is drawn.

use crate::choices::{
    codec_name, codec_text, describe_source, eye_order_name, eye_order_text, format_name,
    source_text, Role, SourceKind,
};
use crate::compose::OutputLayout;
use crate::encode::{text_of, EncodeSettings, VideoCodec};
use crate::params::{InputMode, SourceTrim};
use crate::probe::VideoInfo;
use crate::progress::{describe_outputs, outputs_text, states};
use crate::render::{output_paths, outputs_of};
use crate::scalar::F64;
use crate::session::{
    counts_frames, display_name, estimates, shown_name, AnaApp, Source, VERSION,
};
use crate::text::{decimal, decimal_text};
use crate::timecode::{clock_text, format_timecode};
use crate::view::ViewMode;
use vstd::prelude::*;
use vstd::string::*;

verus! {

/// The bar above the preview.
#[derive(Debug)]
pub struct TopBar {
    pub open_label: &'static str,
    /// Whether the other eye's file can be opened.
    pub right_eye: bool,
    /// Whether a 2D release can be opened, and what is said of it.
    pub secondary: bool,
    pub secondary_hint: &'static str,
    /// The label of the alignment button, where there is something to align.
    pub align: Option<&'static str>,
    /// Why there are no conversion tools.
    pub trouble: Option<String>,
    /// What the film is.
    pub film: Option<String>,
    /// What the 2D release is used for.
    pub second: Option<String>,
    /// What to do first.
    pub prompt: Option<&'static str>,
}

/// What is said of the film: what it is as well as how big it is, so the source
/// setting can be checked at a glance rather than remembered.
pub open spec fn film_text<S>(app: AnaApp<S>, s: Source, rate: Seq<char>) -> Seq<char> {
    shown_name(s.path@, app.windows) + "   \u{B7}   "@ + source_text(app.params) + "   \u{B7}   "@ + decimal_text(
        s.info.width as nat,
    ) + "\u{D7}"@ + decimal_text(s.info.height as nat) + " at "@ + rate + " fps"@
}

/// `text` is what is said of the film, with its rate as `show` writes it.
pub open spec fn films<S, W: Fn(F64) -> String>(
    show: W,
    app: AnaApp<S>,
    s: Source,
    text: Seq<char>,
) -> bool {
    exists|rate: String| #[trigger]
        call_ensures(show, (s.info.fps,), rate) && text == film_text(app, s, rate@)
}

/// The bar across the bottom.
#[derive(Debug)]
pub struct BottomBar {
    /// The last frame that can be scrubbed to.
    pub last: u64,
    /// Whether there is anything to scrub.
    pub scrub: bool,
    pub play_label: &'static str,
    /// The name of the encoding that is shown, where the view is an anaglyph.
    pub anaglyph_mode: Option<&'static str>,
    pub transport: Transport,
}

/// What the conversion row shows.
#[derive(Debug)]
pub enum Transport {
    /// A conversion is running: what is said of a stop that was asked for, how much
    /// is done of how much where that is known, and how it is going.
    Running {
        stopping: Option<&'static str>,
        share: Option<(u64, u64)>,
        status: String,
    },
    /// None is: whether one can be started, and where it would write.
    Idle { convert: bool, destination: Option<String> },
}

/// What a source's settings have beside its kind.
#[derive(Debug)]
pub enum SourceDetail {
    /// The name of the anaglyph encoding.
    ColourMode(&'static str),
    /// What is said of the other eye's file, and whether it is still to be chosen.
    RightEye { text: String, missing: bool },
    /// Whether each eye is squeezed.
    Squeezed(bool),
}

/// The settings of the source.
#[derive(Debug)]
pub struct SourceSection {
    pub kind: SourceKind,
    pub detail: SourceDetail,
    /// Whether there is anything to recover.
    pub recovery: bool,
}

/// The settings of the result.
#[derive(Debug)]
pub struct DestinationSection {
    /// The name of the anaglyph encoding that is written, where one is.
    pub colour_mode: Option<&'static str>,
    /// How the eye order reads, where there is one.
    pub eye_order: Option<&'static str>,
    /// The files that are written, where there are two.
    pub files: Option<String>,
}

/// What the encoding dialog offers.
#[derive(Debug)]
pub struct EncodingDialog {
    pub codec: &'static str,
    /// A quality, a fixed bitrate or a profile: they are ways of asking for the
    /// same thing, so no two are offered together.
    pub quality: bool,
    pub bitrate: bool,
    pub profile: bool,
    /// Whether an interval between keyframes is asked for.
    pub interval: bool,
}

/// One source's start and finish.
#[derive(Debug)]
pub struct TrimRow {
    /// The last frame of the source.
    pub last: u64,
    pub start: String,
    pub end: String,
    /// The label of the alignment button, where the source can be aligned.
    pub align: Option<&'static str>,
}

/// The two positions being compared.
#[derive(Debug)]
pub struct AlignmentPane {
    /// The last frame of the film.
    pub last: u64,
    /// The last frame of the other source, and what it is called.
    pub other_last: u64,
    pub other_label: &'static str,
    pub film_time: String,
    pub other_time: String,
    pub offset: String,
}

/// What is said of a source that is two files.
pub open spec fn right_eye_text(right_eye: Option<Source>, windows: bool) -> Seq<char> {
    match right_eye {
        Some(s) => "Right eye:  "@ + shown_name(s.path@, windows),
        None => "Choose the right-eye file with Open Right Eye\u{2026}"@,
    }
}

/// The files that two streams are written to, as they are named beforehand.
pub open spec fn separate_text(output: Option<Seq<char>>, windows: bool) -> Seq<char> {
    match output {
        Some(path) => outputs_text(
            outputs_of(path, OutputLayout::Separate, windows),
            windows,
        ),
        None => "\u{2026}-left and \u{2026}-right"@,
    }
}

/// The distance between two positions, with its sign.
pub open spec fn offset_text(from: nat, to: nat) -> Seq<char> {
    if to >= from {
        "offset +"@ + decimal_text((to - from) as nat) + " frames"@
    } else {
        "offset -"@ + decimal_text((from - to) as nat) + " frames"@
    }
}

/// The distance between two positions, with its sign.
pub fn write_offset(from: u64, to: u64) -> (text: String)
    ensures
        text@ == offset_text(from as nat, to as nat),
{
    if to >= from {
        "offset +".to_owned().concat(decimal(to - from).as_str()).concat(" frames")
    } else {
        "offset -".to_owned().concat(decimal(from - to).as_str()).concat(" frames")
    }
}

/// `text` is a frame's time in a film of a rate.
pub open spec fn timed<C: Fn(u64, F64) -> u64>(
    hundredths: C,
    frame: u64,
    fps: F64,
    text: Seq<char>,
) -> bool {
    if fps.positive() {
        exists|n: u64| #[trigger] call_ensures(hundredths, (frame, fps), n) && text == clock_text(n as nat)
    } else {
        text == "?"@
    }
}

/// `last` is the last frame of a source; the first where its length is not known.
pub open spec fn ends_at<C: Fn(F64, F64) -> u64>(frames: C, info: VideoInfo, last: u64) -> bool {
    exists|c: Option<u64>| #[trigger] estimates(frames, info, c) && last == (match c {
        Some(c) => if c > 0 {
            (c - 1) as u64
        } else {
            0
        },
        None => 0,
    })
}

/// The last frame of a source.
fn last_frame<C: Fn(F64, F64) -> u64>(info: &VideoInfo, frames: &C) -> (last: u64)
    requires
        forall|d: F64, fps: F64| #[trigger] call_requires(*frames, (d, fps)),
    ensures
        ends_at(*frames, *info, last),
{
    let c = info.estimated_frame_count(frames);
    assert(estimates(*frames, *info, c));
    match c {
        Some(c) => if c > 0 {
            c - 1
        } else {
            0
        },
        None => 0,
    }
}

/// Sets or clears the end of a range. It starts at the last frame of the source.
pub fn toggle_end(trim: &mut SourceTrim, has_end: bool, last: u64)
    ensures
        *final(trim) == (SourceTrim {
            end: if has_end {
                Some(last)
            } else {
                None
            },
            ..*old(trim)
        }),
{
    trim.end = if has_end {
        Some(last)
    } else {
        None
    };
}

/// What the encoding dialog offers for some settings: always exactly one way of
/// asking for a size or a quality.
pub fn encoding_dialog(settings: &EncodeSettings) -> (r: EncodingDialog)
    ensures
        r.codec@ == codec_text(settings.codec),
        r.profile == (settings.codec == VideoCodec::ProRes),
        r.bitrate == (settings.codec != VideoCodec::ProRes && settings.bitrate_kbps is Some),
        r.quality == (settings.codec != VideoCodec::ProRes && settings.bitrate_kbps is None),
        r.interval == (settings.keyframe_interval is Some),
        r.profile || r.bitrate || r.quality,
        !(r.profile && r.bitrate) && !(r.profile && r.quality) && !(r.bitrate && r.quality),
{
    let takes = settings.codec.takes_a_bitrate();
    EncodingDialog {
        codec: codec_name(settings.codec),
        profile: !takes,
        bitrate: takes && settings.bitrate_kbps.is_some(),
        quality: takes && settings.bitrate_kbps.is_none(),
        interval: settings.keyframe_interval.is_some(),
    }
}

/// What the About window states.
pub fn about_line() -> (text: String)
    ensures
        text@ == "Version "@ + VERSION@ + " Beta"@,
{
    "Version ".to_owned().concat(VERSION).concat(" Beta")
}

impl<S> AnaApp<S> {
    /// What the bar above the preview offers and says; `show` writes a rate.
    pub fn top_bar<W: Fn(F64) -> String>(&self, show: &W) -> (r: TopBar)
        requires
            forall|v: F64| #[trigger] call_requires(*show, (v,)),
        ensures
            r.open_label@ == (if self.params.input is TwoFiles {
                "Open Left Eye\u{2026}"@
            } else {
                "Open Source\u{2026}"@
            }),
            r.right_eye == (self.params.input is TwoFiles),
            r.secondary == !(self.params.input is TwoFiles),
            r.secondary_hint@ == (if self.params.input is TwoFiles {
                "Not used with two per-eye files \u{2014} both eyes are already complete."@
            } else {
                "A 2D release of the same film. It supplies colour, and if it is one of the eyes it can be used for that eye directly."@
            }),
            match r.align {
                None => self.secondary is None,
                Some(label) => self.secondary is Some && label@ == (if self.aligning is Some {
                    "Close alignment"@
                } else {
                    "Align sources\u{2026}"@
                }),
            },
            match r.trouble {
                None => self.tools is Ok,
                Some(message) => self.tools matches Err(e) && message@ == e@,
            },
            match self.anaglyph {
                Some(s) => {
                    &&& r.film matches Some(text) && films(*show, *self, s, text@)
                    &&& text_of(r.second) == (match self.secondary {
                        Some(second) => Some(
                            "2D:  "@ + shown_name(second.path@, self.windows) + "   \u{B7}   "@
                                + self.secondary_role.label_text(),
                        ),
                        None => None,
                    })
                    &&& r.prompt is None
                },
                None => {
                    &&& r.film is None && r.second is None
                    &&& match r.prompt {
                        Some(text) => self.tools is Ok && text@
                            == "Open a film, or drop one on the window."@,
                        None => self.tools is Err,
                    }
                },
            },
    {
        // Two per-eye files need no help from a 2D release: nothing is being
        // recovered, so there is no colour to supply and no eye to stand in for.
        let two_files = self.params.input.needs_second_file();
        let align = if self.secondary.is_some() {
            if self.aligning.is_some() {
                Some("Close alignment")
            } else {
                Some("Align sources\u{2026}")
            }
        } else {
            None
        };
        let trouble = match &self.tools {
            Ok(_) => None,
            Err(message) => Some(message.clone()),
        };
        let (film, second) = match &self.anaglyph {
            Some(s) => {
                let rate = show(s.info.fps);
                assert(call_ensures(*show, (s.info.fps,), rate));
                let text = display_name(s.path.as_str(), self.windows).concat("   \u{B7}   ").concat(
                    describe_source(&self.params).as_str(),
                ).concat("   \u{B7}   ").concat(decimal(s.info.width as u64).as_str()).concat(
                    "\u{D7}",
                ).concat(decimal(s.info.height as u64).as_str()).concat(" at ").concat(
                    rate.as_str(),
                ).concat(" fps");
                assert(films(*show, *self, *s, text@));
                let second = match &self.secondary {
                    Some(other) => Some(
                        "2D:  ".to_owned().concat(display_name(other.path.as_str(), self.windows).as_str()).concat(
                            "   \u{B7}   ",
                        ).concat(self.secondary_role.label()),
                    ),
                    None => None,
                };
                (Some(text), second)
            },
            None => (None, None),
        };
        let prompt = if self.anaglyph.is_none() && self.tools.is_ok() {
            Some("Open a film, or drop one on the window.")
        } else {
            None
        };
        TopBar {
            open_label: if two_files {
                "Open Left Eye\u{2026}"
            } else {
                "Open Source\u{2026}"
            },
            right_eye: two_files,
            secondary: !two_files,
            secondary_hint: if two_files {
                "Not used with two per-eye files \u{2014} both eyes are already complete."
            } else {
                "A 2D release of the same film. It supplies colour, and if it is one of the eyes it can be used for that eye directly."
            },
            align,
            trouble,
            film,
            second,
            prompt,
        }
    }

    /// What the bar across the bottom offers and says. `per`, `seconds` and `show`
    /// are the arithmetic of a running conversion's status.
    pub fn bottom_bar<
        C: Fn(F64, F64) -> u64,
        P: Fn(u64, F64) -> F64,
        T: Fn(F64) -> u64,
        W: Fn(F64) -> String,
    >(&self, elapsed: F64, frames: &C, per: &P, seconds: &T, show: &W) -> (r: BottomBar)
        requires
            forall|d: F64, fps: F64| #[trigger] call_requires(*frames, (d, fps)),
            forall|n: u64, t: F64| #[trigger] call_requires(*per, (n, t)),
            forall|t: F64| #[trigger] call_requires(*seconds, (t,)),
            forall|v: F64| #[trigger] call_requires(*show, (v,)),
        ensures
            r.last < u64::MAX && counts_frames(*frames, self.anaglyph, (r.last + 1) as u64),
            r.scrub == (self.anaglyph is Some),
            r.play_label@ == self.playback.label_text(),
            match r.anaglyph_mode {
                Some(name) => self.view == ViewMode::Anaglyph && name@
                    == self.preview_format.label_text(),
                None => self.view != ViewMode::Anaglyph,
            },
            match (self.running, r.transport) {
                (Some(run), Transport::Running { stopping, share, status }) => {
                    &&& match stopping {
                        Some(text) => run@.cancelling && text@
                            == "stopping after this frame\u{2026}"@,
                        None => !run@.cancelling,
                    }
                    &&& states(*per, *seconds, *show, run@, elapsed, share, status@)
                },
                (None, Transport::Idle { convert, destination }) => {
                    &&& convert == (self.anaglyph is Some)
                    &&& text_of(destination) == (match self.output {
                        Some(out) => Some(
                            "\u{2192} "@ + outputs_text(
                                outputs_of(out@, self.params.layout, self.windows),
                                self.windows,
                            ),
                        ),
                        None => None,
                    })
                },
                _ => false,
            },
    {
        let transport = match &self.running {
            Some(run) => {
                let stopping = if run.is_cancelling() {
                    Some("stopping after this frame\u{2026}")
                } else {
                    None
                };
                let (share, status) = run.status(elapsed, per, seconds, show);
                Transport::Running { stopping, share, status }
            },
            None => {
                let destination = match &self.output {
                    Some(out) => {
                        let paths = output_paths(out.as_str(), self.params.layout, self.windows);
                        Some(
                            "\u{2192} ".to_owned().concat(
                                describe_outputs(paths.as_slice(), self.windows).as_str(),
                            ),
                        )
                    },
                    None => None,
                };
                Transport::Idle { convert: self.anaglyph.is_some(), destination }
            },
        };
        BottomBar {
            last: self.frame_count(frames) - 1,
            scrub: self.anaglyph.is_some(),
            play_label: self.playback.label(),
            anaglyph_mode: if self.view == ViewMode::Anaglyph {
                Some(format_name(self.preview_format))
            } else {
                None
            },
            transport,
        }
    }

    /// What the source's settings are, and what stands beside its kind.
    pub fn source_section(&self) -> (r: SourceSection)
        ensures
            r.kind == SourceKind::kind(self.params.input),
            r.recovery == (self.params.input is Anaglyph),
            match self.params.input {
                InputMode::Anaglyph => r.detail matches SourceDetail::ColourMode(name) && name@
                    == self.params.input_format.label_text(),
                InputMode::TwoFiles => r.detail matches SourceDetail::RightEye { text, missing }
                    && text@ == right_eye_text(self.right_eye, self.windows) && missing == (self.right_eye is None),
                InputMode::Packed { anamorphic, .. } => r.detail == SourceDetail::Squeezed(
                    anamorphic,
                ),
            },
    {
        let detail = match self.params.input {
            InputMode::Anaglyph => SourceDetail::ColourMode(format_name(self.params.input_format)),
            InputMode::TwoFiles => match &self.right_eye {
                Some(s) => SourceDetail::RightEye {
                    text: "Right eye:  ".to_owned().concat(display_name(s.path.as_str(), self.windows).as_str()),
                    missing: false,
                },
                None => SourceDetail::RightEye {
                    text: "Choose the right-eye file with Open Right Eye\u{2026}".to_owned(),
                    missing: true,
                },
            },
            InputMode::Packed { packing: _, order: _, anamorphic } => SourceDetail::Squeezed(
                anamorphic,
            ),
        };
        SourceSection {
            kind: SourceKind::of(self.params.input),
            detail,
            recovery: self.params.input.is_anaglyph(),
        }
    }

    /// What the settings of the result are.
    pub fn destination_section(&self) -> (r: DestinationSection)
        ensures
            match r.colour_mode {
                Some(name) => self.params.layout == OutputLayout::Anaglyph && name@
                    == self.params.output_format.label_text(),
                None => self.params.layout != OutputLayout::Anaglyph,
            },
            match r.eye_order {
                Some(name) => {
                    &&& self.params.layout == OutputLayout::SideBySide || self.params.layout
                        == OutputLayout::TopBottom
                    &&& name@ == eye_order_text(
                        self.params.eye_order,
                        self.params.layout == OutputLayout::TopBottom,
                    )
                },
                None => self.params.layout != OutputLayout::SideBySide && self.params.layout
                    != OutputLayout::TopBottom,
            },
            match r.files {
                Some(text) => self.params.layout == OutputLayout::Separate && text@
                    == "Two files are written. -left and -right are added to the name you choose:\n"@
                    + separate_text(text_of(self.output), self.windows),
                None => self.params.layout != OutputLayout::Separate,
            },
    {
        let layout = self.params.layout;
        let colour_mode = if layout == OutputLayout::Anaglyph {
            Some(format_name(self.params.output_format))
        } else {
            None
        };
        // "Left first" means nothing when the eyes are stacked vertically.
        let stacked = layout == OutputLayout::TopBottom;
        let eye_order = if layout == OutputLayout::SideBySide || stacked {
            Some(eye_order_name(self.params.eye_order, stacked))
        } else {
            None
        };
        let files = if layout == OutputLayout::Separate {
            let names = match &self.output {
                Some(path) => {
                    let paths = output_paths(path.as_str(), OutputLayout::Separate, self.windows);
                    describe_outputs(paths.as_slice(), self.windows)
                },
                None => "\u{2026}-left and \u{2026}-right".to_owned(),
            };
            Some(
                "Two files are written. -left and -right are added to the name you choose:\n".to_owned().concat(
                    names.as_str(),
                ),
            )
        } else {
            None
        };
        DestinationSection { colour_mode, eye_order, files }
    }

    /// What the row of a source's start and finish shows. Nothing without the
    /// source. `hundredths` says how far into a film a frame is.
    pub fn trim_row<C: Fn(F64, F64) -> u64, H: Fn(u64, F64) -> u64>(
        &self,
        role: Role,
        frames: &C,
        hundredths: &H,
    ) -> (r: Option<TrimRow>)
        requires
            forall|d: F64, fps: F64| #[trigger] call_requires(*frames, (d, fps)),
            forall|n: u64, fps: F64| #[trigger] call_requires(*hundredths, (n, fps)),
        ensures
            match (self.in_role(role), r) {
                (None, None) => true,
                (Some(s), Some(row)) => {
                    &&& ends_at(*frames, s.info, row.last)
                    &&& timed(*hundredths, self.trim_in(role).start, s.info.fps, row.start@)
                    &&& match self.trim_in(role).end {
                        Some(end) => timed(*hundredths, end, s.info.fps, row.end@),
                        None => row.end@ == "to the end of the file"@,
                    }
                    &&& match row.align {
                        None => role == Role::Anaglyph,
                        Some(label) => role != Role::Anaglyph && label@ == (if self.aligning
                            == Some(role) {
                            "Aligning \u{2014} click to finish"@
                        } else {
                            "Align to anaglyph\u{2026}"@
                        }),
                    }
                },
                _ => false,
            },
    {
        let source = match self.source_for(role) {
            Some(s) => s,
            None => return None,
        };
        let trim = self.trim_for(role);
        let start = format_timecode(trim.start, source.info.fps, hundredths);
        let end = match trim.end {
            Some(end) => format_timecode(end, source.info.fps, hundredths),
            None => "to the end of the file".to_owned(),
        };
        // Aligning the anaglyph against itself would be meaningless.
        let align = if role.is_secondary() {
            let active = match self.aligning {
                Some(other) => other == role,
                None => false,
            };
            if active {
                Some("Aligning \u{2014} click to finish")
            } else {
                Some("Align to anaglyph\u{2026}")
            }
        } else {
            None
        };
        Some(TrimRow { last: last_frame(&source.info, frames), start, end, align })
    }

    /// What the alignment of a source shows: the two positions being compared. With
    /// the other source gone there is nothing to align, and the alignment closes.
    pub fn alignment_pane<C: Fn(F64, F64) -> u64, H: Fn(u64, F64) -> u64>(
        &mut self,
        role: Role,
        frames: &C,
        hundredths: &H,
    ) -> (r: Option<AlignmentPane>)
        requires
            forall|d: F64, fps: F64| #[trigger] call_requires(*frames, (d, fps)),
            forall|n: u64, fps: F64| #[trigger] call_requires(*hundredths, (n, fps)),
        ensures
            if old(self).tools is Err || old(self).anaglyph is None {
                r is None && *final(self) == *old(self)
            } else {
                match old(self).in_role(role) {
                    None => r is None && *final(self) == (AnaApp { aligning: None, ..*old(self) }),
                    Some(other) => {
                        let film = old(self).anaglyph->0;
                        &&& *final(self) == *old(self)
                        &&& r matches Some(pane) && {
                            &&& ends_at(*frames, film.info, pane.last)
                            &&& ends_at(*frames, other.info, pane.other_last)
                            &&& pane.other_label@ == role.label_text()
                            &&& timed(*hundredths, old(self).frame, film.info.fps, pane.film_time@)
                            &&& timed(
                                *hundredths,
                                old(self).align_frame,
                                other.info.fps,
                                pane.other_time@,
                            )
                            &&& pane.offset@ == offset_text(
                                old(self).frame as nat,
                                old(self).align_frame as nat,
                            )
                        }
                    },
                }
            },
    {
        if self.tools.is_err() {
            return None;
        }
        let pane = match (&self.anaglyph, self.source_for(role)) {
            (None, _) => return None,
            (Some(_), None) => None,
            (Some(film), Some(other)) => Some(
                AlignmentPane {
                    last: last_frame(&film.info, frames),
                    other_last: last_frame(&other.info, frames),
                    other_label: role.label(),
                    film_time: format_timecode(self.frame, film.info.fps, hundredths),
                    other_time: format_timecode(self.align_frame, other.info.fps, hundredths),
                    offset: write_offset(self.frame, self.align_frame),
                },
            ),
        };
        if pane.is_none() {
            self.aligning = None;
        }
        pane
    }

    /// What the settings of the 2D release say: its file and what it is for.
    pub fn secondary_section(&self) -> (r: Option<(String, &'static str)>)
        ensures
            match (self.secondary, r) {
                (None, None) => true,
                (Some(s), Some(shown)) => shown.0@ == shown_name(s.path@, self.windows) && shown.1@
                    == self.secondary_role.hint_text(),
                _ => false,
            },
    {
        match &self.secondary {
            None => None,
            Some(s) => Some((display_name(s.path.as_str(), self.windows), self.secondary_role.hint())),
        }
    }

    /// What the pane says while there is no picture to show.
    pub fn empty_state(&self) -> (r: &'static str)
        ensures
            r@ == (if self.tools is Err {
                "ffmpeg was not found \u{2014} install it, then restart."@
            } else {
                "Open an anaglyph film to begin."@
            }),
    {
        if self.tools.is_err() {
            "ffmpeg was not found \u{2014} install it, then restart."
        } else {
            "Open an anaglyph film to begin."
        }
    }
}

/// The distance between two positions is how far the second lies behind the first, with
/// the sign that says which way.
pub proof fn law_an_offset_has_its_sign(from: u64, to: u64, text: String, back: String)
    requires
        call_ensures(write_offset, (from, to), text),
        call_ensures(write_offset, (to, from), back),
    ensures
        to >= from ==> text@ == "offset +"@ + decimal_text((to - from) as nat) + " frames"@,
        to < from ==> text@ == "offset -"@ + decimal_text((from - to) as nat) + " frames"@,
        to > from ==> back@ == "offset -"@ + decimal_text((to - from) as nat) + " frames"@,
{
}

/// An end is set at the last frame or taken away; the start stays where it was.
pub proof fn law_an_end_starts_at_the_last_frame(trim: &mut SourceTrim, has_end: bool, last: u64)
    requires
        call_ensures(toggle_end, (trim, has_end, last), ()),
    ensures
        has_end ==> final(trim).end == Some(last),
        !has_end ==> final(trim).end is None,
        final(trim).start == old(trim).start,
{
}

/// The encoding dialog offers exactly one way of asking for a size or a quality: a profile
/// for ProRes, and otherwise a bitrate where one was asked for.
pub proof fn law_one_way_of_asking_is_offered(settings: &EncodeSettings, r: EncodingDialog)
    requires
        call_ensures(encoding_dialog, (settings,), r),
    ensures
        r.profile <==> settings.codec == VideoCodec::ProRes,
        settings.codec != VideoCodec::ProRes ==> (r.bitrate <==> settings.bitrate_kbps is Some),
        settings.codec != VideoCodec::ProRes ==> (r.quality <==> settings.bitrate_kbps is None),
        settings.codec == VideoCodec::ProRes ==> !r.bitrate && !r.quality,
        r.interval <==> settings.keyframe_interval is Some,
        r.codec@ == codec_text(settings.codec),
{
}

/// The About window says which version this is.
pub proof fn law_the_version_is_stated(text: String)
    requires
        call_ensures(about_line, (), text),
    ensures
        text@ == "Version "@ + "0.10.0"@ + " Beta"@,
{
}

/// The bar above the preview offers the second file for a film of two files and the 2D
/// release for every other; it offers an alignment only with a release to align.
pub proof fn law_the_top_bar_offers_what_can_be_opened<S, W: Fn(F64) -> String>(
    app: &AnaApp<S>,
    show: &W,
    r: TopBar,
)
    requires
        call_ensures(AnaApp::<S>::top_bar::<W>, (app, show), r),
    ensures
        r.right_eye <==> app.params.input is TwoFiles,
        r.secondary <==> !r.right_eye,
        app.params.input is TwoFiles ==> r.open_label@ == "Open Left Eye\u{2026}"@,
        !(app.params.input is TwoFiles) ==> r.open_label@ == "Open Source\u{2026}"@,
        app.params.input is TwoFiles ==> r.secondary_hint@
            == "Not used with two per-eye files \u{2014} both eyes are already complete."@,
        !(app.params.input is TwoFiles) ==> r.secondary_hint@
            == "A 2D release of the same film. It supplies colour, and if it is one of the eyes it can be used for that eye directly."@,
        r.align is Some <==> app.secondary is Some,
        r.align matches Some(label) ==> (app.aligning is Some ==> label@ == "Close alignment"@),
        r.align matches Some(label) ==> (app.aligning is None ==> label@ == "Align sources\u{2026}"@),
        r.trouble is Some <==> app.tools is Err,
        r.trouble matches Some(said) ==> (app.tools matches Err(e) ==> said@ == e@),
        r.prompt is Some <==> app.anaglyph is None && app.tools is Ok,
        r.prompt matches Some(said) ==> said@ == "Open a film, or drop one on the window."@,
{
}

/// The bar above the preview says of the film its name, what it is, its size with the
/// width first, and its rate; and of the 2D release its name and what it is used for.
pub proof fn law_the_top_bar_says_what_is_open<S, W: Fn(F64) -> String>(
    app: &AnaApp<S>,
    show: &W,
    r: TopBar,
)
    requires
        call_ensures(AnaApp::<S>::top_bar::<W>, (app, show), r),
    ensures
        r.film is Some <==> app.anaglyph is Some,
        app.anaglyph matches Some(s) ==> exists|rate: String| #[trigger]
            call_ensures(*show, (s.info.fps,), rate) && (r.film matches Some(text) && text@
                == shown_name(s.path@, app.windows) + "   \u{B7}   "@ + source_text(app.params)
                + "   \u{B7}   "@ + decimal_text(s.info.width as nat) + "\u{D7}"@ + decimal_text(
                s.info.height as nat,
            ) + " at "@ + rate@ + " fps"@),
        r.second is Some <==> app.anaglyph is Some && app.secondary is Some,
        r.second matches Some(text) ==> (app.secondary matches Some(other) ==> text@ == "2D:  "@
            + shown_name(other.path@, app.windows) + "   \u{B7}   "@ + (if app.secondary_role
            == crate::choices::SecondaryRole::ColourOnly {
            "Colour reference only"@
        } else if app.secondary_role == crate::choices::SecondaryRole::IsLeftEye {
            "This is the left eye"@
        } else {
            "This is the right eye"@
        })),
{
}

/// The bar across the bottom scrubs to the last frame of the film, and says Pause while it
/// plays; it shows a conversion while one runs, and otherwise where it would write.
pub proof fn law_the_bottom_bar_says_what_is_going_on<
    S,
    C: Fn(F64, F64) -> u64,
    P: Fn(u64, F64) -> F64,
    T: Fn(F64) -> u64,
    W: Fn(F64) -> String,
>(
    app: &AnaApp<S>,
    elapsed: F64,
    frames: &C,
    per: &P,
    seconds: &T,
    show: &W,
    r: BottomBar,
)
    requires
        call_ensures(
            AnaApp::<S>::bottom_bar::<C, P, T, W>,
            (app, elapsed, frames, per, seconds, show),
            r,
        ),
    ensures
        app.anaglyph is None ==> r.last == 0,
        app.anaglyph matches Some(s) ==> (s.info.frame_count matches Some(n) ==> (n > 0 ==> r.last
            == n - 1)),
        r.scrub <==> app.anaglyph is Some,
        app.playback.playing ==> r.play_label@ == "Pause"@,
        !app.playback.playing ==> r.play_label@ == "Play"@,
        r.anaglyph_mode is Some <==> app.view == ViewMode::Anaglyph,
        r.anaglyph_mode matches Some(name) ==> name@ == app.preview_format.label_text(),
        r.transport is Running <==> app.running is Some,
        app.running matches Some(run) ==> (r.transport matches Transport::Running {
            stopping,
            share,
            status,
        } && (stopping is Some <==> run@.cancelling) && (stopping matches Some(said) ==> said@
            == "stopping after this frame\u{2026}"@) && states(
            *per,
            *seconds,
            *show,
            run@,
            elapsed,
            share,
            status@,
        )),
        app.running is None ==> (r.transport matches Transport::Idle { convert, destination } && (convert
            <==> app.anaglyph is Some) && (destination is Some <==> app.output is Some) && (
        destination matches Some(said) ==> said@ == "\u{2192} "@ + outputs_text(
            outputs_of(app.output->0@, app.params.layout, app.windows),
            app.windows,
        ))),
{
}

/// The settings of the source are those of its kind: the encoding of an anaglyph, the
/// second file of two, and whether a packed frame is squeezed. Only an anaglyph has
/// anything to recover.
pub proof fn law_a_source_shows_its_own_settings<S>(app: &AnaApp<S>, r: SourceSection)
    requires
        call_ensures(AnaApp::<S>::source_section, (app,), r),
    ensures
        r.recovery <==> app.params.input is Anaglyph,
        app.params.input is Anaglyph <==> r.kind == SourceKind::Anaglyph,
        app.params.input is TwoFiles <==> r.kind == SourceKind::TwoFiles,
        app.params.input is Anaglyph ==> (r.detail matches SourceDetail::ColourMode(name) && name@
            == app.params.input_format.label_text()),
        app.params.input is TwoFiles ==> (r.detail matches SourceDetail::RightEye { text, missing }
            && (missing <==> app.right_eye is None)),
        app.params.input is TwoFiles && app.right_eye is None ==> (
        r.detail matches SourceDetail::RightEye { text, missing } && text@
            == "Choose the right-eye file with Open Right Eye\u{2026}"@),
        app.params.input is TwoFiles ==> (app.right_eye matches Some(s) ==> (
        r.detail matches SourceDetail::RightEye { text, missing } && text@ == "Right eye:  "@
            + shown_name(s.path@, app.windows))),
        app.params.input matches InputMode::Packed { packing, order, anamorphic } ==> (
        r.detail matches SourceDetail::Squeezed(squeezed) && (squeezed <==> anamorphic)),
        app.params.input matches InputMode::Packed { packing, order, anamorphic } ==> (r.kind
            == SourceKind::SideBySide <==> packing == crate::packed::StereoPacking::SideBySide),
        app.params.input matches InputMode::Packed { packing, order, anamorphic } ==> (r.kind
            == SourceKind::TopBottom <==> packing == crate::packed::StereoPacking::TopBottom),
{
}

/// The settings of the result are those of its layout: an encoding for an anaglyph, an
/// order for two eyes in one frame, the two files where there are two.
pub proof fn law_a_result_shows_its_own_settings<S>(app: &AnaApp<S>, r: DestinationSection)
    requires
        call_ensures(AnaApp::<S>::destination_section, (app,), r),
    ensures
        r.colour_mode is Some <==> app.params.layout == OutputLayout::Anaglyph,
        r.colour_mode matches Some(name) ==> name@ == app.params.output_format.label_text(),
        r.eye_order is Some <==> app.params.layout == OutputLayout::SideBySide || app.params.layout
            == OutputLayout::TopBottom,
        r.eye_order matches Some(name) ==> (app.params.layout == OutputLayout::SideBySide ==> name@
            == eye_order_text(app.params.eye_order, false)),
        r.eye_order matches Some(name) ==> (app.params.layout == OutputLayout::TopBottom ==> name@
            == eye_order_text(app.params.eye_order, true)),
        r.files is Some <==> app.params.layout == OutputLayout::Separate,
        r.files matches Some(text) ==> (app.output is None ==> text@
            == "Two files are written. -left and -right are added to the name you choose:\n"@
            + "\u{2026}-left and \u{2026}-right"@),
        r.files matches Some(text) ==> (app.output matches Some(path) ==> text@
            == "Two files are written. -left and -right are added to the name you choose:\n"@
            + outputs_text(outputs_of(path@, OutputLayout::Separate, app.windows), app.windows)),
{
}

/// The row of a source shows where its own range starts and ends, in its own time; every
/// source but the film can be aligned.
pub proof fn law_a_trim_row_is_of_its_source<
    S,
    C: Fn(F64, F64) -> u64,
    H: Fn(u64, F64) -> u64,
>(app: &AnaApp<S>, role: Role, frames: &C, hundredths: &H, source: Option<&Source>, trim: SourceTrim, r: Option<
    TrimRow,
>)
    requires
        call_ensures(AnaApp::<S>::trim_row::<C, H>, (app, role, frames, hundredths), r),
        call_ensures(AnaApp::<S>::source_for, (app, role), source),
        call_ensures(AnaApp::<S>::trim_for, (app, role), trim),
    ensures
        r is Some <==> source is Some,
        r matches Some(row) ==> (source matches Some(s) ==> (s.info.fps.positive() ==> exists|
            n: u64,
        | #[trigger]
            call_ensures(*hundredths, (trim.start, s.info.fps), n) && row.start@ == clock_text(
                n as nat,
            ))),
        r matches Some(row) ==> (source matches Some(s) ==> (!s.info.fps.positive() ==> row.start@
            == "?"@)),
        r matches Some(row) ==> (source matches Some(s) ==> (trim.end matches Some(end) ==> (
        s.info.fps.positive() ==> exists|n: u64| #[trigger]
            call_ensures(*hundredths, (end, s.info.fps), n) && row.end@ == clock_text(n as nat)))),
        r matches Some(row) ==> (trim.end is None ==> row.end@ == "to the end of the file"@),
        r matches Some(row) ==> (source matches Some(s) ==> (s.info.frame_count matches Some(n)
            ==> row.last == (if n > 0 {
            n - 1
        } else {
            0
        }))),
        r matches Some(row) ==> (row.align is Some <==> role != Role::Anaglyph),
        r matches Some(row) ==> (row.align matches Some(label) ==> (app.aligning == Some(role)
            ==> label@ == "Aligning \u{2014} click to finish"@)),
        r matches Some(row) ==> (row.align matches Some(label) ==> (app.aligning != Some(role)
            ==> label@ == "Align to anaglyph\u{2026}"@)),
{
}

/// The alignment compares the film's position with that in the other source, each in its
/// own time and up to its own last frame. With the other source gone it closes.
pub proof fn law_an_alignment_compares_two_positions<
    S,
    C: Fn(F64, F64) -> u64,
    H: Fn(u64, F64) -> u64,
>(
    app: &mut AnaApp<S>,
    role: Role,
    frames: &C,
    hundredths: &H,
    other: Option<&Source>,
    offset: String,
    r: Option<AlignmentPane>,
)
    requires
        call_ensures(AnaApp::<S>::alignment_pane::<C, H>, (app, role, frames, hundredths), r),
        call_ensures(AnaApp::<S>::source_for, (&*old(app), role), other),
        call_ensures(write_offset, (old(app).frame, old(app).align_frame), offset),
    ensures
        r is Some <==> old(app).tools is Ok && old(app).anaglyph is Some && other is Some,
        r is Some ==> *final(app) == *old(app),
        old(app).tools is Ok && old(app).anaglyph is Some && other is None ==> final(app).aligning is None
            && *final(app) == (AnaApp { aligning: None, ..*old(app) }),
        old(app).tools is Err || old(app).anaglyph is None ==> *final(app) == *old(app),
        r matches Some(pane) ==> pane.offset@ == offset@,
        r matches Some(pane) ==> (role == Role::Secondary ==> pane.other_label@ == "2D source"@),
        r matches Some(pane) ==> (role == Role::RightEye ==> pane.other_label@ == "Right eye file"@),
        r matches Some(pane) ==> (old(app).anaglyph matches Some(film) ==> (film.info.fps.positive()
            ==> exists|n: u64| #[trigger]
            call_ensures(*hundredths, (old(app).frame, film.info.fps), n) && pane.film_time@
                == clock_text(n as nat))),
        r matches Some(pane) ==> (other matches Some(s) ==> (s.info.fps.positive() ==> exists|n: u64|
            #[trigger]
            call_ensures(*hundredths, (old(app).align_frame, s.info.fps), n) && pane.other_time@
                == clock_text(n as nat))),
        r matches Some(pane) ==> (old(app).anaglyph matches Some(film) ==> (
        film.info.frame_count matches Some(n) ==> (n > 0 ==> pane.last == n - 1))),
        r matches Some(pane) ==> (other matches Some(s) ==> (s.info.frame_count matches Some(n) ==> (n
            > 0 ==> pane.other_last == n - 1))),
{
}

/// The settings of the 2D release say which file it is and what it is for; the pane says
/// why it is empty.
pub proof fn law_the_release_and_the_empty_pane_are_explained<S>(
    app: &AnaApp<S>,
    shown: Option<(String, &'static str)>,
    hint: &'static str,
    empty: &'static str,
)
    requires
        call_ensures(AnaApp::<S>::secondary_section, (app,), shown),
        call_ensures(crate::choices::SecondaryRole::hint, (app.secondary_role,), hint),
        call_ensures(AnaApp::<S>::empty_state, (app,), empty),
    ensures
        shown is Some <==> app.secondary is Some,
        shown matches Some(both) ==> (app.secondary matches Some(s) ==> both.0@ == shown_name(
            s.path@,
            app.windows,
        ) && both.1@ == hint@),
        app.tools is Err ==> empty@ == "ffmpeg was not found \u{2014} install it, then restart."@,
        app.tools is Ok ==> empty@ == "Open an anaglyph film to begin."@,
{
}

/// A path is shown by its file name, and by nothing where it has none.
pub proof fn law_a_path_is_shown_by_its_name(path: &str, windows: bool, name: Option<String>, r: String)
    requires
        call_ensures(crate::path::file_name, (path, windows), name),
        call_ensures(display_name, (path, windows), r),
    ensures
        name matches Some(n) ==> r@ == n@,
        name is None ==> r@.len() == 0,
{
}

} // verus!
