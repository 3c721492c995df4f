//! What the window holds, and what each thing done in it changes.
//!
//! Every control writes into the same [`ConvertParams`] the renderer uses, and
//! what the pane shows is the conversion itself, not an approximation of it.
//! Drawing and file dialogs are the program's; the state behind them is here.

use crate::choices::{
    default_output, default_output_for, is_video, looks_like_video, role_for_drop, DropTarget, Role,
    SecondaryRole, SourceKind,
};
use crate::cli::{frame_rate, working_rate};
use crate::compose::{conform_to, conformed, resizable, stretches};
use crate::encode::{text_of, EncodeSettings};
use crate::extract::{AnaglyphFormat, EyeProjection};
use crate::frame::{FrameF32, Image};
use crate::grade::Grade;
use crate::locate::{FfmpegTools, ToolSource};
use crate::media::MediaError;
use crate::params::{
    tells, whole_source, ConvertParams, MonoEye, Ratio, SourceTrim, MAX_DIMENSION,
};
use crate::path::{file_name, name_of};
use crate::pipeline::{
    measures_all, recovers_all, Eyes, RecoveryMath, Shown, Sources, StereoPair, StrengthMath,
};
use crate::preview::{
    downscale, downscaled, empty_cache, rescaled, scale_params_for_preview, Playback, PreviewCache,
    PreviewWork,
};
use crate::probe::VideoInfo;
use crate::progress::{Finished, RunningRender};
use crate::render::{holds_a_pair, pairs, presentable, process_step, workable, RenderJob};
use crate::restore::ColourRestore;
use crate::scalar::{float, F32, F64, ONE};
use crate::transfer::TransferFunction;
use crate::view::{compose_view, viewed, ViewMode};
use vstd::prelude::*;
use vstd::string::*;

verus! {

/// The release this is, as the About window states it.
pub const VERSION: &'static str = "0.10.0";

/// One source file and what is known about it.
#[derive(Debug)]
pub struct Source {
    pub path: String,
    pub info: VideoInfo,
}

/// The frames feeding one preview, already decoded.
pub struct Decoded<S> {
    pub anaglyph: Option<FrameF32<S>>,
    pub right_eye: Option<FrameF32<S>>,
    pub colour: Option<FrameF32<S>>,
    pub mono: Option<FrameF32<S>>,
}

/// What an optional frame holds.
pub open spec fn image_of<S>(frame: Option<FrameF32<S>>) -> Option<Image<S>> {
    match frame {
        Some(f) => Some(f@),
        None => None,
    }
}

/// An optional frame is of a size that can be worked with.
pub open spec fn usable<S>(frame: Option<FrameF32<S>>) -> bool {
    frame matches Some(f) ==> workable(f@)
}

impl<S> Decoded<S> {
    /// Every frame is of a size that can be worked with.
    pub open spec fn wf(self) -> bool {
        &&& usable(self.anaglyph)
        &&& usable(self.right_eye)
        &&& usable(self.colour)
        &&& usable(self.mono)
    }

    /// What the frames show, once the film itself is among them.
    pub open spec fn shown(self) -> Shown<S> {
        Shown {
            primary: self.anaglyph->0@,
            right_eye: image_of(self.right_eye),
            colour: image_of(self.colour),
            mono: image_of(self.mono),
        }
    }
}

/// Everything the window holds.
pub struct AnaApp<S> {
    /// Whether paths are those of Windows.
    pub windows: bool,
    /// The conversion tools, or why there are none.
    pub tools: Result<FfmpegTools, String>,
    pub anaglyph: Option<Source>,
    /// The 2D release, if there is one. One file serving both purposes, because
    /// a transfer that *is* an eye is also the best colour reference for the
    /// other one.
    pub secondary: Option<Source>,
    pub secondary_role: SecondaryRole,
    /// The right eye, when the source is two files rather than one.
    pub right_eye: Option<Source>,
    pub audio: Option<String>,
    pub output: Option<String>,
    pub params: ConvertParams,
    pub encode: EncodeSettings,
    pub frame: u64,
    /// Independent position in a secondary source, used only while aligning.
    pub align_frame: u64,
    pub aligning: Option<Role>,
    pub view: ViewMode,
    /// The encoding that the anaglyph view is shown in. What is looked at and what
    /// the file is are different questions, so this is not the source's.
    pub preview_format: AnaglyphFormat,
    /// The view that the picture on screen was made for. None of them where it has
    /// to be made anew.
    pub drawn: Option<ViewMode>,
    pub cache: PreviewCache,
    pub decoded: Decoded<S>,
    pub pair: Option<StereoPair<S>>,
    pub preview_scale: F32,
    pub playback: Playback,
    pub help_open: bool,
    pub running: Option<RunningRender>,
    pub outcome: Option<String>,
    pub problem: Option<String>,
}

/// A pair whose two views can be laid side by side.
pub open spec fn showable<S>(pair: StereoPair<S>) -> bool {
    &&& pair.wf()
    &&& pair.left@.channels == 3
    &&& pair.left@.width <= MAX_DIMENSION
    &&& pair.left@.height <= MAX_DIMENSION
}

/// `tools` is what looking for the tools came to.
pub open spec fn tools_are(
    located: Result<(FfmpegTools, ToolSource), MediaError>,
    tools: Result<FfmpegTools, String>,
) -> bool {
    match (located, tools) {
        (Ok(found), Ok(tools)) => tools == found.0,
        (Err(e), Err(message)) => message@ == e.text(),
        _ => false,
    }
}

/// `app` is a window nothing has been opened in.
pub open spec fn fresh<S>(app: AnaApp<S>) -> bool {
    &&& app.anaglyph is None
    &&& app.secondary is None
    &&& app.secondary_role == SecondaryRole::ColourOnly
    &&& app.right_eye is None
    &&& app.audio is None
    &&& app.output is None
    &&& app.params == crate::params::default_params()
    &&& app.encode == crate::encode::default_settings()
    &&& app.frame == 0
    &&& app.align_frame == 0
    &&& app.aligning is None
    &&& app.view == ViewMode::Left
    &&& app.preview_format == AnaglyphFormat::RedCyan
    &&& app.drawn is None
    &&& app.cache@ == empty_cache()
    &&& app.decoded == (Decoded::<S> { anaglyph: None, right_eye: None, colour: None, mono: None })
    &&& app.pair is None
    &&& app.preview_scale == float(ONE)
    &&& !app.playback.playing
    &&& !app.help_open
    &&& app.running is None
    &&& app.outcome is None
    &&& app.problem is None
}

/// The file name that is shown of a source; nothing where its path names no file.
pub open spec fn shown_name(path: Seq<char>, windows: bool) -> Seq<char> {
    match name_of(path, windows) {
        Some(name) => name,
        None => Seq::empty(),
    }
}

/// The file name to show of a path.
pub fn display_name(path: &str, windows: bool) -> (r: String)
    ensures
        r@ == shown_name(path@, windows),
{
    match file_name(path, windows) {
        Some(name) => name,
        None => String::new(),
    }
}

/// What is said of a file that cannot be used.
pub open spec fn trouble_with(path: Seq<char>, message: Seq<char>) -> Seq<char> {
    path + ": "@ + message
}

/// `post` is the window once a source file has been probed and opened: anything
/// derived from the one before is dropped, and for the film itself the position
/// goes back to the start, the output is put next to it, and the audio comes from
/// it where it has any.
pub open spec fn opened<S>(
    pre: AnaApp<S>,
    role: Role,
    path: Seq<char>,
    info: VideoInfo,
    post: AnaApp<S>,
) -> bool {
    &&& post.cache@ == empty_cache()
    &&& post.problem is None
    &&& match role {
        Role::Anaglyph => {
            &&& post == (AnaApp {
                anaglyph: post.anaglyph,
                audio: post.audio,
                output: post.output,
                frame: 0,
                cache: post.cache,
                problem: None,
                ..pre
            })
            &&& post.anaglyph matches Some(s) && s.path@ == path && s.info == info
            &&& text_of(post.audio) == (if info.has_audio {
                Some(path)
            } else {
                None
            })
            &&& text_of(post.output) == Some(default_output(path, pre.windows))
        },
        Role::Secondary => {
            &&& post == (AnaApp {
                secondary: post.secondary,
                cache: post.cache,
                problem: None,
                ..pre
            })
            &&& post.secondary matches Some(s) && s.path@ == path && s.info == info
        },
        Role::RightEye => {
            &&& post == (AnaApp {
                right_eye: post.right_eye,
                cache: post.cache,
                problem: None,
                ..pre
            })
            &&& post.right_eye matches Some(s) && s.path@ == path && s.info == info
        },
    }
}

/// `post` is the window once a file has been tried: opened, or with what is wrong
/// with it. Without tools nothing happens.
pub open spec fn opens<S, P: Fn(&FfmpegTools, &str) -> Result<VideoInfo, MediaError>>(
    probe: P,
    pre: AnaApp<S>,
    role: Role,
    path: Seq<char>,
    post: AnaApp<S>,
) -> bool {
    match pre.tools {
        Err(_) => post == pre,
        Ok(tools) => tries(probe, pre, tools, role, path, post),
    }
}

/// `post` is the window once a file has been probed.
pub open spec fn tries<S, P: Fn(&FfmpegTools, &str) -> Result<VideoInfo, MediaError>>(
    probe: P,
    pre: AnaApp<S>,
    tools: FfmpegTools,
    role: Role,
    path: Seq<char>,
    post: AnaApp<S>,
) -> bool {
    exists|name: &str, probed: Result<VideoInfo, MediaError>|
        name@ == path && #[trigger] call_ensures(probe, (&tools, name), probed) && match probed {
            Ok(info) => opened(pre, role, path, info, post),
            Err(e) => post == (AnaApp { problem: post.problem, ..pre }) && text_of(post.problem)
                == Some(trouble_with(path, e.text())),
        }
}

/// The place that a dropped file is given.
pub open spec fn drop_role<S>(app: AnaApp<S>) -> Role {
    if app.anaglyph is Some {
        Role::Secondary
    } else {
        Role::Anaglyph
    }
}

/// `post` is the window once one file has been dropped on it.
pub open spec fn takes_drop<S, P: Fn(&FfmpegTools, &str) -> Result<VideoInfo, MediaError>>(
    probe: P,
    pre: AnaApp<S>,
    path: Seq<char>,
    post: AnaApp<S>,
) -> bool {
    if is_video(path, pre.windows) {
        opens(probe, pre, drop_role(pre), path, post)
    } else {
        post == (AnaApp { problem: post.problem, ..pre }) && text_of(post.problem) == Some(
            shown_name(path, pre.windows) + " does not look like a video file"@,
        )
    }
}

/// `post` is the window once files have been dropped on it, one after the other.
pub open spec fn takes_drops<S, P: Fn(&FfmpegTools, &str) -> Result<VideoInfo, MediaError>>(
    probe: P,
    pre: AnaApp<S>,
    paths: Seq<String>,
    post: AnaApp<S>,
) -> bool
    decreases paths.len(),
{
    if paths.len() == 0 {
        post == pre
    } else {
        exists|mid: AnaApp<S>|
            takes_drops(probe, pre, paths.drop_last(), mid) && #[trigger] takes_drop(
                probe,
                mid,
                paths.last()@,
                post,
            )
    }
}

/// How many frames a source has, of which at least one.
pub open spec fn counts_frames<C: Fn(F64, F64) -> u64>(
    frames: C,
    source: Option<Source>,
    n: u64,
) -> bool {
    match source {
        None => n == 1,
        Some(s) => exists|c: Option<u64>| #[trigger] estimates(frames, s.info, c) && n == (match c {
            Some(c) => if c > 0 {
                c
            } else {
                1
            },
            None => 1,
        }),
    }
}

/// `c` is the number of frames that a film is taken to have.
pub open spec fn estimates<C: Fn(F64, F64) -> u64>(frames: C, info: VideoInfo, c: Option<u64>) -> bool {
    match (info.frame_count, info.duration_secs) {
        (Some(n), _) => c == Some(n),
        (None, Some(d)) => if info.fps.above_zero() && d.above_zero() {
            c matches Some(n) && call_ensures(frames, (d, info.fps), n)
        } else {
            c is None
        },
        (None, None) => c is None,
    }
}

/// The number of frames of a source, at least one.
fn count_frames<C: Fn(F64, F64) -> u64>(source: &Option<Source>, frames: &C) -> (n: u64)
    requires
        forall|d: F64, fps: F64| #[trigger] call_requires(*frames, (d, fps)),
    ensures
        counts_frames(*frames, *source, n),
        n >= 1,
{
    match source {
        None => 1,
        Some(s) => {
            let c = s.info.estimated_frame_count(frames);
            assert(estimates(*frames, s.info, c));
            match c {
                Some(c) => if c > 0 {
                    c
                } else {
                    1
                },
                None => 1,
            }
        },
    }
}

impl<S> AnaApp<S> {
    /// The decoded frames and the pair are of sizes that can be worked with.
    pub open spec fn wf(self) -> bool {
        &&& self.decoded.wf()
        &&& self.pair matches Some(pair) ==> showable(pair)
    }

    /// The settings a conversion runs with: the 2D source's place is folded in, and
    /// one file has one alignment.
    pub open spec fn effective(self) -> ConvertParams {
        ConvertParams {
            mono_eye: if self.secondary is Some {
                self.secondary_role.replaces()
            } else {
                MonoEye::Neither
            },
            mono_trim: self.params.colour_trim,
            ..self.params
        }
    }

    /// The source in a place.
    pub open spec fn in_role(self, role: Role) -> Option<Source> {
        match role {
            Role::Anaglyph => self.anaglyph,
            Role::Secondary => self.secondary,
            Role::RightEye => self.right_eye,
        }
    }

    /// The window with the range of a source in a place set. Two per-eye files come
    /// from one master and start together.
    pub open spec fn with_trim(self, role: Role, trim: SourceTrim) -> AnaApp<S> {
        match role {
            Role::Anaglyph | Role::RightEye => AnaApp {
                params: ConvertParams { anaglyph_trim: trim, ..self.params },
                ..self
            },
            Role::Secondary => AnaApp {
                params: ConvertParams { colour_trim: trim, ..self.params },
                ..self
            },
        }
    }

    /// The range of a source in a place.
    pub open spec fn trim_in(self, role: Role) -> SourceTrim {
        match role {
            Role::Anaglyph | Role::RightEye => self.params.anaglyph_trim,
            Role::Secondary => self.params.colour_trim,
        }
    }

    /// The window as it opens.
    pub fn new(located: Result<(FfmpegTools, ToolSource), MediaError>, windows: bool) -> (app: Self)
        ensures
            app.windows == windows,
            tools_are(located, app.tools),
            fresh(app),
            app.wf(),
    {
        let tools = match located {
            Ok((tools, _)) => Ok(tools),
            Err(e) => Err(e.message()),
        };
        AnaApp {
            windows,
            tools,
            anaglyph: None,
            secondary: None,
            secondary_role: SecondaryRole::default(),
            right_eye: None,
            audio: None,
            output: None,
            params: ConvertParams::default(),
            encode: EncodeSettings::default(),
            frame: 0,
            align_frame: 0,
            aligning: None,
            view: ViewMode::default(),
            preview_format: AnaglyphFormat::default(),
            drawn: None,
            cache: PreviewCache::new(),
            decoded: Decoded { anaglyph: None, right_eye: None, colour: None, mono: None },
            pair: None,
            preview_scale: F32 { bits: ONE },
            playback: Playback { playing: false },
            help_open: false,
            running: None,
            outcome: None,
            problem: None,
        }
    }

    /// How many frames the film has, at least one.
    pub fn frame_count<C: Fn(F64, F64) -> u64>(&self, frames: &C) -> (n: u64)
        requires
            forall|d: F64, fps: F64| #[trigger] call_requires(*frames, (d, fps)),
        ensures
            counts_frames(*frames, self.anaglyph, n),
            n >= 1,
    {
        count_frames(&self.anaglyph, frames)
    }

    /// The source in a place.
    pub fn source_for(&self, role: Role) -> (r: Option<&Source>)
        ensures
            match (r, self.in_role(role)) {
                (Some(a), Some(b)) => *a == b,
                (None, None) => true,
                _ => false,
            },
    {
        match role {
            Role::Anaglyph => self.anaglyph.as_ref(),
            Role::Secondary => self.secondary.as_ref(),
            Role::RightEye => self.right_eye.as_ref(),
        }
    }

    /// Sets the range of a source in a place.
    pub fn set_trim(&mut self, role: Role, trim: SourceTrim)
        ensures
            *final(self) == old(self).with_trim(role, trim),
    {
        match role {
            Role::Anaglyph | Role::RightEye => {
                self.params.anaglyph_trim = trim;
            },
            Role::Secondary => {
                self.params.colour_trim = trim;
            },
        }
    }

    /// The range of a source in a place.
    pub fn trim_for(&self, role: Role) -> (r: SourceTrim)
        ensures
            r == self.trim_in(role),
    {
        match role {
            Role::Anaglyph | Role::RightEye => self.params.anaglyph_trim,
            Role::Secondary => self.params.colour_trim,
        }
    }

    /// Opens a source file, probing it and clearing anything derived from the
    /// previous one.
    pub fn open<P: Fn(&FfmpegTools, &str) -> Result<VideoInfo, MediaError>>(
        &mut self,
        role: Role,
        path: &str,
        probe: &P,
    )
        requires
            forall|t: &FfmpegTools, p: &str| #[trigger] call_requires(*probe, (t, p)),
        ensures
            opens(*probe, *old(self), role, path@, *final(self)),
            old(self).wf() ==> final(self).wf(),
    {
        let probed = match &self.tools {
            Err(_) => return,
            Ok(tools) => probe(tools, path),
        };
        let ghost pre = *self;
        assert(call_ensures(*probe, (&pre.tools->Ok_0, path), probed));
        match probed {
            Ok(info) => {
                let ghost known = info;
                let has_audio = info.has_audio;
                let source = Some(Source { path: path.to_owned(), info });
                match role {
                    Role::Anaglyph => {
                        self.frame = 0;
                        // The output goes next to the input, and the audio comes
                        // from the film itself, which is nearly always right.
                        self.audio = if has_audio {
                            Some(path.to_owned())
                        } else {
                            None
                        };
                        self.output = Some(default_output_for(path, self.windows));
                        self.anaglyph = source;
                    },
                    Role::Secondary => {
                        self.secondary = source;
                    },
                    Role::RightEye => {
                        self.right_eye = source;
                    },
                }
                self.problem = None;
                self.cache.invalidate();
                assert(opened(pre, role, path@, known, *self));
            },
            Err(e) => {
                self.problem = Some(path.to_owned().concat(": ").concat(e.message().as_str()));
            },
        }
        assert(tries(*probe, pre, pre.tools->Ok_0, role, path@, *self));
    }

    /// Opens one file dropped on the window.
    fn take_dropped_file<P: Fn(&FfmpegTools, &str) -> Result<VideoInfo, MediaError>>(
        &mut self,
        path: &str,
        probe: &P,
    )
        requires
            forall|t: &FfmpegTools, p: &str| #[trigger] call_requires(*probe, (t, p)),
        ensures
            takes_drop(*probe, *old(self), path@, *final(self)),
            old(self).wf() ==> final(self).wf(),
    {
        if !looks_like_video(path, self.windows) {
            self.problem = Some(display_name(path, self.windows).concat(" does not look like a video file"));
            return;
        }
        let role = match role_for_drop(self.anaglyph.is_some()) {
            DropTarget::Source => Role::Anaglyph,
            DropTarget::Secondary => Role::Secondary,
        };
        self.open(role, path, probe);
    }

    /// Opens anything dropped on the window.
    pub fn take_dropped_files<P: Fn(&FfmpegTools, &str) -> Result<VideoInfo, MediaError>>(
        &mut self,
        paths: &[String],
        probe: &P,
    )
        requires
            forall|t: &FfmpegTools, p: &str| #[trigger] call_requires(*probe, (t, p)),
        ensures
            takes_drops(*probe, *old(self), paths@, *final(self)),
            old(self).wf() ==> final(self).wf(),
    {
        let ghost pre = *self;
        let mut i: usize = 0;
        while i < paths.len()
            invariant
                i <= paths@.len(),
                forall|t: &FfmpegTools, p: &str| #[trigger] call_requires(*probe, (t, p)),
                takes_drops(*probe, pre, paths@.take(i as int), *self),
                pre.wf() ==> self.wf(),
            decreases paths@.len() - i,
        {
            let ghost mid = *self;
            self.take_dropped_file(paths[i].as_str(), probe);
            i += 1;
            proof {
                let so_far = paths@.take(i as int);
                assert(so_far.drop_last() =~= paths@.take(i - 1));
                assert(takes_drop(*probe, mid, so_far.last()@, *self));
            }
        }
        assert(paths@.take(i as int) =~= paths@);
    }

    /// The settings a conversion actually runs with.
    ///
    /// The 2D source's role lives beside the settings rather than among them, so it
    /// has to be folded in, and it has to be folded in for the preview and the
    /// render through the same function, or the two quietly disagree about what
    /// they are showing.
    pub fn effective_params(&self) -> (r: ConvertParams)
        ensures
            r == self.effective(),
    {
        ConvertParams {
            mono_eye: if self.secondary.is_some() {
                self.secondary_role.mono_eye()
            } else {
                MonoEye::Neither
            },
            mono_trim: self.params.colour_trim,
            ..self.params
        }
    }

    /// The conversion settings for the preview: the real ones, with blur rescaled
    /// to the size actually being shown.
    pub fn preview_params<D: Fn(F32) -> F32, H: Fn(F32, F32) -> F32>(
        &self,
        factor: &D,
        ease: &H,
    ) -> (r: ConvertParams)
        requires
            forall|v: F32| #[trigger] call_requires(*factor, (v,)),
            forall|v: F32, s: F32| #[trigger] call_requires(*ease, (v, s)),
        ensures
            rescaled(*factor, *ease, self.effective(), self.preview_scale, r),
    {
        scale_params_for_preview(&self.effective_params(), self.preview_scale, factor, ease)
    }

    /// The shape the preview pane should draw the current view at: the film's own
    /// times what the settings and the view make of it. `square` is the shape to
    /// assume without a film, `shape` that of a picture and `widen` a shape times a
    /// ratio.
    pub fn preview_display_aspect<H: Fn(usize, F64, usize) -> F64, W: Fn(F64, Ratio) -> F64>(
        &self,
        square: F64,
        shape: &H,
        widen: &W,
    ) -> (r: F64)
        requires
            forall|w: usize, a: F64, h: usize| #[trigger] call_requires(*shape, (w, a, h)),
            forall|a: F64, by: Ratio| #[trigger] call_requires(*widen, (a, by)),
        ensures
            shapes_preview(*shape, *widen, square, *self, r),
    {
        match &self.anaglyph {
            None => square,
            Some(s) => {
                let own = s.info.display_aspect(square, shape);
                let eye = self.params.eye_display_aspect((s.info.width, s.info.height));
                let one = widen(own, eye);
                let factor = self.view.display_aspect();
                assert(call_ensures(*widen, (own, eye), one));
                let r = widen(one, factor);
                assert(call_ensures(*widen, (one, factor), r));
                r
            },
        }
    }

    /// Takes in the scale that the pane asks for; `differs` says whether two scales
    /// are far enough apart to matter.
    fn follow_scale<D: Fn(F32, F32) -> bool>(&mut self, scale: F32, differs: &D)
        requires
            forall|a: F32, b: F32| #[trigger] call_requires(*differs, (a, b)),
        ensures
            follows_scale(*differs, *old(self), scale, *final(self)),
            old(self).wf() ==> final(self).wf(),
    {
        let ghost pre = *self;
        let moved: bool = differs(scale, self.preview_scale);
        assert(call_ensures(*differs, (scale, pre.preview_scale), moved));
        if moved {
            self.preview_scale = scale;
            self.cache.invalidate();
        }
    }

    /// Reads the frames the preview needs at its current position.
    ///
    /// Secondary sources are read through their own alignment, so scrubbing the
    /// anaglyph pulls each of them to the matching moment, and they are brought to
    /// the anaglyph's geometry: they may be another resolution entirely. One decode
    /// of the 2D release serves both purposes: colour always, and the eye itself
    /// when the file is known to be one.
    fn decode_current<
        G: Fn(&Source, u64) -> Result<FrameF32<S>, MediaError>,
        N: Fn(usize, F32) -> usize,
        V: Fn(&FrameF32<S>, usize, usize) -> FrameF32<S>,
    >(&mut self, grab: &G, round: &N, stretch: &V) -> (r: Result<(), String>) where S: Copy
        requires
            grabs_all(grab),
            rounds_down(round),
            stretches(stretch),
            12 * MAX_DIMENSION * MAX_DIMENSION <= usize::MAX,
        ensures
            decodes(*grab, *round, *stretch, *old(self), *final(self), r),
            old(self).wf() ==> final(self).wf(),
    {
        let ghost pre = *self;
        let scale = self.preview_scale;
        let taken = match &self.anaglyph {
            None => return Err("no anaglyph loaded".to_owned()),
            Some(s) => take_shot(s, self.frame, scale, grab, round, stretch),
        };
        assert(shot(*grab, *round, *stretch, pre.anaglyph->0, pre.frame, scale, taken));
        let base = match taken {
            Ok(base) => base,
            Err(e) => return Err(e),
        };
        let (w, h) = (base.width(), base.height());
        let ghost first = base;
        self.decoded.anaglyph = Some(base);
        let at: u64 = self.params.aligned_frame(&self.params.colour_trim, self.frame);
        let taken = take_conformed(&self.secondary, at, scale, w, h, grab, round, stretch);
        assert(at == pre.params.aligned(pre.params.colour_trim, pre.frame as nat) as u64);
        assert(w == first@.width as usize && h == first@.height as usize);
        assert(shot_if_any(*grab, *round, *stretch, pre.secondary, at, scale, w, h, taken));
        let secondary = match taken {
            Ok(secondary) => secondary,
            Err(e) => {
                let r = Err(e);
                assert(decodes_secondary(*grab, *round, *stretch, pre, first, *self, r));
                return r;
            },
        };
        let ghost second = secondary;
        let taken = take_conformed(&self.right_eye, self.frame, scale, w, h, grab, round, stretch);
        assert(shot_if_any(*grab, *round, *stretch, pre.right_eye, pre.frame, scale, w, h, taken));
        let right_eye = match taken {
            Ok(right_eye) => right_eye,
            Err(e) => {
                let r = Err(e);
                assert(decodes_right(*grab, *round, *stretch, pre, first, second, *self, r));
                assert(decodes_secondary(*grab, *round, *stretch, pre, first, *self, r));
                return r;
            },
        };
        self.decoded.right_eye = right_eye;
        self.decoded.mono = if self.secondary_role.supplies_an_eye() {
            match &secondary {
                Some(f) => Some(f.clone()),
                None => None,
            }
        } else {
            None
        };
        self.decoded.colour = secondary;
        let r = Ok(());
        assert(decodes_right(*grab, *round, *stretch, pre, first, second, *self, r));
        assert(decodes_secondary(*grab, *round, *stretch, pre, first, *self, r));
        r
    }

    /// Takes the pair from the frames in hand. False where there is nothing to take
    /// one from.
    fn draw<
        T: Fn(TransferFunction, S) -> S + Sync + Send,
        U: Fn(TransferFunction, S) -> S + Sync + Send,
        P: Fn(EyeProjection, S, S, S) -> S + Sync + Send,
        C: Fn(F32, S, S) -> S,
        R: Fn(ColourRestore, EyeProjection, S, (S, S, S)) -> (S, S, S),
        G: Fn(Grade, (S, S, S)) -> (S, S, S),
        A: Fn(S, S, S) -> S + Sync + Send,
        Q: Fn(S, S) -> S + Sync + Send,
        L: Fn(S, S, S) -> S + Sync + Send,
        M: Fn(S, usize) -> S + Sync + Send,
        K: Fn(F32) -> Vec<S>,
        B: Fn(F32) -> [usize; 3],
        V: Fn(&FrameF32<S>, usize, usize) -> FrameF32<S>,
        I: Fn(F32) -> F32,
        D: Fn(F32) -> F32,
        O: Fn(F32) -> F32,
    >(
        &mut self,
        params: &ConvertParams,
        by: &StrengthMath<I, D, O>,
        math: &RecoveryMath<S, T, U, P, C, R, G, A, Q, L, M, K, B>,
        stretch: &V,
    ) -> (r: bool) where S: Copy + Send + Sync
        requires
            old(self).wf(),
            measures_all(by),
            recovers_all(math),
            stretches(stretch),
            12 * MAX_DIMENSION * MAX_DIMENSION <= usize::MAX,
        ensures
            draws(by, math, stretch, *old(self), *params, *final(self), r),
            final(self).wf(),
    {
        let ghost pre = *self;
        if !self.pairable(params) {
            return false;
        }
        let primary = match &self.decoded.anaglyph {
            Some(f) => f,
            None => return false,
        };
        let given = Sources {
            primary,
            right_eye: self.decoded.right_eye.as_ref(),
            colour: self.decoded.colour.as_ref(),
            mono: self.decoded.mono.as_ref(),
        };
        assert(given@ == pre.decoded.shown());
        let pair = process_step(given, params, by, math, stretch);
        proof {
            crate::scalar::lemma_percent_of_is_a_part(
                params.input.eye_dims(primary@.width, primary@.height).0,
                params.convergence,
            );
        }
        self.cache.record_process(self.frame, params);
        self.pair = Some(pair);
        self.drawn = None;
        true
    }

    /// Whether a pair can be taken from the frames in hand.
    fn pairable(&self, params: &ConvertParams) -> (r: bool) where S: Copy
        requires
            self.wf(),
        ensures
            r == pairs_up(self.decoded, *params),
    {
        match &self.decoded.anaglyph {
            None => false,
            Some(f) => holds_a_pair(f, self.decoded.right_eye.is_some(), params.input),
        }
    }

    /// Brings the preview up to date, decoding and converting only what changed.
    /// True where there is a new pair to draw.
    pub fn refresh_preview<
        E: Fn(F32, F32) -> bool,
        I: Fn(F32) -> F32,
        D: Fn(F32) -> F32,
        O: Fn(F32) -> F32,
        H: Fn(F32, F32) -> F32,
        Z: Fn(&Source, u64) -> Result<FrameF32<S>, MediaError>,
        N: Fn(usize, F32) -> usize,
        T: Fn(TransferFunction, S) -> S + Sync + Send,
        U: Fn(TransferFunction, S) -> S + Sync + Send,
        P: Fn(EyeProjection, S, S, S) -> S + Sync + Send,
        C: Fn(F32, S, S) -> S,
        R: Fn(ColourRestore, EyeProjection, S, (S, S, S)) -> (S, S, S),
        G: Fn(Grade, (S, S, S)) -> (S, S, S),
        A: Fn(S, S, S) -> S + Sync + Send,
        Q: Fn(S, S) -> S + Sync + Send,
        L: Fn(S, S, S) -> S + Sync + Send,
        M: Fn(S, usize) -> S + Sync + Send,
        K: Fn(F32) -> Vec<S>,
        B: Fn(F32) -> [usize; 3],
        V: Fn(&FrameF32<S>, usize, usize) -> FrameF32<S>,
    >(
        &mut self,
        scale: F32,
        by: &PreviewMath<E, I, D, O, H, Z, N>,
        math: &RecoveryMath<S, T, U, P, C, R, G, A, Q, L, M, K, B>,
        stretch: &V,
    ) -> (r: bool) where S: Copy + Send + Sync
        requires
            old(self).wf(),
            previews_all(by),
            recovers_all(math),
            stretches(stretch),
            12 * MAX_DIMENSION * MAX_DIMENSION <= usize::MAX,
        ensures
            refreshes(by, math, stretch, *old(self), scale, *final(self), r),
            final(self).wf(),
    {
        let ghost pre = *self;
        if self.tools.is_err() || self.anaglyph.is_none() {
            return false;
        }
        self.follow_scale(scale, &by.differs);
        let ghost scaled = *self;
        assert(follows_scale(by.differs, pre, scale, scaled));
        let params = self.preview_params(&by.strengths.factor, &by.ease);
        assert(rescaled(by.strengths.factor, by.ease, scaled.effective(), scaled.preview_scale, params));
        match self.cache.work_for(self.frame, &params) {
            PreviewWork::Nothing => {
                assert(works(by, math, stretch, scaled, params, *self, false));
                false
            },
            PreviewWork::DecodeAndProcess => {
                let d = self.decode_current(&by.grab, &by.round, stretch);
                let ghost read = *self;
                assert(decodes(by.grab, by.round, *stretch, scaled, read, d));
                match d {
                    Err(e) => {
                        self.problem = Some(e);
                        assert(reads_then_draws(by, math, stretch, scaled, params, *self, false));
                        assert(works(by, math, stretch, scaled, params, *self, false));
                        false
                    },
                    Ok(()) => {
                        self.cache.record_decode(self.frame);
                        let ghost kept = *self;
                        let r = self.draw(&params, &by.strengths, math, stretch);
                        assert(kept == (AnaApp { cache: kept.cache, ..read }));
                        assert(draws(&by.strengths, math, stretch, kept, params, *self, r));
                        assert(keeps_decode(read, kept));
                        assert(draws_after(by, math, stretch, read, params, *self, r));
                        assert(reads_then_draws(by, math, stretch, scaled, params, *self, r));
                        assert(works(by, math, stretch, scaled, params, *self, r));
                        r
                    },
                }
            },
            PreviewWork::Reprocess => {
                let r = self.draw(&params, &by.strengths, math, stretch);
                assert(works(by, math, stretch, scaled, params, *self, r));
                r
            },
        }
    }

    /// Whether the picture on screen has to be made anew: there is a pair, and the
    /// picture was not made from it for the current view.
    pub fn needs_picture(&self) -> (r: bool)
        ensures
            r == (self.pair is Some && self.drawn != Some(self.view)),
    {
        match (&self.pair, self.drawn) {
            (None, _) => false,
            (Some(_), None) => true,
            (Some(_), Some(drawn)) => drawn != self.view,
        }
    }

    /// Makes the picture for the current view; `differ` says how far apart two
    /// samples are. Nothing without a pair.
    pub fn picture<D: Fn(S, S) -> S>(&mut self, differ: &D) -> (r: Option<FrameF32<S>>) where S: Copy
        requires
            old(self).wf(),
            forall|a: S, b: S| #[trigger] call_requires(*differ, (a, b)),
            12 * MAX_DIMENSION * MAX_DIMENSION <= usize::MAX,
        ensures
            match old(self).pair {
                None => r is None && *final(self) == *old(self),
                Some(pair) => {
                    &&& r matches Some(out) && viewed(
                        *differ,
                        (Eyes { left: pair.left@, right: pair.right@ }),
                        old(self).view,
                        old(self).preview_format,
                        old(self).params.eye_order,
                        out@,
                    )
                    &&& *final(self) == (AnaApp { drawn: Some(old(self).view), ..*old(self) })
                },
            },
            final(self).wf(),
    {
        let out = match &self.pair {
            None => return None,
            Some(pair) => {
                proof {
                    let (w, h) = (pair.left@.width as int, pair.left@.height as int);
                    assert((2 * w) * h * 3 <= 12 * MAX_DIMENSION * MAX_DIMENSION)
                        by (nonlinear_arith)
                        requires
                            0 <= w <= MAX_DIMENSION,
                            0 <= h <= MAX_DIMENSION,
                            MAX_DIMENSION == 32768,
                    ;
                }
                compose_view(pair, self.view, self.preview_format, self.params.eye_order, differ)
            },
        };
        self.drawn = Some(self.view);
        Some(out)
    }

    /// Shows the pair in another way. The pair is unchanged; only its presentation
    /// is, so the picture is made anew and nothing is decoded or converted.
    pub fn set_view(&mut self, view: ViewMode)
        ensures
            *final(self) == (AnaApp { view, ..*old(self) }),
    {
        self.view = view;
    }

    /// Shows the anaglyph view in another encoding. The conversion is not touched.
    pub fn set_preview_format(&mut self, format: AnaglyphFormat)
        ensures
            *final(self) == (AnaApp {
                preview_format: format,
                drawn: if format == old(self).preview_format {
                    old(self).drawn
                } else {
                    None
                },
                ..*old(self)
            }),
    {
        if format != self.preview_format {
            self.preview_format = format;
            self.drawn = None;
        }
    }

    /// The job that the window describes, once there is a film and an output.
    pub fn job(&self) -> (r: Option<RenderJob>)
        ensures
            r is Some <==> self.anaglyph is Some && self.output is Some,
            r matches Some(job) ==> describes_job(*self, job),
    {
        let anaglyph = match &self.anaglyph {
            Some(s) => s,
            None => return None,
        };
        let output = match &self.output {
            Some(path) => path.clone(),
            None => return None,
        };
        let colour = match &self.secondary {
            Some(s) => Some(s.path.clone()),
            None => None,
        };
        // The same file, when it is known to be an eye rather than just a colour
        // reference.
        let mono = if self.secondary_role.supplies_an_eye() {
            colour.clone()
        } else {
            None
        };
        let right_eye = match &self.right_eye {
            Some(s) => Some(s.path.clone()),
            None => None,
        };
        let mut encode = self.encode.clone();
        encode.fps = frame_rate(anaglyph.info.fps);
        Some(
            RenderJob {
                anaglyph: anaglyph.path.clone(),
                right_eye,
                colour,
                mono,
                audio: self.audio.clone(),
                output,
                params: self.effective_params(),
                encode,
            },
        )
    }

    /// Starts a render: what to hand to the worker, or what stands against it.
    pub fn start_render<F: Fn(F32) -> String>(&mut self, show: &F) -> (r: Option<
        (FfmpegTools, RenderJob),
    >)
        requires
            forall|v: F32| #[trigger] call_requires(*show, (v,)),
        ensures
            starts_render(*show, *old(self), *final(self), r),
            old(self).wf() ==> final(self).wf(),
    {
        let ghost pre = *self;
        let tools = match &self.tools {
            Ok(tools) => Some(tools.clone()),
            Err(_) => None,
        };
        match (tools, self.job()) {
            (Some(tools), Some(job)) => {
                match job.params.validate() {
                    Err(e) => {
                        self.problem = Some(e.message(show));
                        None
                    },
                    Ok(()) => {
                        self.outcome = None;
                        self.problem = None;
                        self.running = Some(RunningRender::start());
                        Some((tools, job))
                    },
                }
            },
            _ => {
                self.problem = Some("choose an anaglyph file and an output first".to_owned());
                None
            },
        }
    }

    /// Takes in how a render ended. The preview is put back where it was: it is
    /// decoded anew, whatever was drawn while the panel changed its height.
    pub fn settle(&mut self, finished: Finished)
        ensures
            *final(self) == (AnaApp {
                outcome: final(self).outcome,
                problem: final(self).problem,
                running: None,
                cache: final(self).cache,
                ..*old(self)
            }),
            text_of(final(self).outcome) == Some(finished.outcome_text(old(self).windows)),
            final(self).problem == (match finished {
                Finished::Failed(message) => Some(message),
                Finished::Succeeded { .. } => old(self).problem,
            }),
            final(self).cache@ == empty_cache(),
            old(self).wf() ==> final(self).wf(),
    {
        self.outcome = Some(finished.outcome(self.windows));
        if let Finished::Failed(message) = finished {
            self.problem = Some(message);
        }
        self.running = None;
        self.cache.invalidate();
    }

    /// Opens or closes the alignment of a source. It opens at the frame the preview
    /// is at.
    pub fn toggle_align(&mut self, role: Role, active: bool)
        ensures
            *final(self) == (AnaApp {
                aligning: if active {
                    None
                } else {
                    Some(role)
                },
                align_frame: old(self).frame,
                cache: final(self).cache,
                ..*old(self)
            }),
            final(self).cache@ == empty_cache(),
            old(self).wf() ==> final(self).wf(),
    {
        self.aligning = if active {
            None
        } else {
            Some(role)
        };
        self.align_frame = self.frame;
        self.cache.invalidate();
    }

    /// The two frames being looked at are the same moment: the start of both.
    pub fn mark_start(&mut self, role: Role)
        ensures
            marks(
                *old(self),
                role,
                SourceTrim { start: old(self).frame, ..old(self).params.anaglyph_trim },
                SourceTrim { start: old(self).align_frame, ..old(self).trim_in(role) },
                *final(self),
            ),
            old(self).wf() ==> final(self).wf(),
    {
        let other = SourceTrim { start: self.align_frame, ..self.trim_for(role) };
        self.params.anaglyph_trim.start = self.frame;
        self.set_trim(role, other);
        self.cache.invalidate();
    }

    /// The two frames being looked at are the same moment: the end of both.
    pub fn mark_end(&mut self, role: Role)
        ensures
            marks(
                *old(self),
                role,
                SourceTrim { end: Some(old(self).frame), ..old(self).params.anaglyph_trim },
                SourceTrim { end: Some(old(self).align_frame), ..old(self).trim_in(role) },
                *final(self),
            ),
            old(self).wf() ==> final(self).wf(),
    {
        let other = SourceTrim { end: Some(self.align_frame), ..self.trim_for(role) };
        self.params.anaglyph_trim.end = Some(self.frame);
        self.set_trim(role, other);
        self.cache.invalidate();
    }

    /// Uses the whole of both files again.
    pub fn clear_range(&mut self, role: Role)
        ensures
            marks(*old(self), role, whole_source(), whole_source(), *final(self)),
            old(self).wf() ==> final(self).wf(),
    {
        self.params.anaglyph_trim = SourceTrim::whole();
        self.set_trim(role, SourceTrim::whole());
        self.cache.invalidate();
    }

    /// Sets what the source file holds. A change drops what was decoded from it.
    pub fn choose_source(&mut self, kind: SourceKind, anamorphic: bool)
        ensures
            *final(self) == (AnaApp {
                params: ConvertParams { input: kind.input(anamorphic), ..old(self).params },
                cache: final(self).cache,
                ..*old(self)
            }),
            final(self).cache@ == (if kind.input(anamorphic) == old(self).params.input {
                old(self).cache@
            } else {
                empty_cache()
            }),
            old(self).wf() ==> final(self).wf(),
    {
        let rebuilt = kind.to_input(anamorphic);
        if rebuilt != self.params.input {
            self.params.input = rebuilt;
            self.cache.invalidate();
        }
    }

    /// Sets what the 2D release is used for. A change drops what was decoded.
    pub fn choose_role(&mut self, role: SecondaryRole)
        ensures
            *final(self) == (AnaApp {
                secondary_role: role,
                cache: final(self).cache,
                ..*old(self)
            }),
            final(self).cache@ == (if role == old(self).secondary_role {
                old(self).cache@
            } else {
                empty_cache()
            }),
            old(self).wf() ==> final(self).wf(),
    {
        if role != self.secondary_role {
            self.secondary_role = role;
            self.cache.invalidate();
        }
    }

    /// Puts every setting of the conversion back.
    pub fn reset_settings(&mut self)
        ensures
            *final(self) == (AnaApp {
                params: crate::params::default_params(),
                cache: final(self).cache,
                ..*old(self)
            }),
            final(self).cache@ == empty_cache(),
            old(self).wf() ==> final(self).wf(),
    {
        self.params = ConvertParams::default();
        self.cache.invalidate();
    }

    /// Takes in a preset that was read from a file.
    pub fn preset_loaded(&mut self, path: &str, read: Result<ConvertParams, String>)
        ensures
            match read {
                Ok(params) => {
                    &&& *final(self) == (AnaApp {
                        params,
                        problem: None,
                        outcome: final(self).outcome,
                        ..*old(self)
                    })
                    &&& text_of(final(self).outcome) == Some("loaded "@ + path@)
                },
                Err(e) => {
                    &&& *final(self) == (AnaApp { problem: final(self).problem, ..*old(self) })
                    &&& text_of(final(self).problem) == Some(trouble_with(path@, e@))
                },
            },
    {
        match read {
            Ok(params) => {
                self.params = params;
                self.problem = None;
                self.outcome = Some("loaded ".to_owned().concat(path));
            },
            Err(e) => {
                self.problem = Some(path.to_owned().concat(": ").concat(e.as_str()));
            },
        }
    }

    /// Takes in how writing a preset went.
    pub fn preset_saved(&mut self, path: &str, written: Result<(), String>)
        ensures
            match written {
                Ok(_) => {
                    &&& *final(self) == (AnaApp { outcome: final(self).outcome, ..*old(self) })
                    &&& text_of(final(self).outcome) == Some("saved "@ + path@)
                },
                Err(e) => {
                    &&& *final(self) == (AnaApp { problem: final(self).problem, ..*old(self) })
                    &&& text_of(final(self).problem) == Some(trouble_with(path@, e@))
                },
            },
    {
        match written {
            Ok(()) => {
                self.outcome = Some("saved ".to_owned().concat(path));
            },
            Err(e) => {
                self.problem = Some(path.to_owned().concat(": ").concat(e.as_str()));
            },
        }
    }

    /// One repaint of a preview that may be playing; `due` says that a frame's time
    /// has passed since the last one. It plays to the last frame and rests there.
    pub fn play<C: Fn(F64, F64) -> u64>(&mut self, due: bool, frames: &C)
        requires
            forall|d: F64, fps: F64| #[trigger] call_requires(*frames, (d, fps)),
        ensures
            plays(*frames, *old(self), due, *final(self)),
            old(self).wf() ==> final(self).wf(),
    {
        let ghost pre = *self;
        let n: u64 = self.frame_count(frames);
        assert(counts_frames(*frames, pre.anaglyph, n));
        self.frame = self.playback.advance(self.frame, n - 1, due);
    }
}

/// `post` is the window after one repaint of a preview that may be playing.
pub open spec fn plays<S, C: Fn(F64, F64) -> u64>(
    frames: C,
    pre: AnaApp<S>,
    due: bool,
    post: AnaApp<S>,
) -> bool {
    exists|n: u64| #[trigger]
        counts_frames(frames, pre.anaglyph, n) && post == (AnaApp {
            frame: if pre.playback.playing && due && pre.frame < n - 1 {
                (pre.frame + 1) as u64
            } else {
                pre.frame
            },
            playback: Playback {
                playing: pre.playback.playing && (!due || pre.frame + 1 < n - 1),
            },
            ..pre
        })
}

/// `post` is the window once the ranges of the film and of another source have been
/// set. Two per-eye files share one range, and the other source's is the last word
/// on it.
pub open spec fn marks<S>(
    pre: AnaApp<S>,
    role: Role,
    main: SourceTrim,
    other: SourceTrim,
    post: AnaApp<S>,
) -> bool {
    let marked = pre.with_trim(Role::Anaglyph, main).with_trim(role, other);
    &&& post == (AnaApp { cache: post.cache, ..marked })
    &&& post.cache@ == empty_cache()
}

/// `job` is what the window describes.
pub open spec fn describes_job<S>(app: AnaApp<S>, job: RenderJob) -> bool {
    let colour = match app.secondary {
        Some(s) => Some(s.path@),
        None => None,
    };
    &&& app.anaglyph matches Some(s) && job.anaglyph@ == s.path@ && job.encode == (EncodeSettings {
        fps: working_rate(s.info.fps),
        ..app.encode
    })
    &&& text_of(job.right_eye) == (match app.right_eye {
        Some(s) => Some(s.path@),
        None => None,
    })
    &&& text_of(job.colour) == colour
    &&& text_of(job.mono) == (if app.secondary_role != SecondaryRole::ColourOnly {
        colour
    } else {
        None
    })
    &&& text_of(job.audio) == text_of(app.audio)
    &&& app.output matches Some(path) && job.output@ == path@
    &&& job.params == app.effective()
}

/// A 2D source is named in a job exactly when its settings say which eye it is, so
/// a job made by the window always passes that check.
pub proof fn law_the_window_never_disagrees_about_the_mono_eye<S>(app: AnaApp<S>, job: RenderJob)
    requires
        describes_job(app, job),
    ensures
        job.mono is Some <==> job.params.mono_eye != MonoEye::Neither,
{
}

/// The preview and the render are given the same settings, but for the blurs.
pub proof fn law_the_preview_shows_what_is_rendered<
    S,
    D: Fn(F32) -> F32,
    H: Fn(F32, F32) -> F32,
>(factor: D, ease: H, app: AnaApp<S>, job: RenderJob, preview: ConvertParams)
    requires
        describes_job(app, job),
        rescaled(factor, ease, app.effective(), app.preview_scale, preview),
    ensures
        preview == (ConvertParams {
            decimate_horiz: preview.decimate_horiz,
            decimate_vert: preview.decimate_vert,
            defringe_left: preview.defringe_left,
            defringe_right: preview.defringe_right,
            ..job.params
        }),
{
}

/// `r` is what starting a render comes to: tools, a film and an output are needed,
/// and valid settings.
pub open spec fn starts_render<S, F: Fn(F32) -> String>(
    show: F,
    pre: AnaApp<S>,
    post: AnaApp<S>,
    r: Option<(FfmpegTools, RenderJob)>,
) -> bool {
    if pre.tools is Err || pre.anaglyph is None || pre.output is None {
        &&& r is None
        &&& post == (AnaApp { problem: post.problem, ..pre })
        &&& text_of(post.problem) == Some("choose an anaglyph file and an output first"@)
    } else {
        match pre.effective().fault() {
            Some(fault) => {
                &&& r is None
                &&& post == (AnaApp { problem: post.problem, ..pre })
                &&& post.problem matches Some(text) && tells(show, fault, text@)
            },
            None => {
                &&& r matches Some(given) && given.0 == pre.tools->Ok_0 && describes_job(
                    pre,
                    given.1,
                )
                &&& post == (AnaApp {
                    outcome: None,
                    problem: None,
                    running: post.running,
                    ..pre
                })
                &&& post.running matches Some(run) && run@ == crate::progress::unheard()
            },
        }
    }
}

/// `r` is the shape the pane should draw the current view at.
pub open spec fn shapes_preview<S, H: Fn(usize, F64, usize) -> F64, W: Fn(F64, Ratio) -> F64>(
    shape: H,
    widen: W,
    square: F64,
    app: AnaApp<S>,
    r: F64,
) -> bool {
    match app.anaglyph {
        None => r == square,
        Some(s) => widens(shape, widen, square, app, s, r),
    }
}

/// `r` is the shape of a film, times that of an eye of it, times that of a view.
pub open spec fn widens<S, H: Fn(usize, F64, usize) -> F64, W: Fn(F64, Ratio) -> F64>(
    shape: H,
    widen: W,
    square: F64,
    app: AnaApp<S>,
    s: Source,
    r: F64,
) -> bool {
    exists|own: F64, eye: Ratio, one: F64, factor: Ratio|
        (if s.info.height == 0 {
            own == square
        } else {
            call_ensures(shape, (s.info.width, s.info.sample_aspect, s.info.height), own)
        }) && (eye.num as nat, eye.den as nat) == app.params.eye_scale(
            s.info.width as nat,
            s.info.height as nat,
        ) && #[trigger] call_ensures(widen, (own, eye), one) && factor == (Ratio {
            num: if app.view == ViewMode::SideBySide {
                2
            } else {
                1
            },
            den: 1,
        }) && #[trigger] call_ensures(widen, (one, factor), r)
}

/// `post` is the window once a scale has been asked for: one that differs enough
/// is taken over, and what was decoded at the old one is dropped.
pub open spec fn follows_scale<S, D: Fn(F32, F32) -> bool>(
    differs: D,
    pre: AnaApp<S>,
    scale: F32,
    post: AnaApp<S>,
) -> bool {
    exists|moved: bool| #[trigger]
        call_ensures(differs, (scale, pre.preview_scale), moved) && (if moved {
            post == (AnaApp { preview_scale: scale, cache: post.cache, ..pre }) && post.cache@
                == empty_cache()
        } else {
            post == pre
        })
}

/// Reading a frame may fail; a frame that is read is of a size that can be worked
/// with.
pub open spec fn grabs_all<S, G: Fn(&Source, u64) -> Result<FrameF32<S>, MediaError>>(grab: &G) -> bool {
    &&& forall|s: &Source, n: u64| #[trigger] call_requires(*grab, (s, n))
    &&& forall|s: &Source, n: u64, r: Result<FrameF32<S>, MediaError>| #[trigger]
        call_ensures(*grab, (s, n), r) ==> (r matches Ok(f) ==> workable(f@))
}

/// Rounding takes every number and never gives a greater one.
pub open spec fn rounds_down<N: Fn(usize, F32) -> usize>(round: &N) -> bool {
    &&& forall|n: usize, s: F32| #[trigger] call_requires(*round, (n, s))
    &&& forall|n: usize, s: F32, r: usize| #[trigger] call_ensures(*round, (n, s), r) ==> r <= n
}

/// `r` is a frame of a source at the preview's scale, or what is wrong with it.
pub open spec fn shot<
    S,
    G: Fn(&Source, u64) -> Result<FrameF32<S>, MediaError>,
    N: Fn(usize, F32) -> usize,
    V: Fn(&FrameF32<S>, usize, usize) -> FrameF32<S>,
>(
    grab: G,
    round: N,
    stretch: V,
    source: Source,
    index: u64,
    scale: F32,
    r: Result<FrameF32<S>, String>,
) -> bool {
    exists|got: Result<FrameF32<S>, MediaError>| #[trigger]
        call_ensures(grab, (&source, index), got) && match got {
            Ok(f) => r matches Ok(out) && downscaled(round, stretch, f@, scale, out@),
            Err(e) => r matches Err(m) && m@ == trouble_with(source.path@, e.text()),
        }
}

/// `r` is a frame of an optional source at the preview's scale, brought to a size.
pub open spec fn shot_if_any<
    S,
    G: Fn(&Source, u64) -> Result<FrameF32<S>, MediaError>,
    N: Fn(usize, F32) -> usize,
    V: Fn(&FrameF32<S>, usize, usize) -> FrameF32<S>,
>(
    grab: G,
    round: N,
    stretch: V,
    source: Option<Source>,
    index: u64,
    scale: F32,
    w: usize,
    h: usize,
    r: Result<Option<FrameF32<S>>, String>,
) -> bool {
    match source {
        None => r == Ok::<Option<FrameF32<S>>, String>(None),
        Some(s) => shot_brought(grab, round, stretch, s, index, scale, w, h, r),
    }
}

/// `r` is a frame of a source at the preview's scale, brought to a size.
pub open spec fn shot_brought<
    S,
    G: Fn(&Source, u64) -> Result<FrameF32<S>, MediaError>,
    N: Fn(usize, F32) -> usize,
    V: Fn(&FrameF32<S>, usize, usize) -> FrameF32<S>,
>(
    grab: G,
    round: N,
    stretch: V,
    source: Source,
    index: u64,
    scale: F32,
    w: usize,
    h: usize,
    r: Result<Option<FrameF32<S>>, String>,
) -> bool {
    exists|taken: Result<FrameF32<S>, String>| #[trigger]
        shot(grab, round, stretch, source, index, scale, taken) && match taken {
            Ok(f) => r matches Ok(Some(out)) && conformed(stretch, f@, w, h, out@),
            Err(e) => r == Err::<Option<FrameF32<S>>, String>(e),
        }
}

/// Takes a frame of a source at the preview's scale.
fn take_shot<
    S: Copy,
    G: Fn(&Source, u64) -> Result<FrameF32<S>, MediaError>,
    N: Fn(usize, F32) -> usize,
    V: Fn(&FrameF32<S>, usize, usize) -> FrameF32<S>,
>(source: &Source, index: u64, scale: F32, grab: &G, round: &N, stretch: &V) -> (r: Result<
    FrameF32<S>,
    String,
>)
    requires
        grabs_all(grab),
        rounds_down(round),
        stretches(stretch),
        12 * MAX_DIMENSION * MAX_DIMENSION <= usize::MAX,
    ensures
        shot(*grab, *round, *stretch, *source, index, scale, r),
        r matches Ok(f) ==> workable(f@),
{
    let got = grab(source, index);
    assert(call_ensures(*grab, (source, index), got));
    match got {
        Ok(f) => {
            proof {
                let (w, h) = (f@.width as int, f@.height as int);
                assert((w + 2) * (h + 2) * 3 <= 12 * MAX_DIMENSION * MAX_DIMENSION)
                    by (nonlinear_arith)
                    requires
                        0 <= w <= MAX_DIMENSION,
                        0 <= h <= MAX_DIMENSION,
                        MAX_DIMENSION == 32768,
                ;
            }
            let out = downscale(&f, scale, round, stretch);
            Ok(out)
        },
        Err(e) => Err(source.path.clone().concat(": ").concat(e.message().as_str())),
    }
}

/// Takes a frame of an optional source at the preview's scale, brought to a size.
fn take_conformed<
    S: Copy,
    G: Fn(&Source, u64) -> Result<FrameF32<S>, MediaError>,
    N: Fn(usize, F32) -> usize,
    V: Fn(&FrameF32<S>, usize, usize) -> FrameF32<S>,
>(
    source: &Option<Source>,
    index: u64,
    scale: F32,
    w: usize,
    h: usize,
    grab: &G,
    round: &N,
    stretch: &V,
) -> (r: Result<Option<FrameF32<S>>, String>)
    requires
        grabs_all(grab),
        rounds_down(round),
        stretches(stretch),
        0 < w <= MAX_DIMENSION,
        0 < h <= MAX_DIMENSION,
        12 * MAX_DIMENSION * MAX_DIMENSION <= usize::MAX,
    ensures
        shot_if_any(*grab, *round, *stretch, *source, index, scale, w, h, r),
        r matches Ok(f) ==> usable(f),
{
    match source {
        None => Ok(None),
        Some(s) => {
            let taken = take_shot(s, index, scale, grab, round, stretch);
            assert(shot(*grab, *round, *stretch, *s, index, scale, taken));
            let r = match taken {
                Ok(f) => {
                    proof {
                        let fh = f@.height as int;
                        assert(w * fh * 3 <= 12 * MAX_DIMENSION * MAX_DIMENSION) by (nonlinear_arith)
                            requires
                                0 <= w <= MAX_DIMENSION,
                                0 <= fh <= MAX_DIMENSION,
                                MAX_DIMENSION == 32768,
                        ;
                        assert(w * h * 3 <= 12 * MAX_DIMENSION * MAX_DIMENSION) by (nonlinear_arith)
                            requires
                                0 <= w <= MAX_DIMENSION,
                                0 <= h <= MAX_DIMENSION,
                                MAX_DIMENSION == 32768,
                        ;
                        assert(resizable(f@, w as int, h as int));
                    }
                    Ok(Some(conform_to(&f, w, h, stretch)))
                },
                Err(e) => Err(e),
            };
            assert(shot_brought(*grab, *round, *stretch, *s, index, scale, w, h, r));
            r
        },
    }
}

/// `post` is the window once the frames at its position have been read, and `r`
/// whether they could be: the film first, then the 2D release, then the right eye.
pub open spec fn decodes<
    S,
    G: Fn(&Source, u64) -> Result<FrameF32<S>, MediaError>,
    N: Fn(usize, F32) -> usize,
    V: Fn(&FrameF32<S>, usize, usize) -> FrameF32<S>,
>(grab: G, round: N, stretch: V, pre: AnaApp<S>, post: AnaApp<S>, r: Result<(), String>) -> bool {
    match pre.anaglyph {
        None => r matches Err(e) && e@ == "no anaglyph loaded"@ && post == pre,
        Some(s) => decodes_film(grab, round, stretch, pre, s, post, r),
    }
}

/// `post` is the window once the film has been read, and the rest after it.
pub open spec fn decodes_film<
    S,
    G: Fn(&Source, u64) -> Result<FrameF32<S>, MediaError>,
    N: Fn(usize, F32) -> usize,
    V: Fn(&FrameF32<S>, usize, usize) -> FrameF32<S>,
>(
    grab: G,
    round: N,
    stretch: V,
    pre: AnaApp<S>,
    film: Source,
    post: AnaApp<S>,
    r: Result<(), String>,
) -> bool {
    exists|taken: Result<FrameF32<S>, String>| #[trigger]
        shot(grab, round, stretch, film, pre.frame, pre.preview_scale, taken) && match taken {
            Err(e) => r == Err::<(), String>(e) && post == pre,
            Ok(base) => decodes_secondary(grab, round, stretch, pre, base, post, r),
        }
}

/// `post` is the window once the film is in hand and the 2D release has been read,
/// and the rest after it.
pub open spec fn decodes_secondary<
    S,
    G: Fn(&Source, u64) -> Result<FrameF32<S>, MediaError>,
    N: Fn(usize, F32) -> usize,
    V: Fn(&FrameF32<S>, usize, usize) -> FrameF32<S>,
>(
    grab: G,
    round: N,
    stretch: V,
    pre: AnaApp<S>,
    base: FrameF32<S>,
    post: AnaApp<S>,
    r: Result<(), String>,
) -> bool {
    let at = pre.params.aligned(pre.params.colour_trim, pre.frame as nat) as u64;
    let (w, h) = (base@.width as usize, base@.height as usize);
    exists|taken: Result<Option<FrameF32<S>>, String>| #[trigger]
        shot_if_any(grab, round, stretch, pre.secondary, at, pre.preview_scale, w, h, taken)
            && match taken {
            Err(e) => r == Err::<(), String>(e) && post == with_film(pre, base),
            Ok(second) => decodes_right(grab, round, stretch, pre, base, second, post, r),
        }
}

/// The window with only the film's own frame renewed.
pub open spec fn with_film<S>(pre: AnaApp<S>, base: FrameF32<S>) -> AnaApp<S> {
    AnaApp { decoded: Decoded { anaglyph: Some(base), ..pre.decoded }, ..pre }
}

/// `post` is the window once the right eye has been read too.
pub open spec fn decodes_right<
    S,
    G: Fn(&Source, u64) -> Result<FrameF32<S>, MediaError>,
    N: Fn(usize, F32) -> usize,
    V: Fn(&FrameF32<S>, usize, usize) -> FrameF32<S>,
>(
    grab: G,
    round: N,
    stretch: V,
    pre: AnaApp<S>,
    base: FrameF32<S>,
    second: Option<FrameF32<S>>,
    post: AnaApp<S>,
    r: Result<(), String>,
) -> bool {
    let (w, h) = (base@.width as usize, base@.height as usize);
    exists|taken: Result<Option<FrameF32<S>>, String>| #[trigger]
        shot_if_any(
            grab,
            round,
            stretch,
            pre.right_eye,
            pre.frame,
            pre.preview_scale,
            w,
            h,
            taken,
        ) && match taken {
            Err(e) => r == Err::<(), String>(e) && post == with_film(pre, base),
            Ok(right) => {
                &&& r is Ok
                &&& post == (AnaApp {
                    decoded: Decoded {
                        anaglyph: Some(base),
                        right_eye: right,
                        colour: second,
                        mono: post.decoded.mono,
                    },
                    ..pre
                })
                &&& image_of(post.decoded.mono) == (if pre.secondary_role
                    != SecondaryRole::ColourOnly {
                    image_of(second)
                } else {
                    None
                })
            },
        }
}

/// Whether a pair can be taken from decoded frames.
pub open spec fn pairs_up<S>(decoded: Decoded<S>, params: ConvertParams) -> bool {
    &&& decoded.anaglyph is Some
    &&& presentable(decoded.shown(), params)
}

/// The outside work of the preview.
pub struct PreviewMath<E, I, D, O, H, Z, N> {
    /// Whether two scales are far enough apart to matter.
    pub differs: E,
    /// The strengths of the corrections that settings ask for.
    pub strengths: StrengthMath<I, D, O>,
    /// A shrink factor brought nearer to 1 by a scale.
    pub ease: H,
    /// Reads a frame of a source.
    pub grab: Z,
    /// How many pixels are left of so many at a scale.
    pub round: N,
}

/// The outside work takes every argument.
pub open spec fn previews_all<
    S,
    E: Fn(F32, F32) -> bool,
    I: Fn(F32) -> F32,
    D: Fn(F32) -> F32,
    O: Fn(F32) -> F32,
    H: Fn(F32, F32) -> F32,
    Z: Fn(&Source, u64) -> Result<FrameF32<S>, MediaError>,
    N: Fn(usize, F32) -> usize,
>(by: &PreviewMath<E, I, D, O, H, Z, N>) -> bool {
    &&& forall|a: F32, b: F32| #[trigger] call_requires(by.differs, (a, b))
    &&& measures_all(&by.strengths)
    &&& forall|v: F32, s: F32| #[trigger] call_requires(by.ease, (v, s))
    &&& grabs_all(&by.grab)
    &&& rounds_down(&by.round)
}

/// `post` is the window once a pair has been taken from the frames in hand, and `r`
/// whether there was anything to take one from.
pub open spec fn draws<
    S,
    T: Fn(TransferFunction, S) -> S,
    U: Fn(TransferFunction, S) -> S,
    P: Fn(EyeProjection, S, S, S) -> S,
    C: Fn(F32, S, S) -> S,
    R: Fn(ColourRestore, EyeProjection, S, (S, S, S)) -> (S, S, S),
    G: Fn(Grade, (S, S, S)) -> (S, S, S),
    A: Fn(S, S, S) -> S,
    Q: Fn(S, S) -> S,
    L: Fn(S, S, S) -> S,
    M: Fn(S, usize) -> S,
    K: Fn(F32) -> Vec<S>,
    B: Fn(F32) -> [usize; 3],
    V: Fn(&FrameF32<S>, usize, usize) -> FrameF32<S>,
    I: Fn(F32) -> F32,
    D: Fn(F32) -> F32,
    O: Fn(F32) -> F32,
>(
    by: &StrengthMath<I, D, O>,
    math: &RecoveryMath<S, T, U, P, C, R, G, A, Q, L, M, K, B>,
    stretch: &V,
    pre: AnaApp<S>,
    params: ConvertParams,
    post: AnaApp<S>,
    r: bool,
) -> bool {
    if pairs_up(pre.decoded, params) {
        &&& r
        &&& post == (AnaApp { cache: post.cache, pair: post.pair, drawn: None, ..pre })
        &&& post.cache@ == pre.cache@.with_process(pre.frame, params)
        &&& post.pair matches Some(pair) && pairs(
            by,
            math,
            stretch,
            pre.decoded.shown(),
            params,
            (Eyes { left: pair.left@, right: pair.right@ }),
        )
    } else {
        !r && post == pre
    }
}

/// `post` is the window with the frame at its position known to be decoded.
pub open spec fn keeps_decode<S>(pre: AnaApp<S>, post: AnaApp<S>) -> bool {
    &&& post == (AnaApp { cache: post.cache, ..pre })
    &&& post.cache@ == pre.cache@.with_decode(pre.frame)
}

/// `post` is the window once frames just read have been kept and drawn from.
pub open spec fn draws_after<
    S,
    E: Fn(F32, F32) -> bool,
    I: Fn(F32) -> F32,
    D: Fn(F32) -> F32,
    O: Fn(F32) -> F32,
    H: Fn(F32, F32) -> F32,
    Z: Fn(&Source, u64) -> Result<FrameF32<S>, MediaError>,
    N: Fn(usize, F32) -> usize,
    T: Fn(TransferFunction, S) -> S,
    U: Fn(TransferFunction, S) -> S,
    P: Fn(EyeProjection, S, S, S) -> S,
    C: Fn(F32, S, S) -> S,
    R: Fn(ColourRestore, EyeProjection, S, (S, S, S)) -> (S, S, S),
    G: Fn(Grade, (S, S, S)) -> (S, S, S),
    A: Fn(S, S, S) -> S,
    Q: Fn(S, S) -> S,
    L: Fn(S, S, S) -> S,
    M: Fn(S, usize) -> S,
    K: Fn(F32) -> Vec<S>,
    B: Fn(F32) -> [usize; 3],
    V: Fn(&FrameF32<S>, usize, usize) -> FrameF32<S>,
>(
    by: &PreviewMath<E, I, D, O, H, Z, N>,
    math: &RecoveryMath<S, T, U, P, C, R, G, A, Q, L, M, K, B>,
    stretch: &V,
    pre: AnaApp<S>,
    params: ConvertParams,
    post: AnaApp<S>,
    r: bool,
) -> bool {
    exists|kept: AnaApp<S>|
        keeps_decode(pre, kept) && #[trigger] draws(
            &by.strengths,
            math,
            stretch,
            kept,
            params,
            post,
            r,
        )
}

/// `post` is the window once the frames at its position have been read and drawn
/// from, or with what is wrong with them.
pub open spec fn reads_then_draws<
    S,
    E: Fn(F32, F32) -> bool,
    I: Fn(F32) -> F32,
    D: Fn(F32) -> F32,
    O: Fn(F32) -> F32,
    H: Fn(F32, F32) -> F32,
    Z: Fn(&Source, u64) -> Result<FrameF32<S>, MediaError>,
    N: Fn(usize, F32) -> usize,
    T: Fn(TransferFunction, S) -> S,
    U: Fn(TransferFunction, S) -> S,
    P: Fn(EyeProjection, S, S, S) -> S,
    C: Fn(F32, S, S) -> S,
    R: Fn(ColourRestore, EyeProjection, S, (S, S, S)) -> (S, S, S),
    G: Fn(Grade, (S, S, S)) -> (S, S, S),
    A: Fn(S, S, S) -> S,
    Q: Fn(S, S) -> S,
    L: Fn(S, S, S) -> S,
    M: Fn(S, usize) -> S,
    K: Fn(F32) -> Vec<S>,
    B: Fn(F32) -> [usize; 3],
    V: Fn(&FrameF32<S>, usize, usize) -> FrameF32<S>,
>(
    by: &PreviewMath<E, I, D, O, H, Z, N>,
    math: &RecoveryMath<S, T, U, P, C, R, G, A, Q, L, M, K, B>,
    stretch: &V,
    pre: AnaApp<S>,
    params: ConvertParams,
    post: AnaApp<S>,
    r: bool,
) -> bool {
    exists|read: AnaApp<S>, d: Result<(), String>| #[trigger]
        decodes(by.grab, by.round, *stretch, pre, read, d) && match d {
            Err(e) => !r && post == (AnaApp { problem: Some(e), ..read }),
            Ok(_) => draws_after(by, math, stretch, read, params, post, r),
        }
}

/// `post` is the window once what the preview needs has been done, and nothing
/// else.
pub open spec fn works<
    S,
    E: Fn(F32, F32) -> bool,
    I: Fn(F32) -> F32,
    D: Fn(F32) -> F32,
    O: Fn(F32) -> F32,
    H: Fn(F32, F32) -> F32,
    Z: Fn(&Source, u64) -> Result<FrameF32<S>, MediaError>,
    N: Fn(usize, F32) -> usize,
    T: Fn(TransferFunction, S) -> S,
    U: Fn(TransferFunction, S) -> S,
    P: Fn(EyeProjection, S, S, S) -> S,
    C: Fn(F32, S, S) -> S,
    R: Fn(ColourRestore, EyeProjection, S, (S, S, S)) -> (S, S, S),
    G: Fn(Grade, (S, S, S)) -> (S, S, S),
    A: Fn(S, S, S) -> S,
    Q: Fn(S, S) -> S,
    L: Fn(S, S, S) -> S,
    M: Fn(S, usize) -> S,
    K: Fn(F32) -> Vec<S>,
    B: Fn(F32) -> [usize; 3],
    V: Fn(&FrameF32<S>, usize, usize) -> FrameF32<S>,
>(
    by: &PreviewMath<E, I, D, O, H, Z, N>,
    math: &RecoveryMath<S, T, U, P, C, R, G, A, Q, L, M, K, B>,
    stretch: &V,
    pre: AnaApp<S>,
    params: ConvertParams,
    post: AnaApp<S>,
    r: bool,
) -> bool {
    match pre.cache@.work(pre.frame, params) {
        PreviewWork::Nothing => !r && post == pre,
        PreviewWork::Reprocess => draws(&by.strengths, math, stretch, pre, params, post, r),
        PreviewWork::DecodeAndProcess => reads_then_draws(by, math, stretch, pre, params, post, r),
    }
}

/// `post` is the window once its preview is up to date, and `r` whether there is a
/// new pair to draw.
pub open spec fn refreshes<
    S,
    E: Fn(F32, F32) -> bool,
    I: Fn(F32) -> F32,
    D: Fn(F32) -> F32,
    O: Fn(F32) -> F32,
    H: Fn(F32, F32) -> F32,
    Z: Fn(&Source, u64) -> Result<FrameF32<S>, MediaError>,
    N: Fn(usize, F32) -> usize,
    T: Fn(TransferFunction, S) -> S,
    U: Fn(TransferFunction, S) -> S,
    P: Fn(EyeProjection, S, S, S) -> S,
    C: Fn(F32, S, S) -> S,
    R: Fn(ColourRestore, EyeProjection, S, (S, S, S)) -> (S, S, S),
    G: Fn(Grade, (S, S, S)) -> (S, S, S),
    A: Fn(S, S, S) -> S,
    Q: Fn(S, S) -> S,
    L: Fn(S, S, S) -> S,
    M: Fn(S, usize) -> S,
    K: Fn(F32) -> Vec<S>,
    B: Fn(F32) -> [usize; 3],
    V: Fn(&FrameF32<S>, usize, usize) -> FrameF32<S>,
>(
    by: &PreviewMath<E, I, D, O, H, Z, N>,
    math: &RecoveryMath<S, T, U, P, C, R, G, A, Q, L, M, K, B>,
    stretch: &V,
    pre: AnaApp<S>,
    scale: F32,
    post: AnaApp<S>,
    r: bool,
) -> bool {
    if pre.tools is Err || pre.anaglyph is None {
        !r && post == pre
    } else {
        exists|scaled: AnaApp<S>, params: ConvertParams|
            follows_scale(by.differs, pre, scale, scaled) && rescaled(
                by.strengths.factor,
                by.ease,
                scaled.effective(),
                scaled.preview_scale,
                params,
            ) && #[trigger] works(by, math, stretch, scaled, params, post, r)
    }
}

/// A window opens with nothing in it, with the tools that were found or with why there
/// are none, and shows the left eye at full size, with nothing playing or running.
pub proof fn law_a_window_opens_empty<S>(
    located: Result<(FfmpegTools, ToolSource), MediaError>,
    windows: bool,
    app: AnaApp<S>,
)
    requires
        call_ensures(AnaApp::<S>::new, (located, windows), app),
    ensures
        app.windows == windows,
        located matches Ok(found) ==> app.tools == Ok::<FfmpegTools, String>(found.0),
        located matches Err(e) ==> (app.tools matches Err(said) && said@ == e.text()),
        app.anaglyph is None && app.secondary is None && app.right_eye is None,
        app.audio is None && app.output is None,
        app.secondary_role == SecondaryRole::ColourOnly,
        app.params == crate::params::default_params(),
        app.encode == crate::encode::default_settings(),
        app.frame == 0 && app.align_frame == 0 && app.aligning is None,
        app.view == ViewMode::Left && app.preview_format == AnaglyphFormat::RedCyan,
        app.drawn is None && app.pair is None,
        app.decoded.anaglyph is None && app.decoded.right_eye is None,
        app.decoded.colour is None && app.decoded.mono is None,
        app.cache@.decoded is None && app.cache@.processed is None,
        app.preview_scale.bits == 0x3F80_0000,
        !app.playback.playing && !app.help_open,
        app.running is None && app.outcome is None && app.problem is None,
{
}

/// A file that can be opened becomes what it was opened as, and nothing else does; what
/// was known of the frames before it is forgotten. The film itself goes back to its start,
/// brings its audio where it has any, and says where the result goes.
pub proof fn law_a_file_is_opened_in_its_place<
    S,
    P: Fn(&FfmpegTools, &str) -> Result<VideoInfo, MediaError>,
>(app: &mut AnaApp<S>, role: Role, path: &str, probe: &P)
    requires
        call_ensures(AnaApp::<S>::open::<P>, (app, role, path, probe), ()),
        old(app).tools is Ok,
        final(app).problem is None,
    ensures
        exists|name: &str, info: VideoInfo|
            name@ == path@ && #[trigger] call_ensures(
                *probe,
                (&old(app).tools->Ok_0, name),
                Ok::<VideoInfo, MediaError>(info),
            ) && (role == Role::Anaglyph ==> (final(app).anaglyph matches Some(s) && s.info == info
                && text_of(final(app).audio) == (if info.has_audio {
                Some(path@)
            } else {
                None
            }))) && (role == Role::Secondary ==> (final(app).secondary matches Some(s) && s.info == info))
                && (role == Role::RightEye ==> (final(app).right_eye matches Some(s) && s.info
                == info)),
        role == Role::Anaglyph ==> (final(app).anaglyph matches Some(s) && s.path@ == path@),
        role == Role::Secondary ==> (final(app).secondary matches Some(s) && s.path@ == path@),
        role == Role::RightEye ==> (final(app).right_eye matches Some(s) && s.path@ == path@),
        role == Role::Anaglyph ==> final(app).frame == 0 && text_of(final(app).output) == Some(
            default_output(path@, old(app).windows),
        ),
        role != Role::Anaglyph ==> final(app).anaglyph == old(app).anaglyph && final(app).frame
            == old(app).frame && final(app).output == old(app).output && final(app).audio == old(app).audio,
        role != Role::Secondary ==> final(app).secondary == old(app).secondary,
        role != Role::RightEye ==> final(app).right_eye == old(app).right_eye,
        final(app).params == old(app).params && final(app).encode == old(app).encode,
        final(app).secondary_role == old(app).secondary_role && final(app).tools == old(app).tools,
        final(app).cache@.decoded is None && final(app).cache@.processed is None,
{
    let (name, probed) = choose|name: &str, probed: Result<VideoInfo, MediaError>|
        name@ == path@ && #[trigger] call_ensures(*probe, (&old(app).tools->Ok_0, name), probed)
            && match probed {
            Ok(info) => opened(*old(app), role, path@, info, *final(app)),
            Err(e) => *final(app) == (AnaApp { problem: final(app).problem, ..*old(app) }) && text_of(
                final(app).problem,
            ) == Some(trouble_with(path@, e.text())),
        };
    assert(probed is Ok);
    assert(call_ensures(
        *probe,
        (&old(app).tools->Ok_0, name),
        Ok::<VideoInfo, MediaError>(probed->Ok_0),
    ));
}

/// A file that cannot be opened changes nothing but what the window says: the path and
/// what is wrong with it. Without tools nothing changes at all.
pub proof fn law_a_bad_file_is_told_and_left_out<
    S,
    P: Fn(&FfmpegTools, &str) -> Result<VideoInfo, MediaError>,
>(app: &mut AnaApp<S>, role: Role, path: &str, probe: &P)
    requires
        call_ensures(AnaApp::<S>::open::<P>, (app, role, path, probe), ()),
        old(app).tools is Err || final(app).problem is Some,
    ensures
        old(app).tools is Err ==> *final(app) == *old(app),
        final(app).anaglyph == old(app).anaglyph && final(app).secondary == old(app).secondary
            && final(app).right_eye == old(app).right_eye,
        final(app).frame == old(app).frame && final(app).output == old(app).output && final(app).audio
            == old(app).audio && final(app).params == old(app).params,
        old(app).tools is Ok ==> exists|name: &str, e: MediaError|
            name@ == path@ && #[trigger] call_ensures(
                *probe,
                (&old(app).tools->Ok_0, name),
                Err::<VideoInfo, MediaError>(e),
            ) && (final(app).problem matches Some(said) && said@ == path@ + ": "@ + e.text()),
{
    if old(app).tools is Ok {
        let (name, probed) = choose|name: &str, probed: Result<VideoInfo, MediaError>|
            name@ == path@ && #[trigger] call_ensures(*probe, (&old(app).tools->Ok_0, name), probed)
                && match probed {
                Ok(info) => opened(*old(app), role, path@, info, *final(app)),
                Err(e) => *final(app) == (AnaApp { problem: final(app).problem, ..*old(app) })
                    && text_of(final(app).problem) == Some(trouble_with(path@, e.text())),
            };
        assert(probed is Err);
        assert(call_ensures(
            *probe,
            (&old(app).tools->Ok_0, name),
            Err::<VideoInfo, MediaError>(probed->Err_0),
        ));
    }
}

/// A file dropped on the window is the film where there is none yet, and the 2D release
/// after that. One that is no video is named as such and opened nowhere.
pub proof fn law_a_dropped_file_finds_its_place<
    S,
    P: Fn(&FfmpegTools, &str) -> Result<VideoInfo, MediaError>,
>(app: &mut AnaApp<S>, paths: &[String], probe: &P)
    requires
        call_ensures(AnaApp::<S>::take_dropped_files::<P>, (app, paths, probe), ()),
        paths@.len() == 1,
    ensures
        is_video(paths@[0]@, old(app).windows) && old(app).anaglyph is None ==> opens(
            *probe,
            *old(app),
            Role::Anaglyph,
            paths@[0]@,
            *final(app),
        ),
        is_video(paths@[0]@, old(app).windows) && old(app).anaglyph is Some ==> opens(
            *probe,
            *old(app),
            Role::Secondary,
            paths@[0]@,
            *final(app),
        ),
        !is_video(paths@[0]@, old(app).windows) ==> *final(app) == (AnaApp {
            problem: final(app).problem,
            ..*old(app)
        }),
        !is_video(paths@[0]@, old(app).windows) ==> (name_of(paths@[0]@, old(app).windows) matches Some(
            name,
        ) ==> text_of(final(app).problem) == Some(name + " does not look like a video file"@)),
{
    let rest = paths@.drop_last();
    let mid = choose|mid: AnaApp<S>|
        takes_drops(*probe, *old(app), rest, mid) && #[trigger] takes_drop(
            *probe,
            mid,
            paths@.last()@,
            *final(app),
        );
    assert(rest.len() == 0);
    assert(mid == *old(app));
}

/// Several files dropped at once are taken one after the other: the last after all
/// before it.
pub proof fn law_dropped_files_are_taken_in_turn<
    S,
    P: Fn(&FfmpegTools, &str) -> Result<VideoInfo, MediaError>,
>(app: &mut AnaApp<S>, paths: &[String], probe: &P)
    requires
        call_ensures(AnaApp::<S>::take_dropped_files::<P>, (app, paths, probe), ()),
    ensures
        paths@.len() == 0 ==> *final(app) == *old(app),
        paths@.len() > 0 ==> exists|mid: AnaApp<S>|
            takes_drops(*probe, *old(app), paths@.take(paths@.len() - 1), mid) && #[trigger]
            takes_drop(*probe, mid, paths@[paths@.len() - 1]@, *final(app)),
{
    if paths@.len() > 0 {
        assert(paths@.drop_last() =~= paths@.take(paths@.len() - 1));
    }
}

/// The conversion runs with the settings that are shown; the 2D release replaces the eye
/// it is said to be, where there is one, and starts where it does as a colour source.
pub proof fn law_the_settings_are_those_shown<S>(app: &AnaApp<S>, r: ConvertParams)
    requires
        call_ensures(AnaApp::<S>::effective_params, (app,), r),
    ensures
        app.secondary is None ==> r.mono_eye == MonoEye::Neither,
        app.secondary is Some && app.secondary_role == SecondaryRole::ColourOnly ==> r.mono_eye
            == MonoEye::Neither,
        app.secondary is Some && app.secondary_role == SecondaryRole::IsLeftEye ==> r.mono_eye
            == MonoEye::Left,
        app.secondary is Some && app.secondary_role == SecondaryRole::IsRightEye ==> r.mono_eye
            == MonoEye::Right,
        r.mono_trim == app.params.colour_trim,
        r == (ConvertParams { mono_eye: r.mono_eye, mono_trim: r.mono_trim, ..app.params }),
{
}

/// A source is found in its own place.
pub proof fn law_a_source_is_found_in_its_place<S>(app: &AnaApp<S>, role: Role, r: Option<&Source>)
    requires
        call_ensures(AnaApp::<S>::source_for, (app, role), r),
    ensures
        role == Role::Anaglyph ==> (r is Some <==> app.anaglyph is Some),
        role == Role::Secondary ==> (r is Some <==> app.secondary is Some),
        role == Role::RightEye ==> (r is Some <==> app.right_eye is Some),
        r matches Some(s) ==> (role == Role::Anaglyph ==> app.anaglyph == Some(*s)),
        r matches Some(s) ==> (role == Role::Secondary ==> app.secondary == Some(*s)),
        r matches Some(s) ==> (role == Role::RightEye ==> app.right_eye == Some(*s)),
{
}

/// A range that is set is the one that is read back, and the other source keeps its own:
/// the film and its second file share one, the 2D release has another.
pub proof fn law_a_range_is_kept_for_its_source<S>(
    app: &mut AnaApp<S>,
    role: Role,
    trim: SourceTrim,
    other: Role,
    r: SourceTrim,
)
    requires
        call_ensures(AnaApp::<S>::set_trim, (app, role, trim), ()),
        call_ensures(AnaApp::<S>::trim_for, (&*final(app), other), r),
    ensures
        other == role ==> r == trim,
        (role == Role::Secondary) == (other == Role::Secondary) ==> r == trim,
        role != Role::Secondary && other == Role::Secondary ==> r == old(app).params.colour_trim,
        role == Role::Secondary && other != Role::Secondary ==> r == old(app).params.anaglyph_trim,
        final(app).params.mono_trim == old(app).params.mono_trim,
        *final(app) == (AnaApp { params: final(app).params, ..*old(app) }),
{
}

/// The job is what the window shows: each file in its own place, the 2D release as an eye
/// too where it is said to be one, and the film's own frame rate where it reports one.
pub proof fn law_a_job_is_what_the_window_shows<S>(
    app: &AnaApp<S>,
    shown: ConvertParams,
    r: Option<RenderJob>,
)
    requires
        call_ensures(AnaApp::<S>::effective_params, (app,), shown),
        call_ensures(AnaApp::<S>::job, (app,), r),
    ensures
        r is Some <==> app.anaglyph is Some && app.output is Some,
        r matches Some(job) ==> (app.anaglyph matches Some(s) ==> job.anaglyph@ == s.path@),
        r matches Some(job) ==> (app.output matches Some(path) ==> job.output@ == path@),
        r matches Some(job) ==> (app.right_eye matches Some(s) ==> text_of(job.right_eye) == Some(
            s.path@,
        )),
        r matches Some(job) ==> (app.right_eye is None ==> job.right_eye is None),
        r matches Some(job) ==> (app.secondary matches Some(s) ==> text_of(job.colour) == Some(
            s.path@,
        )),
        r matches Some(job) ==> (app.secondary is None ==> job.colour is None && job.mono is None),
        r matches Some(job) ==> (app.secondary_role == SecondaryRole::ColourOnly ==> job.mono is None),
        r matches Some(job) ==> (app.secondary_role != SecondaryRole::ColourOnly ==> text_of(job.mono)
            == text_of(job.colour)),
        r matches Some(job) ==> text_of(job.audio) == text_of(app.audio),
        r matches Some(job) ==> job.encode == (EncodeSettings {
            fps: job.encode.fps,
            ..app.encode
        }),
        r matches Some(job) ==> (app.anaglyph matches Some(s) ==> job.encode.fps == working_rate(
            s.info.fps,
        )),
        r matches Some(job) ==> job.params == shown,
{
}

/// A render starts only with tools, a film, a place to write to and valid settings; it is
/// handed the job that the window shows. Whatever stands against it is told.
pub proof fn law_a_render_starts_when_all_is_there<S, F: Fn(F32) -> String>(
    app: &mut AnaApp<S>,
    show: &F,
    job: Option<RenderJob>,
    valid: Result<(), crate::params::ParamsError>,
    r: Option<(FfmpegTools, RenderJob)>,
)
    requires
        call_ensures(AnaApp::<S>::start_render::<F>, (app, show), r),
        call_ensures(AnaApp::<S>::job, (&*old(app),), job),
        job matches Some(j) ==> call_ensures(ConvertParams::validate, (&j.params,), valid),
    ensures
        r is Some <==> old(app).tools is Ok && job is Some && valid is Ok,
        r matches Some(given) ==> Ok::<FfmpegTools, String>(given.0) == old(app).tools,
        r matches Some(given) ==> (job matches Some(j) && given.1.anaglyph@ == j.anaglyph@
            && given.1.output@ == j.output@ && text_of(given.1.colour) == text_of(j.colour) && text_of(
            given.1.mono,
        ) == text_of(j.mono) && text_of(given.1.right_eye) == text_of(j.right_eye) && text_of(
            given.1.audio,
        ) == text_of(j.audio) && given.1.params == j.params && given.1.encode == j.encode),
        r is Some ==> final(app).problem is None && final(app).outcome is None,
        r is Some ==> (final(app).running matches Some(run) && run@.done == 0 && run@.total is None
            && run@.notes.len() == 0 && !run@.cancelling),
        r is None ==> final(app).problem is Some && final(app).running == old(app).running
            && final(app).outcome == old(app).outcome,
        old(app).tools is Err || job is None ==> text_of(final(app).problem) == Some(
            "choose an anaglyph file and an output first"@,
        ),
        old(app).tools is Ok && job is Some ==> (valid matches Err(e) ==> (final(app).problem matches Some(
            said,
        ) && tells(*show, e.fault(), said@))),
        *final(app) == (AnaApp {
            problem: final(app).problem,
            outcome: final(app).outcome,
            running: final(app).running,
            ..*old(app)
        }),
{
}

/// When a render ends, how it went is said, and the preview is to be made anew; a failure
/// stays as a problem, a success leaves what was there.
pub proof fn law_a_finished_render_is_told<S>(app: &mut AnaApp<S>, finished: Finished, said: String)
    requires
        call_ensures(AnaApp::<S>::settle, (app, finished), ()),
        call_ensures(Finished::outcome, (&finished, old(app).windows), said),
    ensures
        text_of(final(app).outcome) == Some(said@),
        finished matches Finished::Failed(message) ==> final(app).problem == Some(message),
        finished is Succeeded ==> final(app).problem == old(app).problem,
        final(app).running is None,
        final(app).cache@.decoded is None && final(app).cache@.processed is None,
        *final(app) == (AnaApp {
            outcome: final(app).outcome,
            problem: final(app).problem,
            running: None,
            cache: final(app).cache,
            ..*old(app)
        }),
{
}

/// An alignment opens for its own source, at the frame that is shown, and closes again;
/// either way the preview is to be made anew.
pub proof fn law_an_alignment_opens_and_closes<S>(app: &mut AnaApp<S>, role: Role, active: bool)
    requires
        call_ensures(AnaApp::<S>::toggle_align, (app, role, active), ()),
    ensures
        active ==> final(app).aligning is None,
        !active ==> final(app).aligning == Some(role),
        final(app).align_frame == old(app).frame,
        final(app).frame == old(app).frame && final(app).params == old(app).params,
        final(app).cache@.decoded is None && final(app).cache@.processed is None,
        *final(app) == (AnaApp {
            aligning: final(app).aligning,
            align_frame: final(app).align_frame,
            cache: final(app).cache,
            ..*old(app)
        }),
{
}

/// Marking the start makes the two frames that are compared the first of both: the film's
/// own position for the film, the position in the 2D release for the release. Ends stay.
pub proof fn law_a_start_is_marked_in_both<S>(app: &mut AnaApp<S>, role: Role)
    requires
        call_ensures(AnaApp::<S>::mark_start, (app, role), ()),
    ensures
        role == Role::Secondary ==> final(app).params.anaglyph_trim.start == old(app).frame
            && final(app).params.colour_trim.start == old(app).align_frame,
        role == Role::Secondary ==> final(app).params.anaglyph_trim.end == old(app).params.anaglyph_trim.end && final(app).params.colour_trim.end == old(app).params.colour_trim.end,
        role != Role::Secondary ==> final(app).params.anaglyph_trim.start == old(app).align_frame
            && final(app).params.anaglyph_trim.end == old(app).params.anaglyph_trim.end
            && final(app).params.colour_trim == old(app).params.colour_trim,
        final(app).params == (ConvertParams {
            anaglyph_trim: final(app).params.anaglyph_trim,
            colour_trim: final(app).params.colour_trim,
            ..old(app).params
        }),
        final(app).cache@.decoded is None && final(app).cache@.processed is None,
        *final(app) == (AnaApp { params: final(app).params, cache: final(app).cache, ..*old(app) }),
{
}

/// Marking the end makes the two frames that are compared the last of both. Starts stay.
pub proof fn law_an_end_is_marked_in_both<S>(app: &mut AnaApp<S>, role: Role)
    requires
        call_ensures(AnaApp::<S>::mark_end, (app, role), ()),
    ensures
        role == Role::Secondary ==> final(app).params.anaglyph_trim.end == Some(old(app).frame)
            && final(app).params.colour_trim.end == Some(old(app).align_frame),
        role == Role::Secondary ==> final(app).params.anaglyph_trim.start == old(app).params.anaglyph_trim.start && final(app).params.colour_trim.start == old(app).params.colour_trim.start,
        role != Role::Secondary ==> final(app).params.anaglyph_trim.end == Some(
            old(app).align_frame,
        ) && final(app).params.anaglyph_trim.start == old(app).params.anaglyph_trim.start
            && final(app).params.colour_trim == old(app).params.colour_trim,
        final(app).params == (ConvertParams {
            anaglyph_trim: final(app).params.anaglyph_trim,
            colour_trim: final(app).params.colour_trim,
            ..old(app).params
        }),
        final(app).cache@.decoded is None && final(app).cache@.processed is None,
        *final(app) == (AnaApp { params: final(app).params, cache: final(app).cache, ..*old(app) }),
{
}

/// Clearing the range uses the whole of both files: from the first frame, with no end.
pub proof fn law_a_cleared_range_is_the_whole_file<S>(app: &mut AnaApp<S>, role: Role)
    requires
        call_ensures(AnaApp::<S>::clear_range, (app, role), ()),
    ensures
        final(app).params.anaglyph_trim.start == 0 && final(app).params.anaglyph_trim.end is None,
        role == Role::Secondary ==> final(app).params.colour_trim.start == 0
            && final(app).params.colour_trim.end is None,
        role != Role::Secondary ==> final(app).params.colour_trim == old(app).params.colour_trim,
        final(app).cache@.decoded is None && final(app).cache@.processed is None,
        *final(app) == (AnaApp { params: final(app).params, cache: final(app).cache, ..*old(app) }),
{
}

/// Another kind of source makes the preview anew; the same one leaves it. Nothing but the
/// kind of source changes.
pub proof fn law_another_source_kind_starts_over<S>(
    app: &mut AnaApp<S>,
    kind: SourceKind,
    anamorphic: bool,
    input: crate::params::InputMode,
)
    requires
        call_ensures(AnaApp::<S>::choose_source, (app, kind, anamorphic), ()),
        call_ensures(SourceKind::to_input, (kind, anamorphic), input),
    ensures
        final(app).params.input == input,
        input == old(app).params.input ==> final(app).cache@ == old(app).cache@,
        input != old(app).params.input ==> final(app).cache@.decoded is None && final(app).cache@.processed is None,
        final(app).params == (ConvertParams { input, ..old(app).params }),
        *final(app) == (AnaApp { params: final(app).params, cache: final(app).cache, ..*old(app) }),
{
}

/// Another use of the 2D release makes the preview anew; the same one leaves it.
pub proof fn law_another_role_starts_over<S>(app: &mut AnaApp<S>, role: SecondaryRole)
    requires
        call_ensures(AnaApp::<S>::choose_role, (app, role), ()),
    ensures
        final(app).secondary_role == role,
        role == old(app).secondary_role ==> final(app).cache@ == old(app).cache@,
        role != old(app).secondary_role ==> final(app).cache@.decoded is None && final(app).cache@.processed is None,
        *final(app) == (AnaApp { secondary_role: role, cache: final(app).cache, ..*old(app) }),
{
}

/// A reset puts back the settings that a new window has, whatever they were, and makes the
/// preview anew; the files stay.
pub proof fn law_a_reset_puts_the_settings_back<S>(app: &mut AnaApp<S>, new: ConvertParams)
    requires
        call_ensures(AnaApp::<S>::reset_settings, (app,), ()),
        call_ensures(ConvertParams::default, (), new),
    ensures
        final(app).params == new,
        final(app).cache@.decoded is None && final(app).cache@.processed is None,
        *final(app) == (AnaApp { params: new, cache: final(app).cache, ..*old(app) }),
{
}

/// A preset that was read replaces the settings and says so; one that was not is told and
/// changes none. Saving one changes no setting either way.
pub proof fn law_a_preset_is_taken_or_told<S>(
    loading: &mut AnaApp<S>,
    path: &str,
    read: Result<ConvertParams, String>,
    saving: &mut AnaApp<S>,
    written: Result<(), String>,
)
    requires
        call_ensures(AnaApp::<S>::preset_loaded, (loading, path, read), ()),
        call_ensures(AnaApp::<S>::preset_saved, (saving, path, written), ()),
    ensures
        read matches Ok(params) ==> final(loading).params == params && final(loading).problem is None
            && text_of(final(loading).outcome) == Some("loaded "@ + path@),
        read matches Err(e) ==> final(loading).params == old(loading).params && final(loading).outcome
            == old(loading).outcome && text_of(final(loading).problem) == Some(path@ + ": "@ + e@),
        *final(loading) == (AnaApp {
            params: final(loading).params,
            problem: final(loading).problem,
            outcome: final(loading).outcome,
            ..*old(loading)
        }),
        written is Ok ==> text_of(final(saving).outcome) == Some("saved "@ + path@) && final(saving).problem == old(saving).problem,
        written matches Err(e) ==> final(saving).outcome == old(saving).outcome && text_of(
            final(saving).problem,
        ) == Some(path@ + ": "@ + e@),
        *final(saving) == (AnaApp {
            problem: final(saving).problem,
            outcome: final(saving).outcome,
            ..*old(saving)
        }),
{
}

/// The picture is made anew where there is a pair and it was not made for the view that is
/// shown; making it is for that view, of both eyes, and leaves nothing to do.
pub proof fn law_a_picture_is_made_once_for_a_view<S: Copy, D: Fn(S, S) -> S>(
    app: &mut AnaApp<S>,
    differ: &D,
    before: bool,
    after: bool,
    r: Option<FrameF32<S>>,
)
    requires
        call_ensures(AnaApp::<S>::needs_picture, (&*old(app),), before),
        call_ensures(AnaApp::<S>::picture::<D>, (app, differ), r),
        call_ensures(AnaApp::<S>::needs_picture, (&*final(app),), after),
    ensures
        before <==> old(app).pair is Some && (old(app).drawn matches Some(v) ==> v != old(app).view),
        r is Some <==> old(app).pair is Some,
        !after,
        old(app).pair matches Some(pair) ==> (r matches Some(out) && viewed(
            *differ,
            (Eyes { left: pair.left@, right: pair.right@ }),
            old(app).view,
            old(app).preview_format,
            old(app).params.eye_order,
            out@,
        )),
        final(app).pair == old(app).pair && final(app).view == old(app).view && final(app).cache
            == old(app).cache,
        *final(app) == (AnaApp { drawn: final(app).drawn, ..*old(app) }),
{
}

/// Another view or another encoding touches neither the frames nor the conversion; the
/// encoding makes the picture anew, and only where it is another.
pub proof fn law_a_view_is_only_a_view<S>(
    viewing: &mut AnaApp<S>,
    view: ViewMode,
    encoding: &mut AnaApp<S>,
    format: AnaglyphFormat,
)
    requires
        call_ensures(AnaApp::<S>::set_view, (viewing, view), ()),
        call_ensures(AnaApp::<S>::set_preview_format, (encoding, format), ()),
    ensures
        final(viewing).view == view,
        *final(viewing) == (AnaApp { view: final(viewing).view, ..*old(viewing) }),
        final(encoding).preview_format == format,
        format == old(encoding).preview_format ==> final(encoding).drawn == old(encoding).drawn,
        format != old(encoding).preview_format ==> final(encoding).drawn is None,
        *final(encoding) == (AnaApp {
            preview_format: format,
            drawn: final(encoding).drawn,
            ..*old(encoding)
        }),
{
}

/// The number of frames is the one that the film reports, and at least one; one where
/// there is no film.
pub proof fn law_a_film_has_the_frames_it_reports<S, C: Fn(F64, F64) -> u64>(
    app: &AnaApp<S>,
    frames: &C,
    n: u64,
)
    requires
        call_ensures(AnaApp::<S>::frame_count::<C>, (app, frames), n),
    ensures
        n >= 1,
        app.anaglyph is None ==> n == 1,
        app.anaglyph matches Some(s) ==> (s.info.frame_count matches Some(c) ==> (c > 0 ==> n == c)),
        app.anaglyph matches Some(s) ==> (s.info.frame_count is None && s.info.duration_secs is None
            ==> n == 1),
        app.anaglyph matches Some(s) ==> (s.info.frame_count is None ==> (s.info.duration_secs matches Some(
            d,
        ) ==> (d.above_zero() && s.info.fps.above_zero() ==> n == 1 || call_ensures(
            *frames,
            (d, s.info.fps),
            n,
        )))),
{
}

/// A preview that plays moves on by one frame when it is due, up to the last, and rests
/// there; one that does not play stays where it is.
pub proof fn law_playing_moves_on_to_the_last_frame<S, C: Fn(F64, F64) -> u64>(
    app: &mut AnaApp<S>,
    due: bool,
    frames: &C,
)
    requires
        call_ensures(AnaApp::<S>::play::<C>, (app, due, frames), ()),
    ensures
        !old(app).playback.playing || !due ==> final(app).frame == old(app).frame && final(app).playback.playing == old(app).playback.playing,
        final(app).frame == old(app).frame || final(app).frame == old(app).frame + 1,
        old(app).playback.playing && due ==> exists|n: u64| #[trigger]
            counts_frames(*frames, old(app).anaglyph, n) && (old(app).frame + 1 < n ==> final(app).frame
                == old(app).frame + 1) && (old(app).frame + 1 >= n ==> final(app).frame == old(app).frame) && (final(app).playback.playing <==> final(app).frame + 1 < n),
        *final(app) == (AnaApp {
            frame: final(app).frame,
            playback: final(app).playback,
            ..*old(app)
        }),
{
    let n = choose|n: u64| #[trigger]
        counts_frames(*frames, old(app).anaglyph, n) && *final(app) == (AnaApp {
            frame: if old(app).playback.playing && due && old(app).frame < n - 1 {
                (old(app).frame + 1) as u64
            } else {
                old(app).frame
            },
            playback: Playback {
                playing: old(app).playback.playing && (!due || old(app).frame + 1 < n - 1),
            },
            ..*old(app)
        });
    assert(counts_frames(*frames, old(app).anaglyph, n));
}

/// The preview is drawn at the film's own shape, times the share an eye has of it, and
/// twice as wide where both eyes are shown beside each other.
pub proof fn law_the_preview_has_the_shape_of_its_view<
    S,
    H: Fn(usize, F64, usize) -> F64,
    W: Fn(F64, Ratio) -> F64,
>(app: &AnaApp<S>, square: F64, shape: &H, widen: &W, r: F64)
    requires
        call_ensures(AnaApp::<S>::preview_display_aspect::<H, W>, (app, square, shape, widen), r),
    ensures
        app.anaglyph is None ==> r == square,
        app.anaglyph matches Some(s) ==> exists|own: F64, eye: Ratio, one: F64, factor: Ratio|
            (s.info.height > 0 ==> call_ensures(
                *shape,
                (s.info.width, s.info.sample_aspect, s.info.height),
                own,
            )) && (s.info.height == 0 ==> own == square) && (eye.num as nat, eye.den as nat)
                == app.params.eye_scale(s.info.width as nat, s.info.height as nat) && #[trigger]
            call_ensures(*widen, (own, eye), one) && factor.den == 1 && factor.num == (if app.view
                == ViewMode::SideBySide {
                2nat
            } else {
                1
            }) && #[trigger] call_ensures(*widen, (one, factor), r),
{
}

/// The preview runs with the settings that the conversion runs with, but for the blurs.
pub proof fn law_the_preview_has_the_settings_shown<
    S,
    D: Fn(F32) -> F32,
    H: Fn(F32, F32) -> F32,
>(app: &AnaApp<S>, factor: &D, ease: &H, shown: ConvertParams, r: ConvertParams)
    requires
        call_ensures(AnaApp::<S>::effective_params, (app,), shown),
        call_ensures(AnaApp::<S>::preview_params::<D, H>, (app, factor, ease), r),
    ensures
        r == (ConvertParams {
            decimate_horiz: r.decimate_horiz,
            decimate_vert: r.decimate_vert,
            defringe_left: r.defringe_left,
            defringe_right: r.defringe_right,
            ..shown
        }),
        rescaled(*factor, *ease, shown, app.preview_scale, r),
{
}

/// The film's frame is the one at its position; the 2D release's is the one that lines up
/// with it, and is the eye too where the release is one; the second file's is the film's
/// own. Each comes from its own file, brought to the film's size.
proof fn lemma_frames_read<
    S,
    Z: Fn(&Source, u64) -> Result<FrameF32<S>, MediaError>,
    N: Fn(usize, F32) -> usize,
    V: Fn(&FrameF32<S>, usize, usize) -> FrameF32<S>,
>(grab: Z, round: N, stretch: V, pre: AnaApp<S>, post: AnaApp<S>, d: Result<(), String>)
    requires
        decodes(grab, round, stretch, pre, post, d),
        d is Ok,
    ensures
        frames_are_of_the_moment(grab, round, stretch, pre, pre.preview_scale, post.decoded),
        post == (AnaApp { decoded: post.decoded, ..pre }),
{
    let film = pre.anaglyph->0;
    let taken = choose|taken: Result<FrameF32<S>, String>| #[trigger]
        shot(grab, round, stretch, film, pre.frame, pre.preview_scale, taken) && match taken {
            Err(e) => d == Err::<(), String>(e) && post == pre,
            Ok(base) => decodes_secondary(grab, round, stretch, pre, base, post, d),
        };
    let base = taken->Ok_0;
    assert(taken == Ok::<FrameF32<S>, String>(base));
    let at = pre.params.aligned(pre.params.colour_trim, pre.frame as nat) as u64;
    let (w, h) = (base@.width as usize, base@.height as usize);
    let s = choose|s: Result<Option<FrameF32<S>>, String>| #[trigger]
        shot_if_any(grab, round, stretch, pre.secondary, at, pre.preview_scale, w, h, s)
            && match s {
            Err(e) => d == Err::<(), String>(e) && post == with_film(pre, base),
            Ok(second) => decodes_right(grab, round, stretch, pre, base, second, post, d),
        };
    let second = s->Ok_0;
    assert(s == Ok::<Option<FrameF32<S>>, String>(second));
    assert(decodes_right(grab, round, stretch, pre, base, second, post, d));
    assert(post.decoded.anaglyph == Some(base) && post.decoded.colour == second);
}

/// Decoded frames are those of the moment that the film is at: each read from its own
/// file, the film's and the second file's at the film's position, the 2D release's where
/// it lines up with it.
pub open spec fn frames_are_of_the_moment<
    S,
    Z: Fn(&Source, u64) -> Result<FrameF32<S>, MediaError>,
    N: Fn(usize, F32) -> usize,
    V: Fn(&FrameF32<S>, usize, usize) -> FrameF32<S>,
>(grab: Z, round: N, stretch: V, app: AnaApp<S>, scale: F32, decoded: Decoded<S>) -> bool {
    &&& app.anaglyph matches Some(film) && decoded.anaglyph matches Some(base) && shot(
        grab,
        round,
        stretch,
        film,
        app.frame,
        scale,
        Ok(base),
    )
    &&& decoded.anaglyph matches Some(base) && shot_if_any(
        grab,
        round,
        stretch,
        app.right_eye,
        app.frame,
        scale,
        base@.width as usize,
        base@.height as usize,
        Ok(decoded.right_eye),
    )
    &&& decoded.anaglyph matches Some(base) && shot_if_any(
        grab,
        round,
        stretch,
        app.secondary,
        app.params.aligned(app.params.colour_trim, app.frame as nat) as u64,
        scale,
        base@.width as usize,
        base@.height as usize,
        Ok(decoded.colour),
    )
    &&& app.secondary_role == SecondaryRole::ColourOnly ==> decoded.mono is None
    &&& app.secondary_role != SecondaryRole::ColourOnly ==> image_of(decoded.mono) == image_of(
        decoded.colour,
    )
}

/// A preview without tools or a film is left alone. A new pair is that of the frames in
/// hand, with the settings of the preview, and the picture is then to be made from it;
/// without a new pair the one before stays, and so does its picture.
pub proof fn law_a_new_pair_is_of_the_frames_in_hand<
    S: Copy + Send + Sync,
    E: Fn(F32, F32) -> bool,
    I: Fn(F32) -> F32,
    D: Fn(F32) -> F32,
    O: Fn(F32) -> F32,
    H: Fn(F32, F32) -> F32,
    Z: Fn(&Source, u64) -> Result<FrameF32<S>, MediaError>,
    N: Fn(usize, F32) -> usize,
    T: Fn(TransferFunction, S) -> S + Sync + Send,
    U: Fn(TransferFunction, S) -> S + Sync + Send,
    P: Fn(EyeProjection, S, S, S) -> S + Sync + Send,
    C: Fn(F32, S, S) -> S,
    R: Fn(ColourRestore, EyeProjection, S, (S, S, S)) -> (S, S, S),
    G: Fn(Grade, (S, S, S)) -> (S, S, S),
    A: Fn(S, S, S) -> S + Sync + Send,
    Q: Fn(S, S) -> S + Sync + Send,
    L: Fn(S, S, S) -> S + Sync + Send,
    M: Fn(S, usize) -> S + Sync + Send,
    K: Fn(F32) -> Vec<S>,
    B: Fn(F32) -> [usize; 3],
    V: Fn(&FrameF32<S>, usize, usize) -> FrameF32<S>,
>(
    app: &mut AnaApp<S>,
    scale: F32,
    by: &PreviewMath<E, I, D, O, H, Z, N>,
    math: &RecoveryMath<S, T, U, P, C, R, G, A, Q, L, M, K, B>,
    stretch: &V,
    r: bool,
)
    requires
        call_ensures(
            AnaApp::<S>::refresh_preview::<E, I, D, O, H, Z, N, T, U, P, C, R, G, A, Q, L, M, K, B, V>,
            (app, scale, by, math, stretch),
            r,
        ),
    ensures
        old(app).tools is Err || old(app).anaglyph is None ==> !r && *final(app) == *old(app),
        r ==> final(app).drawn is None,
        r ==> final(app).pair is Some,
        r ==> exists|params: ConvertParams, eyes: Eyes<S>|
            rescaled(
                by.strengths.factor,
                by.ease,
                old(app).effective(),
                final(app).preview_scale,
                params,
            ) && #[trigger] pairs(
                &by.strengths,
                math,
                stretch,
                final(app).decoded.shown(),
                params,
                eyes,
            ) && eyes.left == final(app).pair->0.left@ && eyes.right == final(app).pair->0.right@,
        !r ==> final(app).pair == old(app).pair && final(app).drawn == old(app).drawn,
        final(app).params == old(app).params && final(app).frame == old(app).frame,
        final(app).preview_scale == old(app).preview_scale || final(app).preview_scale == scale,
{
    if old(app).tools is Ok && old(app).anaglyph is Some {
        let pre = *old(app);
        let post = *final(app);
        let (scaled, params) = choose|scaled: AnaApp<S>, params: ConvertParams|
            follows_scale(by.differs, pre, scale, scaled) && rescaled(
                by.strengths.factor,
                by.ease,
                scaled.effective(),
                scaled.preview_scale,
                params,
            ) && #[trigger] works(by, math, stretch, scaled, params, post, r);
        assert(scaled.effective() == pre.effective());
        if scaled.cache@.work(scaled.frame, params) == PreviewWork::DecodeAndProcess {
            let (read, d) = choose|read: AnaApp<S>, d: Result<(), String>| #[trigger]
                decodes(by.grab, by.round, *stretch, scaled, read, d) && match d {
                    Err(e) => !r && post == (AnaApp { problem: Some(e), ..read }),
                    Ok(_) => draws_after(by, math, stretch, read, params, post, r),
                };
            lemma_reading_keeps_the_rest(by.grab, by.round, *stretch, scaled, read, d);
            if d is Ok {
                let kept = choose|kept: AnaApp<S>|
                    keeps_decode(read, kept) && #[trigger] draws(
                        &by.strengths,
                        math,
                        stretch,
                        kept,
                        params,
                        post,
                        r,
                    );
                assert(kept.decoded == read.decoded);
                if r {
                    let eyes = Eyes { left: post.pair->0.left@, right: post.pair->0.right@ };
                    assert(pairs(&by.strengths, math, stretch, post.decoded.shown(), params, eyes));
                }
            }
        } else if r {
            let eyes = Eyes { left: post.pair->0.left@, right: post.pair->0.right@ };
            assert(pairs(&by.strengths, math, stretch, post.decoded.shown(), params, eyes));
        }
    }
}

/// Reading frames changes nothing but the frames.
proof fn lemma_reading_keeps_the_rest<
    S,
    Z: Fn(&Source, u64) -> Result<FrameF32<S>, MediaError>,
    N: Fn(usize, F32) -> usize,
    V: Fn(&FrameF32<S>, usize, usize) -> FrameF32<S>,
>(grab: Z, round: N, stretch: V, pre: AnaApp<S>, post: AnaApp<S>, d: Result<(), String>)
    requires
        decodes(grab, round, stretch, pre, post, d),
    ensures
        post == (AnaApp { decoded: post.decoded, ..pre }),
{
    if let Some(film) = pre.anaglyph {
        let taken = choose|taken: Result<FrameF32<S>, String>| #[trigger]
            shot(grab, round, stretch, film, pre.frame, pre.preview_scale, taken) && match taken {
                Err(e) => d == Err::<(), String>(e) && post == pre,
                Ok(base) => decodes_secondary(grab, round, stretch, pre, base, post, d),
            };
        if let Ok(base) = taken {
            let at = pre.params.aligned(pre.params.colour_trim, pre.frame as nat) as u64;
            let (w, h) = (base@.width as usize, base@.height as usize);
            let s = choose|s: Result<Option<FrameF32<S>>, String>| #[trigger]
                shot_if_any(grab, round, stretch, pre.secondary, at, pre.preview_scale, w, h, s)
                    && match s {
                    Err(e) => d == Err::<(), String>(e) && post == with_film(pre, base),
                    Ok(second) => decodes_right(grab, round, stretch, pre, base, second, post, d),
                };
            if let Ok(second) = s {
                assert(decodes_right(grab, round, stretch, pre, base, second, post, d));
            }
        }
    }
}

/// Where nothing is known of the preview yet, a new pair is made from frames of the moment
/// that the film is at, each read from its own file.
pub proof fn law_a_fresh_preview_reads_its_frames<
    S: Copy + Send + Sync,
    E: Fn(F32, F32) -> bool,
    I: Fn(F32) -> F32,
    D: Fn(F32) -> F32,
    O: Fn(F32) -> F32,
    H: Fn(F32, F32) -> F32,
    Z: Fn(&Source, u64) -> Result<FrameF32<S>, MediaError>,
    N: Fn(usize, F32) -> usize,
    T: Fn(TransferFunction, S) -> S + Sync + Send,
    U: Fn(TransferFunction, S) -> S + Sync + Send,
    P: Fn(EyeProjection, S, S, S) -> S + Sync + Send,
    C: Fn(F32, S, S) -> S,
    R: Fn(ColourRestore, EyeProjection, S, (S, S, S)) -> (S, S, S),
    G: Fn(Grade, (S, S, S)) -> (S, S, S),
    A: Fn(S, S, S) -> S + Sync + Send,
    Q: Fn(S, S) -> S + Sync + Send,
    L: Fn(S, S, S) -> S + Sync + Send,
    M: Fn(S, usize) -> S + Sync + Send,
    K: Fn(F32) -> Vec<S>,
    B: Fn(F32) -> [usize; 3],
    V: Fn(&FrameF32<S>, usize, usize) -> FrameF32<S>,
>(
    app: &mut AnaApp<S>,
    scale: F32,
    by: &PreviewMath<E, I, D, O, H, Z, N>,
    math: &RecoveryMath<S, T, U, P, C, R, G, A, Q, L, M, K, B>,
    stretch: &V,
    r: bool,
)
    requires
        call_ensures(
            AnaApp::<S>::refresh_preview::<E, I, D, O, H, Z, N, T, U, P, C, R, G, A, Q, L, M, K, B, V>,
            (app, scale, by, math, stretch),
            r,
        ),
        old(app).cache@.decoded is None && old(app).cache@.processed is None,
        r,
    ensures
        frames_are_of_the_moment(
            by.grab,
            by.round,
            *stretch,
            *old(app),
            final(app).preview_scale,
            final(app).decoded,
        ),
{
    let pre = *old(app);
    let post = *final(app);
    let (scaled, params) = choose|scaled: AnaApp<S>, params: ConvertParams|
        follows_scale(by.differs, pre, scale, scaled) && rescaled(
            by.strengths.factor,
            by.ease,
            scaled.effective(),
            scaled.preview_scale,
            params,
        ) && #[trigger] works(by, math, stretch, scaled, params, post, r);
    assert(scaled.cache@.decoded is None);
    assert(scaled.cache@.work(scaled.frame, params) == PreviewWork::DecodeAndProcess);
    let (read, d) = choose|read: AnaApp<S>, d: Result<(), String>| #[trigger]
        decodes(by.grab, by.round, *stretch, scaled, read, d) && match d {
            Err(e) => !r && post == (AnaApp { problem: Some(e), ..read }),
            Ok(_) => draws_after(by, math, stretch, read, params, post, r),
        };
    lemma_frames_read(by.grab, by.round, *stretch, scaled, read, d);
    let kept = choose|kept: AnaApp<S>|
        keeps_decode(read, kept) && #[trigger] draws(
            &by.strengths,
            math,
            stretch,
            kept,
            params,
            post,
            r,
        );
    assert(post.decoded == read.decoded);
}

/// A frame of the preview is read from its source at the place asked for and brought to
/// the preview's scale; what cannot be read is told with the file's path.
pub proof fn law_a_shot_is_of_its_source<
    S,
    Z: Fn(&Source, u64) -> Result<FrameF32<S>, MediaError>,
    N: Fn(usize, F32) -> usize,
    V: Fn(&FrameF32<S>, usize, usize) -> FrameF32<S>,
>(
    grab: Z,
    round: N,
    stretch: V,
    source: Source,
    index: u64,
    scale: F32,
    w: usize,
    h: usize,
    r: Result<Option<FrameF32<S>>, String>,
)
    requires
        shot_if_any(grab, round, stretch, Some(source), index, scale, w, h, r),
    ensures
        exists|got: Result<FrameF32<S>, MediaError>| #[trigger]
            call_ensures(grab, (&source, index), got) && (got matches Err(e) ==> (r matches Err(said)
                && said@ == source.path@ + ": "@ + e.text())) && (got matches Ok(f) ==> exists|
                small: FrameF32<S>,
            | #[trigger]
                downscaled(round, stretch, f@, scale, small@) && (r matches Ok(Some(out))
                    && conformed(stretch, small@, w, h, out@))),
{
    let taken = choose|taken: Result<FrameF32<S>, String>| #[trigger]
        shot(grab, round, stretch, source, index, scale, taken) && match taken {
            Ok(f) => r matches Ok(Some(out)) && conformed(stretch, f@, w, h, out@),
            Err(e) => r == Err::<Option<FrameF32<S>>, String>(e),
        };
    let got = choose|got: Result<FrameF32<S>, MediaError>| #[trigger]
        call_ensures(grab, (&source, index), got) && match got {
            Ok(f) => taken matches Ok(out) && downscaled(round, stretch, f@, scale, out@),
            Err(e) => taken matches Err(m) && m@ == trouble_with(source.path@, e.text()),
        };
    assert(call_ensures(grab, (&source, index), got));
    if let Ok(f) = got {
        let small = taken->Ok_0;
        assert(downscaled(round, stretch, f@, scale, small@));
    }
}

/// A pane of another size has its frames read anew at the new scale, whatever was known of
/// them; the scale is then the one asked for.
pub proof fn law_another_scale_reads_the_frames_anew<
    S: Copy + Send + Sync,
    E: Fn(F32, F32) -> bool,
    I: Fn(F32) -> F32,
    D: Fn(F32) -> F32,
    O: Fn(F32) -> F32,
    H: Fn(F32, F32) -> F32,
    Z: Fn(&Source, u64) -> Result<FrameF32<S>, MediaError>,
    N: Fn(usize, F32) -> usize,
    T: Fn(TransferFunction, S) -> S + Sync + Send,
    U: Fn(TransferFunction, S) -> S + Sync + Send,
    P: Fn(EyeProjection, S, S, S) -> S + Sync + Send,
    C: Fn(F32, S, S) -> S,
    R: Fn(ColourRestore, EyeProjection, S, (S, S, S)) -> (S, S, S),
    G: Fn(Grade, (S, S, S)) -> (S, S, S),
    A: Fn(S, S, S) -> S + Sync + Send,
    Q: Fn(S, S) -> S + Sync + Send,
    L: Fn(S, S, S) -> S + Sync + Send,
    M: Fn(S, usize) -> S + Sync + Send,
    K: Fn(F32) -> Vec<S>,
    B: Fn(F32) -> [usize; 3],
    V: Fn(&FrameF32<S>, usize, usize) -> FrameF32<S>,
>(
    app: &mut AnaApp<S>,
    scale: F32,
    by: &PreviewMath<E, I, D, O, H, Z, N>,
    math: &RecoveryMath<S, T, U, P, C, R, G, A, Q, L, M, K, B>,
    stretch: &V,
    r: bool,
)
    requires
        call_ensures(
            AnaApp::<S>::refresh_preview::<E, I, D, O, H, Z, N, T, U, P, C, R, G, A, Q, L, M, K, B, V>,
            (app, scale, by, math, stretch),
            r,
        ),
        old(app).tools is Ok && old(app).anaglyph is Some,
        forall|moved: bool| #[trigger]
            call_ensures(by.differs, (scale, old(app).preview_scale), moved) ==> moved,
    ensures
        final(app).preview_scale == scale,
        r ==> frames_are_of_the_moment(
            by.grab,
            by.round,
            *stretch,
            *old(app),
            scale,
            final(app).decoded,
        ),
        !r ==> final(app).problem is Some || final(app).cache@.processed is None,
{
    let pre = *old(app);
    let post = *final(app);
    let (scaled, params) = choose|scaled: AnaApp<S>, params: ConvertParams|
        follows_scale(by.differs, pre, scale, scaled) && rescaled(
            by.strengths.factor,
            by.ease,
            scaled.effective(),
            scaled.preview_scale,
            params,
        ) && #[trigger] works(by, math, stretch, scaled, params, post, r);
    assert(scaled.cache@ == empty_cache());
    assert(scaled.cache@.work(scaled.frame, params) == PreviewWork::DecodeAndProcess);
    let (read, d) = choose|read: AnaApp<S>, d: Result<(), String>| #[trigger]
        decodes(by.grab, by.round, *stretch, scaled, read, d) && match d {
            Err(e) => !r && post == (AnaApp { problem: Some(e), ..read }),
            Ok(_) => draws_after(by, math, stretch, read, params, post, r),
        };
    lemma_reading_keeps_the_rest(by.grab, by.round, *stretch, scaled, read, d);
    if d is Ok {
        lemma_frames_read(by.grab, by.round, *stretch, scaled, read, d);
        let kept = choose|kept: AnaApp<S>|
            keeps_decode(read, kept) && #[trigger] draws(
                &by.strengths,
                math,
                stretch,
                kept,
                params,
                post,
                r,
            );
        assert(post.decoded == read.decoded);
    }
}

/// A pane of the same size keeps its scale; and what is in hand for its frame, under
/// whatever settings, is never read again.
pub proof fn law_the_same_scale_keeps_the_frames<
    S: Copy + Send + Sync,
    E: Fn(F32, F32) -> bool,
    I: Fn(F32) -> F32,
    D: Fn(F32) -> F32,
    O: Fn(F32) -> F32,
    H: Fn(F32, F32) -> F32,
    Z: Fn(&Source, u64) -> Result<FrameF32<S>, MediaError>,
    N: Fn(usize, F32) -> usize,
    T: Fn(TransferFunction, S) -> S + Sync + Send,
    U: Fn(TransferFunction, S) -> S + Sync + Send,
    P: Fn(EyeProjection, S, S, S) -> S + Sync + Send,
    C: Fn(F32, S, S) -> S,
    R: Fn(ColourRestore, EyeProjection, S, (S, S, S)) -> (S, S, S),
    G: Fn(Grade, (S, S, S)) -> (S, S, S),
    A: Fn(S, S, S) -> S + Sync + Send,
    Q: Fn(S, S) -> S + Sync + Send,
    L: Fn(S, S, S) -> S + Sync + Send,
    M: Fn(S, usize) -> S + Sync + Send,
    K: Fn(F32) -> Vec<S>,
    B: Fn(F32) -> [usize; 3],
    V: Fn(&FrameF32<S>, usize, usize) -> FrameF32<S>,
>(
    app: &mut AnaApp<S>,
    scale: F32,
    by: &PreviewMath<E, I, D, O, H, Z, N>,
    math: &RecoveryMath<S, T, U, P, C, R, G, A, Q, L, M, K, B>,
    stretch: &V,
    r: bool,
)
    requires
        call_ensures(
            AnaApp::<S>::refresh_preview::<E, I, D, O, H, Z, N, T, U, P, C, R, G, A, Q, L, M, K, B, V>,
            (app, scale, by, math, stretch),
            r,
        ),
        forall|moved: bool| #[trigger]
            call_ensures(by.differs, (scale, old(app).preview_scale), moved) ==> !moved,
    ensures
        final(app).preview_scale == old(app).preview_scale,
        old(app).cache@.decoded == Some(old(app).frame) ==> final(app).decoded == old(app).decoded,
{
    if old(app).tools is Ok && old(app).anaglyph is Some {
        let pre = *old(app);
        let post = *final(app);
        let (scaled, params) = choose|scaled: AnaApp<S>, params: ConvertParams|
            follows_scale(by.differs, pre, scale, scaled) && rescaled(
                by.strengths.factor,
                by.ease,
                scaled.effective(),
                scaled.preview_scale,
                params,
            ) && #[trigger] works(by, math, stretch, scaled, params, post, r);
        assert(scaled == pre);
        if pre.cache@.work(pre.frame, params) == PreviewWork::DecodeAndProcess {
            let (read, d) = choose|read: AnaApp<S>, d: Result<(), String>| #[trigger]
                decodes(by.grab, by.round, *stretch, scaled, read, d) && match d {
                    Err(e) => !r && post == (AnaApp { problem: Some(e), ..read }),
                    Ok(_) => draws_after(by, math, stretch, read, params, post, r),
                };
            lemma_reading_keeps_the_rest(by.grab, by.round, *stretch, scaled, read, d);
        }
    }
}

} // verus!
