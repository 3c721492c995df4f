//! Running a whole conversion: sources in, converted video out.
//!
//! One frame is converted by [`crate::pipeline`], and frames are moved in and out
//! of files by the program. What lies between them for the length of a movie is
//! here: what to refuse before any work starts, which frames to read, when to
//! stop, and what to report.

use crate::compose::{
    aspect_differs, conform_to, conformed, converged_to, resizable, stretches, OutputLayout,
};
use crate::encode::EncodeSettings;
use crate::media::{size, size_text, MediaError};
use crate::params::{ConvertParams, Fault, InputMode, MonoEye, ParamsError, Ratio, MAX_DIMENSION};
use crate::path::{
    dot_at, extension, extension_of, file_name, file_stem, law_renaming_names_the_new_file,
    lemma_dot_in_range, lemma_name_is_plain, name_of, no_separator, plain_name, prefix_spares,
    renamed, separates, stem_of, with_file_name,
};
use crate::extract::EyeProjection;
use crate::frame::{FrameF32, Image};
use crate::grade::Grade;
use crate::packed::{stretchable, StereoPacking};
use crate::pipeline::{
    compose_output, fits_layout, frame_processed, laid_out, measures_all, process_frame,
    recovers_all, shows, sized, sources_fit, Eyes, RecoveryMath, Shown, Sources, StereoPair,
    StrengthMath,
};
use crate::probe::VideoInfo;
use crate::restore::ColourRestore;
use crate::scalar::{F32, F64};
use crate::text::{decimal, decimal_text};
use crate::transfer::TransferFunction;
use vstd::prelude::*;
use vstd::string::*;

verus! {

/// Everything one conversion needs.
#[derive(Debug)]
pub struct RenderJob {
    /// The file being converted. Always required.
    pub anaglyph: String,
    /// The right eye, when the input is two files rather than one.
    pub right_eye: Option<String>,
    /// Where colour is sampled from. Defaults to the anaglyph itself.
    pub colour: Option<String>,
    /// A 2D release standing in for one eye.
    pub mono: Option<String>,
    /// Where the audio track is copied from.
    pub audio: Option<String>,
    /// Destination. For [`OutputLayout::Separate`] this is the stem that the
    /// two per-eye files are derived from.
    pub output: String,
    pub params: ConvertParams,
    pub encode: EncodeSettings,
}

/// Reported as the conversion runs.
#[derive(Debug)]
pub enum Progress {
    /// Emitted once, before the first frame.
    Started { total_frames: Option<u64>, width: usize, height: usize },
    /// Emitted after each converted frame.
    Frame { done: u64, total: Option<u64> },
    /// Something worth telling the user that is not an error.
    Note(String),
    /// Emitted once, whether the run completed or was cancelled.
    Finished { frames: u64, cancelled: bool },
}

/// What a finished run produced.
#[derive(Debug)]
pub struct RenderSummary {
    pub frames: u64,
    pub outputs: Vec<String>,
    pub cancelled: bool,
}

/// Anything that can stop a conversion.
#[derive(Debug)]
pub enum PipelineError {
    Media(MediaError),
    Params(ParamsError),
    /// A 2D source was named but no eye was chosen, so it would be ignored.
    MonoSourceUnused,
    MonoSourceMissing(MonoEye),
    RightEyeMissing,
    TrimSelectsNoFrames { name: String, start: u64, total: u64 },
    NoAudioInSource(String),
}

pub open spec fn eye_text(eye: MonoEye) -> Seq<char> {
    match eye {
        MonoEye::Neither => "None"@,
        MonoEye::Left => "Left"@,
        MonoEye::Right => "Right"@,
    }
}

fn eye_name(eye: MonoEye) -> (r: &'static str)
    ensures
        r@ == eye_text(eye),
{
    match eye {
        MonoEye::Neither => "None",
        MonoEye::Left => "Left",
        MonoEye::Right => "Right",
    }
}

/// What is said of a range that selects nothing.
pub open spec fn no_frames_text(name: Seq<char>, start: nat, total: nat) -> Seq<char> {
    "the chosen range selects no frames from "@ + name + ": it starts at "@ + decimal_text(start)
        + " and the file has "@ + decimal_text(total) + " frames"@
}

/// `text` is what invalid settings are said to be.
pub open spec fn tells_invalid<F: Fn(F32) -> String>(show: F, fault: Fault, text: Seq<char>) -> bool {
    exists|inner: Seq<char>| #[trigger]
        crate::params::tells(show, fault, inner) && text == "invalid settings: "@ + inner
}

impl PipelineError {
    /// `text` is what the error tells the user, with floats as `show` writes them.
    pub open spec fn says<F: Fn(F32) -> String>(self, show: F, text: Seq<char>) -> bool {
        match self {
            PipelineError::Media(e) => text == e.text(),
            PipelineError::Params(e) => tells_invalid(show, e.fault(), text),
            PipelineError::MonoSourceUnused => text
                == "a 2D source was named but mono_eye is set to none, so it would be ignored"@,
            PipelineError::MonoSourceMissing(eye) => text == "mono_eye is set to "@ + eye_text(eye)
                + " but no 2D source was given"@,
            PipelineError::RightEyeMissing => text
                == "the source is set to two files, but no second file was given"@,
            PipelineError::TrimSelectsNoFrames { name, start, total } => text == no_frames_text(
                name@,
                start as nat,
                total as nat,
            ),
            PipelineError::NoAudioInSource(name) => text == name@ + " has no audio stream to copy"@,
        }
    }

    /// What the error tells the user; `show` writes a float.
    pub fn message<F: Fn(F32) -> String>(&self, show: &F) -> (text: String)
        requires
            forall|v: F32| #[trigger] call_requires(*show, (v,)),
        ensures
            self.says(*show, text@),
    {
        match self {
            PipelineError::Media(e) => e.message(),
            PipelineError::Params(e) => {
                let inner = e.message(show);
                let text = "invalid settings: ".to_owned().concat(inner.as_str());
                assert(crate::params::tells(*show, e.fault(), inner@));
                assert(tells_invalid(*show, e.fault(), text@));
                text
            },
            PipelineError::MonoSourceUnused => {
                "a 2D source was named but mono_eye is set to none, so it would be ignored".to_owned()
            },
            PipelineError::MonoSourceMissing(eye) => {
                "mono_eye is set to ".to_owned().concat(eye_name(*eye)).concat(
                    " but no 2D source was given",
                )
            },
            PipelineError::RightEyeMissing => {
                "the source is set to two files, but no second file was given".to_owned()
            },
            PipelineError::TrimSelectsNoFrames { name, start, total } => {
                "the chosen range selects no frames from ".to_owned().concat(name.as_str()).concat(
                    ": it starts at ",
                ).concat(decimal(*start).as_str()).concat(" and the file has ").concat(
                    decimal(*total).as_str(),
                ).concat(" frames")
            },
            PipelineError::NoAudioInSource(name) => name.clone().concat(
                " has no audio stream to copy",
            ),
        }
    }
}

/// The name of the file for one eye.
pub open spec fn eye_file_name(output: Seq<char>, suffix: Seq<char>, windows: bool) -> Seq<char> {
    let stem = match stem_of(output, windows) {
        Some(stem) => stem,
        None => Seq::empty(),
    };
    match extension_of(output, windows) {
        Some(ext) => (stem + suffix).push('.') + ext,
        None => stem + suffix,
    }
}

/// The file for one eye.
pub open spec fn eye_file(output: Seq<char>, suffix: Seq<char>, windows: bool) -> Seq<char> {
    renamed(output, eye_file_name(output, suffix, windows), windows)
}

/// The files a job will write.
pub open spec fn outputs_of(output: Seq<char>, layout: OutputLayout, windows: bool) -> Seq<Seq<char>> {
    if layout == OutputLayout::Separate {
        seq![eye_file(output, "-left"@, windows), eye_file(output, "-right"@, windows)]
    } else {
        seq![output]
    }
}

fn eye_path(output: &str, suffix: &str, windows: bool) -> (r: String)
    requires
        suffix@.len() >= 3,
        no_separator(suffix@, windows),
    ensures
        r@ == eye_file(output@, suffix@, windows),
{
    let stem = match file_stem(output, windows) {
        Some(stem) => stem,
        None => String::new(),
    };
    let mut name = stem.concat(suffix);
    if let Some(ext) = extension(output, windows) {
        name.push('.');
        name.append(ext.as_str());
    }
    proof {
        lemma_eye_file_name_is_plain(output@, suffix@, windows);
    }
    with_file_name(output, name.as_str(), windows)
}

/// The files a job will write.
///
/// Stacked layouts write one file. Separate streams derive a `-left` and a
/// `-right` file from the given path, since the eye order is carried by the
/// names rather than by position.
pub fn output_paths(output: &str, layout: OutputLayout, windows: bool) -> (paths: Vec<String>)
    ensures
        crate::encode::texts(paths@) == outputs_of(output@, layout, windows),
{
    let mut paths: Vec<String> = Vec::new();
    if layout != OutputLayout::Separate {
        paths.push(output.to_owned());
    } else {
        proof {
            reveal_strlit("-left");
            reveal_strlit("-right");
        }
        paths.push(eye_path(output, "-left", windows));
        paths.push(eye_path(output, "-right", windows));
    }
    assert(crate::encode::texts(paths@) =~= outputs_of(output@, layout, windows));
    paths
}

/// A file name for a message, falling back to the whole path.
pub open spec fn label_of(path: Seq<char>, windows: bool) -> Seq<char> {
    match name_of(path, windows) {
        Some(name) => name,
        None => path,
    }
}

/// A file name for a message, falling back to the whole path.
pub fn file_label(path: &str, windows: bool) -> (r: String)
    ensures
        r@ == label_of(path@, windows),
{
    match file_name(path, windows) {
        Some(name) => name,
        None => path.to_owned(),
    }
}

/// `r` is what the cheap checks of a job come to: the settings, then that a 2D
/// source and the eye it is for are named together, then the second file.
pub open spec fn checks(job: RenderJob, r: Result<(), PipelineError>) -> bool {
    if job.params.fault() is Some {
        r matches Err(PipelineError::Params(e)) && job.params.fault() == Some(e.fault())
    } else if job.mono is Some && job.params.mono_eye == MonoEye::Neither {
        r matches Err(PipelineError::MonoSourceUnused)
    } else if job.mono is None && job.params.mono_eye != MonoEye::Neither {
        r matches Err(PipelineError::MonoSourceMissing(eye)) && eye == job.params.mono_eye
    } else if job.params.input is TwoFiles && job.right_eye is None {
        r matches Err(PipelineError::RightEyeMissing)
    } else {
        r is Ok
    }
}

/// Everything that can be checked cheaply is checked before a single frame is
/// decoded, so a misconfigured run fails in a second rather than an hour.
pub fn check_job(job: &RenderJob) -> (r: Result<(), PipelineError>)
    ensures
        checks(*job, r),
{
    if let Err(e) = job.params.validate() {
        return Err(PipelineError::Params(e));
    }
    check_mono_agreement(job)?;
    if job.params.input.needs_second_file() && job.right_eye.is_none() {
        return Err(PipelineError::RightEyeMissing);
    }
    Ok(())
}

/// Rejects the two ways a 2D source and `mono_eye` can disagree, each of which
/// would otherwise silently do the wrong thing.
fn check_mono_agreement(job: &RenderJob) -> (r: Result<(), PipelineError>)
    ensures
        job.mono is Some && job.params.mono_eye == MonoEye::Neither ==> (r matches Err(
            PipelineError::MonoSourceUnused,
        )),
        job.mono is None && job.params.mono_eye != MonoEye::Neither ==> (r matches Err(
            PipelineError::MonoSourceMissing(eye),
        ) && eye == job.params.mono_eye),
        (job.mono is Some) == (job.params.mono_eye != MonoEye::Neither) ==> r is Ok,
{
    match (job.mono.is_some(), job.params.mono_eye) {
        (true, MonoEye::Neither) => Err(PipelineError::MonoSourceUnused),
        (false, MonoEye::Left) => Err(PipelineError::MonoSourceMissing(MonoEye::Left)),
        (false, MonoEye::Right) => Err(PipelineError::MonoSourceMissing(MonoEye::Right)),
        _ => Ok(()),
    }
}

/// The two files of a separate render are never the same file. Each path ends in its
/// own name, unless on Windows that has become part of the path's prefix.
pub proof fn law_separate_outputs_differ(output: Seq<char>, windows: bool)
    ensures
        ({
            let left = eye_file_name(output, "-left"@, windows);
            let right = eye_file_name(output, "-right"@, windows);
            let (a, b) = (
                eye_file(output, "-left"@, windows),
                eye_file(output, "-right"@, windows),
            );
            &&& prefix_spares(a, left, windows) ==> name_of(a, windows) == Some(left)
            &&& prefix_spares(b, right, windows) ==> name_of(b, windows) == Some(right)
            &&& !windows ==> prefix_spares(a, left, windows) && prefix_spares(b, right, windows)
            &&& left != right
            &&& a != b
        }),
{
    reveal_strlit("-left");
    reveal_strlit("-right");
    let left = eye_file_name(output, "-left"@, windows);
    let right = eye_file_name(output, "-right"@, windows);
    lemma_eye_file_name_is_plain(output, "-left"@, windows);
    lemma_eye_file_name_is_plain(output, "-right"@, windows);
    if prefix_spares(eye_file(output, "-left"@, windows), left, windows) {
        law_renaming_names_the_new_file(output, left, windows);
    }
    if prefix_spares(eye_file(output, "-right"@, windows), right, windows) {
        law_renaming_names_the_new_file(output, right, windows);
    }
    assert(left.len() + 1 == right.len());
    let stem = match stem_of(output, windows) {
        Some(stem) => stem,
        None => Seq::empty(),
    };
    if stem.len() >= 2 {
        assert(left[0] == right[0] && left[1] == right[1]);
    } else if stem.len() == 1 {
        assert(left[1] == '-' && right[1] == '-');
    } else {
        assert(left[0] == '-' && right[0] == '-');
    }
}

/// A derived name is one that a file can have.
proof fn lemma_eye_file_name_is_plain(output: Seq<char>, suffix: Seq<char>, windows: bool)
    requires
        suffix.len() >= 3,
        no_separator(suffix, windows),
    ensures
        plain_name(eye_file_name(output, suffix, windows), windows),
{
    let name = eye_file_name(output, suffix, windows);
    lemma_name_is_plain(output, windows);
    let stem = match stem_of(output, windows) {
        Some(stem) => stem,
        None => Seq::empty(),
    };
    assert forall|i: int| 0 <= i < name.len() implies !separates(#[trigger] name[i], windows) by {
        if let Some(own) = name_of(output, windows) {
            lemma_dot_in_range(own);
            if i < stem.len() {
                assert(name[i] == own[i]);
            } else if i > stem.len() + suffix.len() {
                assert(name[i] == own[dot_at(own) + i - stem.len() - suffix.len()]);
            }
        }
        if stem.len() <= i < stem.len() + suffix.len() {
            assert(name[i] == suffix[i - stem.len()]);
        }
    }
    assert(name.len() >= 3);
}

/// Everything a checked job needs to run.
#[derive(Debug)]
pub struct RenderPlan {
    pub anaglyph: VideoInfo,
    pub right_eye: Option<VideoInfo>,
    pub colour: Option<VideoInfo>,
    pub mono: Option<VideoInfo>,
    /// How many frames to convert.
    pub span: u64,
    pub outputs: Vec<String>,
    /// The size of a finished frame.
    pub width: usize,
    pub height: usize,
    /// How each output is written.
    pub settings: EncodeSettings,
}

/// What preparing a job comes to: what is worth telling the user, and the plan or
/// what stands against it.
#[derive(Debug)]
pub struct Prepared {
    pub notes: Vec<String>,
    pub outcome: Result<RenderPlan, PipelineError>,
}

/// The outside work a plan is made with.
pub struct Surveyor<P, C, H, W> {
    /// Whether paths are those of Windows.
    pub windows: bool,
    /// Probes a file.
    pub probe: P,
    /// How many frames fill a duration at a rate.
    pub frames: C,
    /// The shape of a picture, from its width, its pixels' shape and its height.
    pub shape: H,
    /// A shape times a ratio.
    pub widen: W,
}

/// The outside work takes every argument, and a file that is probed is of a size
/// that can be worked with.
pub open spec fn surveys_all<
    P: Fn(&str) -> Result<VideoInfo, MediaError>,
    C: Fn(F64, F64) -> u64,
    H: Fn(usize, F64, usize) -> F64,
    W: Fn(F64, Ratio) -> F64,
>(by: &Surveyor<P, C, H, W>) -> bool {
    &&& forall|p: &str| #[trigger] call_requires(by.probe, (p,))
    &&& forall|p: &str, r: Result<VideoInfo, MediaError>| #[trigger]
        call_ensures(by.probe, (p,), r) ==> (r matches Ok(info) ==> info.width <= MAX_DIMENSION
            && info.height <= MAX_DIMENSION)
    &&& forall|d: F64, fps: F64| #[trigger] call_requires(by.frames, (d, fps))
    &&& forall|w: usize, a: F64, h: usize| #[trigger] call_requires(by.shape, (w, a, h))
    &&& forall|a: F64, q: Ratio| #[trigger] call_requires(by.widen, (a, q))
}

/// `r` is what probing a file may say.
pub open spec fn looks<P: Fn(&str) -> Result<VideoInfo, MediaError>>(
    probe: P,
    path: Seq<char>,
    r: Result<VideoInfo, MediaError>,
) -> bool {
    exists|p: &str| p@ == path && #[trigger] call_ensures(probe, (p,), r)
}

/// `r` is what probing an optional source may say.
pub open spec fn looks_if_any<P: Fn(&str) -> Result<VideoInfo, MediaError>>(
    probe: P,
    path: Option<String>,
    r: Result<Option<VideoInfo>, MediaError>,
) -> bool {
    match path {
        None => r == Ok::<Option<VideoInfo>, MediaError>(None),
        Some(p) => match r {
            Ok(Some(info)) => looks(probe, p@, Ok(info)),
            Ok(None) => false,
            Err(e) => looks(probe, p@, Err(e)),
        },
    }
}

/// What is said of a source of another shape.
pub open spec fn note_text(role: Seq<char>, w: nat, h: nat, own_w: nat, own_h: nat) -> Seq<char> {
    role + " is "@ + size_text(w, h) + ", a different shape from the anaglyph's "@ + size_text(
        own_w,
        own_h,
    ) + " \u{2014} resizing it to fit will stretch the picture."@
}

/// The note on one secondary source, where it is of another shape.
pub open spec fn notes_on(role: Seq<char>, info: Option<VideoInfo>, main: VideoInfo) -> Seq<Seq<char>> {
    match info {
        Some(i) => if i.width * main.height != main.width * i.height {
            seq![
                note_text(
                    role,
                    i.width as nat,
                    i.height as nat,
                    main.width as nat,
                    main.height as nat,
                ),
            ]
        } else {
            Seq::empty()
        },
        None => Seq::empty(),
    }
}

/// All the notes on a job.
pub open spec fn all_notes(
    main: VideoInfo,
    colour: Option<VideoInfo>,
    mono: Option<VideoInfo>,
    right_eye: Option<VideoInfo>,
) -> Seq<Seq<char>> {
    notes_on("The colour source"@, colour, main) + notes_on("The 2D eye source"@, mono, main)
        + notes_on("The right-eye file"@, right_eye, main)
}

/// `n` is the best available count of a file's frames, or all that can be counted.
pub open spec fn counts<C: Fn(F64, F64) -> u64>(frames: C, info: VideoInfo, n: u64) -> bool {
    match (info.frame_count, info.duration_secs) {
        (Some(count), _) => n == count,
        (None, Some(d)) => if info.fps.above_zero() && d.above_zero() {
            call_ensures(frames, (d, info.fps), n)
        } else {
            n == u64::MAX
        },
        (None, None) => n == u64::MAX,
    }
}

/// `aspect` is the shape a finished frame should be seen at: the source's own,
/// times what the settings do to it.
pub open spec fn shows_at<H: Fn(usize, F64, usize) -> F64, W: Fn(F64, Ratio) -> F64>(
    shape: H,
    widen: W,
    params: ConvertParams,
    info: VideoInfo,
    aspect: F64,
) -> bool {
    exists|own: F64, by: Ratio|
        (if info.height == 0 {
            own.bits == crate::probe::ONE_64
        } else {
            call_ensures(shape, (info.width, info.sample_aspect, info.height), own)
        }) && (by.num as nat, by.den as nat) == params.output_scale(
            info.width as nat,
            info.height as nat,
        ) && #[trigger] call_ensures(widen, (own, by), aspect)
}

/// `plan` is how a checked job of so many frames is run.
pub open spec fn plan_is<
    P: Fn(&str) -> Result<VideoInfo, MediaError>,
    C: Fn(F64, F64) -> u64,
    H: Fn(usize, F64, usize) -> F64,
    W: Fn(F64, Ratio) -> F64,
>(by: &Surveyor<P, C, H, W>, job: RenderJob, span: nat, plan: RenderPlan) -> bool {
    let info = plan.anaglyph;
    &&& plan.span == span
    &&& crate::encode::texts(plan.outputs@) == outputs_of(
        job.output@,
        job.params.layout,
        by.windows,
    )
    &&& (plan.width as nat, plan.height as nat) == job.params.geometry(
        info.width as nat,
        info.height as nat,
    )
    &&& plan.settings.display_aspect matches Some(aspect) && shows_at(
        by.shape,
        by.widen,
        job.params,
        info,
        aspect,
    )
    &&& plan.settings == (EncodeSettings {
        audio_from: job.audio,
        display_aspect: plan.settings.display_aspect,
        ..job.encode
    })
}

/// `r` is what becomes of a job once every source has been probed.
pub open spec fn plans<
    P: Fn(&str) -> Result<VideoInfo, MediaError>,
    C: Fn(F64, F64) -> u64,
    H: Fn(usize, F64, usize) -> F64,
    W: Fn(F64, Ratio) -> F64,
>(
    by: &Surveyor<P, C, H, W>,
    job: RenderJob,
    info: VideoInfo,
    colour: Option<VideoInfo>,
    mono: Option<VideoInfo>,
    right_eye: Option<VideoInfo>,
    notes: Seq<Seq<char>>,
    r: Result<RenderPlan, PipelineError>,
) -> bool {
    exists|total: u64| #[trigger]
        counts(by.frames, info, total) && notes == all_notes(info, colour, mono, right_eye) && {
            let span = job.params.anaglyph_trim.count(total as nat);
            if span == 0 {
                r matches Err(PipelineError::TrimSelectsNoFrames { name, start, total: t }) && name@
                    == label_of(job.anaglyph@, by.windows) && start == job.params.anaglyph_trim.start && t
                    == total
            } else {
                r matches Ok(plan) && plan.anaglyph == info && plan.colour == colour && plan.mono
                    == mono && plan.right_eye == right_eye && plan_is(by, job, span, plan)
            }
        }
}

/// `r` is what becomes of a job when its right eye has yet to be probed.
pub open spec fn surveys_right<
    P: Fn(&str) -> Result<VideoInfo, MediaError>,
    C: Fn(F64, F64) -> u64,
    H: Fn(usize, F64, usize) -> F64,
    W: Fn(F64, Ratio) -> F64,
>(
    by: &Surveyor<P, C, H, W>,
    job: RenderJob,
    info: VideoInfo,
    colour: Option<VideoInfo>,
    mono: Option<VideoInfo>,
    notes: Seq<Seq<char>>,
    r: Result<RenderPlan, PipelineError>,
) -> bool {
    exists|seen: Result<Option<VideoInfo>, MediaError>| #[trigger]
        looks_if_any(by.probe, job.right_eye, seen) && match seen {
            Err(e) => notes.len() == 0 && r == Err::<RenderPlan, PipelineError>(
                PipelineError::Media(e),
            ),
            Ok(right_eye) => plans(by, job, info, colour, mono, right_eye, notes, r),
        }
}

/// `r` is what becomes of a job when its 2D source has yet to be probed.
pub open spec fn surveys_mono<
    P: Fn(&str) -> Result<VideoInfo, MediaError>,
    C: Fn(F64, F64) -> u64,
    H: Fn(usize, F64, usize) -> F64,
    W: Fn(F64, Ratio) -> F64,
>(
    by: &Surveyor<P, C, H, W>,
    job: RenderJob,
    info: VideoInfo,
    colour: Option<VideoInfo>,
    notes: Seq<Seq<char>>,
    r: Result<RenderPlan, PipelineError>,
) -> bool {
    exists|seen: Result<Option<VideoInfo>, MediaError>| #[trigger]
        looks_if_any(by.probe, job.mono, seen) && match seen {
            Err(e) => notes.len() == 0 && r == Err::<RenderPlan, PipelineError>(
                PipelineError::Media(e),
            ),
            Ok(mono) => surveys_right(by, job, info, colour, mono, notes, r),
        }
}

/// `r` is what becomes of a job when its colour source has yet to be probed.
pub open spec fn surveys_colour<
    P: Fn(&str) -> Result<VideoInfo, MediaError>,
    C: Fn(F64, F64) -> u64,
    H: Fn(usize, F64, usize) -> F64,
    W: Fn(F64, Ratio) -> F64,
>(
    by: &Surveyor<P, C, H, W>,
    job: RenderJob,
    info: VideoInfo,
    notes: Seq<Seq<char>>,
    r: Result<RenderPlan, PipelineError>,
) -> bool {
    exists|seen: Result<Option<VideoInfo>, MediaError>| #[trigger]
        looks_if_any(by.probe, job.colour, seen) && match seen {
            Err(e) => notes.len() == 0 && r == Err::<RenderPlan, PipelineError>(
                PipelineError::Media(e),
            ),
            Ok(colour) => surveys_mono(by, job, info, colour, notes, r),
        }
}

/// `r` is what becomes of a job when its audio source has yet to be probed. An
/// audio source that carries no audio is refused: ffmpeg would be asked to map a
/// stream that is not there, exit immediately, and the first frame write fail
/// with a broken pipe, an error that says nothing at all about the real problem.
pub open spec fn surveys_audio<
    P: Fn(&str) -> Result<VideoInfo, MediaError>,
    C: Fn(F64, F64) -> u64,
    H: Fn(usize, F64, usize) -> F64,
    W: Fn(F64, Ratio) -> F64,
>(
    by: &Surveyor<P, C, H, W>,
    job: RenderJob,
    info: VideoInfo,
    notes: Seq<Seq<char>>,
    r: Result<RenderPlan, PipelineError>,
) -> bool {
    exists|seen: Result<Option<VideoInfo>, MediaError>| #[trigger]
        looks_if_any(by.probe, job.audio, seen) && match seen {
            Err(e) => notes.len() == 0 && r == Err::<RenderPlan, PipelineError>(
                PipelineError::Media(e),
            ),
            Ok(Some(heard)) => if heard.has_audio {
                surveys_colour(by, job, info, notes, r)
            } else {
                notes.len() == 0 && (r matches Err(PipelineError::NoAudioInSource(name)) && name@
                    == label_of(job.audio->0@, by.windows))
            },
            Ok(None) => surveys_colour(by, job, info, notes, r),
        }
}

/// `r` is what becomes of a job: refused by the cheap checks, refused for one of
/// its sources, or planned.
pub open spec fn prepares<
    P: Fn(&str) -> Result<VideoInfo, MediaError>,
    C: Fn(F64, F64) -> u64,
    H: Fn(usize, F64, usize) -> F64,
    W: Fn(F64, Ratio) -> F64,
>(
    by: &Surveyor<P, C, H, W>,
    job: RenderJob,
    notes: Seq<Seq<char>>,
    r: Result<RenderPlan, PipelineError>,
) -> bool {
    if checks(job, Ok(())) {
        surveys_main(by, job, notes, r)
    } else {
        notes.len() == 0 && (r matches Err(e) && checks(job, Err(e)))
    }
}

/// `r` is what becomes of a job that passed the cheap checks.
pub open spec fn surveys_main<
    P: Fn(&str) -> Result<VideoInfo, MediaError>,
    C: Fn(F64, F64) -> u64,
    H: Fn(usize, F64, usize) -> F64,
    W: Fn(F64, Ratio) -> F64,
>(
    by: &Surveyor<P, C, H, W>,
    job: RenderJob,
    notes: Seq<Seq<char>>,
    r: Result<RenderPlan, PipelineError>,
) -> bool {
    exists|seen: Result<VideoInfo, MediaError>| #[trigger]
        looks(by.probe, job.anaglyph@, seen) && match seen {
            Err(e) => notes.len() == 0 && r == Err::<RenderPlan, PipelineError>(
                PipelineError::Media(e),
            ),
            Ok(info) => surveys_audio(by, job, info, notes, r),
        }
}

/// Probes an optional source.
fn probe_secondary<
    P: Fn(&str) -> Result<VideoInfo, MediaError>,
    C: Fn(F64, F64) -> u64,
    H: Fn(usize, F64, usize) -> F64,
    W: Fn(F64, Ratio) -> F64,
>(path: &Option<String>, by: &Surveyor<P, C, H, W>) -> (r: Result<Option<VideoInfo>, MediaError>)
    requires
        surveys_all(by),
    ensures
        looks_if_any(by.probe, *path, r),
{
    match path {
        Some(path) => {
            let p = path.as_str();
            let seen = (by.probe)(p);
            assert(call_ensures(by.probe, (p,), seen));
            assert(looks(by.probe, path@, seen));
            match seen {
                Ok(info) => Ok(Some(info)),
                Err(e) => Err(e),
            }
        },
        None => Ok(None),
    }
}

/// Adds the note on a source of another shape.
fn note_shape(notes: &mut Vec<String>, role: &str, info: &Option<VideoInfo>, main: &VideoInfo)
    ensures
        crate::encode::texts(final(notes)@) == crate::encode::texts(old(notes)@) + notes_on(
            role@,
            *info,
            *main,
        ),
{
    if let Some(i) = info {
        if aspect_differs((i.width, i.height), (main.width, main.height)) {
            let note = role.to_owned().concat(" is ").concat(size(i.width, i.height).as_str()).concat(
                ", a different shape from the anaglyph's ",
            ).concat(size(main.width, main.height).as_str()).concat(
                " \u{2014} resizing it to fit will stretch the picture.",
            );
            notes.push(note);
        }
    }
    assert(crate::encode::texts(notes@) =~= crate::encode::texts(old(notes)@) + notes_on(
        role@,
        *info,
        *main,
    ));
}

/// Plans a checked job whose sources have all been probed.
fn plan_job<
    P: Fn(&str) -> Result<VideoInfo, MediaError>,
    C: Fn(F64, F64) -> u64,
    H: Fn(usize, F64, usize) -> F64,
    W: Fn(F64, Ratio) -> F64,
>(
    job: &RenderJob,
    info: VideoInfo,
    colour: Option<VideoInfo>,
    mono: Option<VideoInfo>,
    right_eye: Option<VideoInfo>,
    by: &Surveyor<P, C, H, W>,
) -> (prepared: Prepared)
    requires
        surveys_all(by),
        checks(*job, Ok(())),
        info.width <= MAX_DIMENSION,
        info.height <= MAX_DIMENSION,
    ensures
        plans(
            by,
            *job,
            info,
            colour,
            mono,
            right_eye,
            crate::encode::texts(prepared.notes@),
            prepared.outcome,
        ),
{
    // Secondary sources are brought to the anaglyph's geometry rather than
    // refused: a 2D release at another resolution is the normal case. A
    // different *shape* is worth mentioning, because resizing will stretch it.
    let mut notes: Vec<String> = Vec::new();
    assert(crate::encode::texts(notes@) =~= Seq::empty());
    note_shape(&mut notes, "The colour source", &colour, &info);
    note_shape(&mut notes, "The 2D eye source", &mono, &info);
    note_shape(&mut notes, "The right-eye file", &right_eye, &info);
    assert(crate::encode::texts(notes@) =~= all_notes(info, colour, mono, right_eye));

    // The anaglyph's range is the timeline: it decides how long the output is,
    // and every other source is read in step with it.
    let available: u64 = match info.estimated_frame_count(&by.frames) {
        Some(n) => n,
        None => u64::MAX,
    };
    assert(counts(by.frames, info, available));
    let span = job.params.anaglyph_trim.length(available);
    if span == 0 {
        let refused = PipelineError::TrimSelectsNoFrames {
            name: file_label(job.anaglyph.as_str(), by.windows),
            start: job.params.anaglyph_trim.start,
            total: available,
        };
        return Prepared { notes, outcome: Err(refused) };
    }

    proof {
        let (eye_w, eye_h) = job.params.input.eye_dims(info.width as nat, info.height as nat);
        crate::scalar::lemma_percent_of_is_a_part(eye_w, job.params.convergence);
    }
    let (width, height) = job.params.output_geometry((info.width, info.height));

    // Carry the source's pixel shape through, or every non-square transfer comes
    // out stretched.
    let own = info.display_aspect(F64 { bits: crate::probe::ONE_64 }, &by.shape);
    let scale = job.params.output_display_aspect((info.width, info.height));
    let aspect = (by.widen)(own, scale);
    assert(call_ensures(by.widen, (own, scale), aspect));
    assert(shows_at(by.shape, by.widen, job.params, info, aspect));
    let mut settings = job.encode.clone();
    settings.audio_from = match &job.audio {
        Some(path) => Some(path.clone()),
        None => None,
    };
    settings.display_aspect = Some(aspect);

    let plan = RenderPlan {
        anaglyph: info,
        right_eye,
        colour,
        mono,
        span,
        outputs: output_paths(job.output.as_str(), job.params.layout, by.windows),
        width,
        height,
        settings,
    };
    assert(plan_is(by, *job, span as nat, plan));
    Prepared { notes, outcome: Ok(plan) }
}

/// Checks a job, probes its sources and plans its run.
pub fn prepare<
    P: Fn(&str) -> Result<VideoInfo, MediaError>,
    C: Fn(F64, F64) -> u64,
    H: Fn(usize, F64, usize) -> F64,
    W: Fn(F64, Ratio) -> F64,
>(job: &RenderJob, by: &Surveyor<P, C, H, W>) -> (prepared: Prepared)
    requires
        surveys_all(by),
    ensures
        prepares(by, *job, crate::encode::texts(prepared.notes@), prepared.outcome),
{
    if let Err(e) = check_job(job) {
        return refuse(e);
    }
    let main = job.anaglyph.as_str();
    let seen = (by.probe)(main);
    assert(call_ensures(by.probe, (main,), seen));
    assert(looks(by.probe, job.anaglyph@, seen));
    let info = match seen {
        Ok(info) => info,
        Err(e) => return refuse(PipelineError::Media(e)),
    };
    match probe_secondary(&job.audio, by) {
        Ok(Some(heard)) => {
            if !heard.has_audio {
                let name = match &job.audio {
                    Some(path) => file_label(path.as_str(), by.windows),
                    None => String::new(),
                };
                return refuse(PipelineError::NoAudioInSource(name));
            }
        },
        Ok(None) => {},
        Err(e) => return refuse(PipelineError::Media(e)),
    }
    let colour = match probe_secondary(&job.colour, by) {
        Ok(seen) => seen,
        Err(e) => return refuse(PipelineError::Media(e)),
    };
    let mono = match probe_secondary(&job.mono, by) {
        Ok(seen) => seen,
        Err(e) => return refuse(PipelineError::Media(e)),
    };
    let right_eye = match probe_secondary(&job.right_eye, by) {
        Ok(seen) => seen,
        Err(e) => return refuse(PipelineError::Media(e)),
    };
    let ghost (c, m, e) = (colour, mono, right_eye);
    let prepared = plan_job(job, info, colour, mono, right_eye, by);
    let ghost (n, r) = (crate::encode::texts(prepared.notes@), prepared.outcome);
    assert(plans(by, *job, info, c, m, e, n, r));
    assert(surveys_right(by, *job, info, c, m, n, r)) by {
        assert(looks_if_any(by.probe, job.right_eye, Ok::<Option<VideoInfo>, MediaError>(e)));
    }
    assert(surveys_mono(by, *job, info, c, n, r)) by {
        assert(looks_if_any(by.probe, job.mono, Ok::<Option<VideoInfo>, MediaError>(m)));
    }
    assert(surveys_colour(by, *job, info, n, r)) by {
        assert(looks_if_any(by.probe, job.colour, Ok::<Option<VideoInfo>, MediaError>(c)));
    }
    prepared
}

/// A refusal with nothing else to tell.
fn refuse(e: PipelineError) -> (prepared: Prepared)
    ensures
        crate::encode::texts(prepared.notes@) == Seq::<Seq<char>>::empty(),
        prepared.outcome == Err::<RenderPlan, PipelineError>(e),
{
    let notes: Vec<String> = Vec::new();
    assert(crate::encode::texts(notes@) =~= Seq::empty());
    Prepared { notes, outcome: Err(e) }
}

impl RenderPlan {
    /// The report that comes before the first frame.
    pub fn started(&self) -> (r: Progress)
        ensures
            r == (Progress::Started {
                total_frames: Some(self.span),
                width: self.anaglyph.width,
                height: self.anaglyph.height,
            }),
    {
        Progress::Started {
            total_frames: Some(self.span),
            width: self.anaglyph.width,
            height: self.anaglyph.height,
        }
    }
}

/// The frames to open each source at: the film, its right eye, the colour source
/// and the 2D source.
///
/// Each source is seeked to its own start, which is what puts two differently
/// edited releases onto the same moment. The right eye is read in step with the
/// film, so it shares its range: two per-eye files come from the same master and
/// start together.
pub fn opening_frames(params: &ConvertParams) -> (r: (u64, u64, u64, u64))
    ensures
        r == (
            params.anaglyph_trim.start,
            params.anaglyph_trim.start,
            params.colour_trim.start,
            params.mono_trim.start,
        ),
{
    (
        params.anaglyph_trim.start,
        params.anaglyph_trim.start,
        params.colour_trim.start,
        params.mono_trim.start,
    )
}

/// The sources of a job are read in step from where they are opened: the `k`-th
/// frame read of a secondary source is the one aligned with the `k`-th frame of
/// the film.
pub proof fn law_sources_are_read_in_step(params: ConvertParams, other: crate::params::SourceTrim, k: nat)
    requires
        other.start + k <= u64::MAX,
    ensures
        other.start + k == params.aligned(other, params.anaglyph_trim.start as nat + k),
{
}

/// How far a run has come.
#[derive(Debug)]
pub struct RenderRun {
    /// How many frames to convert.
    pub span: u64,
    /// How many have been converted.
    pub frames: u64,
    pub cancelled: bool,
    /// Whether the run is over.
    pub over: bool,
}

/// What a run does next.
#[derive(Debug, Clone, Copy, PartialEq, Eq, Structural)]
pub enum NextStep {
    /// Convert the frame that was read, and write it.
    Convert,
    /// Close the outputs.
    Finish,
}

/// What one turn of a run finds: whether there was a frame to read, and whether
/// the run has been cancelled.
pub struct Turn {
    pub got_frame: bool,
    pub cancel: bool,
}

/// How far a run has come, in mathematical terms.
pub struct RunView {
    pub span: nat,
    pub frames: nat,
    pub cancelled: bool,
    pub over: bool,
}

impl View for RenderRun {
    type V = RunView;

    open spec fn view(&self) -> RunView {
        RunView {
            span: self.span as nat,
            frames: self.frames as nat,
            cancelled: self.cancelled,
            over: self.over,
        }
    }
}

impl RunView {
    pub open spec fn wf(self) -> bool {
        self.frames <= self.span
    }

    /// What a turn comes to. The end of the file, a cancellation and the end of the
    /// span each end the run, in that order; otherwise a frame is converted.
    pub open spec fn step(self, turn: Turn) -> NextStep {
        if self.over || !turn.got_frame || turn.cancel || self.frames >= self.span {
            NextStep::Finish
        } else {
            NextStep::Convert
        }
    }

    /// Where the run is after a turn and the conversion that follows from it.
    pub open spec fn after(self, turn: Turn) -> RunView {
        if self.over {
            self
        } else if self.step(turn) == NextStep::Convert {
            RunView { frames: self.frames + 1, ..self }
        } else {
            RunView {
                over: true,
                cancelled: self.cancelled || turn.got_frame && turn.cancel,
                ..self
            }
        }
    }
}

impl RenderRun {
    pub fn new(span: u64) -> (r: Self)
        ensures
            r@ == run_start(span as nat),
            r@.wf(),
    {
        RenderRun { span, frames: 0, cancelled: false, over: false }
    }

    /// Decides what follows from trying to read a frame. `cancel` is looked at
    /// once per frame, so stopping takes at most one frame's work.
    pub fn after_read(&mut self, turn: Turn) -> (r: NextStep)
        requires
            old(self)@.wf(),
        ensures
            r == old(self)@.step(turn),
            final(self)@.wf(),
            r == NextStep::Convert ==> final(self)@ == old(self)@,
            r == NextStep::Finish ==> final(self)@ == old(self)@.after(turn),
    {
        if self.over {
            return NextStep::Finish;
        }
        if !turn.got_frame {
            self.over = true;
            return NextStep::Finish;
        }
        if turn.cancel {
            self.cancelled = true;
            self.over = true;
            return NextStep::Finish;
        }
        if self.frames >= self.span {
            self.over = true;
            return NextStep::Finish;
        }
        NextStep::Convert
    }

    /// Takes note of a converted frame, and reports it.
    pub fn after_convert(&mut self) -> (r: Progress)
        requires
            old(self)@.wf(),
            !old(self).over,
            old(self).frames < old(self).span,
        ensures
            final(self)@ == old(self)@.after(Turn { got_frame: true, cancel: false }),
            final(self)@.wf(),
            r == (Progress::Frame { done: final(self).frames, total: Some(old(self).span) }),
    {
        self.frames = self.frames + 1;
        Progress::Frame { done: self.frames, total: Some(self.span) }
    }

    /// The last report.
    pub fn finished(&self) -> (r: Progress)
        ensures
            r == (Progress::Finished { frames: self.frames, cancelled: self.cancelled }),
    {
        Progress::Finished { frames: self.frames, cancelled: self.cancelled }
    }

    /// What the run produced.
    pub fn summary(&self, outputs: Vec<String>) -> (r: RenderSummary)
        ensures
            r.frames == self.frames,
            r.cancelled == self.cancelled,
            r.outputs == outputs,
    {
        RenderSummary { frames: self.frames, outputs, cancelled: self.cancelled }
    }
}

pub open spec fn run_start(span: nat) -> RunView {
    RunView { span, frames: 0, cancelled: false, over: false }
}

/// Where a run is after some turns.
pub open spec fn run_after(span: nat, turns: Seq<Turn>) -> RunView
    decreases turns.len(),
{
    if turns.len() == 0 {
        run_start(span)
    } else {
        run_after(span, turns.drop_last()).after(turns.last())
    }
}

/// No run converts more than its span.
pub proof fn law_a_run_never_exceeds_its_span(span: nat, turns: Seq<Turn>)
    ensures
        run_after(span, turns).frames <= span,
        run_after(span, turns).span == span,
    decreases turns.len(),
{
    if turns.len() > 0 {
        law_a_run_never_exceeds_its_span(span, turns.drop_last());
    }
}

/// A run that is not stopped converts every frame it reads, up to its span, and
/// is not said to have been cancelled.
pub proof fn law_an_uninterrupted_run_converts_its_span(span: nat, turns: Seq<Turn>)
    requires
        forall|i: int| 0 <= i < turns.len() ==> (#[trigger] turns[i]).got_frame && !turns[i].cancel,
    ensures
        run_after(span, turns).frames == (if turns.len() < span {
            turns.len()
        } else {
            span
        }),
        !run_after(span, turns).cancelled,
        run_after(span, turns).over == (turns.len() > span),
    decreases turns.len(),
{
    if turns.len() > 0 {
        let before = turns.drop_last();
        assert forall|i: int| 0 <= i < before.len() implies (#[trigger] before[i]).got_frame
            && !before[i].cancel by {
            assert(before[i] == turns[i]);
        }
        law_an_uninterrupted_run_converts_its_span(span, before);
        law_a_run_never_exceeds_its_span(span, before);
        assert(turns[turns.len() - 1] == turns.last());
    }
}

/// What a run reports turn by turn: each converted frame, and nothing else.
pub open spec fn frames_reported(span: u64, turns: Seq<Turn>) -> Seq<Progress>
    decreases turns.len(),
{
    if turns.len() == 0 {
        Seq::empty()
    } else {
        let before = run_after(span as nat, turns.drop_last());
        let said = frames_reported(span, turns.drop_last());
        if before.step(turns.last()) == NextStep::Convert {
            said.push(Progress::Frame { done: (before.frames + 1) as u64, total: Some(span) })
        } else {
            said
        }
    }
}

/// Everything a run reports from its start to its end.
pub open spec fn run_reports(started: Progress, span: u64, turns: Seq<Turn>) -> Seq<Progress> {
    let run = run_after(span as nat, turns);
    seq![started] + frames_reported(span, turns) + seq![
        Progress::Finished { frames: run.frames as u64, cancelled: run.cancelled },
    ]
}

/// Progress counts every frame and ends once: a run says that it has started, counts
/// its frames one by one from the first to the last, and says that it has finished,
/// with that count.
pub proof fn law_progress_counts_every_frame_and_ends_once(
    started: Progress,
    span: u64,
    turns: Seq<Turn>,
)
    ensures
        ({
            let run = run_after(span as nat, turns);
            let said = run_reports(started, span, turns);
            &&& said.len() == run.frames + 2
            &&& said[0] == started
            &&& forall|i: int|
                1 <= i <= run.frames ==> #[trigger] said[i] == (Progress::Frame {
                    done: i as u64,
                    total: Some(span),
                })
            &&& said.last() == (Progress::Finished {
                frames: run.frames as u64,
                cancelled: run.cancelled,
            })
        }),
{
    lemma_frames_reported(span, turns);
    let run = run_after(span as nat, turns);
    let said = run_reports(started, span, turns);
    assert forall|i: int| 1 <= i <= run.frames implies #[trigger] said[i] == (Progress::Frame {
        done: i as u64,
        total: Some(span),
    }) by {
        assert(said[i] == frames_reported(span, turns)[i - 1]);
    }
}

proof fn lemma_frames_reported(span: u64, turns: Seq<Turn>)
    ensures
        frames_reported(span, turns).len() == run_after(span as nat, turns).frames,
        forall|i: int|
            0 <= i < frames_reported(span, turns).len() ==> #[trigger] frames_reported(span, turns)[i]
                == (Progress::Frame { done: (i + 1) as u64, total: Some(span) }),
    decreases turns.len(),
{
    if turns.len() > 0 {
        lemma_frames_reported(span, turns.drop_last());
    }
}

/// Once a run is over nothing changes it.
pub proof fn law_a_run_that_is_over_stays_so(run: RunView, turn: Turn)
    requires
        run.over,
    ensures
        run.after(turn) == run,
        run.step(turn) == NextStep::Finish,
{
}

/// A cancelled run stops at once and says so: the frame at hand is not converted.
pub proof fn law_cancelling_stops_at_once(run: RunView, turn: Turn)
    requires
        !run.over,
        turn.got_frame,
        turn.cancel,
    ensures
        run.step(turn) == NextStep::Finish,
        run.after(turn).cancelled,
        run.after(turn).over,
        run.after(turn).frames == run.frames,
{
}

/// Keeps the frame a secondary source is at: the one just read, or the last one
/// where the source has run short.
///
/// A source running short holds its last frame rather than ending the run: a 2D
/// release a few frames shorter than the anaglyph should not truncate the
/// conversion.
pub fn next_or_hold<T>(held: &mut Option<T>, fresh: Option<T>)
    ensures
        *final(held) == (if fresh is Some {
            fresh
        } else {
            *old(held)
        }),
{
    if fresh.is_some() {
        *held = fresh;
    }
}

/// A picture of a size that can be worked with.
pub open spec fn workable<S>(image: Image<S>) -> bool {
    &&& image.wf()
    &&& image.channels == 3
    &&& 0 < image.width <= MAX_DIMENSION
    &&& 0 < image.height <= MAX_DIMENSION
}

/// What a pair can be taken from: pictures of sizes that can be worked with, two
/// eyes in a packed one, and a right eye where a second file is to supply it.
pub open spec fn presentable<S>(given: Shown<S>, params: ConvertParams) -> bool {
    &&& workable(given.primary)
    &&& given.right_eye matches Some(f) ==> workable(f)
    &&& given.colour matches Some(f) ==> workable(f)
    &&& given.mono matches Some(f) ==> workable(f)
    &&& params.input is TwoFiles ==> given.right_eye is Some
    &&& params.input matches InputMode::Packed { packing, .. } ==> stretchable(given.primary, packing)
}

/// What can be converted: what a pair can be taken from, under valid settings.
pub open spec fn convertible<S>(given: Shown<S>, params: ConvertParams) -> bool {
    &&& params.fault() is None
    &&& presentable(given, params)
}

/// Whether a frame and what stands beside it hold two eyes: the other one, where a
/// second file is to supply it, and room for two in a packed frame.
pub fn holds_a_pair<S: Copy>(primary: &FrameF32<S>, has_right_eye: bool, input: InputMode) -> (r: bool)
    requires
        workable(primary@),
    ensures
        r == ((input is TwoFiles ==> has_right_eye) && (input matches InputMode::Packed {
            packing,
            ..
        } ==> stretchable(primary@, packing))),
{
    match input {
        InputMode::Anaglyph => true,
        InputMode::Packed { packing, order: _, anamorphic: _ } => match packing {
            StereoPacking::SideBySide => primary.width() >= 2,
            StereoPacking::TopBottom => primary.height() >= 2,
        },
        InputMode::TwoFiles => has_right_eye,
    }
}

/// `out` is an optional source brought to a geometry.
pub open spec fn brought<S, V: Fn(&FrameF32<S>, usize, usize) -> FrameF32<S>>(
    stretch: V,
    source: Option<Image<S>>,
    width: nat,
    height: nat,
    out: Option<Image<S>>,
) -> bool {
    match (source, out) {
        (Some(a), Some(b)) => conformed(stretch, a, width as usize, height as usize, b),
        (None, None) => true,
        _ => false,
    }
}

/// `shown` is what a step is given, each source brought to the geometry it is
/// needed at.
pub open spec fn all_brought<S, V: Fn(&FrameF32<S>, usize, usize) -> FrameF32<S>>(
    stretch: V,
    given: Shown<S>,
    params: ConvertParams,
    shown: Shown<S>,
) -> bool {
    let (w, h) = (given.primary.width, given.primary.height);
    let (eye_w, eye_h) = params.input.eye_dims(w, h);
    &&& shown.primary == given.primary
    &&& brought(stretch, given.right_eye, w, h, shown.right_eye)
    &&& brought(stretch, given.colour, w, h, shown.colour)
    &&& brought(stretch, given.mono, eye_w, eye_h, shown.mono)
}

/// `frames` are the finished frames of a pair.
pub open spec fn finishes<S, V: Fn(&FrameF32<S>, usize, usize) -> FrameF32<S>>(
    stretch: V,
    params: ConvertParams,
    eyes: Eyes<S>,
    frames: Seq<FrameF32<S>>,
) -> bool {
    let laid = laid_out(eyes, params);
    &&& frames.len() == laid.len()
    &&& forall|i: int| 0 <= i < laid.len() ==> sized(stretch, params, laid[i], (#[trigger] frames[i])@)
}

/// `eyes` are the pair that one step makes of what was read, every source brought
/// to the film's geometry first.
pub open spec fn pairs<
    S,
    T: Fn(TransferFunction, S) -> S,
    U: Fn(TransferFunction, S) -> S,
    P: Fn(EyeProjection, S, S, S) -> S,
    C: Fn(F32, S, S) -> S,
    R: Fn(ColourRestore, EyeProjection, S, (S, S, S)) -> (S, S, S),
    G: Fn(Grade, (S, S, S)) -> (S, S, S),
    A: Fn(S, S, S) -> S,
    Q: Fn(S, S) -> S,
    L: Fn(S, S, S) -> S,
    M: Fn(S, usize) -> S,
    K: Fn(F32) -> Vec<S>,
    B: Fn(F32) -> [usize; 3],
    V: Fn(&FrameF32<S>, usize, usize) -> FrameF32<S>,
    I: Fn(F32) -> F32,
    D: Fn(F32) -> F32,
    O: Fn(F32) -> F32,
>(
    by: &StrengthMath<I, D, O>,
    math: &RecoveryMath<S, T, U, P, C, R, G, A, Q, L, M, K, B>,
    stretch: &V,
    given: Shown<S>,
    params: ConvertParams,
    eyes: Eyes<S>,
) -> bool {
    exists|shown: Shown<S>|
        all_brought(*stretch, given, params, shown) && #[trigger] frame_processed(
            by,
            math,
            stretch,
            shown,
            params,
            eyes,
        )
}

/// `frames` are what one step of a render makes of what was read.
pub open spec fn converts<
    S,
    T: Fn(TransferFunction, S) -> S,
    U: Fn(TransferFunction, S) -> S,
    P: Fn(EyeProjection, S, S, S) -> S,
    C: Fn(F32, S, S) -> S,
    R: Fn(ColourRestore, EyeProjection, S, (S, S, S)) -> (S, S, S),
    G: Fn(Grade, (S, S, S)) -> (S, S, S),
    A: Fn(S, S, S) -> S,
    Q: Fn(S, S) -> S,
    L: Fn(S, S, S) -> S,
    M: Fn(S, usize) -> S,
    K: Fn(F32) -> Vec<S>,
    B: Fn(F32) -> [usize; 3],
    V: Fn(&FrameF32<S>, usize, usize) -> FrameF32<S>,
    I: Fn(F32) -> F32,
    D: Fn(F32) -> F32,
    O: Fn(F32) -> F32,
>(
    by: &StrengthMath<I, D, O>,
    math: &RecoveryMath<S, T, U, P, C, R, G, A, Q, L, M, K, B>,
    stretch: &V,
    given: Shown<S>,
    params: ConvertParams,
    frames: Seq<FrameF32<S>>,
) -> bool {
    exists|eyes: Eyes<S>| #[trigger]
        pairs(by, math, stretch, given, params, eyes) && finishes(
            *stretch,
            params,
            eyes,
            frames,
        )
}

/// Brings an optional source to a geometry.
fn bring<S: Copy, V: Fn(&FrameF32<S>, usize, usize) -> FrameF32<S>>(
    source: Option<&FrameF32<S>>,
    width: usize,
    height: usize,
    stretch: &V,
) -> (out: Option<FrameF32<S>>)
    requires
        source matches Some(f) ==> workable(f@),
        0 < width <= MAX_DIMENSION,
        0 < height <= MAX_DIMENSION,
        12 * MAX_DIMENSION * MAX_DIMENSION <= usize::MAX,
        stretches(stretch),
    ensures
        brought(
            *stretch,
            shows(source),
            width as nat,
            height as nat,
            (match out {
                Some(f) => Some(f@),
                None => None,
            }),
        ),
        out matches Some(f) ==> f@.wf() && f@.channels == 3 && f@.width == width && f@.height
            == height,
{
    match source {
        Some(f) => {
            proof {
                lemma_area(width as int, f@.height as int);
                lemma_area(width as int, height as int);
                assert(resizable(f@, width as int, height as int));
            }
            Some(conform_to(f, width, height, stretch))
        },
        None => None,
    }
}

/// A picture of a size that can be worked with has no more samples than two such
/// pictures side by side.
proof fn lemma_area(w: int, h: int)
    requires
        0 <= w <= 2 * MAX_DIMENSION,
        0 <= h <= 2 * MAX_DIMENSION,
    ensures
        0 <= w * h,
        w * h * 3 <= 12 * MAX_DIMENSION * MAX_DIMENSION,
{
    assert(0 <= w * h <= 65536 * 65536) by (nonlinear_arith)
        requires
            0 <= w <= 65536,
            0 <= h <= 65536,
    ;
}

/// Takes the pair of one step from its sources, each brought to the film's
/// geometry.
///
/// Conforming here rather than at the source keeps the requirement in one place:
/// everything downstream sees one geometry.
pub fn process_step<
    S: Copy + Send + Sync,
    T: Fn(TransferFunction, S) -> S + Sync + Send,
    U: Fn(TransferFunction, S) -> S + Sync + Send,
    P: Fn(EyeProjection, S, S, S) -> S + Sync + Send,
    C: Fn(F32, S, S) -> S,
    R: Fn(ColourRestore, EyeProjection, S, (S, S, S)) -> (S, S, S),
    G: Fn(Grade, (S, S, S)) -> (S, S, S),
    A: Fn(S, S, S) -> S + Sync + Send,
    Q: Fn(S, S) -> S + Sync + Send,
    L: Fn(S, S, S) -> S + Sync + Send,
    M: Fn(S, usize) -> S + Sync + Send,
    K: Fn(F32) -> Vec<S>,
    B: Fn(F32) -> [usize; 3],
    V: Fn(&FrameF32<S>, usize, usize) -> FrameF32<S>,
    I: Fn(F32) -> F32,
    D: Fn(F32) -> F32,
    O: Fn(F32) -> F32,
>(
    given: Sources<'_, S>,
    params: &ConvertParams,
    by: &StrengthMath<I, D, O>,
    math: &RecoveryMath<S, T, U, P, C, R, G, A, Q, L, M, K, B>,
    stretch: &V,
) -> (pair: StereoPair<S>)
    requires
        presentable(given@, *params),
        12 * MAX_DIMENSION * MAX_DIMENSION <= usize::MAX,
        measures_all(by),
        recovers_all(math),
        stretches(stretch),
    ensures
        pairs(
            by,
            math,
            stretch,
            given@,
            *params,
            (Eyes { left: pair.left@, right: pair.right@ }),
        ),
        pair.wf(),
        pair.left@.channels == 3,
        ({
            let (eye_w, eye_h) = params.input.eye_dims(
                given.primary@.width,
                given.primary@.height,
            );
            pair.left@.width == converged_to(eye_w, params.convergence) && pair.left@.height == eye_h
        }),
{
    let (w, h) = (given.primary.width(), given.primary.height());
    let (eye_w, eye_h) = params.eye_size((w, h));
    let right_eye = bring(given.right_eye, w, h, stretch);
    let colour = bring(given.colour, w, h, stretch);
    let mono = bring(given.mono, eye_w, eye_h, stretch);
    let sources = Sources {
        primary: given.primary,
        right_eye: right_eye.as_ref(),
        colour: colour.as_ref(),
        mono: mono.as_ref(),
    };
    let ghost shown = sources@;
    assert(all_brought(*stretch, given@, *params, shown));
    assert(sources_fit(shown, *params));
    process_frame(sources, params, by, math, stretch)
}

/// Converts one frame of a render: takes the pair from its sources and lays it out.
pub fn convert_step<
    S: Copy + Send + Sync,
    T: Fn(TransferFunction, S) -> S + Sync + Send,
    U: Fn(TransferFunction, S) -> S + Sync + Send,
    P: Fn(EyeProjection, S, S, S) -> S + Sync + Send,
    C: Fn(F32, S, S) -> S,
    R: Fn(ColourRestore, EyeProjection, S, (S, S, S)) -> (S, S, S),
    G: Fn(Grade, (S, S, S)) -> (S, S, S),
    A: Fn(S, S, S) -> S + Sync + Send,
    Q: Fn(S, S) -> S + Sync + Send,
    L: Fn(S, S, S) -> S + Sync + Send,
    M: Fn(S, usize) -> S + Sync + Send,
    K: Fn(F32) -> Vec<S>,
    B: Fn(F32) -> [usize; 3],
    V: Fn(&FrameF32<S>, usize, usize) -> FrameF32<S>,
    I: Fn(F32) -> F32,
    D: Fn(F32) -> F32,
    O: Fn(F32) -> F32,
>(
    given: Sources<'_, S>,
    params: &ConvertParams,
    by: &StrengthMath<I, D, O>,
    math: &RecoveryMath<S, T, U, P, C, R, G, A, Q, L, M, K, B>,
    stretch: &V,
) -> (frames: Vec<FrameF32<S>>)
    requires
        convertible(given@, *params),
        12 * MAX_DIMENSION * MAX_DIMENSION <= usize::MAX,
        measures_all(by),
        recovers_all(math),
        stretches(stretch),
    ensures
        converts(by, math, stretch, given@, *params, frames@),
        forall|i: int|
            0 <= i < frames@.len() ==> ((#[trigger] frames@[i])@.width, frames@[i]@.height)
                == params.geometry(given@.primary.width, given@.primary.height),
{
    let ghost (w, h) = (given.primary@.width, given.primary@.height);
    let ghost (eye_w, eye_h) = params.input.eye_dims(w, h);
    let pair = process_step(given, params, by, math, stretch);
    let ghost eyes = Eyes { left: pair.left@, right: pair.right@ };
    proof {
        crate::params::law_valid_settings_are_in_range(*params);
        crate::scalar::lemma_small_percent_leaves_some(eye_w, params.convergence);
        crate::scalar::lemma_percent_of_is_a_part(eye_w, params.convergence);
        let (kept, eh) = (eyes.left.width as int, eyes.left.height as int);
        assert(0 < kept <= MAX_DIMENSION && 0 < eh <= MAX_DIMENSION);
        lemma_area(2 * kept, eh);
        lemma_area(kept, 2 * eh);
        if let Some((out_w, out_h)) = params.output_size {
            lemma_area(out_w as int, 2 * eh);
            lemma_area(out_w as int, out_h as int);
        }
        assert(fits_layout(eyes, *params));
    }
    let frames = compose_output(&pair, params, stretch);
    assert(finishes(*stretch, *params, eyes, frames@));
    proof {
        assert forall|i: int| 0 <= i < frames@.len() implies ((#[trigger] frames@[i])@.width, frames@[i]@.height)
            == params.geometry(w, h) by {
            lemma_laid_out_wf(eyes, *params, i);
            crate::pipeline::law_finished_frames_have_the_promised_geometry(
                stretch,
                *params,
                w,
                h,
                eyes,
                i,
                frames@[i]@,
            );
        }
    }
    frames
}

/// A laid-out frame is well-formed.
proof fn lemma_laid_out_wf<S>(eyes: Eyes<S>, params: ConvertParams, i: int)
    requires
        eyes.left.wf() && eyes.right.wf(),
        eyes.left.same_size(eyes.right),
        eyes.left.channels == eyes.right.channels == 3,
        0 <= i < laid_out(eyes, params).len(),
    ensures
        laid_out(eyes, params)[i].wf(),
{
    if params.layout == OutputLayout::Anaglyph {
        crate::extract::lemma_muxed_plane(eyes.left, eyes.right, params.output_format, 0);
    }
}

/// A job is refused before any work for invalid settings, then for a 2D source without an
/// eye, an eye without a 2D source, and a pair of files without the second; and for
/// nothing else.
pub proof fn law_a_misconfigured_job_is_refused(
    job: &RenderJob,
    valid: Result<(), ParamsError>,
    r: Result<(), PipelineError>,
)
    requires
        call_ensures(ConvertParams::validate, (&job.params,), valid),
        call_ensures(check_job, (job,), r),
    ensures
        valid is Err ==> (r matches Err(PipelineError::Params(e)) && e.fault() == valid->Err_0.fault()),
        valid is Ok && job.mono is Some && job.params.mono_eye == MonoEye::Neither ==> r matches Err(
            PipelineError::MonoSourceUnused,
        ),
        valid is Ok && job.mono is None && job.params.mono_eye == MonoEye::Left ==> r matches Err(
            PipelineError::MonoSourceMissing(MonoEye::Left),
        ),
        valid is Ok && job.mono is None && job.params.mono_eye == MonoEye::Right ==> r matches Err(
            PipelineError::MonoSourceMissing(MonoEye::Right),
        ),
        valid is Ok && (job.mono is Some <==> job.params.mono_eye != MonoEye::Neither)
            && job.params.input is TwoFiles && job.right_eye is None ==> r matches Err(
            PipelineError::RightEyeMissing,
        ),
        r is Ok <==> valid is Ok && (job.mono is Some <==> job.params.mono_eye != MonoEye::Neither) && (
        job.params.input is TwoFiles ==> job.right_eye is Some),
{
}

/// Each refusal says what is wrong, and with which source or eye.
pub proof fn law_each_refusal_says_what_is_wrong<F: Fn(F32) -> String>(
    e: &PipelineError,
    show: &F,
    text: String,
)
    requires
        call_ensures(PipelineError::message::<F>, (e, show), text),
    ensures
        *e is MonoSourceUnused ==> text@
            == "a 2D source was named but mono_eye is set to none, so it would be ignored"@,
        *e == PipelineError::MonoSourceMissing(MonoEye::Left) ==> text@ == "mono_eye is set to "@
            + "Left"@ + " but no 2D source was given"@,
        *e == PipelineError::MonoSourceMissing(MonoEye::Right) ==> text@ == "mono_eye is set to "@
            + "Right"@ + " but no 2D source was given"@,
        *e is RightEyeMissing ==> text@
            == "the source is set to two files, but no second file was given"@,
        *e matches PipelineError::TrimSelectsNoFrames { name, start, total } ==> text@
            == "the chosen range selects no frames from "@ + name@ + ": it starts at "@ + decimal_text(
            start as nat,
        ) + " and the file has "@ + decimal_text(total as nat) + " frames"@,
        *e matches PipelineError::NoAudioInSource(name) ==> text@ == name@
            + " has no audio stream to copy"@,
        *e matches PipelineError::Params(inner) ==> exists|said: Seq<char>| #[trigger]
            crate::params::tells(*show, inner.fault(), said) && text@ == "invalid settings: "@ + said,
        *e matches PipelineError::Media(inner) ==> text@ == inner.text(),
{
}

/// One file is written to the path that was given; two are written beside it, the left eye
/// first, each named after it with its eye behind the stem.
pub proof fn law_outputs_are_named_after_their_eye(
    output: &str,
    layout: OutputLayout,
    windows: bool,
    paths: Vec<String>,
    stem: Option<String>,
    ext: Option<String>,
)
    requires
        call_ensures(output_paths, (output, layout, windows), paths),
        call_ensures(file_stem, (output, windows), stem),
        call_ensures(extension, (output, windows), ext),
    ensures
        layout != OutputLayout::Separate ==> paths@.len() == 1 && paths@[0]@ == output@,
        layout == OutputLayout::Separate ==> paths@.len() == 2,
        layout == OutputLayout::Separate ==> (stem matches Some(s) ==> (ext matches Some(e)
            ==> paths@[0]@ == renamed(output@, (s@ + "-left"@).push('.') + e@, windows)
            && paths@[1]@ == renamed(output@, (s@ + "-right"@).push('.') + e@, windows))),
        layout == OutputLayout::Separate ==> (stem matches Some(s) ==> (ext is None ==> paths@[0]@
            == renamed(output@, s@ + "-left"@, windows) && paths@[1]@ == renamed(
            output@,
            s@ + "-right"@,
            windows,
        ))),
{
    let said = crate::encode::texts(paths@);
    assert(said.len() == paths@.len());
    assert(said[0] == paths@[0]@);
    if layout == OutputLayout::Separate {
        assert(said[1] == paths@[1]@);
    }
}

/// A plan is of the job's own files, each probed under its own path; it is to write the
/// job's outputs, as the job is to be encoded, with the job's audio, which was heard to be
/// there; and it covers the frames of the film that are in the film's range.
pub proof fn law_a_plan_is_of_its_job<
    P: Fn(&str) -> Result<VideoInfo, MediaError>,
    C: Fn(F64, F64) -> u64,
    H: Fn(usize, F64, usize) -> F64,
    W: Fn(F64, Ratio) -> F64,
>(
    job: &RenderJob,
    by: &Surveyor<P, C, H, W>,
    prepared: Prepared,
    plan: RenderPlan,
)
    requires
        call_ensures(prepare::<P, C, H, W>, (job, by), prepared),
        prepared.outcome == Ok::<RenderPlan, PipelineError>(plan),
    ensures
        checks(*job, Ok(())),
        looks(by.probe, job.anaglyph@, Ok(plan.anaglyph)),
        match (job.colour, plan.colour) {
            (Some(path), Some(info)) => looks(by.probe, path@, Ok(info)),
            (path, info) => path is None && info is None,
        },
        match (job.mono, plan.mono) {
            (Some(path), Some(info)) => looks(by.probe, path@, Ok(info)),
            (path, info) => path is None && info is None,
        },
        match (job.right_eye, plan.right_eye) {
            (Some(path), Some(info)) => looks(by.probe, path@, Ok(info)),
            (path, info) => path is None && info is None,
        },
        job.audio matches Some(path) ==> exists|heard: VideoInfo| #[trigger]
            looks(by.probe, path@, Ok(heard)) && heard.has_audio,
        plan.span > 0,
        exists|total: u64| #[trigger]
            counts(by.frames, plan.anaglyph, total) && plan.span == job.params.anaglyph_trim.count(
                total as nat,
            ),
        plan.settings.codec == job.encode.codec,
        plan.settings.quality == job.encode.quality,
        plan.settings.bitrate_kbps == job.encode.bitrate_kbps,
        plan.settings.keyframe_interval == job.encode.keyframe_interval,
        plan.settings.prores_profile == job.encode.prores_profile,
        plan.settings.fps == job.encode.fps,
        plan.settings.audio_from == job.audio,
        plan.settings.display_aspect is Some,
        (plan.width as nat, plan.height as nat) == job.params.geometry(
            plan.anaglyph.width as nat,
            plan.anaglyph.height as nat,
        ),
        crate::encode::texts(plan.outputs@) == outputs_of(
            job.output@,
            job.params.layout,
            by.windows,
        ),
{
    let n = crate::encode::texts(prepared.notes@);
    let r = prepared.outcome;
    let info = lemma_main_was_seen(job, by, n, r);
    let (colour, mono, right_eye) = lemma_sources_were_seen(job, by, info, n, r);
    assert(plans(by, *job, info, colour, mono, right_eye, n, r));
}

proof fn lemma_main_was_seen<
    P: Fn(&str) -> Result<VideoInfo, MediaError>,
    C: Fn(F64, F64) -> u64,
    H: Fn(usize, F64, usize) -> F64,
    W: Fn(F64, Ratio) -> F64,
>(
    job: &RenderJob,
    by: &Surveyor<P, C, H, W>,
    n: Seq<Seq<char>>,
    r: Result<RenderPlan, PipelineError>,
) -> (info: VideoInfo)
    requires
        prepares(by, *job, n, r),
        r is Ok,
    ensures
        checks(*job, Ok(())),
        looks(by.probe, job.anaglyph@, Ok(info)),
        surveys_audio(by, *job, info, n, r),
{
    let seen = choose|seen: Result<VideoInfo, MediaError>| #[trigger]
        looks(by.probe, job.anaglyph@, seen) && match seen {
            Err(e) => n.len() == 0 && r == Err::<RenderPlan, PipelineError>(PipelineError::Media(e)),
            Ok(info) => surveys_audio(by, *job, info, n, r),
        };
    seen->Ok_0
}

proof fn lemma_sources_were_seen<
    P: Fn(&str) -> Result<VideoInfo, MediaError>,
    C: Fn(F64, F64) -> u64,
    H: Fn(usize, F64, usize) -> F64,
    W: Fn(F64, Ratio) -> F64,
>(
    job: &RenderJob,
    by: &Surveyor<P, C, H, W>,
    info: VideoInfo,
    n: Seq<Seq<char>>,
    r: Result<RenderPlan, PipelineError>,
) -> (seen: (Option<VideoInfo>, Option<VideoInfo>, Option<VideoInfo>))
    requires
        surveys_audio(by, *job, info, n, r),
        r is Ok,
    ensures
        plans(by, *job, info, seen.0, seen.1, seen.2, n, r),
        looks_if_any(by.probe, job.colour, Ok::<Option<VideoInfo>, MediaError>(seen.0)),
        looks_if_any(by.probe, job.mono, Ok::<Option<VideoInfo>, MediaError>(seen.1)),
        looks_if_any(by.probe, job.right_eye, Ok::<Option<VideoInfo>, MediaError>(seen.2)),
        job.audio matches Some(path) ==> exists|heard: VideoInfo| #[trigger]
            looks(by.probe, path@, Ok(heard)) && heard.has_audio,
{
    assert(surveys_colour(by, *job, info, n, r));
    let a = choose|a: Result<Option<VideoInfo>, MediaError>| #[trigger]
        looks_if_any(by.probe, job.colour, a) && match a {
            Err(e) => n.len() == 0 && r == Err::<RenderPlan, PipelineError>(PipelineError::Media(e)),
            Ok(colour) => surveys_mono(by, *job, info, colour, n, r),
        };
    let colour = a->Ok_0;
    let b = choose|b: Result<Option<VideoInfo>, MediaError>| #[trigger]
        looks_if_any(by.probe, job.mono, b) && match b {
            Err(e) => n.len() == 0 && r == Err::<RenderPlan, PipelineError>(PipelineError::Media(e)),
            Ok(mono) => surveys_right(by, *job, info, colour, mono, n, r),
        };
    let mono = b->Ok_0;
    let c = choose|c: Result<Option<VideoInfo>, MediaError>| #[trigger]
        looks_if_any(by.probe, job.right_eye, c) && match c {
            Err(e) => n.len() == 0 && r == Err::<RenderPlan, PipelineError>(PipelineError::Media(e)),
            Ok(right_eye) => plans(by, *job, info, colour, mono, right_eye, n, r),
        };
    (colour, mono, c->Ok_0)
}

/// A plan notes every source that is of another shape than the film, by the name of what
/// it is, and no other.
pub proof fn law_a_source_of_another_shape_is_noted(role: Seq<char>, other: VideoInfo, main: VideoInfo)
    ensures
        other.width * main.height == main.width * other.height ==> notes_on(role, Some(other), main).len()
            == 0,
        other.width * main.height != main.width * other.height ==> notes_on(role, Some(other), main)
            == seq![
            role + " is "@ + (decimal_text(other.width as nat).push('x') + decimal_text(
                other.height as nat,
            )) + ", a different shape from the anaglyph's "@ + (decimal_text(main.width as nat).push('x')
                + decimal_text(main.height as nat))
                + " \u{2014} resizing it to fit will stretch the picture."@,
        ],
        notes_on(role, None, main).len() == 0,
        all_notes(main, Some(other), None, None) == notes_on("The colour source"@, Some(other), main),
        all_notes(main, None, Some(other), None) == notes_on("The 2D eye source"@, Some(other), main),
        all_notes(main, None, None, Some(other)) == notes_on("The right-eye file"@, Some(other), main),
{
    let none = Seq::<Seq<char>>::empty();
    assert(all_notes(main, Some(other), None, None) =~= notes_on(
        "The colour source"@,
        Some(other),
        main,
    ));
    assert(all_notes(main, None, Some(other), None) =~= notes_on(
        "The 2D eye source"@,
        Some(other),
        main,
    ));
    assert(all_notes(main, None, None, Some(other)) =~= notes_on(
        "The right-eye file"@,
        Some(other),
        main,
    ));
}

/// The film and its second file are opened where the film's range starts, the colour
/// source and the 2D source each where its own does.
pub proof fn law_each_source_is_opened_at_its_start(params: &ConvertParams, r: (u64, u64, u64, u64))
    requires
        call_ensures(opening_frames, (params,), r),
    ensures
        r.0 == params.anaglyph_trim.start,
        r.1 == params.anaglyph_trim.start,
        r.2 == params.colour_trim.start,
        r.3 == params.mono_trim.start,
{
}

/// A source that has run short keeps its last frame; one that has not moves on.
pub proof fn law_a_short_source_holds_its_last_frame<T>(held: &mut Option<T>, fresh: Option<T>)
    requires
        call_ensures(next_or_hold::<T>, (held, fresh), ()),
    ensures
        fresh is Some ==> *final(held) == fresh,
        fresh is None ==> *final(held) == *old(held),
{
}

/// A turn converts the frame that was read unless the run is over, there was none, it was
/// cancelled or its span is done; then it ends the run, as cancelled only where it was
/// cancelled with a frame in hand. It counts nothing: converting does, one at a time.
pub proof fn law_a_turn_converts_or_ends(
    reading: &mut RenderRun,
    turn: Turn,
    r: NextStep,
    converting: &mut RenderRun,
    said: Progress,
)
    requires
        call_ensures(RenderRun::after_read, (reading, turn), r),
        call_ensures(RenderRun::after_convert, (converting,), said),
        !old(converting).over && old(converting).frames < old(converting).span,
    ensures
        r == NextStep::Convert <==> !old(reading).over && turn.got_frame && !turn.cancel
            && old(reading).frames < old(reading).span,
        r == NextStep::Finish ==> final(reading).over,
        r == NextStep::Convert ==> !final(reading).over,
        final(reading).frames == old(reading).frames && final(reading).span == old(reading).span,
        final(reading).cancelled <==> old(reading).cancelled || (!old(reading).over && turn.got_frame
            && turn.cancel),
        final(converting).frames == old(converting).frames + 1,
        final(converting).span == old(converting).span && final(converting).cancelled
            == old(converting).cancelled && !final(converting).over,
        said == (Progress::Frame {
            done: final(converting).frames,
            total: Some(old(converting).span),
        }),
{
}

/// A run starts with nothing done and is told by its span; it ends with what it did, where
/// it went and whether it was cancelled.
pub proof fn law_a_run_is_told_from_start_to_end(
    span: u64,
    fresh: RenderRun,
    run: &RenderRun,
    outputs: Vec<String>,
    last: Progress,
    summary: RenderSummary,
    plan: &RenderPlan,
    first: Progress,
)
    requires
        call_ensures(RenderRun::new, (span,), fresh),
        call_ensures(RenderRun::finished, (run,), last),
        call_ensures(RenderRun::summary, (run, outputs), summary),
        call_ensures(RenderPlan::started, (plan,), first),
    ensures
        fresh.span == span && fresh.frames == 0 && !fresh.cancelled && !fresh.over,
        last matches Progress::Finished { frames, cancelled } && frames == run.frames && cancelled
            == run.cancelled,
        summary.frames == run.frames && summary.cancelled == run.cancelled,
        summary.outputs@ == outputs@,
        first matches Progress::Started { total_frames, width, height } && total_frames == Some(
            plan.span,
        ) && width == plan.anaglyph.width && height == plan.anaglyph.height,
{
}

/// A frame holds a pair where it is one to be recovered, where a second file supplies the
/// other eye, or where it has room for two.
pub proof fn law_a_pair_needs_two_eyes<S: Copy>(
    primary: &FrameF32<S>,
    has_right_eye: bool,
    input: InputMode,
    r: bool,
)
    requires
        call_ensures(holds_a_pair::<S>, (primary, has_right_eye, input), r),
        workable(primary@),
    ensures
        input is Anaglyph ==> r,
        input is TwoFiles ==> r == has_right_eye,
        input matches InputMode::Packed { packing, .. } ==> packing == StereoPacking::SideBySide ==> r
            == (primary@.width >= 2),
        input matches InputMode::Packed { packing, .. } ==> packing == StereoPacking::TopBottom ==> r
            == (primary@.height >= 2),
{
}

/// Sources that have the size they are needed at are used as they are, each as what it is
/// given for: the second file and the colour source at the film's size, the 2D source at
/// an eye's.
pub proof fn law_sources_of_the_right_size_are_used_as_they_are<
    S: Copy + Send + Sync,
    T: Fn(TransferFunction, S) -> S + Sync + Send,
    U: Fn(TransferFunction, S) -> S + Sync + Send,
    P: Fn(EyeProjection, S, S, S) -> S + Sync + Send,
    C: Fn(F32, S, S) -> S,
    R: Fn(ColourRestore, EyeProjection, S, (S, S, S)) -> (S, S, S),
    G: Fn(Grade, (S, S, S)) -> (S, S, S),
    A: Fn(S, S, S) -> S + Sync + Send,
    Q: Fn(S, S) -> S + Sync + Send,
    L: Fn(S, S, S) -> S + Sync + Send,
    M: Fn(S, usize) -> S + Sync + Send,
    K: Fn(F32) -> Vec<S>,
    B: Fn(F32) -> [usize; 3],
    V: Fn(&FrameF32<S>, usize, usize) -> FrameF32<S>,
    I: Fn(F32) -> F32,
    D: Fn(F32) -> F32,
    O: Fn(F32) -> F32,
>(
    given: Sources<'_, S>,
    params: &ConvertParams,
    by: &StrengthMath<I, D, O>,
    math: &RecoveryMath<S, T, U, P, C, R, G, A, Q, L, M, K, B>,
    stretch: &V,
    pair: StereoPair<S>,
)
    requires
        presentable(given@, *params),
        given.right_eye matches Some(f) ==> f@.same_size(given.primary@),
        given.colour matches Some(f) ==> f@.same_size(given.primary@),
        given.mono matches Some(f) ==> (f@.width, f@.height) == params.input.eye_dims(
            given.primary@.width,
            given.primary@.height,
        ),
        call_ensures(
            process_step::<S, T, U, P, C, R, G, A, Q, L, M, K, B, V, I, D, O>,
            (given, params, by, math, stretch),
            pair,
        ),
    ensures
        frame_processed(
            by,
            math,
            stretch,
            given@,
            *params,
            (Eyes { left: pair.left@, right: pair.right@ }),
        ),
{
    let out = Eyes { left: pair.left@, right: pair.right@ };
    let shown = choose|shown: Shown<S>|
        all_brought(*stretch, given@, *params, shown) && #[trigger] frame_processed(
            by,
            math,
            stretch,
            shown,
            *params,
            out,
        );
    assert(shown == given@);
}

/// Sources of another size are resampled to the film's, the 2D source to an eye's, before
/// anything is made of them.
pub proof fn law_sources_of_another_size_are_resampled<
    S: Copy + Send + Sync,
    T: Fn(TransferFunction, S) -> S + Sync + Send,
    U: Fn(TransferFunction, S) -> S + Sync + Send,
    P: Fn(EyeProjection, S, S, S) -> S + Sync + Send,
    C: Fn(F32, S, S) -> S,
    R: Fn(ColourRestore, EyeProjection, S, (S, S, S)) -> (S, S, S),
    G: Fn(Grade, (S, S, S)) -> (S, S, S),
    A: Fn(S, S, S) -> S + Sync + Send,
    Q: Fn(S, S) -> S + Sync + Send,
    L: Fn(S, S, S) -> S + Sync + Send,
    M: Fn(S, usize) -> S + Sync + Send,
    K: Fn(F32) -> Vec<S>,
    B: Fn(F32) -> [usize; 3],
    V: Fn(&FrameF32<S>, usize, usize) -> FrameF32<S>,
    I: Fn(F32) -> F32,
    D: Fn(F32) -> F32,
    O: Fn(F32) -> F32,
>(
    given: Sources<'_, S>,
    params: &ConvertParams,
    by: &StrengthMath<I, D, O>,
    math: &RecoveryMath<S, T, U, P, C, R, G, A, Q, L, M, K, B>,
    stretch: &V,
    pair: StereoPair<S>,
)
    requires
        presentable(given@, *params),
        call_ensures(
            process_step::<S, T, U, P, C, R, G, A, Q, L, M, K, B, V, I, D, O>,
            (given, params, by, math, stretch),
            pair,
        ),
    ensures
        exists|shown: Shown<S>| #[trigger]
            frame_processed(
                by,
                math,
                stretch,
                shown,
                *params,
                (Eyes { left: pair.left@, right: pair.right@ }),
            ) && shown.primary == given.primary@ && (match (given.colour, shown.colour) {
                (Some(f), Some(brought)) => conformed(
                    *stretch,
                    f@,
                    given.primary@.width as usize,
                    given.primary@.height as usize,
                    brought,
                ),
                (f, brought) => f is None && brought is None,
            }) && (match (given.right_eye, shown.right_eye) {
                (Some(f), Some(brought)) => conformed(
                    *stretch,
                    f@,
                    given.primary@.width as usize,
                    given.primary@.height as usize,
                    brought,
                ),
                (f, brought) => f is None && brought is None,
            }) && (match (given.mono, shown.mono) {
                (Some(f), Some(brought)) => conformed(
                    *stretch,
                    f@,
                    params.input.eye_dims(given.primary@.width, given.primary@.height).0 as usize,
                    params.input.eye_dims(given.primary@.width, given.primary@.height).1 as usize,
                    brought,
                ),
                (f, brought) => f is None && brought is None,
            }),
{
}

/// A frame of a render is the pair of its step, laid out: with one eye asked for and no
/// resize, it is that eye of the pair and nothing else.
pub proof fn law_a_rendered_frame_is_of_its_pair<
    S: Copy + Send + Sync,
    T: Fn(TransferFunction, S) -> S + Sync + Send,
    U: Fn(TransferFunction, S) -> S + Sync + Send,
    P: Fn(EyeProjection, S, S, S) -> S + Sync + Send,
    C: Fn(F32, S, S) -> S,
    R: Fn(ColourRestore, EyeProjection, S, (S, S, S)) -> (S, S, S),
    G: Fn(Grade, (S, S, S)) -> (S, S, S),
    A: Fn(S, S, S) -> S + Sync + Send,
    Q: Fn(S, S) -> S + Sync + Send,
    L: Fn(S, S, S) -> S + Sync + Send,
    M: Fn(S, usize) -> S + Sync + Send,
    K: Fn(F32) -> Vec<S>,
    B: Fn(F32) -> [usize; 3],
    V: Fn(&FrameF32<S>, usize, usize) -> FrameF32<S>,
    I: Fn(F32) -> F32,
    D: Fn(F32) -> F32,
    O: Fn(F32) -> F32,
>(
    given: Sources<'_, S>,
    params: &ConvertParams,
    by: &StrengthMath<I, D, O>,
    math: &RecoveryMath<S, T, U, P, C, R, G, A, Q, L, M, K, B>,
    stretch: &V,
    frames: Vec<FrameF32<S>>,
)
    requires
        params.output_size is None,
        call_ensures(
            convert_step::<S, T, U, P, C, R, G, A, Q, L, M, K, B, V, I, D, O>,
            (given, params, by, math, stretch),
            frames,
        ),
    ensures
        exists|eyes: Eyes<S>| #[trigger]
            pairs(by, math, stretch, given@, *params, eyes) && (params.layout == OutputLayout::LeftOnly
                ==> frames@.len() == 1 && frames@[0]@ == eyes.left) && (params.layout
                == OutputLayout::RightOnly ==> frames@.len() == 1 && frames@[0]@ == eyes.right) && (
            params.layout == OutputLayout::Separate ==> frames@.len() == 2 && frames@[0]@ == eyes.left
                && frames@[1]@ == eyes.right),
{
    let eyes = choose|eyes: Eyes<S>| #[trigger]
        pairs(by, math, stretch, given@, *params, eyes) && finishes(
            *stretch,
            *params,
            eyes,
            frames@,
        );
    assert(pairs(by, math, stretch, given@, *params, eyes));
    if params.layout == OutputLayout::LeftOnly || params.layout == OutputLayout::RightOnly
        || params.layout == OutputLayout::Separate {
        assert(frames@.len() >= 1);
        let one = frames@[0];
        if params.layout == OutputLayout::Separate {
            let two = frames@[1];
        }
    }
}

/// A file is called by its name, and by its whole path where it has none.
pub proof fn law_a_file_is_called_by_its_name(path: &str, windows: bool, name: Option<String>, r: String)
    requires
        call_ensures(crate::path::file_name, (path, windows), name),
        call_ensures(file_label, (path, windows), r),
    ensures
        name matches Some(n) ==> r@ == n@,
        name is None ==> r@ == path@,
{
}

/// A plan covers as much of the film as its range has, by the number of frames that the
/// film reports; it is seen at the film's own shape times what the settings make of it; and
/// its notes are on its own sources.
pub proof fn law_a_plan_is_measured_by_its_film<
    P: Fn(&str) -> Result<VideoInfo, MediaError>,
    C: Fn(F64, F64) -> u64,
    H: Fn(usize, F64, usize) -> F64,
    W: Fn(F64, Ratio) -> F64,
>(
    job: &RenderJob,
    by: &Surveyor<P, C, H, W>,
    prepared: Prepared,
    plan: RenderPlan,
)
    requires
        call_ensures(prepare::<P, C, H, W>, (job, by), prepared),
        prepared.outcome == Ok::<RenderPlan, PipelineError>(plan),
    ensures
        plan.anaglyph.frame_count matches Some(n) ==> plan.span == job.params.anaglyph_trim.count(
            n as nat,
        ),
        plan.anaglyph.frame_count is None && plan.anaglyph.duration_secs is None ==> plan.span
            == job.params.anaglyph_trim.count(u64::MAX as nat),
        plan.anaglyph.frame_count is None ==> (plan.anaglyph.duration_secs matches Some(d) ==> (
        plan.anaglyph.fps.above_zero() && d.above_zero() ==> exists|n: u64| #[trigger]
            call_ensures(by.frames, (d, plan.anaglyph.fps), n) && plan.span
                == job.params.anaglyph_trim.count(n as nat))),
        crate::encode::texts(prepared.notes@) == all_notes(
            plan.anaglyph,
            plan.colour,
            plan.mono,
            plan.right_eye,
        ),
        plan.anaglyph.height > 0 ==> exists|own: F64, scale: Ratio, aspect: F64|
            call_ensures(
                by.shape,
                (plan.anaglyph.width, plan.anaglyph.sample_aspect, plan.anaglyph.height),
                own,
            ) && (scale.num as nat, scale.den as nat) == job.params.output_scale(
                plan.anaglyph.width as nat,
                plan.anaglyph.height as nat,
            ) && #[trigger] call_ensures(by.widen, (own, scale), aspect)
                && plan.settings.display_aspect == Some(aspect),
{
    let n = crate::encode::texts(prepared.notes@);
    let r = prepared.outcome;
    let info = lemma_main_was_seen(job, by, n, r);
    let (colour, mono, right_eye) = lemma_sources_were_seen(job, by, info, n, r);
    assert(plans(by, *job, info, colour, mono, right_eye, n, r));
}

/// A job that cannot be planned says why: what the cheap checks found, the file that could
/// not be probed, the audio source that has no audio, or the film whose range is empty.
pub proof fn law_an_unplanned_job_says_why<
    P: Fn(&str) -> Result<VideoInfo, MediaError>,
    C: Fn(F64, F64) -> u64,
    H: Fn(usize, F64, usize) -> F64,
    W: Fn(F64, Ratio) -> F64,
>(
    job: &RenderJob,
    by: &Surveyor<P, C, H, W>,
    prepared: Prepared,
    e: PipelineError,
)
    requires
        call_ensures(prepare::<P, C, H, W>, (job, by), prepared),
        prepared.outcome == Err::<RenderPlan, PipelineError>(e),
    ensures
        e is Params || e is MonoSourceUnused || e is MonoSourceMissing || e is RightEyeMissing
            ==> checks(*job, Err(e)),
        e matches PipelineError::Media(m) ==> looks(by.probe, job.anaglyph@, Err(m)) || (
        job.audio matches Some(p) && looks(by.probe, p@, Err(m))) || (job.colour matches Some(p)
            && looks(by.probe, p@, Err(m))) || (job.mono matches Some(p) && looks(
            by.probe,
            p@,
            Err(m),
        )) || (job.right_eye matches Some(p) && looks(by.probe, p@, Err(m))),
        e matches PipelineError::NoAudioInSource(name) ==> (job.audio matches Some(p) && name@
            == label_of(p@, by.windows) && exists|heard: VideoInfo| #[trigger]
            looks(by.probe, p@, Ok(heard)) && !heard.has_audio),
        e matches PipelineError::TrimSelectsNoFrames { name, start, total } ==> name@ == label_of(
            job.anaglyph@,
            by.windows,
        ) && start == job.params.anaglyph_trim.start && job.params.anaglyph_trim.count(total as nat)
            == 0,
{
    let n = crate::encode::texts(prepared.notes@);
    let r = prepared.outcome;
    if checks(*job, Ok(())) {
        let seen = choose|seen: Result<VideoInfo, MediaError>| #[trigger]
            looks(by.probe, job.anaglyph@, seen) && match seen {
                Err(e) => n.len() == 0 && r == Err::<RenderPlan, PipelineError>(
                    PipelineError::Media(e),
                ),
                Ok(info) => surveys_audio(by, *job, info, n, r),
            };
        if let Ok(info) = seen {
            let heard = choose|heard: Result<Option<VideoInfo>, MediaError>| #[trigger]
                looks_if_any(by.probe, job.audio, heard) && match heard {
                    Err(e) => n.len() == 0 && r == Err::<RenderPlan, PipelineError>(
                        PipelineError::Media(e),
                    ),
                    Ok(Some(heard)) => if heard.has_audio {
                        surveys_colour(by, *job, info, n, r)
                    } else {
                        n.len() == 0 && (r matches Err(PipelineError::NoAudioInSource(name)) && name@
                            == label_of(job.audio->0@, by.windows))
                    },
                    Ok(None) => surveys_colour(by, *job, info, n, r),
                };
            if surveys_colour(by, *job, info, n, r) {
                lemma_unplanned_sources(job, by, info, n, r, e);
            } else {
                assert(heard matches Ok(Some(h)) ==> looks(by.probe, job.audio->0@, Ok(h)));
            }
        }
    }
}

proof fn lemma_unplanned_sources<
    P: Fn(&str) -> Result<VideoInfo, MediaError>,
    C: Fn(F64, F64) -> u64,
    H: Fn(usize, F64, usize) -> F64,
    W: Fn(F64, Ratio) -> F64,
>(
    job: &RenderJob,
    by: &Surveyor<P, C, H, W>,
    info: VideoInfo,
    n: Seq<Seq<char>>,
    r: Result<RenderPlan, PipelineError>,
    e: PipelineError,
)
    requires
        surveys_colour(by, *job, info, n, r),
        r == Err::<RenderPlan, PipelineError>(e),
    ensures
        e is Media || e is TrimSelectsNoFrames,
        e matches PipelineError::Media(m) ==> (job.colour matches Some(p) && looks(
            by.probe,
            p@,
            Err(m),
        )) || (job.mono matches Some(p) && looks(by.probe, p@, Err(m))) || (
        job.right_eye matches Some(p) && looks(by.probe, p@, Err(m))),
        e matches PipelineError::TrimSelectsNoFrames { name, start, total } ==> name@ == label_of(
            job.anaglyph@,
            by.windows,
        ) && start == job.params.anaglyph_trim.start && job.params.anaglyph_trim.count(total as nat)
            == 0,
{
    let a = choose|a: Result<Option<VideoInfo>, MediaError>| #[trigger]
        looks_if_any(by.probe, job.colour, a) && match a {
            Err(e) => n.len() == 0 && r == Err::<RenderPlan, PipelineError>(PipelineError::Media(e)),
            Ok(colour) => surveys_mono(by, *job, info, colour, n, r),
        };
    if let Ok(colour) = a {
        let b = choose|b: Result<Option<VideoInfo>, MediaError>| #[trigger]
            looks_if_any(by.probe, job.mono, b) && match b {
                Err(e) => n.len() == 0 && r == Err::<RenderPlan, PipelineError>(
                    PipelineError::Media(e),
                ),
                Ok(mono) => surveys_right(by, *job, info, colour, mono, n, r),
            };
        if let Ok(mono) = b {
            let c = choose|c: Result<Option<VideoInfo>, MediaError>| #[trigger]
                looks_if_any(by.probe, job.right_eye, c) && match c {
                    Err(e) => n.len() == 0 && r == Err::<RenderPlan, PipelineError>(
                        PipelineError::Media(e),
                    ),
                    Ok(right_eye) => plans(by, *job, info, colour, mono, right_eye, n, r),
                };
        }
    }
}

} // verus!
