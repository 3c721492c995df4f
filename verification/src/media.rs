//! What the video files and the tools that read them are to the library.
//!
//! Decoding and encoding are done by driving `ffmpeg` as a child process and
//! moving raw frames over pipes. The processes belong to the program; what they
//! are asked, and what their answers mean, is decided here.

use crate::text::{decimal, decimal_text};
use vstd::prelude::*;
use vstd::string::*;

verus! {

/// A path as ffmpeg should see it: the name of a file, never a URL.
pub open spec fn file_arg_text(path: Seq<char>) -> Seq<char> {
    "file:"@ + path
}

/// A path as ffmpeg should see it: the name of a file, never a URL.
///
/// ffmpeg resolves protocol prefixes inside input and output names, so a file
/// called `concat:...` or `http:...` would be reached through that protocol
/// instead of being opened, and a relative name beginning with `-` would be read
/// as an option, since ffmpeg has no `--` to stop it. The `file:` prefix settles
/// both: it pins the name to the filesystem and it cannot start with a dash.
pub fn file_arg(path: &str) -> (arg: String)
    ensures
        arg@ == file_arg_text(path@),
{
    "file:".to_owned().concat(path)
}

/// Anything that can go wrong reading or writing media.
#[derive(Debug)]
pub enum MediaError {
    ToolsNotInDirectory(String),
    ToolsNotFound,
    ToolFailed { tool: &'static str, message: String },
    NoVideoStream { path: String },
    ProbeParse(String),
    ImplausibleGeometry { width: usize, height: usize },
    FrameSizeMismatch { expected: (usize, usize), got: (usize, usize) },
    Io { path: String, source: String },
}

/// A size, as `WxH`.
pub open spec fn size_text(w: nat, h: nat) -> Seq<char> {
    decimal_text(w).push('x') + decimal_text(h)
}

/// Writes a size as `WxH`.
pub fn size(w: usize, h: usize) -> (text: String)
    ensures
        text@ == size_text(w as nat, h as nat),
{
    let mut text = decimal(w as u64);
    text.push('x');
    text.append(decimal(h as u64).as_str());
    text
}

impl MediaError {
    /// What the error tells the user.
    pub open spec fn text(self) -> Seq<char> {
        match self {
            MediaError::ToolsNotInDirectory(dir) => "could not find ffmpeg and ffprobe in "@ + dir@,
            MediaError::ToolsNotFound =>
                "could not find ffmpeg and ffprobe.\nInstall them (on macOS: `brew install ffmpeg`) or point Ana-Convert at a directory containing both."@,
            MediaError::ToolFailed { tool, message } => tool@ + " failed: "@ + message@,
            MediaError::NoVideoStream { path } => path@ + " has no video stream"@,
            MediaError::ProbeParse(what) => "could not understand ffprobe's output: "@ + what@,
            MediaError::ImplausibleGeometry { width, height } => "the file claims to be "@ + size_text(
                width as nat,
                height as nat,
            ) + ", which is not a frame size this can work with. It is most likely damaged."@,
            MediaError::FrameSizeMismatch { expected, got } => "expected a "@ + size_text(
                expected.0 as nat,
                expected.1 as nat,
            ) + " frame, got "@ + size_text(got.0 as nat, got.1 as nat),
            MediaError::Io { path, source } => "could not read "@ + path@ + ": "@ + source@,
        }
    }

    /// What the error tells the user.
    pub fn message(&self) -> (text: String)
        ensures
            text@ == self.text(),
    {
        match self {
            MediaError::ToolsNotInDirectory(dir) => {
                "could not find ffmpeg and ffprobe in ".to_owned().concat(dir.as_str())
            },
            MediaError::ToolsNotFound => {
                "could not find ffmpeg and ffprobe.\nInstall them (on macOS: `brew install ffmpeg`) or point Ana-Convert at a directory containing both.".to_owned()
            },
            MediaError::ToolFailed { tool, message } => {
                (*tool).to_owned().concat(" failed: ").concat(message.as_str())
            },
            MediaError::NoVideoStream { path } => path.clone().concat(" has no video stream"),
            MediaError::ProbeParse(what) => {
                "could not understand ffprobe's output: ".to_owned().concat(what.as_str())
            },
            MediaError::ImplausibleGeometry { width, height } => {
                "the file claims to be ".to_owned().concat(size(*width, *height).as_str()).concat(
                    ", which is not a frame size this can work with. It is most likely damaged.",
                )
            },
            MediaError::FrameSizeMismatch { expected, got } => {
                "expected a ".to_owned().concat(size(expected.0, expected.1).as_str()).concat(
                    " frame, got ",
                ).concat(size(got.0, got.1).as_str())
            },
            MediaError::Io { path, source } => {
                "could not read ".to_owned().concat(path.as_str()).concat(": ").concat(source.as_str())
            },
        }
    }
}

/// A name is pinned to the filesystem, and told apart from every other.
pub proof fn law_a_name_is_never_a_url(path: &str, arg: String)
    requires
        call_ensures(file_arg, (path,), arg),
    ensures
        arg@.len() == path@.len() + 5,
        arg@[0] != '-',
        arg@.take(5) == "file:"@,
        arg@.skip(5) == path@,
{
    reveal_strlit("file:");
    assert(arg@.take(5) =~= "file:"@);
    assert(arg@.skip(5) =~= path@);
}

/// A size is its width, an `x` and its height.
pub proof fn law_a_size_is_width_by_height(w: usize, h: usize, text: String)
    requires
        call_ensures(size, (w, h), text),
    ensures
        text@ == decimal_text(w as nat).push('x') + decimal_text(h as nat),
{
}

/// What each error tells the user, by its own name and its own facts.
pub proof fn law_each_error_names_its_trouble(e: &MediaError, text: String)
    requires
        call_ensures(MediaError::message, (e,), text),
    ensures
        *e matches MediaError::ToolsNotInDirectory(dir) ==> text@
            == "could not find ffmpeg and ffprobe in "@ + dir@,
        *e is ToolsNotFound ==> text@
            == "could not find ffmpeg and ffprobe.\nInstall them (on macOS: `brew install ffmpeg`) or point Ana-Convert at a directory containing both."@,
        *e matches MediaError::ToolFailed { tool, message } ==> text@ == tool@ + " failed: "@
            + message@,
        *e matches MediaError::NoVideoStream { path } ==> text@ == path@ + " has no video stream"@,
        *e matches MediaError::ProbeParse(what) ==> text@
            == "could not understand ffprobe's output: "@ + what@,
        *e matches MediaError::ImplausibleGeometry { width, height } ==> text@
            == "the file claims to be "@ + (decimal_text(width as nat).push('x') + decimal_text(
            height as nat,
        )) + ", which is not a frame size this can work with. It is most likely damaged."@,
        *e matches MediaError::FrameSizeMismatch { expected, got } ==> text@ == "expected a "@ + (
        decimal_text(expected.0 as nat).push('x') + decimal_text(expected.1 as nat))
            + " frame, got "@ + (decimal_text(got.0 as nat).push('x') + decimal_text(got.1 as nat)),
        *e matches MediaError::Io { path, source } ==> text@ == "could not read "@ + path@ + ": "@
            + source@,
{
}

} // verus!
