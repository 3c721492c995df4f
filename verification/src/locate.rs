//! Finding the `ffmpeg` and `ffprobe` binaries.
//!
//! A shipped build carries its own pair inside the app bundle, but during
//! development they usually come from the system. Failing to find them must
//! produce something a user can act on, never a silent fallback.

use crate::media::MediaError;
use crate::path::{join, joined_path, plain_name, separates};
use vstd::prelude::*;
use vstd::string::*;

verus! {

/// The two binaries everything else drives.
#[derive(Debug)]
pub struct FfmpegTools {
    pub ffmpeg: String,
    pub ffprobe: String,
}

/// Where a located pair came from, for display in diagnostics.
#[derive(Debug, Clone, Copy, PartialEq, Eq, Structural)]
pub enum ToolSource {
    /// An explicit directory the user pointed us at.
    Override,
    /// Alongside the running executable: how a shipped bundle finds its own.
    Bundled,
    /// Found on `PATH`.
    SystemPath,
}

impl Clone for FfmpegTools {
    fn clone(&self) -> (r: Self)
        ensures
            r == *self,
    {
        FfmpegTools { ffmpeg: self.ffmpeg.clone(), ffprobe: self.ffprobe.clone() }
    }
}

/// The file name of a program.
pub open spec fn program(stem: Seq<char>, windows: bool) -> Seq<char> {
    if windows {
        stem + ".exe"@
    } else {
        stem
    }
}

/// The file name of a program.
pub fn exe_name(stem: &str, windows: bool) -> (r: String)
    ensures
        r@ == program(stem@, windows),
{
    if windows {
        stem.to_owned().concat(".exe")
    } else {
        stem.to_owned()
    }
}

/// The programs have names that a file can have.
proof fn lemma_programs_are_plain(windows: bool)
    ensures
        plain_name(program("ffmpeg"@, windows), windows),
        plain_name(program("ffprobe"@, windows), windows),
{
    reveal_strlit("ffmpeg");
    reveal_strlit("ffprobe");
    reveal_strlit(".exe");
    let (a, b) = (program("ffmpeg"@, windows), program("ffprobe"@, windows));
    assert(a.len() >= 6 && b.len() >= 6);
    assert forall|i: int| 0 <= i < a.len() implies !separates(#[trigger] a[i], windows) by {
        assert(i < 6 ==> a[i] == "ffmpeg"@[i]);
        assert(i >= 6 ==> a[i] == ".exe"@[i - 6]);
    }
    assert forall|i: int| 0 <= i < b.len() implies !separates(#[trigger] b[i], windows) by {
        assert(i < 7 ==> b[i] == "ffprobe"@[i]);
        assert(i >= 7 ==> b[i] == ".exe"@[i - 7]);
    }
}

/// What is tried: whether a path names a file that may be executed.
pub open spec fn tries<E: Fn(&str) -> bool>(executable: E, path: Seq<char>, found: bool) -> bool {
    exists|p: &str| p@ == path && #[trigger] call_ensures(executable, (p,), found)
}

/// `tools` are the two programs in a directory, both or neither.
pub open spec fn finds_in<E: Fn(&str) -> bool>(
    executable: E,
    windows: bool,
    dir: Seq<char>,
    tools: Option<FfmpegTools>,
) -> bool {
    let (ffmpeg, ffprobe) = (
        joined_path(dir, program("ffmpeg"@, windows), windows),
        joined_path(dir, program("ffprobe"@, windows), windows),
    );
    match tools {
        Some(t) => t.ffmpeg@ == ffmpeg && t.ffprobe@ == ffprobe && tries(executable, ffmpeg, true)
            && tries(executable, ffprobe, true),
        None => tries(executable, ffmpeg, false) || tries(executable, ffprobe, false),
    }
}

impl FfmpegTools {
    /// Looks for both binaries in one directory; `executable` says whether a path
    /// names a file that may be executed.
    ///
    /// Both or neither: half a toolchain would only fail later, somewhere less
    /// legible than here.
    pub fn in_directory<E: Fn(&str) -> bool>(dir: &str, windows: bool, executable: &E) -> (r: Option<
        Self,
    >)
        requires
            forall|p: &str| #[trigger] call_requires(*executable, (p,)),
        ensures
            finds_in(*executable, windows, dir@, r),
    {
        proof {
            lemma_programs_are_plain(windows);
        }
        let ffmpeg = join(dir, exe_name("ffmpeg", windows).as_str(), windows);
        let path = ffmpeg.as_str();
        let found = executable(path);
        assert(call_ensures(*executable, (path,), found));
        if !found {
            assert(tries(*executable, ffmpeg@, false));
            return None;
        }
        assert(tries(*executable, ffmpeg@, true));
        let ffprobe = join(dir, exe_name("ffprobe", windows).as_str(), windows);
        let path = ffprobe.as_str();
        let found = executable(path);
        assert(call_ensures(*executable, (path,), found));
        if !found {
            assert(tries(*executable, ffprobe@, false));
            return None;
        }
        assert(tries(*executable, ffprobe@, true));
        Some(FfmpegTools { ffmpeg, ffprobe })
    }
}

/// `tools` are the ones in the first of some directories that has both.
pub open spec fn finds_first<E: Fn(&str) -> bool>(
    executable: E,
    windows: bool,
    dirs: Seq<String>,
    tools: Option<FfmpegTools>,
) -> bool
    decreases dirs.len(),
{
    if dirs.len() == 0 {
        tools is None
    } else {
        ||| tools is Some && finds_in(executable, windows, dirs[0]@, tools)
        ||| finds_in(executable, windows, dirs[0]@, None) && finds_first(
            executable,
            windows,
            dirs.skip(1),
            tools,
        )
    }
}

/// Looks through the directories of `PATH`, in order.
fn search_path<E: Fn(&str) -> bool>(dirs: &Vec<String>, windows: bool, executable: &E) -> (r: Option<
    FfmpegTools,
>)
    requires
        forall|p: &str| #[trigger] call_requires(*executable, (p,)),
    ensures
        finds_first(*executable, windows, dirs@, r),
{
    search_from(dirs, 0, windows, executable)
}

fn search_from<E: Fn(&str) -> bool>(
    dirs: &Vec<String>,
    from: usize,
    windows: bool,
    executable: &E,
) -> (r: Option<FfmpegTools>)
    requires
        from <= dirs@.len(),
        forall|p: &str| #[trigger] call_requires(*executable, (p,)),
    ensures
        finds_first(*executable, windows, dirs@.skip(from as int), r),
        from == 0 ==> finds_first(*executable, windows, dirs@, r),
    decreases dirs@.len() - from,
{
    assert(dirs@.skip(0) =~= dirs@);
    if from == dirs.len() {
        return None;
    }
    assert(dirs@.skip(from as int).skip(1) =~= dirs@.skip(from + 1));
    match FfmpegTools::in_directory(dirs[from].as_str(), windows, executable) {
        Some(tools) => Some(tools),
        None => search_from(dirs, from + 1, windows, executable),
    }
}

/// `r` is what a search for the tools comes to.
pub open spec fn locates<E: Fn(&str) -> bool>(
    executable: E,
    windows: bool,
    override_dir: Option<&str>,
    bundled: Option<&str>,
    path: Seq<String>,
    r: Result<(FfmpegTools, ToolSource), MediaError>,
) -> bool {
    match override_dir {
        // An override that does not resolve is an error, never a fall-through:
        // silently using a different build than the one asked for is worse than
        // refusing to start.
        Some(dir) => match r {
            Ok((tools, source)) => source == ToolSource::Override && finds_in(
                executable,
                windows,
                dir@,
                Some(tools),
            ),
            Err(MediaError::ToolsNotInDirectory(d)) => d@ == dir@ && finds_in(
                executable,
                windows,
                dir@,
                None,
            ),
            Err(_) => false,
        },
        None => match r {
            Ok((tools, ToolSource::Bundled)) => bundled matches Some(dir) && finds_in(
                executable,
                windows,
                dir@,
                Some(tools),
            ),
            Ok((tools, ToolSource::SystemPath)) => (bundled matches Some(dir) ==> finds_in(
                executable,
                windows,
                dir@,
                None,
            )) && finds_first(executable, windows, path, Some(tools)),
            Ok((_, ToolSource::Override)) => false,
            Err(MediaError::ToolsNotFound) => (bundled matches Some(dir) ==> finds_in(
                executable,
                windows,
                dir@,
                None,
            )) && finds_first(executable, windows, path, None),
            Err(_) => false,
        },
    }
}

/// Finds ffmpeg and ffprobe, preferring an override, then a bundled copy, then
/// whatever is on `PATH`.
pub fn locate<E: Fn(&str) -> bool>(
    override_dir: Option<&str>,
    bundled: Option<&str>,
    path: &Vec<String>,
    windows: bool,
    executable: &E,
) -> (r: Result<(FfmpegTools, ToolSource), MediaError>)
    requires
        forall|p: &str| #[trigger] call_requires(*executable, (p,)),
    ensures
        locates(*executable, windows, override_dir, bundled, path@, r),
{
    if let Some(dir) = override_dir {
        return match FfmpegTools::in_directory(dir, windows, executable) {
            Some(tools) => Ok((tools, ToolSource::Override)),
            None => Err(MediaError::ToolsNotInDirectory(dir.to_owned())),
        };
    }
    if let Some(dir) = bundled {
        if let Some(tools) = FfmpegTools::in_directory(dir, windows, executable) {
            return Ok((tools, ToolSource::Bundled));
        }
    }
    if let Some(tools) = search_path(path, windows, executable) {
        return Ok((tools, ToolSource::SystemPath));
    }
    Err(MediaError::ToolsNotFound)
}

/// What `executable` always says of a path.
pub open spec fn always_says<E: Fn(&str) -> bool>(executable: E, path: Seq<char>, found: bool) -> bool {
    forall|p: &str, b: bool|
        p@ == path && #[trigger] call_ensures(executable, (p,), b) ==> b == found
}

/// On Windows a program's file is its name with `.exe` behind it, elsewhere its name.
pub proof fn law_a_program_is_a_file_of_its_name(stem: &str, windows: bool, r: String)
    requires
        call_ensures(exe_name, (stem, windows), r),
    ensures
        windows ==> r@ == stem@ + ".exe"@,
        !windows ==> r@ == stem@,
{
}

/// A directory gives both tools or neither: it has them only where both can be run, each
/// then under its own name in that directory.
pub proof fn law_a_directory_gives_both_tools_or_neither<E: Fn(&str) -> bool>(
    dir: &str,
    windows: bool,
    executable: &E,
    r: Option<FfmpegTools>,
)
    requires
        call_ensures(FfmpegTools::in_directory::<E>, (dir, windows, executable), r),
    ensures
        r matches Some(tools) ==> tools.ffmpeg@ == joined_path(
            dir@,
            program("ffmpeg"@, windows),
            windows,
        ) && tools.ffprobe@ == joined_path(dir@, program("ffprobe"@, windows), windows),
        always_says(*executable, joined_path(dir@, program("ffmpeg"@, windows), windows), false)
            ==> r is None,
        always_says(*executable, joined_path(dir@, program("ffprobe"@, windows), windows), false)
            ==> r is None,
        always_says(*executable, joined_path(dir@, program("ffmpeg"@, windows), windows), true)
            && always_says(
            *executable,
            joined_path(dir@, program("ffprobe"@, windows), windows),
            true,
        ) ==> r is Some,
{
}

/// A directory that has both tools.
pub open spec fn has_both<E: Fn(&str) -> bool>(executable: E, windows: bool, dir: Seq<char>) -> bool {
    &&& always_says(executable, joined_path(dir, program("ffmpeg"@, windows), windows), true)
    &&& always_says(executable, joined_path(dir, program("ffprobe"@, windows), windows), true)
}

/// A directory that has no ffmpeg.
pub open spec fn has_none<E: Fn(&str) -> bool>(executable: E, windows: bool, dir: Seq<char>) -> bool {
    always_says(executable, joined_path(dir, program("ffmpeg"@, windows), windows), false)
}

/// An override is used or refused, never passed over; without one a bundled copy comes
/// before anything on the path, and on the path the first directory that has both comes
/// before the rest.
pub proof fn law_the_tools_asked_for_come_first<E: Fn(&str) -> bool>(
    override_dir: Option<&str>,
    bundled: Option<&str>,
    path: &Vec<String>,
    windows: bool,
    executable: &E,
    r: Result<(FfmpegTools, ToolSource), MediaError>,
)
    requires
        call_ensures(locate::<E>, (override_dir, bundled, path, windows, executable), r),
    ensures
        override_dir matches Some(dir) ==> has_both(*executable, windows, dir@) ==> (r matches Ok(found)
            && found.1 == ToolSource::Override && found.0.ffmpeg@ == joined_path(
            dir@,
            program("ffmpeg"@, windows),
            windows,
        )),
        override_dir matches Some(dir) ==> has_none(*executable, windows, dir@) ==> (r matches Err(
            MediaError::ToolsNotInDirectory(named),
        ) && named@ == dir@),
        override_dir is None ==> (bundled matches Some(dir) ==> has_both(*executable, windows, dir@)
            ==> (r matches Ok(found) && found.1 == ToolSource::Bundled && found.0.ffmpeg@
            == joined_path(dir@, program("ffmpeg"@, windows), windows))),
        override_dir is None && bundled is None && path@.len() > 0 && has_both(
            *executable,
            windows,
            path@[0]@,
        ) ==> (r matches Ok(found) && found.1 == ToolSource::SystemPath && found.0.ffmpeg@
            == joined_path(path@[0]@, program("ffmpeg"@, windows), windows)),
        override_dir is None && bundled is None && path@.len() > 1 && has_none(
            *executable,
            windows,
            path@[0]@,
        ) && has_both(*executable, windows, path@[1]@) ==> (r matches Ok(found) && found.1
            == ToolSource::SystemPath && found.0.ffmpeg@ == joined_path(
            path@[1]@,
            program("ffmpeg"@, windows),
            windows,
        )),
        override_dir is None && bundled is None && path@.len() == 0 ==> r matches Err(
            MediaError::ToolsNotFound,
        ),
{
    reveal_with_fuel(finds_first, 3);
    if path@.len() > 1 {
        assert(path@.skip(1)[0] == path@[1]);
    }
}

} // verus!
