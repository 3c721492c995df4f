//! File names inside paths.
//!
//! The slash separates the parts of a path everywhere. On Windows the backslash does
//! too, and a path may begin with a prefix that no file name is part of: a drive, such
//! as `C:`, or a share, such as `\\server\share`. `windows` says whose paths are meant.
//! A verbatim path such as `\\?\C:\film.mkv` is read as if `?` were a server and `C:` its
//! share, which comes to the same name and directory.

use crate::text::{chars_of, string_of};
use vstd::prelude::*;
use vstd::string::*;

verus! {

/// Whether a character separates the parts of a path.
pub open spec fn separates(c: char, windows: bool) -> bool {
    c == '/' || windows && c == '\\'
}

fn is_separator(c: char, windows: bool) -> (r: bool)
    ensures
        r == separates(c, windows),
{
    c == '/' || (windows && c == '\\')
}

/// What is put between two parts of a path.
pub open spec fn separator(windows: bool) -> char {
    if windows {
        '\\'
    } else {
        '/'
    }
}

/// Whether a text begins with a drive: a letter and a colon.
pub open spec fn has_drive(p: Seq<char>) -> bool {
    p.len() >= 2 && ('a' <= p[0] <= 'z' || 'A' <= p[0] <= 'Z') && p[1] == ':'
}

fn starts_with_drive(p: &[char]) -> (r: bool)
    ensures
        r == has_drive(p@),
{
    p.len() >= 2 && (('a' <= p[0] && p[0] <= 'z') || ('A' <= p[0] && p[0] <= 'Z')) && p[1] == ':'
}

/// Where the part of a path that reaches over `from` ends.
pub open spec fn part_end(p: Seq<char>, from: int, windows: bool) -> int
    decreases p.len() - from,
{
    if from >= p.len() || separates(p[from], windows) {
        from
    } else {
        part_end(p, from + 1, windows)
    }
}

/// How long the prefix of a path is: a drive, or two separators, a server, another
/// separator and a share.
pub open spec fn prefix_len(p: Seq<char>, windows: bool) -> int {
    if !windows {
        0
    } else if p.len() >= 2 && separates(p[0], windows) && separates(p[1], windows) {
        let server = part_end(p, 2, windows);
        let share = part_end(p, server + 1, windows);
        if server > 2 && share > server + 1 {
            share
        } else {
            0
        }
    } else if has_drive(p) {
        2
    } else {
        0
    }
}

/// A path without its prefix.
pub open spec fn body(p: Seq<char>, windows: bool) -> Seq<char> {
    p.skip(prefix_len(p, windows))
}

/// A path without what names nothing at its end: separators, and a `.` behind one.
pub open spec fn trunk(p: Seq<char>, windows: bool) -> Seq<char>
    decreases p.len(),
{
    if p.len() > 0 && separates(p.last(), windows) {
        trunk(p.drop_last(), windows)
    } else if p.len() >= 2 && p.last() == '.' && separates(p[p.len() - 2], windows) {
        trunk(p.drop_last(), windows)
    } else {
        p
    }
}

/// Where the part behind the last separator begins.
pub open spec fn part_start(p: Seq<char>, windows: bool) -> int
    decreases p.len(),
{
    if p.len() == 0 || separates(p.last(), windows) {
        p.len() as int
    } else {
        part_start(p.drop_last(), windows)
    }
}

/// The last part of a path, unless it is the directory above, the one it starts
/// from, or nothing.
pub open spec fn name_of(p: Seq<char>, windows: bool) -> Option<Seq<char>> {
    let t = trunk(body(p, windows), windows);
    let name = t.skip(part_start(t, windows));
    if name.len() == 0 || name == seq!['.'] || name == seq!['.', '.'] {
        None
    } else {
        Some(name)
    }
}

/// Where the last dot of a name is; below zero where it has none.
pub open spec fn dot_at(name: Seq<char>) -> int
    decreases name.len(),
{
    if name.len() == 0 {
        -1
    } else if name.last() == '.' {
        name.len() - 1
    } else {
        dot_at(name.drop_last())
    }
}

/// The last dot of a name is one of its characters.
pub proof fn lemma_dot_in_range(name: Seq<char>)
    ensures
        -1 <= dot_at(name) < name.len(),
    decreases name.len(),
{
    if name.len() > 0 && name.last() != '.' {
        lemma_dot_in_range(name.drop_last());
    }
}

/// A name without its extension. A dot in front of everything begins a hidden
/// file's name, not an extension.
pub open spec fn stem_of_name(name: Seq<char>) -> Seq<char> {
    if dot_at(name) > 0 {
        name.take(dot_at(name))
    } else {
        name
    }
}

/// The extension of a name, without its dot.
pub open spec fn extension_of_name(name: Seq<char>) -> Option<Seq<char>> {
    if dot_at(name) > 0 {
        Some(name.skip(dot_at(name) + 1))
    } else {
        None
    }
}

/// The stem of the file that a path names.
pub open spec fn stem_of(p: Seq<char>, windows: bool) -> Option<Seq<char>> {
    match name_of(p, windows) {
        Some(name) => Some(stem_of_name(name)),
        None => None,
    }
}

/// The extension of the file that a path names.
pub open spec fn extension_of(p: Seq<char>, windows: bool) -> Option<Seq<char>> {
    match name_of(p, windows) {
        Some(name) => extension_of_name(name),
        None => None,
    }
}

/// A file name added to a path, with a separator between them where one is needed. A
/// drive needs none, and a name that begins with a drive stands for itself.
pub open spec fn joined_path(base: Seq<char>, name: Seq<char>, windows: bool) -> Seq<char> {
    if windows && has_drive(name) {
        name
    } else if base.len() == 0 || separates(base.last(), windows) || windows && base.len() == 2
        && has_drive(base) {
        base + name
    } else {
        base.push(separator(windows)) + name
    }
}

/// The directory that the file a path names is in.
pub open spec fn directory_of(p: Seq<char>, windows: bool) -> Seq<char> {
    let t = trunk(body(p, windows), windows);
    let front = t.take(part_start(t, windows));
    let dir = trunk(front, windows);
    p.take(prefix_len(p, windows)) + if front.len() > 0 && separates(front[0], windows) && dir.len()
        == 0 {
        seq![front[0]]
    } else {
        dir
    }
}

/// A path with the file it names replaced by another beside it; a path that names
/// no file gets the name added.
pub open spec fn renamed(p: Seq<char>, name: Seq<char>, windows: bool) -> Seq<char> {
    if name_of(p, windows) is Some {
        joined_path(directory_of(p, windows), name, windows)
    } else {
        joined_path(p, name, windows)
    }
}

/// A name that a file can have in a directory.
pub open spec fn plain_name(name: Seq<char>, windows: bool) -> bool {
    &&& name.len() > 0
    &&& no_separator(name, windows)
    &&& name != seq!['.']
    &&& name != seq!['.', '.']
}

pub open spec fn no_separator(s: Seq<char>, windows: bool) -> bool {
    forall|i: int| 0 <= i < s.len() ==> !separates(#[trigger] s[i], windows)
}

/// Where the part of a path that reaches over `from` ends.
fn find_end(p: &[char], from: usize, windows: bool) -> (end: usize)
    requires
        from <= p@.len(),
    ensures
        from <= end <= p@.len(),
        end == part_end(p@, from as int, windows),
{
    let mut end: usize = from;
    while end < p.len() && !is_separator(p[end], windows)
        invariant
            from <= end <= p@.len(),
            part_end(p@, from as int, windows) == part_end(p@, end as int, windows),
        decreases p@.len() - end,
    {
        end += 1;
    }
    end
}

/// How long the prefix of a path is.
fn find_prefix(p: &[char], windows: bool) -> (n: usize)
    ensures
        n <= p@.len(),
        n == prefix_len(p@, windows),
{
    if !windows {
        return 0;
    }
    if p.len() >= 2 && is_separator(p[0], windows) && is_separator(p[1], windows) {
        let server = find_end(p, 2, windows);
        if server == 2 || server == p.len() {
            assert(part_end(p@, server + 1, windows) == server + 1 || server == 2);
            return 0;
        }
        let share = find_end(p, server + 1, windows);
        if share > server + 1 {
            share
        } else {
            0
        }
    } else if starts_with_drive(p) {
        2
    } else {
        0
    }
}

/// How much of a path is left of what names nothing at its end.
fn trunk_end(p: &[char], from: usize, len: usize, windows: bool) -> (end: usize)
    requires
        from <= len <= p@.len(),
    ensures
        from <= end <= len,
        trunk(p@.subrange(from as int, len as int), windows) == p@.subrange(
            from as int,
            end as int,
        ),
{
    let mut end: usize = len;
    loop
        invariant
            from <= end <= len <= p@.len(),
            trunk(p@.subrange(from as int, len as int), windows) == trunk(
                p@.subrange(from as int, end as int),
                windows,
            ),
        ensures
            from <= end <= len,
            trunk(p@.subrange(from as int, len as int), windows) == p@.subrange(
                from as int,
                end as int,
            ),
        decreases end,
    {
        let ghost t = p@.subrange(from as int, end as int);
        if end > from && is_separator(p[end - 1], windows) {
            assert(t.drop_last() =~= p@.subrange(from as int, end - 1));
            end -= 1;
        } else if end - from >= 2 && p[end - 1] == '.' && is_separator(p[end - 2], windows) {
            assert(t.drop_last() =~= p@.subrange(from as int, end - 1));
            end -= 1;
        } else {
            break;
        }
    }
    end
}

/// Where the part behind the last separator begins.
fn find_part(p: &[char], from: usize, len: usize, windows: bool) -> (start: usize)
    requires
        from <= len <= p@.len(),
    ensures
        from <= start <= len,
        start - from == part_start(p@.subrange(from as int, len as int), windows),
{
    let mut start: usize = len;
    while start > from && !is_separator(p[start - 1], windows)
        invariant
            from <= start <= len <= p@.len(),
            part_start(p@.subrange(from as int, len as int), windows) == part_start(
                p@.subrange(from as int, start as int),
                windows,
            ),
        decreases start,
    {
        assert(p@.subrange(from as int, start as int).drop_last() =~= p@.subrange(
            from as int,
            start - 1,
        ));
        start -= 1;
    }
    start
}

/// The name of the file that a path names, if it names one.
pub fn file_name(path: &str, windows: bool) -> (r: Option<String>)
    ensures
        r matches Some(name) ==> name_of(path@, windows) == Some(name@),
        r is None ==> name_of(path@, windows) is None,
{
    let chars = chars_of(path);
    let p = chars.as_slice();
    let from = find_prefix(p, windows);
    assert(p@.subrange(from as int, p@.len() as int) =~= body(path@, windows));
    let end = trunk_end(p, from, p.len(), windows);
    let start = find_part(p, from, end, windows);
    let name = vstd::slice::slice_subrange(p, start, end);
    let ghost t = trunk(body(path@, windows), windows);
    assert(name@ =~= t.skip(part_start(t, windows)));
    if name.len() == 0 {
        return None;
    }
    if name.len() == 1 && name[0] == '.' {
        assert(name@ =~= seq!['.']);
        return None;
    }
    if name.len() == 2 && name[0] == '.' && name[1] == '.' {
        assert(name@ =~= seq!['.', '.']);
        return None;
    }
    Some(string_of(name))
}

/// Where the last dot of a name is, if it is an extension's.
fn extension_dot(name: &[char]) -> (r: Option<usize>)
    ensures
        r matches Some(at) ==> 0 < at < name@.len() && at == dot_at(name@),
        r is None ==> dot_at(name@) <= 0,
{
    let mut end: usize = name.len();
    assert(name@.take(end as int) =~= name@);
    while end > 0 && name[end - 1] != '.'
        invariant
            end <= name@.len(),
            dot_at(name@) == dot_at(name@.take(end as int)),
        decreases end,
    {
        assert(name@.take(end as int).drop_last() =~= name@.take(end - 1));
        end -= 1;
    }
    if end > 1 {
        Some(end - 1)
    } else {
        None
    }
}

/// The stem of the file that a path names: its name up to the last dot.
pub fn file_stem(path: &str, windows: bool) -> (r: Option<String>)
    ensures
        r matches Some(stem) ==> stem_of(path@, windows) == Some(stem@),
        r is None ==> stem_of(path@, windows) is None,
{
    let name = match file_name(path, windows) {
        Some(name) => name,
        None => return None,
    };
    let chars = chars_of(name.as_str());
    match extension_dot(chars.as_slice()) {
        Some(at) => {
            let stem = vstd::slice::slice_subrange(chars.as_slice(), 0, at);
            assert(stem@ =~= name@.take(at as int));
            Some(string_of(stem))
        },
        None => Some(name),
    }
}

/// The extension of the file that a path names: its name behind the last dot.
pub fn extension(path: &str, windows: bool) -> (r: Option<String>)
    ensures
        r matches Some(ext) ==> extension_of(path@, windows) == Some(ext@),
        r is None ==> extension_of(path@, windows) is None,
{
    let name = match file_name(path, windows) {
        Some(name) => name,
        None => return None,
    };
    let chars = chars_of(name.as_str());
    let len: usize = chars.len();
    match extension_dot(chars.as_slice()) {
        Some(at) => {
            let ext = vstd::slice::slice_subrange(chars.as_slice(), at + 1, len);
            assert(ext@ =~= name@.skip(at + 1));
            Some(string_of(ext))
        },
        None => None,
    }
}

/// Adds a file name to a path.
pub fn join(base: &str, name: &str, windows: bool) -> (r: String)
    requires
        plain_name(name@, windows),
    ensures
        r@ == joined_path(base@, name@, windows),
{
    let added = chars_of(name);
    if windows && starts_with_drive(added.as_slice()) {
        return name.to_owned();
    }
    let chars = chars_of(base);
    let p = chars.as_slice();
    let mut text = base.to_owned();
    if p.len() > 0 && !is_separator(p[p.len() - 1], windows) && !(windows && p.len() == 2
        && starts_with_drive(p)) {
        text.push(if windows {
            '\\'
        } else {
            '/'
        });
    }
    text.append(name);
    text
}

/// The path of a file beside the one that a path names.
pub fn with_file_name(path: &str, name: &str, windows: bool) -> (r: String)
    requires
        plain_name(name@, windows),
    ensures
        r@ == renamed(path@, name@, windows),
{
    if file_name(path, windows).is_none() {
        return join(path, name, windows);
    }
    let chars = chars_of(path);
    let p = chars.as_slice();
    let from = find_prefix(p, windows);
    assert(p@.subrange(from as int, p@.len() as int) =~= body(path@, windows));
    let end = trunk_end(p, from, p.len(), windows);
    let start = find_part(p, from, end, windows);
    let ghost t = trunk(body(path@, windows), windows);
    let ghost front = t.take(part_start(t, windows));
    assert(front =~= p@.subrange(from as int, start as int));
    let dir_end = trunk_end(p, from, start, windows);
    let kept = if start > from && is_separator(p[from], windows) && dir_end == from {
        from + 1
    } else {
        dir_end
    };
    let dir = vstd::slice::slice_subrange(p, 0, kept);
    assert(dir@ =~= directory_of(path@, windows));
    let text = string_of(dir);
    join(text.as_str(), name, windows)
}

/// The prefix of a path is part of it, and what follows more than a drive is nothing
/// or a separator.
proof fn lemma_prefix(p: Seq<char>, windows: bool)
    ensures
        0 <= prefix_len(p, windows) <= p.len(),
        prefix_len(p, windows) <= 2 || prefix_len(p, windows) == p.len() || separates(
            p[prefix_len(p, windows)],
            windows,
        ),
{
    if p.len() >= 2 {
        lemma_part_end(p, 2, windows);
        let server = part_end(p, 2, windows);
        if server < p.len() {
            lemma_part_end(p, server + 1, windows);
        }
    }
}

proof fn lemma_part_end(p: Seq<char>, from: int, windows: bool)
    requires
        0 <= from <= p.len(),
    ensures
        from <= part_end(p, from, windows) <= p.len(),
        part_end(p, from, windows) == p.len() || separates(p[part_end(p, from, windows)], windows),
    decreases p.len() - from,
{
    if from < p.len() && !separates(p[from], windows) {
        lemma_part_end(p, from + 1, windows);
    }
}

/// The prefix of a path ends before a name that the path ends in.
pub open spec fn prefix_spares(p: Seq<char>, name: Seq<char>, windows: bool) -> bool {
    prefix_len(p, windows) + name.len() <= p.len()
}

/// A path to a name ends in that name, whatever the directory. On Windows this needs
/// the name not to become part of a prefix, as a share's does behind its server.
pub proof fn law_joined_path_names_its_file(base: Seq<char>, name: Seq<char>, windows: bool)
    requires
        plain_name(name, windows),
        prefix_spares(joined_path(base, name, windows), name, windows),
    ensures
        name_of(joined_path(base, name, windows), windows) == Some(name),
{
    let p = joined_path(base, name, windows);
    let n = prefix_len(p, windows);
    lemma_prefix(p, windows);
    let front = p.take(p.len() - name.len());
    assert(p =~= front + name);
    let inner = front.skip(n);
    let b = body(p, windows);
    assert(b =~= inner + name);
    if inner.len() > 0 {
        assert(inner.last() == front.last());
        if windows && base.len() == 2 && has_drive(base) {
            assert(front =~= base);
            assert(p[0] == base[0] && p[1] == base[1]);
            assert(has_drive(p));
            assert(n == 2);
        }
        assert(separates(inner.last(), windows));
    }
    assert(b.last() == name.last());
    assert(!separates(name[name.len() - 1], windows));
    if name.last() == '.' && b.len() >= 2 && separates(b[b.len() - 2], windows) {
        if name.len() == 1 {
            assert(name =~= seq!['.']);
        } else {
            assert(b[b.len() - 2] == name[name.len() - 2]);
        }
    }
    assert(trunk(b, windows) == b);
    lemma_part_start(inner, name, windows);
    assert(b.skip(inner.len() as int) =~= name);
}

/// The last part of a path begins behind its last separator.
proof fn lemma_part_start(front: Seq<char>, name: Seq<char>, windows: bool)
    requires
        no_separator(name, windows),
        front.len() == 0 || separates(front.last(), windows),
    ensures
        part_start(front + name, windows) == front.len(),
    decreases name.len(),
{
    let p = front + name;
    if name.len() == 0 {
        assert(p =~= front);
    } else {
        let shorter = name.drop_last();
        assert(p.last() == name[name.len() - 1]);
        assert(p.drop_last() =~= front + shorter);
        assert forall|i: int| 0 <= i < shorter.len() implies !separates(
            #[trigger] shorter[i],
            windows,
        ) by {
            assert(shorter[i] == name[i]);
        }
        lemma_part_start(front, shorter, windows);
    }
}

/// Renaming gives a path to the new name, under the same condition.
pub proof fn law_renaming_names_the_new_file(p: Seq<char>, name: Seq<char>, windows: bool)
    requires
        plain_name(name, windows),
        prefix_spares(renamed(p, name, windows), name, windows),
    ensures
        name_of(renamed(p, name, windows), windows) == Some(name),
{
    if name_of(p, windows) is Some {
        law_joined_path_names_its_file(directory_of(p, windows), name, windows);
    } else {
        law_joined_path_names_its_file(p, name, windows);
    }
}

/// A path that a file is renamed in to a name longer by more than a drive is not the
/// path of the file itself.
pub proof fn law_a_longer_name_is_another_file(p: Seq<char>, name: Seq<char>, windows: bool)
    requires
        plain_name(name, windows),
        name_of(p, windows) matches Some(own) ==> name.len() > own.len() + 2,
        name_of(p, windows) is None ==> !has_drive(name),
    ensures
        renamed(p, name, windows) != p,
{
    let out = renamed(p, name, windows);
    if let Some(own) = name_of(p, windows) {
        if out == p {
            let n = prefix_len(p, windows);
            lemma_prefix(p, windows);
            let front = (p.len() - name.len()) as int;
            assert(p.skip(front) =~= name);
            if n <= front {
                law_renaming_names_the_new_file(p, name, windows);
            } else {
                let b = body(p, windows);
                assert forall|i: int| 0 <= i < b.len() implies !separates(
                    #[trigger] b[i],
                    windows,
                ) by {
                    assert(b[i] == name[n - front + i]);
                }
                if n < p.len() {
                    assert(p[n] == b[0]);
                }
                lemma_one_part(b, windows);
                assert(own == b.skip(0));
            }
        }
    }
}

/// A text without separators is one part.
proof fn lemma_one_part(s: Seq<char>, windows: bool)
    requires
        no_separator(s, windows),
    ensures
        trunk(s, windows) == s,
        part_start(s, windows) == 0,
{
    if s.len() > 0 {
        assert(!separates(s[s.len() - 1], windows));
    }
    if s.len() > 1 {
        assert(!separates(s[s.len() - 2], windows));
    }
    lemma_part_start(Seq::empty(), s, windows);
    assert(Seq::empty() + s =~= s);
}

/// The last part of a path has no separator in it.
pub proof fn lemma_name_is_plain(p: Seq<char>, windows: bool)
    ensures
        name_of(p, windows) matches Some(name) ==> plain_name(name, windows),
{
    let t = trunk(body(p, windows), windows);
    lemma_part_is_plain(t, windows);
    let name = t.skip(part_start(t, windows));
    assert forall|i: int| 0 <= i < name.len() implies !separates(#[trigger] name[i], windows) by {
        assert(name[i] == t[part_start(t, windows) + i]);
    }
}

proof fn lemma_part_is_plain(t: Seq<char>, windows: bool)
    ensures
        0 <= part_start(t, windows) <= t.len(),
        forall|i: int| part_start(t, windows) <= i < t.len() ==> !separates(#[trigger] t[i], windows),
    decreases t.len(),
{
    if t.len() > 0 && !separates(t.last(), windows) {
        lemma_part_is_plain(t.drop_last(), windows);
        assert forall|i: int| part_start(t, windows) <= i < t.len() implies !separates(
            #[trigger] t[i],
            windows,
        ) by {
            if i < t.len() - 1 {
                assert(t.drop_last()[i] == t[i]);
            }
        }
    }
}

/// The slash separates everywhere, the backslash on Windows alone, and nothing else does;
/// parts are joined with the separator of the system.
pub proof fn law_slashes_separate(c: char)
    ensures
        separates(c, false) <==> c == '/',
        separates(c, true) <==> c == '/' || c == '\\',
        separator(false) == '/' && separator(true) == '\\',
{
}

/// A name is a stem and, behind its last dot, an extension; a dot in front of everything
/// begins no extension.
pub proof fn law_an_extension_is_behind_the_last_dot(stem: Seq<char>, ext: Seq<char>)
    requires
        !ext.contains('.'),
    ensures
        stem.len() > 0 ==> extension_of_name(stem.push('.') + ext) == Some(ext),
        stem.len() > 0 ==> stem_of_name(stem.push('.') + ext) == stem,
        extension_of_name(seq!['.'] + ext) is None,
        stem_of_name(seq!['.'] + ext) == seq!['.'] + ext,
        extension_of_name(ext) is None && stem_of_name(ext) == ext,
{
    lemma_last_dot(stem, ext);
    lemma_last_dot(Seq::empty(), ext);
    assert(Seq::<char>::empty().push('.') =~= seq!['.']);
    lemma_no_dot(ext);
    let name = stem.push('.') + ext;
    assert(name.skip(stem.len() as int + 1) =~= ext);
    assert(name.take(stem.len() as int) =~= stem);
}

proof fn lemma_last_dot(stem: Seq<char>, ext: Seq<char>)
    requires
        !ext.contains('.'),
    ensures
        dot_at(stem.push('.') + ext) == stem.len(),
    decreases ext.len(),
{
    let name = stem.push('.') + ext;
    if ext.len() == 0 {
        assert(name.last() == '.');
    } else {
        let shorter = ext.drop_last();
        assert(ext[ext.len() - 1] != '.');
        assert(name.last() == ext.last());
        assert(name.drop_last() =~= stem.push('.') + shorter);
        assert forall|i: int| 0 <= i < shorter.len() implies shorter[i] != '.' by {
            assert(ext[i] == shorter[i]);
        }
        lemma_last_dot(stem, shorter);
    }
}

proof fn lemma_no_dot(s: Seq<char>)
    requires
        !s.contains('.'),
    ensures
        dot_at(s) == -1,
    decreases s.len(),
{
    if s.len() > 0 {
        assert(s[s.len() - 1] != '.');
        let shorter = s.drop_last();
        assert forall|i: int| 0 <= i < shorter.len() implies shorter[i] != '.' by {
            assert(s[i] == shorter[i]);
        }
        lemma_no_dot(shorter);
    }
}

/// A path to a file in a directory is taken apart into just that: the name behind the
/// last separator, the directory in front of it. Putting another name in keeps the
/// directory.
pub proof fn law_a_file_is_renamed_in_its_directory(dir: Seq<char>, name: Seq<char>, other: Seq<char>)
    requires
        plain_name(name, false),
        dir.len() > 0,
        !separates(dir.last(), false),
        dir.last() != '.',
    ensures
        name_of(dir.push('/') + name, false) == Some(name),
        directory_of(dir.push('/') + name, false) == dir,
        renamed(dir.push('/') + name, other, false) == dir.push('/') + other,
        name_of(name, false) == Some(name),
        renamed(name, other, false) == other,
{
    let p = dir.push('/') + name;
    law_joined_path_names_its_file(dir, name, false);
    law_joined_path_names_its_file(Seq::empty(), name, false);
    assert(Seq::<char>::empty() + name =~= name);
    assert(body(p, false) =~= p);
    assert(body(name, false) =~= name);
    // Nothing at the end of the path names nothing.
    assert(p.last() == name[name.len() - 1]);
    if name.last() == '.' && p.len() >= 2 && separates(p[p.len() - 2], false) {
        if name.len() == 1 {
            assert(name =~= seq!['.']);
        } else {
            assert(p[p.len() - 2] == name[name.len() - 2]);
        }
    }
    assert(trunk(p, false) == p);
    lemma_part_start(dir.push('/'), name, false);
    let front = p.take(dir.len() as int + 1);
    assert(front =~= dir.push('/'));
    assert(front.drop_last() =~= dir);
    assert(trunk(dir, false) == dir);
    assert(trunk(front, false) == dir);
    assert(p.take(0) + dir =~= dir);
    lemma_one_part(name, false);
    assert(name.take(0) =~= Seq::empty());
    assert(trunk(name.take(0), false) =~= Seq::empty());
    assert(name.take(0) + Seq::<char>::empty() =~= Seq::empty());
    assert(Seq::<char>::empty() + other =~= other);
}

/// A file's name is exchanged, or joined to a directory, and is then the name of the path:
/// on Windows unless it has become part of a prefix.
pub proof fn law_a_name_is_put_where_it_belongs(
    path: &str,
    name: &str,
    windows: bool,
    beside: String,
    inside: String,
    beside_path: &str,
    inside_path: &str,
    of_beside: Option<String>,
    of_inside: Option<String>,
)
    requires
        plain_name(name@, windows),
        call_ensures(with_file_name, (path, name, windows), beside),
        call_ensures(join, (path, name, windows), inside),
        beside_path@ == beside@,
        inside_path@ == inside@,
        call_ensures(file_name, (beside_path, windows), of_beside),
        call_ensures(file_name, (inside_path, windows), of_inside),
    ensures
        prefix_spares(beside@, name@, windows) ==> (of_beside matches Some(n) && n@ == name@),
        prefix_spares(inside@, name@, windows) ==> (of_inside matches Some(n) && n@ == name@),
        !windows ==> (of_beside matches Some(n) && n@ == name@) && (of_inside matches Some(n) && n@
            == name@),
{
    if !windows {
        assert(prefix_spares(beside@, name@, windows));
        assert(prefix_spares(inside@, name@, windows));
    }
    if prefix_spares(beside@, name@, windows) {
        law_renaming_names_the_new_file(path@, name@, windows);
    }
    if prefix_spares(inside@, name@, windows) {
        law_joined_path_names_its_file(path@, name@, windows);
    }
}

} // verus!
