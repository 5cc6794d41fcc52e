//! Paths as text, with `/` as the only separator.
//!
//! A path is a sequence of characters. Splitting it at every `/` gives its
//! segments. The empty segment and the segment `.` name nothing; the segment
//! `..` names the directory above. A path may begin with an anchor, which is
//! never taken away from it: the root `/`, or a `.` that stands for the
//! current directory.
use vstd::prelude::*;
use vstd::string::*;

verus! {

/// What a path names on disk at the moment it is probed.
#[derive(Clone, Copy, Debug, PartialEq, Eq, Structural)]
pub enum PathKind {
    /// Nothing is there.
    Missing,
    /// A regular file.
    File,
    /// A directory.
    Directory,
    /// Something else: a socket, a device, a pipe.
    Other,
}

/// The character that separates the segments of a path.
pub open spec fn separator() -> char {
    '/'
}

/// A path is absolute when it starts at the root.
pub open spec fn is_absolute_path(path: Seq<char>) -> bool {
    path.len() > 0 && path[0] == separator()
}

/// The index of the last separator in `path`, or -1 where it has none.
pub open spec fn last_separator(path: Seq<char>) -> int
    decreases path.len(),
{
    if path.len() == 0 {
        -1
    } else if path.last() == separator() {
        path.len() - 1
    } else {
        last_separator(path.drop_last())
    }
}

/// What follows the last separator of `path`; the whole of it where it has
/// none.
pub open spec fn last_segment(path: Seq<char>) -> Seq<char> {
    path.skip(last_separator(path) + 1)
}

/// The empty segment and `.` name nothing.
pub open spec fn names_nothing(segment: Seq<char>) -> bool {
    segment.len() == 0 || segment == seq!['.']
}

/// The segment `..` names the directory above.
pub open spec fn names_parent(segment: Seq<char>) -> bool {
    segment == seq!['.', '.']
}

/// A segment that can be the name of a file: it is not empty, holds no
/// separator, and is neither `.` nor `..`.
pub open spec fn is_file_name(name: Seq<char>) -> bool {
    &&& !names_nothing(name)
    &&& !names_parent(name)
    &&& forall|i: int| 0 <= i < name.len() ==> name[i] != separator()
}

/// The length of the anchor of `path`: 1 where it begins with the root or
/// with a `.` that is a segment of its own, else 0.
pub open spec fn anchor(path: Seq<char>) -> int {
    if path.len() > 0 && path[0] == separator() {
        1
    } else if path.len() > 0 && path[0] == '.' && (path.len() == 1 || path[1] == separator()) {
        1
    } else {
        0
    }
}

/// `path` without its last segment and the separator before it; the anchor
/// stays.
pub open spec fn without_last_segment(path: Seq<char>) -> Seq<char> {
    if last_separator(path) >= anchor(path) {
        path.take(last_separator(path))
    } else {
        path.take(anchor(path))
    }
}

/// `path` without the segments at its end that name nothing.
pub open spec fn trimmed(path: Seq<char>) -> Seq<char>
    decreases path.len(),
    via trimmed_decreases
{
    if path.len() > anchor(path) && names_nothing(last_segment(path)) {
        trimmed(without_last_segment(path))
    } else {
        path
    }
}

#[via_fn]
proof fn trimmed_decreases(path: Seq<char>) {
    last_separator_is_last(path);
}

/// The name of the file that `path` ends in: the last segment that is left
/// when those that name nothing are taken off its end. There is none where
/// nothing is left but the anchor, or where that segment is `..`.
pub open spec fn file_name_of(path: Seq<char>) -> Option<Seq<char>> {
    let segment = last_segment(trimmed(path));
    if names_nothing(segment) || names_parent(segment) {
        None
    } else {
        Some(segment)
    }
}

/// The directory that `path` stands in: the path without its last segment
/// that names something. The current directory stands in the empty path;
/// the root and the empty path stand in nothing.
pub open spec fn parent_of(path: Seq<char>) -> Option<Seq<char>> {
    let rest = trimmed(path);
    if !names_nothing(last_segment(rest)) {
        Some(trimmed(without_last_segment(rest)))
    } else if rest == seq!['.'] {
        Some(Seq::empty())
    } else {
        None
    }
}

/// `dir` extended by `name`: an absolute `name` stands for itself, any other
/// is appended, behind a separator unless `dir` is empty or ends in one.
pub open spec fn join_paths(dir: Seq<char>, name: Seq<char>) -> Seq<char> {
    if is_absolute_path(name) {
        name
    } else if dir.len() == 0 || dir.last() == separator() {
        dir + name
    } else {
        dir.push(separator()) + name
    }
}

/// `last_separator` is below the length, points at a separator unless it is
/// -1, and no separator follows it.
pub proof fn last_separator_is_last(path: Seq<char>)
    ensures
        -1 <= last_separator(path) < path.len(),
        last_separator(path) >= 0 ==> path[last_separator(path)] == separator(),
        forall|i: int| last_separator(path) < i < path.len() ==> path[i] != separator(),
    decreases path.len(),
{
    if path.len() > 0 && path.last() != separator() {
        let shorter = path.drop_last();
        last_separator_is_last(shorter);
        assert forall|i: int| last_separator(path) < i < path.len() implies path[i]
            != separator() by {
            if i < shorter.len() {
                assert(shorter[i] == path[i]);
            }
        }
    }
}

/// The index of a separator that no separator follows is `last_separator`;
/// so is -1 where the path holds none.
pub proof fn last_separator_found(path: Seq<char>, at: int)
    requires
        -1 <= at < path.len(),
        at >= 0 ==> path[at] == separator(),
        forall|i: int| at < i < path.len() ==> path[i] != separator(),
    ensures
        last_separator(path) == at,
{
    last_separator_is_last(path);
}

/// A path whose last segment names something is longer than its anchor, and
/// nothing is trimmed off it.
pub proof fn named_end_is_kept(path: Seq<char>)
    requires
        !names_nothing(last_segment(path)),
    ensures
        path.len() > anchor(path),
        trimmed(path) == path,
{
    last_separator_is_last(path);
    let segment = last_segment(path);
    if path.len() == 1 && path[0] == '.' {
        assert(segment =~= seq!['.']);
    }
}

/// Trimming leaves a start of the path, with its anchor, that ends in a
/// segment with a name unless only the anchor is left; trimming it again
/// changes nothing.
pub proof fn trimmed_is_a_start(path: Seq<char>)
    ensures
        anchor(path) <= trimmed(path).len() <= path.len(),
        trimmed(path) == path.take(trimmed(path).len() as int),
        anchor(trimmed(path)) == anchor(path),
        trimmed(path).len() == anchor(path) || !names_nothing(last_segment(trimmed(path))),
        trimmed(trimmed(path)) == trimmed(path),
    decreases path.len(),
{
    last_separator_is_last(path);
    if path.len() > anchor(path) && names_nothing(last_segment(path)) {
        trimmed_is_a_start(without_last_segment(path));
    }
}

/// A file name, where a path has one, is a segment that can name a file.
pub proof fn file_name_is_a_name(path: Seq<char>)
    ensures
        file_name_of(path) matches Some(name) ==> is_file_name(name),
{
    last_separator_is_last(trimmed(path));
}

/// A path that ends in a file name stands in a directory.
pub proof fn named_file_has_a_parent(path: Seq<char>)
    ensures
        file_name_of(path) is Some ==> parent_of(path) is Some,
{
}

/// What was joined on as a file name is the file name of the joined path.
pub proof fn file_name_of_joined(dir: Seq<char>, name: Seq<char>)
    requires
        is_file_name(name),
    ensures
        file_name_of(join_paths(dir, name)) == Some(name),
{
    let joined = join_paths(dir, name);
    let at = joined.len() - name.len() - 1;
    assert(joined.skip(at + 1) =~= name);
    last_separator_found(joined, at);
    named_end_is_kept(joined);
}

/// Tells whether `path` starts at the root.
pub fn is_absolute(path: &str) -> (absolute: bool)
    ensures
        absolute == is_absolute_path(path@),
{
    if path.is_empty() {
        false
    } else {
        path.get_char(0) == '/'
    }
}

/// The characters of `text`, one element each.
fn characters(text: &str) -> (chars: Vec<char>)
    ensures
        chars@ == text@,
{
    let mut chars: Vec<char> = Vec::new();
    for c in iter: text.chars()
        invariant
            iter.seq() == text@,
            chars@ == text@.take(iter.index() as int),
    {
        chars.push(c);
    }
    chars
}

/// Where the last segment of the first `end` characters begins.
fn segment_start(chars: &Vec<char>, end: usize) -> (start: usize)
    requires
        end <= chars.len(),
    ensures
        start <= end,
        start == last_separator(chars@.take(end as int)) + 1,
        last_segment(chars@.take(end as int)) == chars@.subrange(start as int, end as int),
{
    let mut start: usize = end;
    while start > 0 && chars[start - 1] != '/'
        invariant
            start <= end <= chars.len(),
            forall|i: int| start <= i < end ==> chars@[i] != separator(),
        decreases start,
    {
        start -= 1;
    }
    proof {
        let path = chars@.take(end as int);
        last_separator_found(path, start - 1);
    }
    start
}

/// Whether the characters from `start` to `end` are a segment that names
/// nothing.
fn is_nothing(chars: &Vec<char>, start: usize, end: usize) -> (nothing: bool)
    requires
        start <= end <= chars.len(),
    ensures
        nothing == names_nothing(chars@.subrange(start as int, end as int)),
{
    let ghost segment = chars@.subrange(start as int, end as int);
    if end == start {
        true
    } else if end - start == 1 && chars[start] == '.' {
        assert(segment =~= seq!['.']);
        true
    } else {
        assert(segment[0] == chars@[start as int]);
        false
    }
}

/// The length of the anchor of the first `end` characters.
fn anchor_length(chars: &Vec<char>, end: usize) -> (length: usize)
    requires
        end <= chars.len(),
    ensures
        length == anchor(chars@.take(end as int)),
        length <= end,
{
    if end > 0 && chars[0] == '/' {
        1
    } else if end > 0 && chars[0] == '.' && (end == 1 || chars[1] == '/') {
        1
    } else {
        0
    }
}

/// How much of the first `end` characters is left when the segments at
/// their end that name nothing are taken off.
fn trimmed_length(chars: &Vec<char>, end: usize) -> (keep: usize)
    requires
        end <= chars.len(),
    ensures
        keep <= end,
        chars@.take(keep as int) == trimmed(chars@.take(end as int)),
{
    let mut keep: usize = end;
    loop
        invariant
            keep <= end <= chars.len(),
            trimmed(chars@.take(end as int)) == trimmed(chars@.take(keep as int)),
        decreases keep,
    {
        let ghost path = chars@.take(keep as int);
        let fixed = anchor_length(chars, keep);
        if keep <= fixed {
            return keep;
        }
        let start = segment_start(chars, keep);
        if !is_nothing(chars, start, keep) {
            return keep;
        }
        let shorter: usize = if start > fixed {
            start - 1
        } else {
            fixed
        };
        assert(without_last_segment(path) =~= chars@.take(shorter as int));
        keep = shorter;
    }
}

/// The name of the file that `path` ends in, if it ends in one.
pub fn file_name(path: &str) -> (name: Option<String>)
    ensures
        name.deep_view() == file_name_of(path@),
{
    let chars = characters(path);
    assert(chars@.take(chars.len() as int) =~= path@);
    let end = trimmed_length(&chars, chars.len());
    let start = segment_start(&chars, end);
    let ghost segment = chars@.subrange(start as int, end as int);
    if is_nothing(&chars, start, end) {
        None
    } else if end - start == 2 && chars[start] == '.' && chars[start + 1] == '.' {
        assert(segment =~= seq!['.', '.']);
        None
    } else {
        Some(path.substring_char(start, end).to_owned())
    }
}

/// The directory that `path` stands in, if it stands in one.
pub fn parent(path: &str) -> (folder: Option<String>)
    ensures
        folder.deep_view() == parent_of(path@),
{
    let chars = characters(path);
    assert(chars@.take(chars.len() as int) =~= path@);
    let end = trimmed_length(&chars, chars.len());
    let start = segment_start(&chars, end);
    let ghost rest = chars@.take(end as int);
    if !is_nothing(&chars, start, end) {
        let fixed = anchor_length(&chars, end);
        let cut: usize = if start > fixed {
            start - 1
        } else {
            fixed
        };
        assert(without_last_segment(rest) =~= chars@.take(cut as int));
        let keep = trimmed_length(&chars, cut);
        Some(path.substring_char(0, keep).to_owned())
    } else if end == 1 && chars[0] == '.' {
        assert(rest =~= seq!['.']);
        Some(String::new())
    } else {
        None
    }
}

/// `dir` extended by `name`.
pub fn join(dir: &str, name: &str) -> (joined: String)
    ensures
        joined@ == join_paths(dir@, name@),
{
    if is_absolute(name) {
        return name.to_owned();
    }
    let chars = characters(dir);
    let mut joined = dir.to_owned();
    if chars.len() > 0 && chars[chars.len() - 1] != '/' {
        proof {
            reveal_strlit("/");
        }
        joined.append("/");
    }
    joined.append(name);
    joined
}

} // verus!
