//! Logical paths and where they live in the store.
//!
//! A logical path is what the user types: segments separated by `/`. It is
//! mapped to a physical path below the store root: the last segment, with the
//! record extension, is the file name, and the segments before it are
//! directories. Segments are taken literally; a path whose directories are
//! not all plain names is never handed to the file system.

use vstd::prelude::*;
use vstd::string::*;
use crate::error::ErrorKind;
use crate::settings::Settings;
use crate::text::{join, join_slashed, lemma_split_pieces, split, split_on, to_chars};

verus! {

/// The characters a logical path may hold.
pub open spec fn path_char(c: char) -> bool {
    ('a' <= c && c <= 'z') || ('A' <= c && c <= 'Z') || ('0' <= c && c <= '9') || c == '_' || c
        == '/' || c == '.' || c == '-' || c == 'å' || c == 'ä' || c == 'ö' || c == 'Å' || c == 'Ä'
        || c == 'Ö'
}

pub fn is_path_char(c: char) -> (r: bool)
    ensures
        r == path_char(c),
{
    ('a' <= c && c <= 'z') || ('A' <= c && c <= 'Z') || ('0' <= c && c <= '9') || c == '_' || c
        == '/' || c == '.' || c == '-' || c == 'å' || c == 'ä' || c == 'ö' || c == 'Å' || c == 'Ä'
        || c == 'Ö'
}

/// A logical path is valid when it is not empty and every character of it is
/// allowed.
pub open spec fn valid_path(s: Seq<char>) -> bool {
    s.len() > 0 && forall|i: int| 0 <= i < s.len() ==> path_char(#[trigger] s[i])
}

/// Accepts exactly the valid logical paths.
pub fn validate_path(relative_path: &str) -> (r: Result<(), ErrorKind>)
    ensures
        r == (if valid_path(relative_path@) {
            Ok::<(), ErrorKind>(())
        } else {
            Err::<(), ErrorKind>(ErrorKind::InvalidPath)
        }),
{
    if relative_path.is_empty() {
        return Err(ErrorKind::InvalidPath);
    }
    for c in it: relative_path.chars()
        invariant
            it.seq() == relative_path@,
            forall|i: int| 0 <= i < it.index() ==> path_char(#[trigger] relative_path@[i]),
    {
        if !is_path_char(c) {
            return Err(ErrorKind::InvalidPath);
        }
    }
    Ok(())
}

/// The extension of a record file, with its dot.
pub open spec fn extension() -> Seq<char> {
    seq!['.', 't', 'o', 'm', 'l']
}

/// A location below the store root: a record file or a directory.
#[derive(Debug)]
pub struct PhysicalPath {
    /// The store root, as configured.
    pub root: String,
    /// The names that lead from the root to the location.
    pub segments: Vec<String>,
}

/// What a `PhysicalPath` stands for.
pub struct PhysicalPathView {
    pub root: Seq<char>,
    pub segments: Seq<Seq<char>>,
}

impl View for PhysicalPath {
    type V = PhysicalPathView;

    open spec fn view(&self) -> PhysicalPathView {
        PhysicalPathView { root: self.root@, segments: self.segments.deep_view() }
    }
}

impl PhysicalPathView {
    /// The directory that holds this location; the root is its own parent.
    pub open spec fn parent(self) -> PhysicalPathView {
        if self.segments.len() == 0 {
            self
        } else {
            PhysicalPathView { root: self.root, segments: self.segments.drop_last() }
        }
    }

    /// The location as one string: the root, then the segments, with `/`
    /// between them.
    pub open spec fn text(self) -> Seq<char> {
        if self.segments.len() == 0 {
            self.root
        } else if self.root.len() == 0 || self.root.last() == '/' {
            self.root + join(self.segments, '/')
        } else {
            self.root.push('/') + join(self.segments, '/')
        }
    }
}

/// A copy of a list of strings.
pub fn copy_strings(list: &Vec<String>) -> (r: Vec<String>)
    ensures
        r.deep_view() == list.deep_view(),
{
    let mut out: Vec<String> = Vec::new();
    let mut i: usize = 0;
    while i < list.len()
        invariant
            i <= list.len(),
            out.deep_view() == list.deep_view().take(i as int),
        decreases list.len() - i,
    {
        let ghost before = out.deep_view();
        out.push(list[i].clone());
        assert(out.deep_view() =~= before.push(list@[i as int]@));
        assert(list.deep_view().take(i + 1) =~= list.deep_view().take(i as int).push(
            list@[i as int]@,
        ));
        i += 1;
    }
    assert(list.deep_view().take(list.len() as int) =~= list.deep_view());
    out
}

impl PhysicalPath {
    /// A copy of this location.
    pub fn duplicate(&self) -> (r: PhysicalPath)
        ensures
            r@ == self@,
    {
        PhysicalPath { root: self.root.clone(), segments: copy_strings(&self.segments) }
    }

    /// The directory that holds this location; the root is its own parent.
    pub fn parent(&self) -> (r: PhysicalPath)
        ensures
            r@ == self@.parent(),
    {
        let mut segments = copy_strings(&self.segments);
        if segments.len() > 0 {
            let ghost before = segments.deep_view();
            segments.pop();
            assert(segments.deep_view() =~= before.drop_last());
        }
        PhysicalPath { root: self.root.clone(), segments }
    }

    /// The location as one string, as it is shown to the user.
    pub fn to_text(&self) -> (r: String)
        ensures
            r@ == self@.text(),
    {
        let mut out = self.root.clone();
        if self.segments.len() == 0 {
            return out;
        }
        let root_chars = to_chars(self.root.as_str());
        if root_chars.len() > 0 && root_chars[root_chars.len() - 1] != '/' {
            proof {
                reveal_strlit("/");
            }
            out.append("/");
            assert(out@ =~= self.root@.push('/'));
        }
        let tail = join_slashed(&self.segments);
        out.append(tail.as_str());
        out
    }
}

/// The location of the record with logical path `logical`: the pieces of the
/// path between slashes, the last one with the record extension.
pub open spec fn resolved(root: Seq<char>, logical: Seq<char>) -> PhysicalPathView {
    let parts = split(logical, '/');
    PhysicalPathView { root, segments: parts.drop_last().push(parts.last() + extension()) }
}

/// Maps a logical path to the location of its record file, piece by piece.
/// The pieces are taken as they stand, so the location lies inside the
/// store only where the directories are plain names. That is for the
/// caller to ask: this mapping is not handed out of the crate.
pub(crate) fn locate(root: &str, relative_path: &str) -> (p: PhysicalPath)
    ensures
        p@ == resolved(root@, relative_path@),
{
    let mut segments = split_on(relative_path, '/');
    proof {
        lemma_split_pieces(relative_path@, '/');
    }
    let ghost parts = segments.deep_view();
    let last = segments.pop().unwrap();
    assert(segments.deep_view() =~= parts.drop_last());
    proof {
        reveal_strlit(".toml");
    }
    let file = last.concat(".toml");
    assert(".toml"@ =~= extension());
    let ghost dirs = segments.deep_view();
    segments.push(file);
    assert(segments.deep_view() =~= dirs.push(parts.last() + extension()));
    PhysicalPath { root: String::from_str(root), segments }
}

/// A name that is neither empty nor one of the two names every directory
/// holds for itself and its parent.
pub open spec fn plain_segment(s: Seq<char>) -> bool {
    s.len() > 0 && s != seq!['.'] && s != seq!['.', '.']
}

/// Whether every one of `segments` is a plain name, so that following them
/// from a directory stays below that directory.
pub open spec fn confined(segments: Seq<Seq<char>>) -> bool {
    forall|i: int| 0 <= i < segments.len() ==> plain_segment(#[trigger] segments[i])
}

pub fn is_plain_segment(s: &str) -> (r: bool)
    ensures
        r == plain_segment(s@),
{
    let chars = to_chars(s);
    if chars.len() == 0 {
        false
    } else if chars.len() == 1 {
        assert(chars@ =~= seq![chars@[0]]);
        chars[0] != '.'
    } else if chars.len() == 2 {
        assert(chars@ =~= seq![chars@[0], chars@[1]]);
        !(chars[0] == '.' && chars[1] == '.')
    } else {
        true
    }
}

/// Whether every one of `segments` is a plain name.
pub fn is_confined(segments: &Vec<String>) -> (r: bool)
    ensures
        r == confined(segments.deep_view()),
{
    let mut i: usize = 0;
    while i < segments.len()
        invariant
            i <= segments.len(),
            forall|j: int| 0 <= j < i ==> plain_segment(#[trigger] segments.deep_view()[j]),
        decreases segments.len() - i,
    {
        if !is_plain_segment(segments[i].as_str()) {
            assert(segments.deep_view()[i as int] == segments@[i as int]@);
            return false;
        }
        assert(segments.deep_view()[i as int] == segments@[i as int]@);
        i += 1;
    }
    true
}

/// The last piece of a logical path: the name of the record without its
/// directories.
pub open spec fn stem(logical: Seq<char>) -> Seq<char> {
    split(logical, '/').last()
}

/// Where a move to `to` puts the record `from`. A destination that ends in a
/// slash names a directory: the record keeps its name and goes inside.
pub open spec fn destination(from: Seq<char>, to: Seq<char>) -> Seq<char> {
    if to.len() > 0 && to.last() == '/' {
        to + stem(from)
    } else {
        to
    }
}

/// The logical path a record moved from `from` to `to` ends up with.
pub fn move_destination(from: &str, to: &str) -> (r: String)
    ensures
        r@ == destination(from@, to@),
{
    let to_chars = to_chars(to);
    let out = String::from_str(to);
    if to_chars.len() > 0 && to_chars[to_chars.len() - 1] == '/' {
        let mut parts = split_on(from, '/');
        proof {
            lemma_split_pieces(from@, '/');
        }
        let last = parts.pop().unwrap();
        out.concat(last.as_str())
    } else {
        out
    }
}

/// The directory a logical path names: its pieces, without the empty piece
/// that a trailing slash leaves.
pub open spec fn directory_segments(logical: Seq<char>) -> Seq<Seq<char>> {
    let parts = split(logical, '/');
    if parts.last().len() == 0 {
        parts.drop_last()
    } else {
        parts
    }
}

/// The directory below `root` that a logical path names.
pub open spec fn directory(root: Seq<char>, logical: Seq<char>) -> PhysicalPathView {
    PhysicalPathView { root, segments: directory_segments(logical) }
}

/// Maps a logical path to the directory it names, piece by piece. As with
/// `locate`, whether the pieces are plain names is for the caller to ask.
pub(crate) fn locate_directory(root: &str, relative_path: &str) -> (p: PhysicalPath)
    ensures
        p@ == directory(root@, relative_path@),
{
    let mut segments = split_on(relative_path, '/');
    proof {
        lemma_split_pieces(relative_path@, '/');
    }
    let ghost parts = segments.deep_view();
    if segments[segments.len() - 1].as_str().is_empty() {
        segments.pop();
        assert(segments.deep_view() =~= parts.drop_last());
    }
    PhysicalPath { root: String::from_str(root), segments }
}

/// The file of a record is reached by plain names wherever its directory
/// is: the name of the file ends in the record extension, so it is neither
/// empty nor one of the two dot names.
pub proof fn lemma_resolved_is_confined(root: Seq<char>, logical: Seq<char>)
    requires
        confined(resolved(root, logical).parent().segments),
    ensures
        confined(resolved(root, logical).segments),
{
    let at = resolved(root, logical).segments;
    assert(resolved(root, logical).parent().segments == at.drop_last());
    assert forall|i: int| 0 <= i < at.len() implies plain_segment(#[trigger] at[i]) by {
        if i < at.len() - 1 {
            assert(at[i] == at.drop_last()[i]);
        } else {
            assert(at[i].len() >= 5);
        }
    }
}

/// Resolves a logical path to the location of its record file, for use on
/// the file system. The path must be valid and its directories plain names,
/// so that the location lies inside the store; any other path is refused as
/// invalid. No file or directory is touched.
pub fn resolve(settings: &Settings, path: &str) -> (r: Result<PhysicalPath, ErrorKind>)
    ensures
        match r {
            Ok(p) => valid_path(path@) && p@ == resolved(settings@.root, path@) && confined(
                p@.segments,
            ),
            Err(e) => e == ErrorKind::InvalidPath && !(valid_path(path@) && confined(
                resolved(settings@.root, path@).parent().segments,
            )),
        },
{
    if validate_path(path).is_err() {
        return Err(ErrorKind::InvalidPath);
    }
    get_bookmark_file_path(settings.root.as_str(), path)
}

/// The location of the record file of a logical path below `root`. The
/// location is given only where it lies inside the store: a path with a
/// directory that is empty, `.` or `..` is refused as invalid. No file or
/// directory is touched.
pub fn get_bookmark_file_path(root: &str, relative_path: &str) -> (r: Result<
    PhysicalPath,
    ErrorKind,
>)
    ensures
        match r {
            Ok(p) => p@ == resolved(root@, relative_path@) && confined(p@.segments),
            Err(e) => e == ErrorKind::InvalidPath && !confined(
                resolved(root@, relative_path@).parent().segments,
            ),
        },
{
    let at = locate(root, relative_path);
    if !is_confined(&at.parent().segments) {
        return Err(ErrorKind::InvalidPath);
    }
    proof {
        lemma_resolved_is_confined(root@, relative_path@);
    }
    Ok(at)
}

/// The directory below `root` that a logical path names. The directory is
/// given only where it lies inside the store: a path with a piece that is
/// empty, `.` or `..`, but for the empty piece that a trailing slash leaves,
/// is refused as invalid. No file or directory is touched.
pub fn get_directory_path(root: &str, relative_path: &str) -> (r: Result<PhysicalPath, ErrorKind>)
    ensures
        match r {
            Ok(p) => p@ == directory(root@, relative_path@) && confined(p@.segments),
            Err(e) => e == ErrorKind::InvalidPath && !confined(directory_segments(relative_path@)),
        },
{
    let at = locate_directory(root, relative_path);
    if !is_confined(&at.segments) {
        return Err(ErrorKind::InvalidPath);
    }
    Ok(at)
}

/// What leads to a location by plain names leads to the directory that
/// holds it by plain names.
pub proof fn lemma_parent_is_confined(segments: Seq<Seq<char>>)
    requires
        confined(segments),
    ensures
        segments.len() > 0 ==> confined(segments.drop_last()),
{
    if segments.len() > 0 {
        assert forall|i: int| 0 <= i < segments.drop_last().len() implies plain_segment(
            #[trigger] segments.drop_last()[i],
        ) by {
            assert(segments.drop_last()[i] == segments[i]);
        }
    }
}

} // verus!
