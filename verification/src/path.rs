//! Paths of files: a directory and the parts that are joined to it. How paths are
//! written differs from system to system, so a path is joined by `std` and not here.

use crate::text::texts;
use std::path::PathBuf;
use vstd::prelude::*;

verus! {

/// A path of the system, which is carried and never looked into.
#[verifier::external_type_specification]
#[verifier::external_body]
pub struct ExPathBuf(std::path::PathBuf);

/// A path to be joined: a directory, if there is one, and the parts that follow it, in
/// their order.
#[derive(Debug)]
pub struct FilePath {
    pub base: Option<PathBuf>,
    pub parts: Vec<String>,
}

/// The mathematical value of a [`FilePath`].
pub struct FilePathView {
    pub base: Option<PathBuf>,
    pub parts: Seq<Seq<char>>,
}

impl View for FilePath {
    type V = FilePathView;

    open spec fn view(&self) -> FilePathView {
        FilePathView { base: self.base, parts: texts(self.parts@) }
    }
}

/// Whether a path is what `PathBuf::new` makes.
pub uninterp spec fn blank_path(path: PathBuf) -> bool;

/// Whether a path is one that `Path::join` makes of a path and a part.
pub uninterp spec fn joins(path: PathBuf, part: Seq<char>, r: PathBuf) -> bool;

/// Whether a text is one that `Path::to_string_lossy` gives for a path.
pub uninterp spec fn reads_as(path: PathBuf, text: Seq<char>) -> bool;

/// Calls `PathBuf::new`, which makes the empty path.
#[verifier::external_body]
fn empty_path() -> (r: PathBuf)
    ensures
        blank_path(r),
{
    PathBuf::new()
}

/// Calls `Path::join`, which puts a part below a path, or in its place where the part is
/// absolute. What is absolute and how the two are parted depends on the system: it is
/// claimed that the result is a join of these two, and not which path that is.
#[verifier::external_body]
fn join_part(path: PathBuf, part: &str) -> (r: PathBuf)
    ensures
        joins(path, part@, r),
{
    path.join(part)
}

/// Calls `Path::to_string_lossy`, which gives the path as a text, with what is no UTF-8
/// replaced. It is claimed that the text is one of this path, and not which.
#[verifier::external_body]
pub(crate) fn lossy_text(path: &PathBuf) -> (r: String)
    ensures
        reads_as(*path, r@),
{
    path.to_string_lossy().into_owned()
}

/// Whether a path is made of another by joining the parts to it, one after the other in
/// their order.
pub open spec fn joins_all(path: PathBuf, parts: Seq<Seq<char>>, r: PathBuf) -> bool
    decreases parts.len(),
{
    if parts.len() == 0 {
        r == path
    } else {
        exists|q: PathBuf|
            joins_all(path, parts.drop_last(), q) && #[trigger] joins(q, parts.last(), r)
    }
}

impl FilePathView {
    /// Whether a path of the system is this one: its parts joined to the directory, or to
    /// the empty path where there is none.
    pub open spec fn is_path(self, r: PathBuf) -> bool {
        match self.base {
            Some(dir) => joins_all(dir, self.parts, r),
            None => exists|e: PathBuf| #[trigger] blank_path(e) && joins_all(e, self.parts, r),
        }
    }
}

impl FilePath {
    /// A directory alone.
    pub fn directory(dir: PathBuf) -> (r: FilePath)
        ensures
            r@ == (FilePathView { base: Some(dir), parts: Seq::empty() }),
    {
        let r = FilePath { base: Some(dir), parts: Vec::new() };
        assert(r@.parts =~= Seq::empty());
        r
    }

    /// The path that a text writes.
    pub fn fixed(text: &str) -> (r: FilePath)
        ensures
            r@ == (FilePathView { base: None, parts: seq![text@] }),
    {
        let none = FilePath { base: None, parts: Vec::new() };
        let r = none.below(text);
        assert(r@.parts =~= seq![text@]);
        r
    }

    /// The path of a part below this one.
    pub fn below(self, part: &str) -> (r: FilePath)
        ensures
            r@ == (FilePathView { base: self@.base, parts: self@.parts.push(part@) }),
    {
        let mut parts = self.parts;
        let ghost first = texts(parts@);
        parts.push(part.to_owned());
        assert(texts(parts@) =~= first.push(part@));
        FilePath { base: self.base, parts }
    }

    /// Joins the parts to the directory, one after the other, as the system does.
    pub fn to_path(self) -> (r: PathBuf)
        ensures
            self@.is_path(r),
    {
        let ghost all = self@.parts;
        let parts = self.parts;
        let mut path = match self.base {
            Some(dir) => dir,
            None => empty_path(),
        };
        let ghost first = path;
        let mut i: usize = 0;
        assert(all.take(0) =~= Seq::empty());
        while i < parts.len()
            invariant
                i <= parts.len(),
                all == texts(parts@),
                joins_all(first, all.take(i as int), path),
            decreases parts.len() - i,
        {
            let ghost earlier = path;
            path = join_part(path, parts[i].as_str());
            proof {
                assert(all.take(i + 1).drop_last() =~= all.take(i as int));
                assert(all.take(i + 1).last() == parts@[i as int]@);
                assert(joins(earlier, all.take(i + 1).last(), path));
            }
            i += 1;
        }
        assert(all.take(all.len() as int) =~= all);
        path
    }
}

} // verus!
