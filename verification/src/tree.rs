//! A mathematical model of the store on disk.
//!
//! The store is a directory tree. The model keeps, for each location below
//! the root that holds something, whether it is a directory or a record file
//! and, for a file, its text. Locations are lists of names; the empty list
//! is the root. The operations say how a file system answers each request
//! that the commands make. Nothing here is executable: the model is what the
//! laws of the store are stated over.

use vstd::prelude::*;

verus! {

/// What a location holds.
pub enum Node {
    Directory,
    Record(Seq<char>),
}

/// The answer to a request to remove a directory if it is empty.
#[derive(Clone, Copy, Debug, PartialEq, Eq, Structural)]
pub enum Removal {
    /// The directory was empty and is gone now.
    Removed,
    /// There was nothing at the location.
    AlreadyGone,
    /// The directory holds something and was left alone.
    NotEmpty,
    /// The request failed for another reason.
    Failed,
}

/// Whether `above` lies on the way from the root to `below`, short of it.
pub open spec fn is_above(above: Seq<Seq<char>>, below: Seq<Seq<char>>) -> bool {
    above.len() < below.len() && below.take(above.len() as int) == above
}

/// Whether `above` is `below` or lies on the way to it.
pub open spec fn reaches(above: Seq<Seq<char>>, below: Seq<Seq<char>>) -> bool {
    above == below || is_above(above, below)
}

/// A directory tree.
pub struct Tree {
    pub nodes: Map<Seq<Seq<char>>, Node>,
}

impl Tree {
    /// Whether something is at `p`.
    pub open spec fn holds(self, p: Seq<Seq<char>>) -> bool {
        self.nodes.contains_key(p)
    }

    /// Whether a directory is at `p`.
    pub open spec fn is_directory(self, p: Seq<Seq<char>>) -> bool {
        self.nodes.contains_key(p) && self.nodes[p] is Directory
    }

    /// Whether a record file is at `p`.
    pub open spec fn is_record(self, p: Seq<Seq<char>>) -> bool {
        self.nodes.contains_key(p) && self.nodes[p] is Record
    }

    /// Whether `q` is directly inside `d`.
    pub open spec fn is_child(self, q: Seq<Seq<char>>, d: Seq<Seq<char>>) -> bool {
        self.nodes.contains_key(q) && q.len() > 0 && q.drop_last() == d
    }

    /// Whether anything is directly inside `d`.
    pub open spec fn has_child(self, d: Seq<Seq<char>>) -> bool {
        exists|q: Seq<Seq<char>>| #[trigger] self.is_child(q, d)
    }

    /// Whether a record file lies somewhere below `d`.
    pub open spec fn has_record_below(self, d: Seq<Seq<char>>) -> bool {
        exists|f: Seq<Seq<char>>| #[trigger] self.is_record(f) && is_above(d, f)
    }

    /// A tree is well formed when the root is a directory and everything
    /// else sits directly inside a directory.
    pub open spec fn wf(self) -> bool {
        &&& self.is_directory(Seq::empty())
        &&& forall|p: Seq<Seq<char>>| #[trigger]
            self.nodes.contains_key(p) && p.len() > 0 ==> self.is_directory(p.drop_last())
    }

    /// The invariant of the store: every directory but the root has a
    /// record somewhere below it.
    pub open spec fn tidy(self) -> bool {
        forall|d: Seq<Seq<char>>| #[trigger]
            self.is_directory(d) && d.len() > 0 ==> self.has_record_below(d)
    }

    /// The invariant of the store, but for the directories on the way to
    /// `d` and `d` itself, which may be empty.
    pub open spec fn tidy_except(self, d: Seq<Seq<char>>) -> bool {
        forall|x: Seq<Seq<char>>| #[trigger]
            self.is_directory(x) && x.len() > 0 ==> self.has_record_below(x) || reaches(x, d)
    }

    /// Whether no record file is at `d` or on the way to it.
    pub open spec fn way_is_clear(self, d: Seq<Seq<char>>) -> bool {
        forall|x: Seq<Seq<char>>| reaches(x, d) ==> !#[trigger] self.is_record(x)
    }

    /// The tree once `d` and every directory on the way to it exist. The
    /// attempt fails, and changes nothing, where a file is in the way.
    pub open spec fn make_dirs(self, d: Seq<Seq<char>>) -> (Tree, bool) {
        if self.way_is_clear(d) {
            (
                Tree {
                    nodes: Map::new(
                        |p: Seq<Seq<char>>| self.nodes.contains_key(p) || reaches(p, d),
                        |p: Seq<Seq<char>>|
                            if self.nodes.contains_key(p) {
                                self.nodes[p]
                            } else {
                                Node::Directory
                            },
                    ),
                },
                true,
            )
        } else {
            (self, false)
        }
    }

    /// The tree once `text` is written to the file at `p`, replacing what
    /// the file held. The attempt fails, and changes nothing, where `p` is
    /// not inside a directory or is a directory itself.
    pub open spec fn write(self, p: Seq<Seq<char>>, text: Seq<char>) -> (Tree, bool) {
        if p.len() > 0 && self.is_directory(p.drop_last()) && !self.is_directory(p) {
            (Tree { nodes: self.nodes.insert(p, Node::Record(text)) }, true)
        } else {
            (self, false)
        }
    }

    /// The text of the file at `p`.
    pub open spec fn read(self, p: Seq<Seq<char>>) -> Option<Seq<char>> {
        if self.is_record(p) {
            Some(self.nodes[p]->Record_0)
        } else {
            None
        }
    }

    /// The tree once the file at `p` is deleted. The attempt fails, and
    /// changes nothing, where no file is at `p`.
    pub open spec fn remove_file(self, p: Seq<Seq<char>>) -> (Tree, bool) {
        if self.is_record(p) {
            (Tree { nodes: self.nodes.remove(p) }, true)
        } else {
            (self, false)
        }
    }

    /// The tree once the directory at `d` is deleted if it is empty, and
    /// what the file system answers.
    pub open spec fn remove_dir(self, d: Seq<Seq<char>>) -> (Tree, Removal) {
        if !self.nodes.contains_key(d) {
            (self, Removal::AlreadyGone)
        } else if self.nodes[d] is Record {
            (self, Removal::Failed)
        } else if self.has_child(d) {
            (self, Removal::NotEmpty)
        } else {
            (Tree { nodes: self.nodes.remove(d) }, Removal::Removed)
        }
    }

    /// The tree once the file at `from` is renamed to `to`, replacing a file
    /// that was there. The attempt fails, and changes nothing, where no file
    /// is at `from`, or `to` is not inside a directory or is a directory
    /// itself.
    pub open spec fn rename(self, from: Seq<Seq<char>>, to: Seq<Seq<char>>) -> (Tree, bool) {
        if self.is_record(from) && to.len() > 0 && self.is_directory(to.drop_last())
            && !self.is_directory(to) {
            (Tree { nodes: self.nodes.remove(from).insert(to, self.nodes[from]) }, true)
        } else {
            (self, false)
        }
    }

    /// The tree once the directory at `d` is deleted with all it holds. The
    /// attempt fails, and changes nothing, where no directory is at `d`.
    pub open spec fn remove_tree(self, d: Seq<Seq<char>>) -> (Tree, bool) {
        if self.is_directory(d) {
            (
                Tree {
                    nodes: Map::new(
                        |p: Seq<Seq<char>>| self.nodes.contains_key(p) && !reaches(d, p),
                        |p: Seq<Seq<char>>| self.nodes[p],
                    ),
                },
                true,
            )
        } else {
            (self, false)
        }
    }
}

} // verus!
