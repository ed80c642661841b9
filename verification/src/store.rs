//! The laws of the store.
//!
//! Each operation of the store is a few requests to the file system, made
//! by a command one after the other. Here the operations are written down
//! as what those requests do to the model of the tree, and what the store
//! promises is proved of them: a record that was written is read back, a
//! move keeps the text, and removing and moving leave no empty directory
//! behind.

use vstd::prelude::*;
use crate::path::PhysicalPathView;
use crate::record::{parsed_record, record_text, BookmarkView};
use crate::error::ErrorKind;
use crate::sweep::{
    lemma_above_reaches_parent, lemma_reaches_then_above, lemma_sweep_only_removes_directories,
    lemma_sweep_restores_tidiness, lemma_way_is_directories, sweep_from, swept,
};
use crate::tree::{is_above, reaches, Tree};

verus! {

/// The tree after the record at `file` is deleted and the directories that
/// this leaves empty are swept up, and whether the sweep ended clean.
pub open spec fn removed(tree: Tree, file: PhysicalPathView) -> (Tree, bool) {
    swept(tree.remove_file(file.segments).0, sweep_from(file.parent()))
}

/// The tree after the record at `from` is renamed to `to` and the
/// directories that this leaves empty are swept up, and whether the sweep
/// ended clean.
pub open spec fn relocated(tree: Tree, from: PhysicalPathView, to: PhysicalPathView) -> (
    Tree,
    bool,
) {
    swept(tree.rename(from.segments, to.segments).0, sweep_from(from.parent()))
}

/// The tree after the directory at `dir` is deleted with all it holds and
/// the directories that this leaves empty are swept up, and whether the
/// sweep ended clean.
pub open spec fn cleared(tree: Tree, dir: PhysicalPathView) -> (Tree, bool) {
    swept(tree.remove_tree(dir.segments).0, sweep_from(dir.parent()))
}

/// The record that is read back from where a bookmark was stored.
pub open spec fn read_back(
    tree: Tree,
    file: Seq<Seq<char>>,
    url: Seq<char>,
    tags: Seq<Seq<char>>,
) -> Result<BookmarkView, ErrorKind> {
    match record_text(url, tags) {
        Ok(text) => match tree.write(file, text).0.read(file) {
            Some(found) => parsed_record(found),
            None => Err(ErrorKind::NotFound),
        },
        Err(e) => Err(e),
    }
}

/// Creating directories is safe to repeat and disturbs nothing: in a
/// well-formed tree in which no file is in the way, the directory and all
/// above it exist afterwards, every location that held something holds the
/// same, the tree is well formed, only the new directories can be empty,
/// and creating them once more changes nothing.
pub proof fn law_make_dirs(tree: Tree, dir: Seq<Seq<char>>)
    requires
        tree.wf(),
        tree.way_is_clear(dir),
    ensures
        tree.make_dirs(dir).1,
        tree.make_dirs(dir).0.wf(),
        tree.make_dirs(dir).0.is_directory(dir),
        forall|p: Seq<Seq<char>>| #[trigger]
            tree.nodes.contains_key(p) ==> tree.make_dirs(dir).0.nodes.contains_key(p)
                && tree.make_dirs(dir).0.nodes[p] == tree.nodes[p],
        tree.tidy() ==> tree.make_dirs(dir).0.tidy_except(dir),
        tree.make_dirs(dir).0.make_dirs(dir) == (tree.make_dirs(dir).0, true),
{
    let made = tree.make_dirs(dir).0;
    assert(reaches(dir, dir));
    assert(!tree.is_record(dir));
    assert forall|p: Seq<Seq<char>>| #[trigger]
        made.nodes.contains_key(p) && p.len() > 0 implies made.is_directory(p.drop_last()) by {
        if tree.nodes.contains_key(p) {
            assert(tree.is_directory(p.drop_last()));
        } else {
            assert(reaches(p, dir));
            assert(p.take(p.len() - 1) =~= p.drop_last());
            assert(is_above(p.drop_last(), p));
            if p != dir {
                lemma_reaches_then_above(p.drop_last(), p, dir);
            }
            assert(reaches(p.drop_last(), dir));
            assert(!tree.is_record(p.drop_last()));
        }
    }
    if tree.tidy() {
        assert forall|x: Seq<Seq<char>>| #[trigger] made.is_directory(x) && x.len() > 0 implies
            made.has_record_below(x) || reaches(x, dir) by {
            if tree.nodes.contains_key(x) {
                assert(tree.is_directory(x));
                let f = choose|f: Seq<Seq<char>>| #[trigger] tree.is_record(f) && is_above(x, f);
                assert(made.is_record(f) && is_above(x, f));
            }
        }
    }
    assert forall|x: Seq<Seq<char>>| reaches(x, dir) implies !#[trigger] made.is_record(x) by {
        if tree.nodes.contains_key(x) {
            assert(!tree.is_record(x));
        }
    }
    assert(made.make_dirs(dir).0.nodes =~= made.nodes);
}

/// What was written is what is read: after a record file is written, the
/// file holds exactly the new text, whatever it held before, and every
/// other location holds what it held. Where only the directories on the
/// way to the file could be empty, none is empty afterwards.
pub proof fn law_write_then_read(tree: Tree, file: Seq<Seq<char>>, text: Seq<char>)
    requires
        tree.wf(),
        file.len() > 0,
        tree.is_directory(file.drop_last()),
        !tree.is_directory(file),
    ensures
        tree.write(file, text).1,
        tree.write(file, text).0.read(file) == Some(text),
        tree.write(file, text).0.wf(),
        forall|p: Seq<Seq<char>>|
            p != file ==> (#[trigger] tree.write(file, text).0.nodes.contains_key(p)
                == tree.nodes.contains_key(p)) && tree.write(file, text).0.nodes[p]
                == tree.nodes[p],
        tree.tidy_except(file.drop_last()) ==> tree.write(file, text).0.tidy(),
{
    let written = tree.write(file, text).0;
    assert forall|p: Seq<Seq<char>>| #[trigger]
        written.nodes.contains_key(p) && p.len() > 0 implies written.is_directory(
        p.drop_last(),
    ) by {
        if p != file {
            assert(tree.is_directory(p.drop_last()));
        }
    }
    if tree.tidy_except(file.drop_last()) {
        assert forall|x: Seq<Seq<char>>| #[trigger] written.is_directory(x) && x.len() > 0 implies
            written.has_record_below(x) by {
            assert(tree.is_directory(x));
            if tree.has_record_below(x) {
                let f = choose|f: Seq<Seq<char>>| #[trigger] tree.is_record(f) && is_above(x, f);
                assert(written.is_record(f) && is_above(x, f));
            } else {
                assert(reaches(x, file.drop_last()));
                assert(file.take(file.len() - 1) =~= file.drop_last());
                assert(is_above(file.drop_last(), file));
                lemma_reaches_then_above(x, file.drop_last(), file);
                assert(written.is_record(file) && is_above(x, file));
            }
        }
    }
}

/// A bookmark that is stored is read back as the record that its text
/// parses to, whatever the file held before: storing overwrites and never
/// merges. That the text of a record parses to that same record is the
/// work of the TOML parser and serializer, and is not claimed here.
pub proof fn law_store_then_load(
    tree: Tree,
    file: Seq<Seq<char>>,
    url: Seq<char>,
    tags: Seq<Seq<char>>,
)
    requires
        tree.wf(),
        file.len() > 0,
        tree.is_directory(file.drop_last()),
        !tree.is_directory(file),
        record_text(url, tags) is Ok,
    ensures
        read_back(tree, file, url, tags) == parsed_record(record_text(url, tags).unwrap()),
{
    law_write_then_read(tree, file, record_text(url, tags).unwrap());
}

/// Removing a record cascades. In a well-formed store without empty
/// directories, once a record is removed and the sweep has run: the sweep
/// ended clean, the record is gone, every other record is there with its
/// text, nothing was added, the store is well formed and again without
/// empty directories; and a directory on the way to the record that had no
/// other record below it is gone.
pub proof fn law_remove_cascades(tree: Tree, file: PhysicalPathView)
    requires
        tree.wf(),
        tree.tidy(),
        tree.is_record(file.segments),
    ensures
        removed(tree, file).1,
        removed(tree, file).0.wf(),
        removed(tree, file).0.tidy(),
        !removed(tree, file).0.holds(file.segments),
        forall|q: Seq<Seq<char>>| #[trigger]
            tree.is_record(q) && q != file.segments ==> removed(tree, file).0.read(q) == tree.read(
                q,
            ),
        forall|p: Seq<Seq<char>>| #[trigger]
            removed(tree, file).0.nodes.contains_key(p) ==> tree.nodes.contains_key(p),
        forall|d: Seq<Seq<char>>|
            is_above(d, file.segments) && d.len() > 0 && (forall|f: Seq<Seq<char>>| #[trigger]
                tree.is_record(f) && is_above(d, f) ==> f == file.segments)
                ==> !#[trigger] removed(tree, file).0.holds(d),
{
    let p = file.segments;
    let bare = tree.remove_file(p).0;
    let dir = file.parent();
    if p.len() == 0 {
        assert(p =~= Seq::<Seq<char>>::empty());
    }
    assert(p.len() > 0);
    assert(dir.segments == p.drop_last());
    assert(p.take(p.len() - 1) =~= p.drop_last());
    assert(is_above(dir.segments, p));
    assert forall|q: Seq<Seq<char>>| #[trigger]
        bare.nodes.contains_key(q) && q.len() > 0 implies bare.is_directory(q.drop_last()) by {
        assert(tree.is_directory(q.drop_last()));
    }
    assert forall|x: Seq<Seq<char>>| reaches(x, dir.segments) implies !#[trigger] bare.is_record(
        x,
    ) by {
        lemma_reaches_then_above(x, dir.segments, p);
        lemma_way_is_directories(tree, x, p);
    }
    assert forall|x: Seq<Seq<char>>| #[trigger] bare.is_directory(x) && x.len() > 0 implies
        bare.has_record_below(x) || reaches(x, dir.segments) by {
        assert(tree.is_directory(x));
        let f = choose|f: Seq<Seq<char>>| #[trigger] tree.is_record(f) && is_above(x, f);
        if f == p {
            lemma_above_reaches_parent(x, p);
        } else {
            assert(bare.is_record(f) && is_above(x, f));
        }
    }
    lemma_sweep_restores_tidiness(bare, dir);
    lemma_sweep_only_removes_directories(bare, sweep_from(dir));
    let done = removed(tree, file).0;
    assert forall|q: Seq<Seq<char>>| #[trigger] tree.is_record(q) && q != p implies done.read(q)
        == tree.read(q) by {
        assert(bare.is_record(q));
        assert(done.nodes.contains_key(q));
    }
    assert forall|d: Seq<Seq<char>>|
        is_above(d, p) && d.len() > 0 && (forall|f: Seq<Seq<char>>| #[trigger]
            tree.is_record(f) && is_above(d, f) ==> f == p) implies !#[trigger] done.holds(d) by {
        if done.holds(d) {
            assert(bare.nodes.contains_key(d));
            lemma_way_is_directories(tree, d, p);
            assert(done.is_directory(d));
            let f = choose|f: Seq<Seq<char>>| #[trigger] done.is_record(f) && is_above(d, f);
            assert(bare.nodes.contains_key(f));
            assert(tree.is_record(f) && is_above(d, f));
        }
    }
}

/// A move keeps the text and cleans up behind it. In a well-formed store
/// in which only the directories on the way to the destination can be
/// empty, once a record is renamed and the sweep has run from where it
/// was: the sweep ended clean, the destination holds the text that the
/// record held, the record is gone from where it was, every other record
/// is there with its text, and the store is well formed and without empty
/// directories.
pub proof fn law_move_keeps_text(tree: Tree, from: PhysicalPathView, to: PhysicalPathView)
    requires
        tree.wf(),
        tree.tidy_except(to.segments.drop_last()),
        tree.is_record(from.segments),
        to.segments.len() > 0,
        tree.is_directory(to.segments.drop_last()),
        !tree.is_directory(to.segments),
    ensures
        relocated(tree, from, to).1,
        relocated(tree, from, to).0.wf(),
        relocated(tree, from, to).0.tidy(),
        relocated(tree, from, to).0.read(to.segments) == tree.read(from.segments),
        from.segments != to.segments ==> !relocated(tree, from, to).0.holds(from.segments),
        forall|q: Seq<Seq<char>>| #[trigger]
            tree.is_record(q) && q != from.segments && q != to.segments ==> relocated(
                tree,
                from,
                to,
            ).0.read(q) == tree.read(q),
{
    let p = from.segments;
    let t = to.segments;
    let renamed = tree.rename(p, t).0;
    let dir = from.parent();
    if p.len() == 0 {
        assert(p =~= Seq::<Seq<char>>::empty());
    }
    assert(p.len() > 0);
    assert(p.take(p.len() - 1) =~= p.drop_last());
    assert(is_above(dir.segments, p));
    assert(t.take(t.len() - 1) =~= t.drop_last());
    assert(is_above(t.drop_last(), t));
    assert(renamed.is_record(t));
    assert forall|q: Seq<Seq<char>>| #[trigger]
        renamed.nodes.contains_key(q) && q.len() > 0 implies renamed.is_directory(
        q.drop_last(),
    ) by {
        if q != t {
            assert(tree.is_directory(q.drop_last()));
        }
    }
    assert forall|x: Seq<Seq<char>>| reaches(x, dir.segments) implies !#[trigger]
        renamed.is_record(x) by {
        lemma_reaches_then_above(x, dir.segments, p);
        lemma_way_is_directories(tree, x, p);
    }
    assert forall|x: Seq<Seq<char>>| #[trigger] renamed.is_directory(x) && x.len() > 0 implies
        renamed.has_record_below(x) || reaches(x, dir.segments) by {
        assert(tree.is_directory(x));
        if tree.has_record_below(x) {
            let f = choose|f: Seq<Seq<char>>| #[trigger] tree.is_record(f) && is_above(x, f);
            if f == p && p != t {
                lemma_above_reaches_parent(x, p);
            } else {
                assert(renamed.is_record(f) && is_above(x, f));
            }
        } else {
            assert(reaches(x, t.drop_last()));
            lemma_reaches_then_above(x, t.drop_last(), t);
            assert(renamed.is_record(t) && is_above(x, t));
        }
    }
    lemma_sweep_restores_tidiness(renamed, dir);
    lemma_sweep_only_removes_directories(renamed, sweep_from(dir));
    let done = relocated(tree, from, to).0;
    assert(done.nodes.contains_key(t));
    assert forall|q: Seq<Seq<char>>| #[trigger] tree.is_record(q) && q != p && q != t implies
        done.read(q) == tree.read(q) by {
        assert(renamed.is_record(q));
        assert(done.nodes.contains_key(q));
    }
}

/// Of two locations on the way to a third, the shorter is on the way to
/// the longer.
proof fn lemma_same_way(x: Seq<Seq<char>>, d: Seq<Seq<char>>, below: Seq<Seq<char>>)
    requires
        is_above(x, below),
        is_above(d, below),
    ensures
        x.len() < d.len() ==> is_above(x, d),
        x.len() >= d.len() ==> reaches(d, x),
{
    if x.len() < d.len() {
        assert(below.take(d.len() as int).take(x.len() as int) =~= below.take(x.len() as int));
        assert(d.take(x.len() as int) == x);
    } else {
        assert(below.take(x.len() as int).take(d.len() as int) =~= below.take(d.len() as int));
        assert(x.take(d.len() as int) == d);
        if x.len() == d.len() {
            assert(x.take(d.len() as int) =~= x);
        }
    }
}

/// Removing a directory takes all of it and nothing else. In a well-formed
/// store without empty directories, once a directory other than the root
/// is removed with all it holds and the sweep has run: the sweep ended
/// clean, nothing is left at or below the directory, every record outside
/// it is there with its text, and the store is well formed and again
/// without empty directories.
pub proof fn law_clear_takes_all(tree: Tree, dir: PhysicalPathView)
    requires
        tree.wf(),
        tree.tidy(),
        tree.is_directory(dir.segments),
        dir.segments.len() > 0,
    ensures
        cleared(tree, dir).1,
        cleared(tree, dir).0.wf(),
        cleared(tree, dir).0.tidy(),
        forall|p: Seq<Seq<char>>|
            reaches(dir.segments, p) ==> !#[trigger] cleared(tree, dir).0.holds(p),
        forall|q: Seq<Seq<char>>| #[trigger]
            tree.is_record(q) && !reaches(dir.segments, q) ==> cleared(tree, dir).0.read(q)
                == tree.read(q),
{
    let d = dir.segments;
    let cut = tree.remove_tree(d).0;
    let above = dir.parent();
    assert(d.take(d.len() - 1) =~= d.drop_last());
    assert(is_above(above.segments, d));
    assert(!reaches(d, Seq::<Seq<char>>::empty()));
    assert forall|q: Seq<Seq<char>>| #[trigger]
        cut.nodes.contains_key(q) && q.len() > 0 implies cut.is_directory(q.drop_last()) by {
        assert(tree.is_directory(q.drop_last()));
        assert(q.take(q.len() - 1) =~= q.drop_last());
        if reaches(d, q.drop_last()) {
            lemma_reaches_then_above(d, q.drop_last(), q);
        }
    }
    assert forall|x: Seq<Seq<char>>| reaches(x, above.segments) implies !#[trigger] cut.is_record(
        x,
    ) by {
        lemma_reaches_then_above(x, above.segments, d);
        lemma_way_is_directories(tree, x, d);
    }
    assert forall|x: Seq<Seq<char>>| #[trigger] cut.is_directory(x) && x.len() > 0 implies
        cut.has_record_below(x) || reaches(x, above.segments) by {
        assert(tree.is_directory(x));
        let f = choose|f: Seq<Seq<char>>| #[trigger] tree.is_record(f) && is_above(x, f);
        if reaches(d, f) {
            assert(d != f);
            lemma_same_way(x, d, f);
            lemma_above_reaches_parent(x, d);
        } else {
            assert(cut.is_record(f) && is_above(x, f));
        }
    }
    lemma_sweep_restores_tidiness(cut, above);
    lemma_sweep_only_removes_directories(cut, sweep_from(above));
    let done = cleared(tree, dir).0;
    assert forall|p: Seq<Seq<char>>| reaches(d, p) implies !#[trigger] done.holds(p) by {
        if done.nodes.contains_key(p) {
            assert(cut.nodes.contains_key(p));
        }
    }
    assert forall|q: Seq<Seq<char>>| #[trigger] tree.is_record(q) && !reaches(d, q) implies
        done.read(q) == tree.read(q) by {
        assert(cut.is_record(q));
        assert(done.nodes.contains_key(q));
    }
}

} // verus!
