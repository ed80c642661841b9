//! Keeping the tree free of empty directories.
//!
//! When a record leaves a directory, the directory may be left empty, and
//! then the one above it, and so on. The sweep walks upward from the place
//! of the change and removes each directory that is empty. It stops at the
//! first directory that holds something, and at the root, which stays even
//! when empty. It decides one step at a time, from the answer to the
//! previous removal.

use vstd::prelude::*;
use crate::path::{PhysicalPath, PhysicalPathView};
use crate::tree::{is_above, reaches, Removal, Tree};

verus! {

/// What the sweep does next.
#[derive(Debug)]
pub enum SweepStep {
    /// Ask for this directory to be removed if it is empty.
    Try(PhysicalPath),
    /// The sweep is over: nothing empty is left on the way up.
    Clean,
    /// The sweep is over: a directory could not be removed.
    Failed,
}

/// What a `SweepStep` stands for.
pub enum SweepStepView {
    Try(PhysicalPathView),
    Clean,
    Failed,
}

impl View for SweepStep {
    type V = SweepStepView;

    open spec fn view(&self) -> SweepStepView {
        match self {
            SweepStep::Try(dir) => SweepStepView::Try(dir@),
            SweepStep::Clean => SweepStepView::Clean,
            SweepStep::Failed => SweepStepView::Failed,
        }
    }
}

/// The first step of a sweep that starts at `dir`: there is nothing to do at
/// the root.
pub open spec fn sweep_from(dir: PhysicalPathView) -> SweepStepView {
    if dir.segments.len() == 0 {
        SweepStepView::Clean
    } else {
        SweepStepView::Try(dir)
    }
}

/// The step that follows the answer to the request to remove `dir`. A
/// directory that was removed, or was gone already, sends the sweep on to
/// the directory above; one that holds something ends it; any other failure
/// ends it as failed.
pub open spec fn sweep_after(dir: PhysicalPathView, removal: Removal) -> SweepStepView {
    match removal {
        Removal::Removed | Removal::AlreadyGone => sweep_from(dir.parent()),
        Removal::NotEmpty => SweepStepView::Clean,
        Removal::Failed => SweepStepView::Failed,
    }
}

/// Starts a sweep at `starting_dir`, the directory that something was just
/// taken out of.
pub fn cleanup_empty_parents(starting_dir: &PhysicalPath) -> (step: SweepStep)
    ensures
        step@ == sweep_from(starting_dir@),
{
    if starting_dir.segments.len() == 0 {
        SweepStep::Clean
    } else {
        SweepStep::Try(starting_dir.duplicate())
    }
}

/// Continues a sweep after the request to remove `dir` was answered.
pub fn cleanup_next(dir: &PhysicalPath, removal: Removal) -> (step: SweepStep)
    ensures
        step@ == sweep_after(dir@, removal),
{
    match removal {
        Removal::Removed | Removal::AlreadyGone => {
            let above = dir.parent();
            cleanup_empty_parents(&above)
        },
        Removal::NotEmpty => SweepStep::Clean,
        Removal::Failed => SweepStep::Failed,
    }
}

/// How far a step is from the end of its sweep.
pub open spec fn steps_left(step: SweepStepView) -> nat {
    match step {
        SweepStepView::Try(dir) => dir.segments.len() + 1,
        _ => 0,
    }
}

/// The tree after a sweep that goes on from `step`, each request answered
/// as the tree answers it, and whether the sweep ended clean.
pub open spec fn swept(tree: Tree, step: SweepStepView) -> (Tree, bool)
    decreases steps_left(step),
{
    match step {
        SweepStepView::Clean => (tree, true),
        SweepStepView::Failed => (tree, false),
        SweepStepView::Try(dir) => {
            let (next, removal) = tree.remove_dir(dir.segments);
            swept(next, sweep_after(dir, removal))
        },
    }
}

/// In a well-formed tree everything on the way to a location that holds
/// something is a directory.
pub proof fn lemma_way_is_directories(tree: Tree, above: Seq<Seq<char>>, below: Seq<Seq<char>>)
    requires
        tree.wf(),
        tree.holds(below),
        is_above(above, below),
    ensures
        tree.is_directory(above),
    decreases below.len(),
{
    let parent = below.drop_last();
    assert(tree.is_directory(parent));
    if above.len() == parent.len() {
        assert(parent =~= below.take(above.len() as int));
    } else {
        assert(parent.take(above.len() as int) =~= below.take(above.len() as int));
        lemma_way_is_directories(tree, above, parent);
    }
}

/// What lies on the way to a location, short of it, reaches the directory
/// that holds the location.
pub proof fn lemma_above_reaches_parent(above: Seq<Seq<char>>, below: Seq<Seq<char>>)
    requires
        is_above(above, below),
    ensures
        reaches(above, below.drop_last()),
{
    let parent = below.drop_last();
    if above.len() == parent.len() {
        assert(parent =~= below.take(above.len() as int));
    } else {
        assert(parent.take(above.len() as int) =~= below.take(above.len() as int));
    }
}

/// What reaches a directory lies on the way to everything below it.
pub proof fn lemma_reaches_then_above(
    x: Seq<Seq<char>>,
    d: Seq<Seq<char>>,
    below: Seq<Seq<char>>,
)
    requires
        reaches(x, d),
        is_above(d, below),
    ensures
        is_above(x, below),
{
    if x != d {
        assert(below.take(x.len() as int) =~= below.take(d.len() as int).take(x.len() as int));
    }
}

/// A sweep only ever removes directories: what the swept tree holds, the
/// tree held before, unchanged, and every record file is still there.
pub proof fn lemma_sweep_only_removes_directories(tree: Tree, step: SweepStepView)
    ensures
        forall|p: Seq<Seq<char>>| #[trigger]
            swept(tree, step).0.nodes.contains_key(p) ==> tree.nodes.contains_key(p) && swept(
                tree,
                step,
            ).0.nodes[p] == tree.nodes[p],
        forall|p: Seq<Seq<char>>| #[trigger]
            tree.is_record(p) ==> swept(tree, step).0.nodes.contains_key(p),
    decreases steps_left(step),
{
    match step {
        SweepStepView::Try(dir) => {
            let next = tree.remove_dir(dir.segments).0;
            let removal = tree.remove_dir(dir.segments).1;
            let after = sweep_after(dir, removal);
            lemma_sweep_only_removes_directories(next, after);
            assert(swept(tree, step) == swept(next, after));
            let done = swept(next, after).0;
            assert forall|p: Seq<Seq<char>>| #[trigger] done.nodes.contains_key(p) implies
                tree.nodes.contains_key(p) && done.nodes[p] == tree.nodes[p] by {
                assert(next.nodes.contains_key(p));
            }
            assert forall|p: Seq<Seq<char>>| #[trigger] tree.is_record(p) implies
                done.nodes.contains_key(p) by {
                assert(next.is_record(p));
            }
        },
        _ => {},
    }
}

/// Sweeping a second time from the same place finds nothing left to do: the
/// tree stays as the first sweep left it, and the second sweep ends as the
/// first one did.
pub proof fn law_sweep_twice(tree: Tree, step: SweepStepView)
    ensures
        swept(swept(tree, step).0, step) == swept(tree, step),
    decreases steps_left(step),
{
    match step {
        SweepStepView::Try(dir) => {
            let next = tree.remove_dir(dir.segments).0;
            let removal = tree.remove_dir(dir.segments).1;
            let after = sweep_after(dir, removal);
            let done = swept(next, after).0;
            assert(swept(tree, step) == swept(next, after));
            lemma_sweep_only_removes_directories(next, after);
            law_sweep_twice(next, after);
            match removal {
                Removal::Removed | Removal::AlreadyGone => {
                    assert(!next.nodes.contains_key(dir.segments));
                    assert(!done.nodes.contains_key(dir.segments));
                    assert(done.remove_dir(dir.segments) == (done, Removal::AlreadyGone));
                    assert(sweep_after(dir, Removal::AlreadyGone) == after);
                },
                _ => {
                    assert(done == tree);
                },
            }
        },
        _ => {},
    }
}

/// Where the sweep stops at a directory that holds something, nothing empty
/// is left on the way up.
proof fn lemma_stop_is_tidy(tree: Tree, d: Seq<Seq<char>>)
    requires
        tree.wf(),
        tree.tidy_except(d),
        tree.has_child(d),
    ensures
        tree.tidy(),
{
    let c = choose|c: Seq<Seq<char>>| #[trigger] tree.is_child(c, d);
    assert(c.take(d.len() as int) =~= c.drop_last());
    assert(is_above(d, c));
    assert(!reaches(c, d));
    assert forall|x: Seq<Seq<char>>| #[trigger] tree.is_directory(x) && x.len() > 0 implies
        tree.has_record_below(x) by {
        if !tree.has_record_below(x) {
            assert(reaches(x, d));
            if tree.is_record(c) {
                lemma_reaches_then_above(x, d, c);
                assert(tree.is_record(c) && is_above(x, c));
            } else {
                assert(tree.is_directory(c));
                assert(tree.has_record_below(c));
                let f = choose|f: Seq<Seq<char>>| #[trigger] tree.is_record(f) && is_above(c, f);
                lemma_reaches_then_above(d, c, f);
                lemma_reaches_then_above(x, d, f);
                assert(tree.is_record(f) && is_above(x, f));
            }
        }
    }
}

/// Where the sweep moves on from `d`, the tree it moves on with is as fit
/// for the directory above as the tree was for `d`.
proof fn lemma_step_keeps_shape(tree: Tree, d: Seq<Seq<char>>)
    requires
        tree.wf(),
        tree.way_is_clear(d),
        tree.tidy_except(d),
        d.len() > 0,
        !tree.has_child(d),
    ensures
        tree.remove_dir(d).0.wf(),
        tree.remove_dir(d).0.way_is_clear(d.drop_last()),
        tree.remove_dir(d).0.tidy_except(d.drop_last()),
{
    let next = tree.remove_dir(d).0;
    let above = d.drop_last();
    assert(reaches(d, d));
    assert(!tree.is_record(d));
    assert(d.take(above.len() as int) =~= above);
    assert(is_above(above, d));
    assert forall|x: Seq<Seq<char>>| reaches(x, above) implies !#[trigger] next.is_record(x) by {
        lemma_reaches_then_above(x, above, d);
        assert(reaches(x, d));
        assert(!tree.is_record(x));
    }
    assert forall|p: Seq<Seq<char>>| #[trigger]
        next.nodes.contains_key(p) && p.len() > 0 implies next.is_directory(p.drop_last()) by {
        assert(tree.nodes.contains_key(p));
        assert(tree.is_directory(p.drop_last()));
        if p.drop_last() == d {
            assert(tree.is_child(p, d));
        }
    }
    assert forall|x: Seq<Seq<char>>| #[trigger] next.is_directory(x) && x.len() > 0 implies
        next.has_record_below(x) || reaches(x, above) by {
        assert(tree.is_directory(x));
        if tree.has_record_below(x) {
            let f = choose|f: Seq<Seq<char>>| #[trigger] tree.is_record(f) && is_above(x, f);
            assert(next.is_record(f) && is_above(x, f));
        } else {
            assert(reaches(x, d));
            assert(x != d);
            lemma_above_reaches_parent(x, d);
        }
    }
}

/// A sweep restores the invariant of the store. In a well-formed tree whose
/// only directories without a record below them lie on the way to `dir`,
/// where no file is in that way, the sweep from `dir` ends clean and leaves
/// a well-formed tree in which every directory but the root has a record
/// below it.
pub proof fn lemma_sweep_restores_tidiness(tree: Tree, dir: PhysicalPathView)
    requires
        tree.wf(),
        tree.way_is_clear(dir.segments),
        tree.tidy_except(dir.segments),
    ensures
        swept(tree, sweep_from(dir)).1,
        swept(tree, sweep_from(dir)).0.wf(),
        swept(tree, sweep_from(dir)).0.tidy(),
    decreases dir.segments.len(),
{
    let d = dir.segments;
    if d.len() == 0 {
        assert forall|x: Seq<Seq<char>>| #[trigger] tree.is_directory(x) && x.len() > 0 implies
            tree.has_record_below(x) by {
            assert(!reaches(x, d));
        }
    } else {
        let next = tree.remove_dir(d).0;
        let removal = tree.remove_dir(d).1;
        let above = dir.parent();
        assert(swept(tree, sweep_from(dir)) == swept(next, sweep_after(dir, removal)));
        assert(reaches(d, d));
        assert(!tree.is_record(d));
        if tree.has_child(d) && tree.nodes.contains_key(d) {
            lemma_stop_is_tidy(tree, d);
        } else {
            if tree.has_child(d) {
                let c = choose|c: Seq<Seq<char>>| #[trigger] tree.is_child(c, d);
                assert(tree.is_directory(c.drop_last()));
            }
            lemma_step_keeps_shape(tree, d);
            assert(sweep_after(dir, removal) == sweep_from(above));
            lemma_sweep_restores_tidiness(next, above);
        }
    }
}

} // verus!
