//! Commands run to their end.
//!
//! A machine only asks; what its requests do depends on the world. Here the
//! world is a model: the tree of the store, the lines that the user is going
//! to type, and whether git succeeds. Running a machine against it, turn by
//! turn, gives the world the command leaves behind and the status it ends
//! with. The laws of this file say what that is for each command that
//! changes the store.

use vstd::prelude::*;
use crate::command::{
    acceptable, folder, goal, sweeping, syncing, target, url_to_store, Change, MachineView,
    PhaseView,
};
use crate::error::ErrorKind;
use crate::gate::{verdict_of, Verdict};
use crate::machine::{farewell, ActionView, EventView, LineView, TurnView};
use crate::path::{confined, lemma_parent_is_confined, PhysicalPathView};
use crate::record::{parsed_record, record_text, BookmarkView};
use crate::request::RequestView;
use crate::settings::SettingsView;
use crate::steps::{after_goal_probe, begun, fit, law_machine_stays_inside, stepped};
use crate::store::{cleared, law_make_dirs, law_write_then_read, relocated, removed};
use crate::sweep::{
    lemma_reaches_then_above, lemma_way_is_directories, steps_left, sweep_after, sweep_from,
    swept, SweepStepView,
};
use crate::tree::{is_above, reaches, Removal, Tree};
use crate::url::valid_url;

verus! {

/// What a command meets: the store, the user and git.
pub struct World {
    /// The tree of the store.
    pub tree: Tree,
    /// The lines that the user is going to type.
    pub typed: Seq<Seq<char>>,
    /// Whether git commands succeed.
    pub git_works: bool,
    /// The lines that were printed.
    pub shown: Seq<LineView>,
}

/// The reason that the model gives for a failure.
pub open spec fn some_reason() -> Seq<char> {
    Seq::empty()
}

/// What is said of an attempt on the tree.
pub open spec fn done_or_failed(done: bool) -> EventView {
    if done {
        EventView::Done
    } else {
        EventView::Failed(some_reason())
    }
}

impl World {
    /// This world with another tree.
    pub open spec fn with_tree(self, tree: Tree) -> World {
        World { tree, ..self }
    }

    /// The world after an action is performed in it, and what comes of the
    /// action. The user of the model changes nothing in the editor.
    pub open spec fn answer(self, action: ActionView) -> (World, EventView) {
        match action {
            ActionView::MakeDirs(dir) => {
                let made = self.tree.make_dirs(dir.segments);
                (self.with_tree(made.0), done_or_failed(made.1))
            },
            ActionView::Probe(at) => (self, EventView::Found(self.tree.holds(at.segments))),
            ActionView::ProbeDir(at) => (
                self,
                EventView::Found(self.tree.is_directory(at.segments)),
            ),
            ActionView::Write(file, text) => {
                let written = self.tree.write(file.segments, text);
                (self.with_tree(written.0), done_or_failed(written.1))
            },
            ActionView::Read(file) => (
                self,
                match self.tree.read(file.segments) {
                    Some(text) => EventView::Text(text),
                    None => if self.tree.holds(file.segments) {
                        EventView::Failed(some_reason())
                    } else {
                        EventView::Missing
                    },
                },
            ),
            ActionView::RemoveFile(file) => {
                let removed = self.tree.remove_file(file.segments);
                (self.with_tree(removed.0), done_or_failed(removed.1))
            },
            ActionView::RemoveDir(dir) => {
                let removed = self.tree.remove_dir(dir.segments);
                (
                    self.with_tree(removed.0),
                    match removed.1 {
                        Removal::Removed => EventView::Done,
                        Removal::AlreadyGone => EventView::Missing,
                        Removal::NotEmpty => EventView::NotEmpty,
                        Removal::Failed => EventView::Failed(some_reason()),
                    },
                )
            },
            ActionView::Rename(from, to) => {
                let renamed = self.tree.rename(from.segments, to.segments);
                (self.with_tree(renamed.0), done_or_failed(renamed.1))
            },
            ActionView::RemoveTree(dir) => {
                let removed = self.tree.remove_tree(dir.segments);
                (self.with_tree(removed.0), done_or_failed(removed.1))
            },
            ActionView::Walk(dir) => (
                self,
                if self.tree.is_directory(dir.segments) {
                    EventView::Files(
                        choose|files: Seq<Seq<Seq<char>>>|
                            files.no_duplicates() && forall|f: Seq<Seq<char>>|
                                files.contains(f) <==> self.tree.is_record(f) && is_above(
                                    dir.segments,
                                    f,
                                ),
                    )
                } else {
                    EventView::Failed(some_reason())
                },
            ),
            ActionView::Edit(_) => (self, EventView::Edited(false)),
            ActionView::Ask(_) => if self.typed.len() > 0 {
                (World { typed: self.typed.drop_first(), ..self }, EventView::Line(self.typed[0]))
            } else {
                (self, EventView::Line(Seq::empty()))
            },
            ActionView::Run(_) => (self, done_or_failed(self.git_works)),
            ActionView::Exit(_) => (self, EventView::Done),
        }
    }
}

/// The world that a machine leaves behind, the status it ends with, and
/// the phase it ends in, when it goes on from `turn` in `world` and takes
/// at most `fuel` actions; `None` where it needs more.
pub open spec fn outcome(machine: MachineView, turn: TurnView, world: World, fuel: nat) -> Option<
    (World, u8, PhaseView),
>
    decreases fuel,
{
    let seen = World { shown: world.shown + turn.lines, ..world };
    match turn.action {
        ActionView::Exit(code) => Some((seen, code, machine.phase)),
        _ => if fuel == 0 {
            None
        } else {
            let answered = seen.answer(turn.action);
            let next = stepped(machine, answered.1);
            outcome(MachineView { phase: next.0, ..machine }, next.1, answered.0, (fuel - 1) as nat)
        },
    }
}

/// The outcome of a whole command.
pub open spec fn run_of(settings: SettingsView, request: RequestView, world: World, fuel: nat)
    -> Option<(World, u8, PhaseView)> {
    let first = begun(settings, request);
    outcome(MachineView { settings, request, phase: first.0 }, first.1, world, fuel)
}

/// Whether a run ended, with this tree and this status.
pub open spec fn ends_with(result: Option<(World, u8, PhaseView)>, tree: Tree, code: u8) -> bool {
    result matches Some(end) && end.0.tree == tree && end.1 == code
}

/// The status of a command that changed the store: a failure only where git
/// is used and fails.
pub open spec fn synced(settings: SettingsView, world: World) -> u8 {
    if !settings.sync || world.git_works {
        0
    } else {
        1
    }
}

/// Creating directories that are there changes nothing.
pub proof fn lemma_nothing_to_make(tree: Tree, dir: Seq<Seq<char>>)
    requires
        tree.wf(),
        tree.is_directory(dir),
    ensures
        tree.make_dirs(dir) == (tree, true),
{
    assert forall|x: Seq<Seq<char>>| reaches(x, dir) implies tree.is_directory(x) by {
        if x != dir {
            lemma_way_is_directories(tree, x, dir);
        }
    }
    assert(tree.way_is_clear(dir));
    assert(tree.make_dirs(dir).0.nodes =~= tree.nodes);
}

/// In a well-formed tree the directory that holds a location is a
/// directory, and the way to it is clear.
pub proof fn lemma_parent_is_directory(tree: Tree, at: PhysicalPathView)
    requires
        tree.wf(),
        tree.holds(at.segments),
    ensures
        tree.is_directory(at.parent().segments),
        tree.way_is_clear(at.parent().segments),
{
    let p = at.segments;
    let dir = at.parent().segments;
    if p.len() > 0 {
        assert(tree.is_directory(p.drop_last()));
    } else {
        assert(p =~= Seq::<Seq<char>>::empty());
    }
    assert forall|x: Seq<Seq<char>>| reaches(x, dir) implies !#[trigger] tree.is_record(x) by {
        if x != dir {
            lemma_way_is_directories(tree, x, dir);
        }
    }
}

/// A sweep ends clean wherever no file is in its way, and leaves the tree
/// well formed.
pub proof fn lemma_sweep_ends_clean(tree: Tree, dir: PhysicalPathView)
    requires
        tree.wf(),
        tree.way_is_clear(dir.segments),
    ensures
        swept(tree, sweep_from(dir)).1,
        swept(tree, sweep_from(dir)).0.wf(),
    decreases dir.segments.len(),
{
    let d = dir.segments;
    if d.len() > 0 {
        let next = tree.remove_dir(d).0;
        let removal = tree.remove_dir(d).1;
        let above = dir.parent();
        assert(swept(tree, sweep_from(dir)) == swept(next, sweep_after(dir, removal)));
        assert(reaches(d, d));
        assert(!tree.is_record(d));
        if removal != Removal::NotEmpty {
            assert(d.take(above.segments.len() as int) =~= above.segments);
            assert(is_above(above.segments, d));
            assert forall|x: Seq<Seq<char>>| reaches(x, above.segments) implies !#[trigger]
                next.is_record(x) by {
                lemma_reaches_then_above(x, above.segments, d);
                assert(reaches(x, d));
                assert(!tree.is_record(x));
            }
            assert forall|p: Seq<Seq<char>>| #[trigger]
                next.nodes.contains_key(p) && p.len() > 0 implies next.is_directory(
                p.drop_last(),
            ) by {
                assert(tree.is_directory(p.drop_last()));
                if p.drop_last() == d {
                    assert(tree.is_child(p, d));
                }
            }
            assert(sweep_after(dir, removal) == sweep_from(above));
            lemma_sweep_ends_clean(next, above);
        }
    }
}

/// The last stretch of a command runs to its end without touching the
/// tree, and ends well unless git fails.
pub proof fn lemma_run_sync(
    machine: MachineView,
    change: Change,
    lines: Seq<LineView>,
    world: World,
    fuel: nat,
)
    requires
        acceptable(machine.settings, machine.request),
        !(machine.request is Get),
        !(machine.request is List),
        fuel >= 3,
    ensures
        ends_with(
            outcome(
                MachineView {
                    phase: syncing(machine.settings, machine.request, change, lines).0,
                    ..machine
                },
                syncing(machine.settings, machine.request, change, lines).1,
                world,
                fuel,
            ),
            world.tree,
            synced(machine.settings, world),
        ),
{
    reveal_with_fuel(outcome, 4);
}

/// The sweep of a command, where it ends clean, leaves the tree as the
/// sweep says, and the command then runs to its end.
pub proof fn lemma_run_sweep(
    machine: MachineView,
    change: Change,
    step: SweepStepView,
    lines: Seq<LineView>,
    world: World,
    fuel: nat,
)
    requires
        acceptable(machine.settings, machine.request),
        machine.request is Move || machine.request is Remove,
        step matches SweepStepView::Try(dir) ==> dir.segments.len() > 0 && confined(dir.segments),
        swept(world.tree, step).1,
        fuel >= steps_left(step) + 3,
    ensures
        ends_with(
            outcome(
                MachineView {
                    phase: sweeping(machine.settings, machine.request, change, step, lines).0,
                    ..machine
                },
                sweeping(machine.settings, machine.request, change, step, lines).1,
                world,
                fuel,
            ),
            swept(world.tree, step).0,
            synced(machine.settings, world),
        ),
    decreases steps_left(step),
{
    match step {
        SweepStepView::Clean => {
            lemma_run_sync(machine, change, lines, world, fuel);
        },
        SweepStepView::Failed => {},
        SweepStepView::Try(dir) => {
            let here = MachineView { phase: PhaseView::Sweep { dir, change }, ..machine };
            let seen = World { shown: world.shown + lines, ..world };
            let removal = world.tree.remove_dir(dir.segments).1;
            let after = sweep_after(dir, removal);
            let answered = seen.answer(ActionView::RemoveDir(dir));
            assert(answered.0.tree == world.tree.remove_dir(dir.segments).0);
            assert(swept(world.tree, step) == swept(answered.0.tree, after));
            assert(removal != Removal::Failed);
            lemma_parent_is_confined(dir.segments);
            assert(stepped(here, answered.1) == sweeping(
                machine.settings,
                machine.request,
                change,
                after,
                Seq::empty(),
            ));
            lemma_run_sweep(machine, change, after, Seq::empty(), answered.0, (fuel - 1) as nat);
            assert(answered.0.git_works == world.git_works);
        },
    }
}

/// Renaming a record leaves the tree well formed and the way to where the
/// record was clear.
pub proof fn lemma_rename_keeps_shape(tree: Tree, from: PhysicalPathView, to: PhysicalPathView)
    requires
        tree.wf(),
        tree.is_record(from.segments),
        to.segments.len() > 0,
        tree.is_directory(to.segments.drop_last()),
        !tree.is_directory(to.segments),
    ensures
        tree.rename(from.segments, to.segments).1,
        tree.rename(from.segments, to.segments).0.wf(),
        tree.rename(from.segments, to.segments).0.way_is_clear(from.parent().segments),
{
    let p = from.segments;
    let t = to.segments;
    let renamed = tree.rename(p, t).0;
    let dir = from.parent().segments;
    if p.len() == 0 {
        assert(p =~= Seq::<Seq<char>>::empty());
    }
    assert(p.take(p.len() - 1) =~= p.drop_last());
    assert(is_above(dir, p));
    assert forall|q: Seq<Seq<char>>| #[trigger]
        renamed.nodes.contains_key(q) && q.len() > 0 implies renamed.is_directory(
        q.drop_last(),
    ) by {
        if q != t {
            assert(tree.is_directory(q.drop_last()));
        }
    }
    assert forall|x: Seq<Seq<char>>| reaches(x, dir) implies !#[trigger] renamed.is_record(x) by {
        lemma_reaches_then_above(x, dir, p);
        lemma_way_is_directories(tree, x, p);
    }
}

/// Removing a record, run to its end. In a well-formed store that holds the
/// record, the command deletes the record, sweeps up the directories that
/// this leaves empty, and ends well unless git fails.
pub proof fn law_remove_runs(settings: SettingsView, path: Seq<char>, world: World, fuel: nat)
    requires
        acceptable(settings, RequestView::Remove { path }),
        world.tree.wf(),
        world.tree.is_record(target(settings, RequestView::Remove { path }).segments),
        fuel >= target(settings, RequestView::Remove { path }).segments.len() + 6,
    ensures
        ends_with(
            run_of(settings, RequestView::Remove { path }, world, fuel),
            removed(world.tree, target(settings, RequestView::Remove { path })).0,
            synced(settings, world),
        ),
{
    let request = RequestView::Remove { path };
    let at = target(settings, request);
    let tree = world.tree;
    lemma_parent_is_directory(tree, at);
    let m0 = MachineView { settings, request, phase: begun(settings, request).0 };
    let t0 = begun(settings, request).1;
    assert(t0.action == ActionView::Probe(at));
    lemma_one_action(m0, t0, world, fuel);
    let w0 = World { shown: world.shown + t0.lines, ..world };
    let a0 = w0.answer(t0.action);
    assert(a0.0.tree == tree);
    assert(a0.1 == EventView::Found(true));
    let s1 = stepped(m0, a0.1);
    let m1 = MachineView { phase: s1.0, ..m0 };
    assert(s1.1.action == ActionView::RemoveFile(at));
    lemma_one_action(m1, s1.1, a0.0, (fuel - 1) as nat);
    let w1 = World { shown: a0.0.shown + s1.1.lines, ..a0.0 };
    let a1 = w1.answer(s1.1.action);
    let bare = tree.remove_file(at.segments).0;
    assert(a1.0.tree == bare);
    assert(a1.1 == EventView::Done);
    let start = sweep_from(at.parent());
    let said = seq![LineView::Out("Bookmark removed successfully as "@ + path)];
    assert(stepped(m1, a1.1) == sweeping(settings, request, Change::RemovedRecord, start, said));
    assert forall|q: Seq<Seq<char>>| #[trigger]
        bare.nodes.contains_key(q) && q.len() > 0 implies bare.is_directory(q.drop_last()) by {
        assert(tree.is_directory(q.drop_last()));
    }
    assert forall|x: Seq<Seq<char>>| reaches(x, at.parent().segments) implies !#[trigger]
        bare.is_record(x) by {
        assert(!tree.is_record(x));
    }
    lemma_sweep_ends_clean(bare, at.parent());
    lemma_run_sweep(m1, Change::RemovedRecord, start, said, a1.0, (fuel - 2) as nat);
}

/// The tree once the directories of a move's destination are there.
pub open spec fn prepared(tree: Tree, to: PhysicalPathView) -> Tree {
    tree.make_dirs(to.parent().segments).0
}

/// One action on: the outcome of a machine that does not ask to exit is the
/// outcome of the machine it becomes once its action is answered.
pub proof fn lemma_one_action(machine: MachineView, turn: TurnView, world: World, fuel: nat)
    requires
        !(turn.action is Exit),
        fuel > 0,
    ensures
        outcome(machine, turn, world, fuel) == outcome(
            MachineView {
                phase: stepped(
                    machine,
                    (World { shown: world.shown + turn.lines, ..world }).answer(turn.action).1,
                ).0,
                ..machine
            },
            stepped(
                machine,
                (World { shown: world.shown + turn.lines, ..world }).answer(turn.action).1,
            ).1,
            (World { shown: world.shown + turn.lines, ..world }).answer(turn.action).0,
            (fuel - 1) as nat,
        ),
{
}

/// A move reaches its destination: in a well-formed store that holds the
/// record, the command gets as far as knowing whether the destination
/// exists, and by then has created the directories of the destination and
/// changed nothing else.
proof fn lemma_move_reaches_destination(
    settings: SettingsView,
    request: RequestView,
    world: World,
    fuel: nat,
) -> (there: World)
    requires
        request is Move,
        acceptable(settings, request),
        world.tree.wf(),
        world.tree.is_record(target(settings, request).segments),
        world.tree.way_is_clear(goal(settings, request).parent().segments),
        fuel >= 3,
    ensures
        there.tree == prepared(world.tree, goal(settings, request)),
        there.typed == world.typed,
        there.git_works == world.git_works,
        run_of(settings, request, world, fuel) == outcome(
            MachineView {
                settings,
                request,
                phase: after_goal_probe(
                    settings,
                    request,
                    EventView::Found(world.tree.holds(goal(settings, request).segments)),
                ).0,
            },
            after_goal_probe(
                settings,
                request,
                EventView::Found(world.tree.holds(goal(settings, request).segments)),
            ).1,
            there,
            (fuel - 3) as nat,
        ),
{
    let at = target(settings, request);
    let dest = goal(settings, request);
    let tree = world.tree;
    let m0 = MachineView { settings, request, phase: begun(settings, request).0 };
    let t0 = begun(settings, request).1;
    assert(t0.action == ActionView::Probe(at));
    lemma_one_action(m0, t0, world, fuel);
    let w0 = World { shown: world.shown + t0.lines, ..world };
    let a0 = w0.answer(t0.action);
    assert(a0.0.tree == tree);
    assert(a0.1 == EventView::Found(true));
    let s1 = stepped(m0, a0.1);
    let m1 = MachineView { phase: s1.0, ..m0 };
    assert(s1.1.action == ActionView::MakeDirs(dest.parent()));
    lemma_one_action(m1, s1.1, a0.0, (fuel - 1) as nat);
    let w1 = World { shown: a0.0.shown + s1.1.lines, ..a0.0 };
    let a1 = w1.answer(s1.1.action);
    let ready = prepared(tree, dest);
    assert(a1.0.tree == ready);
    assert(a1.1 == EventView::Done);
    let s2 = stepped(m1, a1.1);
    let m2 = MachineView { phase: s2.0, ..m1 };
    assert(s2.1.action == ActionView::Probe(dest));
    lemma_one_action(m2, s2.1, a1.0, (fuel - 2) as nat);
    let w2 = World { shown: a1.0.shown + s2.1.lines, ..a1.0 };
    let a2 = w2.answer(s2.1.action);
    assert(dest.segments.len() > 0);
    assert(dest.parent().segments == dest.segments.drop_last());
    assert(!reaches(dest.segments, dest.parent().segments));
    assert(ready.holds(dest.segments) == tree.holds(dest.segments));
    assert(a2.1 == EventView::Found(tree.holds(dest.segments)));
    a2.0
}

/// A move is carried out: once the machine asks for the record to be
/// renamed, in a well-formed store in which the destination can take it, the
/// record is renamed, the directories that this leaves empty are swept up,
/// and the command ends well unless git fails.
proof fn lemma_move_is_carried_out(
    settings: SettingsView,
    request: RequestView,
    lines: Seq<LineView>,
    world: World,
    fuel: nat,
)
    requires
        request is Move,
        acceptable(settings, request),
        world.tree.wf(),
        world.tree.is_record(target(settings, request).segments),
        world.tree.is_directory(goal(settings, request).parent().segments),
        !world.tree.is_directory(goal(settings, request).segments),
        fuel >= target(settings, request).segments.len() + 4,
    ensures
        ends_with(
            outcome(
                MachineView { settings, request, phase: PhaseView::Rename },
                TurnView {
                    lines,
                    action: ActionView::Rename(target(settings, request), goal(settings, request)),
                },
                world,
                fuel,
            ),
            relocated(world.tree, target(settings, request), goal(settings, request)).0,
            synced(settings, world),
        ),
{
    let at = target(settings, request);
    let dest = goal(settings, request);
    let machine = MachineView { settings, request, phase: PhaseView::Rename };
    let turn = TurnView { lines, action: ActionView::Rename(at, dest) };
    assert(dest.segments.len() > 0);
    assert(dest.parent().segments == dest.segments.drop_last());
    lemma_rename_keeps_shape(world.tree, at, dest);
    let renamed = world.tree.rename(at.segments, dest.segments).0;
    lemma_sweep_ends_clean(renamed, at.parent());
    let start = sweep_from(at.parent());
    let seen = World { shown: world.shown + lines, ..world };
    let answered = seen.answer(turn.action);
    assert(answered.0.tree == renamed);
    assert(answered.1 == EventView::Done);
    assert(stepped(machine, answered.1) == sweeping(
        settings,
        request,
        Change::Moved,
        start,
        Seq::empty(),
    ));
    lemma_one_action(machine, turn, world, fuel);
    lemma_run_sweep(machine, Change::Moved, start, Seq::empty(), answered.0, (fuel - 1) as nat);
}

/// Moving a record, run to its end. In a well-formed store that holds the
/// record, where the destination is free, or the user agrees to overwrite
/// it, the command creates the directories of the destination, renames the
/// record, sweeps up the directories that this leaves empty behind it, and
/// ends well unless git fails.
pub proof fn law_move_runs(
    settings: SettingsView,
    from: Seq<char>,
    to: Seq<char>,
    world: World,
    fuel: nat,
)
    requires
        acceptable(settings, RequestView::Move { from, to }),
        world.tree.wf(),
        world.tree.is_record(target(settings, RequestView::Move { from, to }).segments),
        world.tree.way_is_clear(goal(settings, RequestView::Move { from, to }).parent().segments),
        !world.tree.is_directory(goal(settings, RequestView::Move { from, to }).segments),
        world.tree.holds(goal(settings, RequestView::Move { from, to }).segments) ==> verdict_of(
            if world.typed.len() > 0 {
                world.typed[0]
            } else {
                Seq::empty()
            },
            true,
        ) == Verdict::Accepted,
        fuel >= target(settings, RequestView::Move { from, to }).segments.len() + 9,
    ensures
        ends_with(
            run_of(settings, RequestView::Move { from, to }, world, fuel),
            relocated(
                prepared(world.tree, goal(settings, RequestView::Move { from, to })),
                target(settings, RequestView::Move { from, to }),
                goal(settings, RequestView::Move { from, to }),
            ).0,
            synced(settings, world),
        ),
{
    let request = RequestView::Move { from, to };
    let at = target(settings, request);
    let dest = goal(settings, request);
    let tree = world.tree;
    let there = lemma_move_reaches_destination(settings, request, world, fuel);
    let ready = prepared(tree, dest);
    law_make_dirs(tree, dest.parent().segments);
    assert(dest.segments.len() > 0);
    assert(dest.parent().segments == dest.segments.drop_last());
    assert(!reaches(dest.segments, dest.parent().segments));
    assert(ready.is_record(at.segments));
    assert(!ready.is_directory(dest.segments));
    let probed = after_goal_probe(
        settings,
        request,
        EventView::Found(tree.holds(dest.segments)),
    );
    let asking = MachineView { settings, request, phase: probed.0 };
    if tree.holds(dest.segments) {
        assert(probed.1.action is Ask);
        lemma_one_action(asking, probed.1, there, (fuel - 3) as nat);
        let seen = World { shown: there.shown + probed.1.lines, ..there };
        let answered = seen.answer(probed.1.action);
        assert(answered.0.tree == ready);
        assert(answered.0.git_works == world.git_works);
        let next = stepped(asking, answered.1);
        assert(next.0 == PhaseView::Rename);
        assert(next.1.action == ActionView::Rename(at, dest));
        lemma_move_is_carried_out(settings, request, next.1.lines, answered.0, (fuel - 4) as nat);
    } else {
        assert(probed.0 == PhaseView::Rename);
        assert(probed.1.action == ActionView::Rename(at, dest));
        lemma_move_is_carried_out(settings, request, probed.1.lines, there, (fuel - 3) as nat);
    }
}

/// A declined move, run to its end. Where the destination exists and the
/// user does not agree to overwrite it, the command ends with status 0 and
/// the store is as it was.
pub proof fn law_declined_move_runs(
    settings: SettingsView,
    from: Seq<char>,
    to: Seq<char>,
    world: World,
    fuel: nat,
)
    requires
        acceptable(settings, RequestView::Move { from, to }),
        world.tree.wf(),
        world.tree.is_record(target(settings, RequestView::Move { from, to }).segments),
        world.tree.holds(goal(settings, RequestView::Move { from, to }).segments),
        world.typed.len() > 0,
        verdict_of(world.typed[0], true) != Verdict::Accepted,
        fuel >= 5,
    ensures
        ends_with(run_of(settings, RequestView::Move { from, to }, world, fuel), world.tree, 0),
{
    let request = RequestView::Move { from, to };
    let dest = goal(settings, request);
    let tree = world.tree;
    lemma_parent_is_directory(tree, dest);
    lemma_nothing_to_make(tree, dest.parent().segments);
    let there = lemma_move_reaches_destination(settings, request, world, fuel);
    assert(there.tree == tree);
    let probed = after_goal_probe(settings, request, EventView::Found(true));
    let asking = MachineView { settings, request, phase: probed.0 };
    assert(probed.1.action is Ask);
    lemma_one_action(asking, probed.1, there, (fuel - 3) as nat);
    let seen = World { shown: there.shown + probed.1.lines, ..there };
    let answered = seen.answer(probed.1.action);
    assert(answered.1 == EventView::Line(world.typed[0]));
    assert(answered.0.tree == tree);
    assert(stepped(asking, answered.1).1.action == ActionView::Exit(0));
}

/// The line that the user answers a question with: the next line typed, or
/// an empty line where nothing more is typed.
pub open spec fn next_line(world: World) -> Seq<char> {
    if world.typed.len() > 0 {
        world.typed[0]
    } else {
        Seq::empty()
    }
}

/// A record is written: once the machine asks for the text of a record to
/// be written, in a store in which the file can take it, the text is
/// written and the command ends well unless git fails.
proof fn lemma_record_is_written(
    settings: SettingsView,
    request: RequestView,
    text: Seq<char>,
    lines: Seq<LineView>,
    world: World,
    fuel: nat,
)
    requires
        acceptable(settings, request),
        url_to_store(request) is Some,
        world.tree.is_directory(target(settings, request).parent().segments),
        !world.tree.is_directory(target(settings, request).segments),
        fuel >= 4,
    ensures
        ends_with(
            outcome(
                MachineView { settings, request, phase: PhaseView::Write },
                TurnView { lines, action: ActionView::Write(target(settings, request), text) },
                world,
                fuel,
            ),
            world.tree.write(target(settings, request).segments, text).0,
            synced(settings, world),
        ),
{
    let at = target(settings, request);
    let machine = MachineView { settings, request, phase: PhaseView::Write };
    let turn = TurnView { lines, action: ActionView::Write(at, text) };
    assert(at.segments.len() > 0);
    assert(at.parent().segments == at.segments.drop_last());
    let seen = World { shown: world.shown + lines, ..world };
    let answered = seen.answer(turn.action);
    assert(answered.1 == EventView::Done);
    let said = seq![LineView::Out("Bookmark file stored at "@ + at.text())];
    assert(stepped(machine, answered.1) == syncing(settings, request, Change::Stored, said));
    lemma_one_action(machine, turn, world, fuel);
    lemma_run_sync(machine, Change::Stored, said, answered.0, (fuel - 1) as nat);
}

/// Directories are made and the record is written: once the machine asks
/// for the directories of a record that it is about to write, in a
/// well-formed store in which no file is in the way, the directories are
/// made, the text is written, and the command ends well unless git fails.
proof fn lemma_record_is_stored(
    settings: SettingsView,
    request: RequestView,
    lines: Seq<LineView>,
    world: World,
    fuel: nat,
)
    requires
        acceptable(settings, request),
        url_to_store(request) is Some,
        valid_url(url_to_store(request).unwrap()),
        record_text(
            url_to_store(request).unwrap(),
            match request {
                RequestView::Add { tags, .. } => tags,
                RequestView::Update { tags, .. } => tags,
                _ => Seq::empty(),
            },
        ) is Ok,
        world.tree.wf(),
        world.tree.way_is_clear(target(settings, request).parent().segments),
        !world.tree.is_directory(target(settings, request).segments),
        fuel >= 5,
    ensures
        ends_with(
            outcome(
                MachineView { settings, request, phase: PhaseView::Dirs },
                TurnView {
                    lines,
                    action: ActionView::MakeDirs(target(settings, request).parent()),
                },
                world,
                fuel,
            ),
            world.tree.make_dirs(target(settings, request).parent().segments).0.write(
                target(settings, request).segments,
                record_text(
                    url_to_store(request).unwrap(),
                    match request {
                        RequestView::Add { tags, .. } => tags,
                        RequestView::Update { tags, .. } => tags,
                        _ => Seq::empty(),
                    },
                ).unwrap(),
            ).0,
            synced(settings, world),
        ),
{
    let at = target(settings, request);
    let tree = world.tree;
    let machine = MachineView { settings, request, phase: PhaseView::Dirs };
    let turn = TurnView { lines, action: ActionView::MakeDirs(at.parent()) };
    law_make_dirs(tree, at.parent().segments);
    let made = tree.make_dirs(at.parent().segments).0;
    assert(at.segments.len() > 0);
    assert(at.parent().segments == at.segments.drop_last());
    assert(!reaches(at.segments, at.parent().segments));
    assert(!made.is_directory(at.segments));
    lemma_one_action(machine, turn, world, fuel);
    let seen = World { shown: world.shown + lines, ..world };
    let answered = seen.answer(turn.action);
    assert(answered.0.tree == made);
    assert(answered.1 == EventView::Done);
    let next = stepped(machine, answered.1);
    assert(next.0 == PhaseView::Write);
    lemma_record_is_written(
        settings,
        request,
        next.1.action->Write_1,
        next.1.lines,
        answered.0,
        (fuel - 1) as nat,
    );
}

/// Adding a bookmark, run to its end. In a well-formed store, where the
/// path is free, or the user says yes to overwriting, and the URL is valid:
/// the command creates the directories of the record, writes the text of the
/// record, and ends well unless git fails.
pub proof fn law_add_runs(
    settings: SettingsView,
    path: Seq<char>,
    url: Seq<char>,
    tags: Seq<Seq<char>>,
    world: World,
    fuel: nat,
)
    requires
        acceptable(settings, RequestView::Add { path, url, tags }),
        world.tree.wf(),
        world.tree.way_is_clear(
            target(settings, RequestView::Add { path, url, tags }).parent().segments,
        ),
        !world.tree.is_directory(target(settings, RequestView::Add { path, url, tags }).segments),
        world.tree.holds(target(settings, RequestView::Add { path, url, tags }).segments)
            ==> verdict_of(next_line(world), false) == Verdict::Accepted,
        valid_url(url),
        record_text(url, tags) is Ok,
        fuel >= 7,
    ensures
        ends_with(
            run_of(settings, RequestView::Add { path, url, tags }, world, fuel),
            world.tree.make_dirs(
                target(settings, RequestView::Add { path, url, tags }).parent().segments,
            ).0.write(
                target(settings, RequestView::Add { path, url, tags }).segments,
                record_text(url, tags).unwrap(),
            ).0,
            synced(settings, world),
        ),
{
    let request = RequestView::Add { path, url, tags };
    let at = target(settings, request);
    let tree = world.tree;
    let m0 = MachineView { settings, request, phase: begun(settings, request).0 };
    let t0 = begun(settings, request).1;
    assert(t0.action == ActionView::Probe(at));
    lemma_one_action(m0, t0, world, fuel);
    let w0 = World { shown: world.shown + t0.lines, ..world };
    let a0 = w0.answer(t0.action);
    assert(a0.0.tree == tree);
    assert(a0.1 == EventView::Found(tree.holds(at.segments)));
    let s1 = stepped(m0, a0.1);
    let m1 = MachineView { phase: s1.0, ..m0 };
    if tree.holds(at.segments) {
        assert(s1.1.action is Ask);
        lemma_one_action(m1, s1.1, a0.0, (fuel - 1) as nat);
        let w1 = World { shown: a0.0.shown + s1.1.lines, ..a0.0 };
        let a1 = w1.answer(s1.1.action);
        assert(a1.1 == EventView::Line(next_line(world)));
        assert(a1.0.tree == tree);
        assert(a1.0.git_works == world.git_works);
        let s2 = stepped(m1, a1.1);
        assert(s2.0 == PhaseView::Dirs);
        assert(s2.1.action == ActionView::MakeDirs(at.parent()));
        lemma_record_is_stored(settings, request, s2.1.lines, a1.0, (fuel - 2) as nat);
    } else {
        assert(s1.0 == PhaseView::Dirs);
        assert(s1.1.action == ActionView::MakeDirs(at.parent()));
        lemma_record_is_stored(settings, request, s1.1.lines, a0.0, (fuel - 1) as nat);
    }
}

/// Updating a bookmark, run to its end. In a well-formed store that holds
/// the record, where the URL is valid: the command replaces the text of the
/// record by the text of the new one, changes nothing else, and ends well
/// unless git fails.
pub proof fn law_update_runs(
    settings: SettingsView,
    path: Seq<char>,
    url: Seq<char>,
    tags: Seq<Seq<char>>,
    world: World,
    fuel: nat,
)
    requires
        acceptable(settings, RequestView::Update { path, url, tags }),
        world.tree.wf(),
        world.tree.is_record(target(settings, RequestView::Update { path, url, tags }).segments),
        valid_url(url),
        record_text(url, tags) is Ok,
        fuel >= 6,
    ensures
        ends_with(
            run_of(settings, RequestView::Update { path, url, tags }, world, fuel),
            world.tree.write(
                target(settings, RequestView::Update { path, url, tags }).segments,
                record_text(url, tags).unwrap(),
            ).0,
            synced(settings, world),
        ),
{
    let request = RequestView::Update { path, url, tags };
    let at = target(settings, request);
    let tree = world.tree;
    lemma_parent_is_directory(tree, at);
    lemma_nothing_to_make(tree, at.parent().segments);
    let m0 = MachineView { settings, request, phase: begun(settings, request).0 };
    let t0 = begun(settings, request).1;
    assert(t0.action == ActionView::Probe(at));
    lemma_one_action(m0, t0, world, fuel);
    let w0 = World { shown: world.shown + t0.lines, ..world };
    let a0 = w0.answer(t0.action);
    assert(a0.0.tree == tree);
    assert(a0.1 == EventView::Found(true));
    let s1 = stepped(m0, a0.1);
    assert(s1.0 == PhaseView::Dirs);
    assert(s1.1.action == ActionView::MakeDirs(at.parent()));
    lemma_record_is_stored(settings, request, s1.1.lines, a0.0, (fuel - 1) as nat);
}

/// Getting a bookmark, run to its end. In a store that holds the record,
/// where the text of the file is a record with a valid URL: the command
/// prints that URL and nothing else, changes nothing, and ends with
/// status 0.
pub proof fn law_get_runs(settings: SettingsView, path: Seq<char>, world: World, fuel: nat)
    requires
        acceptable(settings, RequestView::Get { path }),
        world.tree.is_record(target(settings, RequestView::Get { path }).segments),
        parsed_record(
            world.tree.read(target(settings, RequestView::Get { path }).segments).unwrap(),
        ) is Ok,
        valid_url(
            parsed_record(
                world.tree.read(target(settings, RequestView::Get { path }).segments).unwrap(),
            ).unwrap().url,
        ),
        fuel >= 2,
    ensures
        ends_with(run_of(settings, RequestView::Get { path }, world, fuel), world.tree, 0),
        run_of(settings, RequestView::Get { path }, world, fuel).unwrap().0.shown
            == world.shown.push(
            LineView::Out(
                parsed_record(
                    world.tree.read(target(settings, RequestView::Get { path }).segments).unwrap(),
                ).unwrap().url,
            ),
        ),
{
    let request = RequestView::Get { path };
    let at = target(settings, request);
    let tree = world.tree;
    let record = parsed_record(tree.read(at.segments).unwrap()).unwrap();
    let m0 = MachineView { settings, request, phase: begun(settings, request).0 };
    let t0 = begun(settings, request).1;
    assert(t0.action == ActionView::Read(at));
    lemma_one_action(m0, t0, world, fuel);
    let w0 = World { shown: world.shown + t0.lines, ..world };
    let a0 = w0.answer(t0.action);
    assert(a0.1 == EventView::Text(tree.read(at.segments).unwrap()));
    assert(a0.0.shown =~= world.shown);
    let s1 = stepped(m0, a0.1);
    assert(s1.1 == farewell(seq![LineView::Out(record.url)]));
    assert(a0.0.shown + s1.1.lines =~= world.shown.push(LineView::Out(record.url)));
}

/// What was added is what is got. In a well-formed store, once a bookmark
/// is added under a free path, getting that path prints the URL of the
/// bookmark and ends with status 0, provided that the text of the record
/// parses back to the record. That it does is the work of the TOML
/// serializer and parser, and is taken as given here.
pub proof fn law_added_is_got(
    settings: SettingsView,
    path: Seq<char>,
    url: Seq<char>,
    tags: Seq<Seq<char>>,
    world: World,
    fuel: nat,
)
    requires
        acceptable(settings, RequestView::Add { path, url, tags }),
        world.tree.wf(),
        world.tree.way_is_clear(
            target(settings, RequestView::Add { path, url, tags }).parent().segments,
        ),
        !world.tree.holds(target(settings, RequestView::Add { path, url, tags }).segments),
        valid_url(url),
        record_text(url, tags) is Ok,
        parsed_record(record_text(url, tags).unwrap()) == Ok::<
            BookmarkView,
            ErrorKind,
        >(BookmarkView { url, tags }),
        fuel >= 7,
    ensures
        run_of(settings, RequestView::Add { path, url, tags }, world, fuel) is Some,
        ends_with(
            run_of(
                settings,
                RequestView::Get { path },
                run_of(settings, RequestView::Add { path, url, tags }, world, fuel).unwrap().0,
                fuel,
            ),
            run_of(settings, RequestView::Add { path, url, tags }, world, fuel).unwrap().0.tree,
            0,
        ),
        run_of(
            settings,
            RequestView::Get { path },
            run_of(settings, RequestView::Add { path, url, tags }, world, fuel).unwrap().0,
            fuel,
        ).unwrap().0.shown == run_of(
            settings,
            RequestView::Add { path, url, tags },
            world,
            fuel,
        ).unwrap().0.shown.push(LineView::Out(url)),
{
    let adding = RequestView::Add { path, url, tags };
    let getting = RequestView::Get { path };
    let at = target(settings, adding);
    let text = record_text(url, tags).unwrap();
    law_add_runs(settings, path, url, tags, world, fuel);
    let after = run_of(settings, adding, world, fuel).unwrap().0;
    let made = world.tree.make_dirs(at.parent().segments).0;
    law_make_dirs(world.tree, at.parent().segments);
    assert(at.segments.len() > 0);
    assert(at.parent().segments == at.segments.drop_last());
    assert(!reaches(at.segments, at.parent().segments));
    assert(!made.holds(at.segments));
    law_write_then_read(made, at.segments, text);
    assert(target(settings, getting) == at);
    assert(after.tree.is_record(at.segments));
    law_get_runs(settings, path, after, fuel);
}

/// Removing a directory with all it holds leaves the tree well formed and
/// the way to the directory above clear.
pub proof fn lemma_cut_keeps_shape(tree: Tree, dir: PhysicalPathView)
    requires
        tree.wf(),
        tree.is_directory(dir.segments),
        dir.segments.len() > 0,
    ensures
        tree.remove_tree(dir.segments).1,
        tree.remove_tree(dir.segments).0.wf(),
        tree.remove_tree(dir.segments).0.way_is_clear(dir.parent().segments),
{
    let d = dir.segments;
    let cut = tree.remove_tree(d).0;
    let above = dir.parent().segments;
    assert(d.take(d.len() - 1) =~= d.drop_last());
    assert(is_above(above, d));
    assert(!reaches(d, Seq::<Seq<char>>::empty()));
    assert forall|q: Seq<Seq<char>>| #[trigger]
        cut.nodes.contains_key(q) && q.len() > 0 implies cut.is_directory(q.drop_last()) by {
        assert(tree.is_directory(q.drop_last()));
        assert(q.take(q.len() - 1) =~= q.drop_last());
        if reaches(d, q.drop_last()) {
            lemma_reaches_then_above(d, q.drop_last(), q);
        }
    }
    assert forall|x: Seq<Seq<char>>| reaches(x, above) implies !#[trigger] cut.is_record(x) by {
        lemma_reaches_then_above(x, above, d);
        lemma_way_is_directories(tree, x, d);
    }
}

/// Removing a directory, run to its end. In a well-formed store, where the
/// path names no record but a directory, and the user agrees: the command
/// deletes the directory with all it holds, sweeps up the directories that
/// this leaves empty, and ends well unless git fails.
pub proof fn law_remove_directory_runs(
    settings: SettingsView,
    path: Seq<char>,
    world: World,
    fuel: nat,
)
    requires
        acceptable(settings, RequestView::Remove { path }),
        world.tree.wf(),
        !world.tree.holds(target(settings, RequestView::Remove { path }).segments),
        folder(settings, RequestView::Remove { path }).segments.len() > 0,
        confined(folder(settings, RequestView::Remove { path }).segments),
        world.tree.is_directory(folder(settings, RequestView::Remove { path }).segments),
        verdict_of(next_line(world), true) == Verdict::Accepted,
        fuel >= folder(settings, RequestView::Remove { path }).segments.len() + 8,
    ensures
        ends_with(
            run_of(settings, RequestView::Remove { path }, world, fuel),
            cleared(world.tree, folder(settings, RequestView::Remove { path })).0,
            synced(settings, world),
        ),
{
    let request = RequestView::Remove { path };
    let at = target(settings, request);
    let dir = folder(settings, request);
    let tree = world.tree;
    let m0 = MachineView { settings, request, phase: begun(settings, request).0 };
    let t0 = begun(settings, request).1;
    assert(t0.action == ActionView::Probe(at));
    lemma_one_action(m0, t0, world, fuel);
    let w0 = World { shown: world.shown + t0.lines, ..world };
    let a0 = w0.answer(t0.action);
    assert(a0.0.tree == tree);
    assert(a0.1 == EventView::Found(false));
    let s1 = stepped(m0, a0.1);
    let m1 = MachineView { phase: s1.0, ..m0 };
    assert(s1.1.action == ActionView::ProbeDir(dir));
    lemma_one_action(m1, s1.1, a0.0, (fuel - 1) as nat);
    let w1 = World { shown: a0.0.shown + s1.1.lines, ..a0.0 };
    let a1 = w1.answer(s1.1.action);
    assert(a1.1 == EventView::Found(true));
    let s2 = stepped(m1, a1.1);
    let m2 = MachineView { phase: s2.0, ..m1 };
    assert(s2.1.action is Ask);
    lemma_one_action(m2, s2.1, a1.0, (fuel - 2) as nat);
    let w2 = World { shown: a1.0.shown + s2.1.lines, ..a1.0 };
    let a2 = w2.answer(s2.1.action);
    assert(a2.1 == EventView::Line(next_line(world)));
    assert(a2.0.tree == tree);
    let s3 = stepped(m2, a2.1);
    let m3 = MachineView { phase: s3.0, ..m2 };
    assert(s3.1.action == ActionView::RemoveTree(dir));
    lemma_one_action(m3, s3.1, a2.0, (fuel - 3) as nat);
    let w3 = World { shown: a2.0.shown + s3.1.lines, ..a2.0 };
    let a3 = w3.answer(s3.1.action);
    lemma_cut_keeps_shape(tree, dir);
    let cut = tree.remove_tree(dir.segments).0;
    assert(a3.0.tree == cut);
    assert(a3.1 == EventView::Done);
    let start = sweep_from(dir.parent());
    lemma_parent_is_confined(dir.segments);
    assert(stepped(m3, a3.1) == sweeping(
        settings,
        request,
        Change::RemovedDirectory,
        start,
        Seq::empty(),
    ));
    lemma_sweep_ends_clean(cut, dir.parent());
    lemma_run_sweep(m3, Change::RemovedDirectory, start, Seq::empty(), a3.0, (fuel - 4) as nat);
}

/// Whether a command ended refused: because its path or its URL is not
/// valid, or because the record it needs is not there.
pub open spec fn refused(phase: PhaseView) -> bool {
    phase == PhaseView::Failed(ErrorKind::InvalidPath) || phase == PhaseView::Failed(
        ErrorKind::InvalidUrl,
    ) || phase == PhaseView::Failed(ErrorKind::NotFound)
}

/// Whether a machine is past refusing: the URL it is to store, if any, is
/// valid, and it is not waiting to learn whether the record is there.
pub open spec fn settled(machine: MachineView) -> bool {
    &&& fit(machine)
    &&& url_to_store(machine.request) is Some ==> valid_url(url_to_store(machine.request).unwrap())
    &&& !(machine.phase is Probe)
    &&& !(machine.phase is ProbeDir)
    &&& !(machine.phase is Read)
    &&& !refused(machine.phase)
}

/// A machine that is past refusing stays so, whatever it is told.
pub proof fn lemma_settled_stays(machine: MachineView, event: EventView)
    requires
        settled(machine),
    ensures
        settled(MachineView { phase: stepped(machine, event).0, ..machine }),
{
    law_machine_stays_inside(machine, event);
}

/// A machine that is past refusing never ends refused.
pub proof fn lemma_settled_never_refuses(
    machine: MachineView,
    turn: TurnView,
    world: World,
    fuel: nat,
)
    requires
        settled(machine),
    ensures
        outcome(machine, turn, world, fuel) matches Some(end) ==> !refused(end.2),
    decreases fuel,
{
    if !(turn.action is Exit) && fuel > 0 {
        let seen = World { shown: world.shown + turn.lines, ..world };
        let answered = seen.answer(turn.action);
        let next = stepped(machine, answered.1);
        lemma_settled_stays(machine, answered.1);
        lemma_settled_never_refuses(
            MachineView { phase: next.0, ..machine },
            next.1,
            answered.0,
            (fuel - 1) as nat,
        );
    }
}

/// A refused command leaves the store as it was. Whatever the store holds,
/// a command that ends because its path or its URL is not valid, or because
/// the record it needs is not there, has changed nothing: no file, and no
/// directory either.
pub proof fn law_refused_run_leaves_store(
    settings: SettingsView,
    request: RequestView,
    world: World,
    fuel: nat,
)
    requires
        run_of(settings, request, world, fuel) matches Some(end) && refused(end.2),
    ensures
        run_of(settings, request, world, fuel).unwrap().0.tree == world.tree,
{
    let m0 = MachineView { settings, request, phase: begun(settings, request).0 };
    let t0 = begun(settings, request).1;
    if !(t0.action is Exit) {
        law_machine_stays_inside(m0, EventView::Done);
        assert(fit(m0));
        assert(fuel > 0);
        lemma_one_action(m0, t0, world, fuel);
        let w0 = World { shown: world.shown + t0.lines, ..world };
        let a0 = w0.answer(t0.action);
        assert(a0.0.tree == world.tree);
        let s1 = stepped(m0, a0.1);
        let m1 = MachineView { phase: s1.0, ..m0 };
        law_machine_stays_inside(m0, a0.1);
        if !(s1.1.action is Exit) {
            if s1.0 is ProbeDir {
                assert(fuel > 1);
                lemma_one_action(m1, s1.1, a0.0, (fuel - 1) as nat);
                let w1 = World { shown: a0.0.shown + s1.1.lines, ..a0.0 };
                let a1 = w1.answer(s1.1.action);
                assert(a1.0.tree == world.tree);
                let s2 = stepped(m1, a1.1);
                let m2 = MachineView { phase: s2.0, ..m1 };
                law_machine_stays_inside(m1, a1.1);
                if !(s2.1.action is Exit) {
                    assert(settled(m2));
                    lemma_settled_never_refuses(m2, s2.1, a1.0, (fuel - 2) as nat);
                }
            } else {
                assert(settled(m1));
                lemma_settled_never_refuses(m1, s1.1, a0.0, (fuel - 1) as nat);
            }
        }
    }
}

/// Whether a file that the action writes, or renames a record to, lands in
/// a directory of the tree.
pub open spec fn lands_in_directory(action: ActionView, tree: Tree) -> bool {
    match action {
        ActionView::Write(file, _) => tree.is_directory(file.parent().segments),
        ActionView::Rename(_, to) => tree.is_directory(to.parent().segments),
        _ => true,
    }
}

/// Whether in the run of a machine that goes on from `turn` in `world`, for
/// at most `fuel` actions, every file that is written or renamed to lands
/// in a directory.
pub open spec fn parents_are_there(
    machine: MachineView,
    turn: TurnView,
    world: World,
    fuel: nat,
) -> bool
    decreases fuel,
{
    &&& lands_in_directory(turn.action, world.tree)
    &&& (turn.action is Exit || fuel == 0 || {
        let seen = World { shown: world.shown + turn.lines, ..world };
        let answered = seen.answer(turn.action);
        let next = stepped(machine, answered.1);
        parents_are_there(
            MachineView { phase: next.0, ..machine },
            next.1,
            answered.0,
            (fuel - 1) as nat,
        )
    })
}

/// Whether a machine and its turn belong together as they do in a run:
/// the turn holds the action that the phase waits on, and where a file is
/// about to be written or renamed to, its directory is there.
pub open spec fn poised(machine: MachineView, turn: TurnView, world: World) -> bool {
    let at = target(machine.settings, machine.request);
    let to = goal(machine.settings, machine.request);
    match machine.phase {
        PhaseView::Dirs => turn.action == ActionView::MakeDirs(at.parent()),
        PhaseView::Write => turn.action is Write && turn.action->Write_0 == at
            && world.tree.is_directory(at.parent().segments),
        PhaseView::GoalDirs => turn.action == ActionView::MakeDirs(to.parent()),
        PhaseView::GoalProbe => turn.action == ActionView::Probe(to) && world.tree.is_directory(
            to.parent().segments,
        ),
        PhaseView::Gate => turn.action is Ask && (machine.request is Move
            ==> world.tree.is_directory(to.parent().segments)),
        PhaseView::Rename => turn.action == ActionView::Rename(at, to)
            && world.tree.is_directory(to.parent().segments),
        PhaseView::Probe => turn.action is Probe,
        PhaseView::ProbeDir => turn.action is ProbeDir,
        PhaseView::RemoveFile => turn.action is RemoveFile,
        PhaseView::RemoveTree => turn.action is RemoveTree,
        PhaseView::Edit => turn.action is Edit,
        PhaseView::Read => turn.action is Read,
        PhaseView::Walk => turn.action is Walk,
        PhaseView::ReadEach { .. } => turn.action is Read,
        PhaseView::Sweep { .. } => turn.action is RemoveDir,
        PhaseView::Sync { .. } => turn.action is Run,
        PhaseView::Finished => turn.action is Exit,
        PhaseView::Failed(_) => turn.action is Exit,
    }
}

/// Directories that were made are there: where the making of a directory
/// succeeds, the directory is in the tree.
pub proof fn lemma_made_is_there(tree: Tree, dir: Seq<Seq<char>>)
    requires
        tree.make_dirs(dir).1,
    ensures
        tree.make_dirs(dir).0.is_directory(dir),
{
    assert(reaches(dir, dir));
    assert(!tree.is_record(dir));
}

/// A machine and its turn that belong together still do after the action
/// is answered.
pub proof fn lemma_poised_stays(machine: MachineView, turn: TurnView, world: World)
    requires
        poised(machine, turn, world),
        !(turn.action is Exit),
    ensures
        poised(
            MachineView {
                phase: stepped(
                    machine,
                    (World { shown: world.shown + turn.lines, ..world }).answer(turn.action).1,
                ).0,
                ..machine
            },
            stepped(
                machine,
                (World { shown: world.shown + turn.lines, ..world }).answer(turn.action).1,
            ).1,
            (World { shown: world.shown + turn.lines, ..world }).answer(turn.action).0,
        ),
{
    let at = target(machine.settings, machine.request);
    let to = goal(machine.settings, machine.request);
    match machine.phase {
        PhaseView::Dirs => {
            if world.tree.make_dirs(at.parent().segments).1 {
                lemma_made_is_there(world.tree, at.parent().segments);
            }
        },
        PhaseView::GoalDirs => {
            if world.tree.make_dirs(to.parent().segments).1 {
                lemma_made_is_there(world.tree, to.parent().segments);
            }
        },
        _ => {},
    }
}

/// In the run of a machine and a turn that belong together, every file
/// that is written or renamed to lands in a directory.
pub proof fn lemma_poised_runs(machine: MachineView, turn: TurnView, world: World, fuel: nat)
    requires
        poised(machine, turn, world),
    ensures
        parents_are_there(machine, turn, world, fuel),
    decreases fuel,
{
    if !(turn.action is Exit) && fuel > 0 {
        let seen = World { shown: world.shown + turn.lines, ..world };
        let answered = seen.answer(turn.action);
        let next = stepped(machine, answered.1);
        lemma_poised_stays(machine, turn, world);
        lemma_poised_runs(
            MachineView { phase: next.0, ..machine },
            next.1,
            answered.0,
            (fuel - 1) as nat,
        );
    }
}

/// Files land in directories. In every run of every command, in whatever
/// store, a record is written, or renamed to, only where the directory
/// that is to hold it is there: the directories are made, and known to be
/// made, before the file is asked for.
pub proof fn law_files_land_in_directories(
    settings: SettingsView,
    request: RequestView,
    world: World,
    fuel: nat,
)
    ensures
        parents_are_there(
            MachineView { settings, request, phase: begun(settings, request).0 },
            begun(settings, request).1,
            world,
            fuel,
        ),
{
    lemma_poised_runs(
        MachineView { settings, request, phase: begun(settings, request).0 },
        begun(settings, request).1,
        world,
        fuel,
    );
}

} // verus!
