//! The steps of the commands: what each does first, and what it does when
//! told what came of its last action.

use vstd::prelude::*;
use vstd::string::*;
use crate::error::ErrorKind;
use crate::command::{
    acceptable, end, ending, folder, folder_of, give_up, giving_up, go_astray, goal, goal_of,
    invalid_path_message, invalid_url_message, is_acceptable, moved_on, not_found_message,
    prepare, preparing, store, storing, stray, stray_message, sweep, sweeping, sync, syncing,
    target,
    url_to_store,
    target_of, Change, Machine, MachineView, Phase, PhaseView, commit_message, commit_message_of,
    closing, closing_lines, path_of,
};
use crate::gate::{confirm, verdict_of, Verdict};
use crate::listing::{
    get_toml_bookmark_files, lemma_record_files_are_confined, listed_name, name_of, record_files,
};
use crate::machine::{
    and_saying, and_warning, blame, blamed, saying, silence, Action, ActionView, Event,
    EventView, Line, LineView, Turn, TurnView,
};
use crate::path::{
    confined, copy_strings, is_confined, lemma_parent_is_confined, lemma_resolved_is_confined,
    valid_path, PhysicalPath, PhysicalPathView,
};
use crate::record::{extract_url_from_toml, load_bookmark, parsed_record, parsed_url};
use crate::request::{parse_request, parsed, Parsed, ParsedView, Request, RequestView};
use crate::settings::{Settings, SettingsView};
use crate::sweep::{cleanup_empty_parents, cleanup_next, sweep_after, sweep_from};
use crate::sync::{commit_plan, git_commit};
use crate::text::{between, join, join_slashed};
use crate::tree::Removal;
use crate::url::{valid_url, validate_url};

verus! {

/// The first turn of a command. A request that is not fit to be carried
/// out, or that is to store a URL that is not valid, is refused before
/// anything is asked of the store. Every other request begins by looking:
/// for the record, or, for a listing, for the files.
pub open spec fn begun(settings: SettingsView, request: RequestView) -> (PhaseView, TurnView) {
    if !acceptable(settings, request) {
        giving_up(ErrorKind::InvalidPath, Seq::empty(), invalid_path_message())
    } else {
        match request {
            RequestView::Add { url, .. } | RequestView::Update { url, .. } => if !valid_url(url) {
                giving_up(ErrorKind::InvalidUrl, Seq::empty(), invalid_url_message())
            } else {
                (
                    PhaseView::Probe,
                    TurnView {
                        lines: Seq::empty(),
                        action: ActionView::Probe(target(settings, request)),
                    },
                )
            },
            RequestView::Get { .. } => (
                PhaseView::Read,
                TurnView {
                    lines: Seq::empty(),
                    action: ActionView::Read(target(settings, request)),
                },
            ),
            RequestView::List { .. } => (
                PhaseView::Walk,
                TurnView {
                    lines: Seq::empty(),
                    action: ActionView::Walk(folder(settings, request)),
                },
            ),
            _ => (
                PhaseView::Probe,
                TurnView {
                    lines: Seq::empty(),
                    action: ActionView::Probe(target(settings, request)),
                },
            ),
        }
    }
}

/// Once the directories of the record are there: write the record.
pub open spec fn after_dirs(settings: SettingsView, request: RequestView, event: EventView) -> (
    PhaseView,
    TurnView,
) {
    match event {
        EventView::Done => match request {
            RequestView::Add { url, tags, .. } | RequestView::Update { url, tags, .. } => storing(
                settings,
                request,
                url,
                tags,
                Seq::empty(),
            ),
            _ => stray(),
        },
        EventView::Failed(reason) => giving_up(
            ErrorKind::FsError,
            Seq::empty(),
            blamed("Failed to create directory"@, reason),
        ),
        _ => stray(),
    }
}

pub open spec fn overwrite_prompt(at: Seq<char>) -> Seq<char> {
    "Bookmark already exists at "@ + at + ". Overwrite? (y/N): "@
}

pub open spec fn replace_prompt(at: Seq<char>) -> Seq<char> {
    "A bookmark already exists at "@ + at + ". Overwrite? [Y/n]: "@
}

pub open spec fn delete_prompt(path: Seq<char>) -> Seq<char> {
    "Bookmark not found as a file, but '"@ + path
        + "' is a directory. Do you want to delete it and all its bookmarks? [Y/n] "@
}

/// Once it is known whether the record exists. Adding asks before it
/// overwrites; updating and moving need the record; removing deletes it or
/// looks for a directory of that name. Only where a record is going to be
/// written or moved are directories asked for.
pub open spec fn after_probe(settings: SettingsView, request: RequestView, event: EventView) -> (
    PhaseView,
    TurnView,
) {
    let at = target(settings, request);
    match event {
        EventView::Found(found) => match request {
            RequestView::Add { url, tags, .. } => if found {
                (
                    PhaseView::Gate,
                    TurnView {
                        lines: Seq::empty(),
                        action: ActionView::Ask(overwrite_prompt(at.text())),
                    },
                )
            } else {
                preparing(settings, request, url, tags, Seq::empty())
            },
            RequestView::Update { url, tags, .. } => if found {
                preparing(settings, request, url, tags, Seq::empty())
            } else {
                giving_up(ErrorKind::NotFound, Seq::empty(), not_found_message(at.text()))
            },
            RequestView::Move { .. } => if found {
                (
                    PhaseView::GoalDirs,
                    TurnView {
                        lines: Seq::empty(),
                        action: ActionView::MakeDirs(goal(settings, request).parent()),
                    },
                )
            } else {
                giving_up(ErrorKind::NotFound, Seq::empty(), not_found_message(at.text()))
            },
            RequestView::Edit { .. } => if found {
                (PhaseView::Edit, TurnView { lines: Seq::empty(), action: ActionView::Edit(at) })
            } else {
                giving_up(
                    ErrorKind::NotFound,
                    Seq::empty(),
                    "Bookmark file does not exist: "@ + at.text(),
                )
            },
            RequestView::Remove { .. } => if found {
                (
                    PhaseView::RemoveFile,
                    TurnView { lines: Seq::empty(), action: ActionView::RemoveFile(at) },
                )
            } else if folder(settings, request).segments.len() > 0 && confined(
                folder(settings, request).segments,
            ) {
                (
                    PhaseView::ProbeDir,
                    TurnView {
                        lines: Seq::empty(),
                        action: ActionView::ProbeDir(folder(settings, request)),
                    },
                )
            } else {
                giving_up(ErrorKind::NotFound, Seq::empty(), not_found_message(at.text()))
            },
            _ => stray(),
        },
        _ => stray(),
    }
}

/// Once the user has answered. Overwriting on `add` needs a yes; overwriting
/// on `move` and deleting a directory go ahead on an empty line too. A user
/// who declines ends the command without a change and without failure.
pub open spec fn after_gate(settings: SettingsView, request: RequestView, event: EventView) -> (
    PhaseView,
    TurnView,
) {
    match event {
        EventView::Line(line) => match request {
            RequestView::Add { url, tags, .. } => match verdict_of(line, false) {
                Verdict::Accepted => preparing(
                    settings,
                    request,
                    url,
                    tags,
                    seq![LineView::Out("Overwriting file..."@)],
                ),
                Verdict::Declined => ending(seq![LineView::Out("Operation cancelled."@)]),
                Verdict::Unrecognized => ending(
                    seq![LineView::Out("Invalid input. Operation cancelled."@)],
                ),
            },
            RequestView::Move { .. } => match verdict_of(line, true) {
                Verdict::Accepted => (
                    PhaseView::Rename,
                    TurnView {
                        lines: Seq::empty(),
                        action: ActionView::Rename(
                            target(settings, request),
                            goal(settings, request),
                        ),
                    },
                ),
                Verdict::Declined => ending(seq![LineView::Out("Move operation aborted."@)]),
                Verdict::Unrecognized => ending(
                    seq![
                        LineView::Out("Invalid input, assuming 'no'."@),
                        LineView::Out("Move operation aborted."@),
                    ],
                ),
            },
            RequestView::Remove { .. } => match verdict_of(line, true) {
                Verdict::Accepted => (
                    PhaseView::RemoveTree,
                    TurnView {
                        lines: Seq::empty(),
                        action: ActionView::RemoveTree(folder(settings, request)),
                    },
                ),
                Verdict::Declined => ending(seq![LineView::Out("Operation canceled."@)]),
                Verdict::Unrecognized => ending(
                    seq![
                        LineView::Out("Invalid input, assuming 'no'."@),
                        LineView::Out("Operation canceled."@),
                    ],
                ),
            },
            _ => stray(),
        },
        EventView::Failed(reason) => giving_up(
            ErrorKind::FsError,
            Seq::empty(),
            blamed("Failed to read input"@, reason),
        ),
        _ => stray(),
    }
}

/// Once the editor has ended: commit where the record was changed, and
/// say so where it was not. An editor that ended in failure ends the
/// command with a notice; one that could not be started fails it.
pub open spec fn after_edit(settings: SettingsView, request: RequestView, event: EventView) -> (
    PhaseView,
    TurnView,
) {
    match event {
        EventView::Edited(changed) => if changed {
            syncing(settings, request, Change::Edited, Seq::empty())
        } else {
            ending(seq![LineView::Out("No changes made."@)])
        },
        EventView::Abandoned => (
            PhaseView::Finished,
            TurnView {
                lines: seq![LineView::Warn("Failed to edit bookmark file."@)],
                action: ActionView::Exit(0),
            },
        ),
        EventView::Failed(reason) => giving_up(
            ErrorKind::FsError,
            Seq::empty(),
            blamed("Failed to open editor"@, reason),
        ),
        _ => stray(),
    }
}

/// Once the record is written: commit.
pub open spec fn after_write(settings: SettingsView, request: RequestView, event: EventView) -> (
    PhaseView,
    TurnView,
) {
    match event {
        EventView::Done => syncing(
            settings,
            request,
            Change::Stored,
            seq![LineView::Out("Bookmark file stored at "@ + target(settings, request).text())],
        ),
        EventView::Failed(reason) => giving_up(
            ErrorKind::WriteError,
            Seq::empty(),
            blamed("Failed to write bookmark file"@, reason),
        ),
        _ => stray(),
    }
}

/// Once the directories of the destination are there: probe for it.
pub open spec fn after_goal_dirs(
    settings: SettingsView,
    request: RequestView,
    event: EventView,
) -> (PhaseView, TurnView) {
    match event {
        EventView::Done => (
            PhaseView::GoalProbe,
            TurnView { lines: Seq::empty(), action: ActionView::Probe(goal(settings, request)) },
        ),
        EventView::Failed(reason) => giving_up(
            ErrorKind::FsError,
            Seq::empty(),
            blamed("Failed to create destination directory"@, reason),
        ),
        _ => stray(),
    }
}

/// Once it is known whether the destination exists: ask before overwriting
/// it, else rename.
pub open spec fn after_goal_probe(
    settings: SettingsView,
    request: RequestView,
    event: EventView,
) -> (PhaseView, TurnView) {
    match event {
        EventView::Found(found) => if found {
            (
                PhaseView::Gate,
                TurnView {
                    lines: Seq::empty(),
                    action: ActionView::Ask(replace_prompt(goal(settings, request).text())),
                },
            )
        } else {
            (
                PhaseView::Rename,
                TurnView {
                    lines: Seq::empty(),
                    action: ActionView::Rename(target(settings, request), goal(settings, request)),
                },
            )
        },
        _ => stray(),
    }
}

/// Once the record is renamed: sweep up from where it was.
pub open spec fn after_rename(settings: SettingsView, request: RequestView, event: EventView) -> (
    PhaseView,
    TurnView,
) {
    match event {
        EventView::Done => sweeping(
            settings,
            request,
            Change::Moved,
            sweep_from(target(settings, request).parent()),
            Seq::empty(),
        ),
        EventView::Failed(reason) => giving_up(
            ErrorKind::FsError,
            Seq::empty(),
            blamed("Failed to move bookmark file"@, reason),
        ),
        _ => stray(),
    }
}

/// Once the record is deleted: say so, and sweep up from where it was.
pub open spec fn after_remove_file(
    settings: SettingsView,
    request: RequestView,
    event: EventView,
) -> (PhaseView, TurnView) {
    match event {
        EventView::Done => sweeping(
            settings,
            request,
            Change::RemovedRecord,
            sweep_from(target(settings, request).parent()),
            seq![LineView::Out("Bookmark removed successfully as "@ + request.path())],
        ),
        EventView::Failed(reason) => giving_up(
            ErrorKind::FsError,
            Seq::empty(),
            blamed("Failed to remove file"@, reason),
        ),
        _ => stray(),
    }
}

/// Once it is known whether the path names a directory: ask before deleting
/// it, else fail because nothing was found.
pub open spec fn after_probe_dir(
    settings: SettingsView,
    request: RequestView,
    event: EventView,
) -> (PhaseView, TurnView) {
    match event {
        EventView::Found(found) => if found {
            (
                PhaseView::Gate,
                TurnView {
                    lines: Seq::empty(),
                    action: ActionView::Ask(delete_prompt(request.path())),
                },
            )
        } else {
            giving_up(
                ErrorKind::NotFound,
                Seq::empty(),
                not_found_message(target(settings, request).text()),
            )
        },
        _ => stray(),
    }
}

/// Once the directory is deleted: sweep up from where it was.
pub open spec fn after_remove_tree(
    settings: SettingsView,
    request: RequestView,
    event: EventView,
) -> (PhaseView, TurnView) {
    match event {
        EventView::Done => sweeping(
            settings,
            request,
            Change::RemovedDirectory,
            sweep_from(folder(settings, request).parent()),
            Seq::empty(),
        ),
        EventView::Failed(reason) => giving_up(
            ErrorKind::FsError,
            Seq::empty(),
            blamed("Failed to remove directory"@, reason),
        ),
        _ => stray(),
    }
}

/// What the answer to a request to remove a directory says.
pub open spec fn removal_of(event: EventView) -> Option<Removal> {
    match event {
        EventView::Done => Some(Removal::Removed),
        EventView::Missing => Some(Removal::AlreadyGone),
        EventView::NotEmpty => Some(Removal::NotEmpty),
        EventView::Failed(_) => Some(Removal::Failed),
        _ => None,
    }
}

/// Once a directory of the sweep is dealt with: go on as the sweep says.
pub open spec fn after_sweep(
    settings: SettingsView,
    request: RequestView,
    dir: PhysicalPathView,
    change: Change,
    event: EventView,
) -> (PhaseView, TurnView) {
    match event {
        EventView::Failed(reason) => giving_up(
            ErrorKind::FsError,
            Seq::empty(),
            blamed("Failed to clean up empty directories"@, reason),
        ),
        _ => match removal_of(event) {
            Some(removal) => sweeping(
                settings,
                request,
                change,
                sweep_after(dir, removal),
                Seq::empty(),
            ),
            None => stray(),
        },
    }
}

/// Once a git command has run: run the next one of the plan, announcing the
/// push, or take leave after the last. A command that failed ends the
/// machine with what the plan says to report.
pub open spec fn after_sync(
    settings: SettingsView,
    request: RequestView,
    next: usize,
    change: Change,
    event: EventView,
) -> (PhaseView, TurnView) {
    let plan = commit_plan(settings, commit_message(settings, request, change));
    if next >= plan.len() || next == usize::MAX {
        stray()
    } else {
        match event {
            EventView::Done => if next + 1 < plan.len() {
                (
                    PhaseView::Sync { next: (next + 1) as usize, change },
                    TurnView {
                        lines: if next + 1 == 2 {
                            seq![LineView::Out("Pushing changes to remote origin..."@)]
                        } else {
                            Seq::empty()
                        },
                        action: ActionView::Run(plan[next + 1]),
                    },
                )
            } else {
                ending(closing_lines(request, change))
            },
            EventView::Failed(reason) => giving_up(
                ErrorKind::SyncError,
                Seq::empty(),
                blamed(plan[next as int].error_message, reason),
            ),
            _ => stray(),
        }
    }
}

/// Once the record is read: print its URL, if the text is a record and the
/// URL is one.
pub open spec fn after_read(settings: SettingsView, request: RequestView, event: EventView) -> (
    PhaseView,
    TurnView,
) {
    match event {
        EventView::Text(text) => match parsed_record(text) {
            Ok(record) => if valid_url(record.url) {
                ending(seq![LineView::Out(record.url)])
            } else {
                giving_up(ErrorKind::InvalidUrl, Seq::empty(), invalid_url_message())
            },
            Err(_) => giving_up(
                ErrorKind::CorruptRecord,
                Seq::empty(),
                "Failed to parse TOML content"@,
            ),
        },
        EventView::Missing => giving_up(
            ErrorKind::NotFound,
            Seq::empty(),
            not_found_message(target(settings, request).text()),
        ),
        EventView::Failed(reason) => giving_up(
            ErrorKind::FsError,
            Seq::empty(),
            blamed("Failed to read TOML"@, reason),
        ),
        _ => stray(),
    }
}

/// The file of the store that `file` names.
pub open spec fn in_store(settings: SettingsView, file: Seq<Seq<char>>) -> PhysicalPathView {
    PhysicalPathView { root: settings.root, segments: file }
}

/// The listing of `files`: read the first, or, where there is none, say
/// that nothing was found.
pub open spec fn listing(
    settings: SettingsView,
    request: RequestView,
    files: Seq<Seq<Seq<char>>>,
) -> (PhaseView, TurnView) {
    if files.len() == 0 {
        (
            PhaseView::Finished,
            TurnView {
                lines: seq![
                    LineView::Warn("No .toml files found in "@ + folder(settings, request).text()),
                    LineView::Warn("No bookmarks found."@),
                ],
                action: ActionView::Exit(0),
            },
        )
    } else {
        (
            PhaseView::ReadEach { files, index: 0 },
            TurnView {
                lines: Seq::empty(),
                action: ActionView::Read(in_store(settings, files[0])),
            },
        )
    }
}

/// Once the files are collected: list the record files among them. A
/// directory that cannot be walked lists as empty.
pub open spec fn after_walk(settings: SettingsView, request: RequestView, event: EventView) -> (
    PhaseView,
    TurnView,
) {
    match event {
        EventView::Files(files) => listing(settings, request, record_files(files)),
        EventView::Failed(_) => listing(settings, request, Seq::empty()),
        _ => stray(),
    }
}

/// The name a file is listed under.
pub open spec fn shown_name(file: Seq<Seq<char>>) -> Seq<char> {
    match listed_name(file) {
        Some(name) => name,
        None => join(file, '/'),
    }
}

/// The URL that a listing shows for what came of reading a record.
pub open spec fn shown_url(event: EventView) -> Option<Seq<char>> {
    match event {
        EventView::Text(text) => match parsed_url(text) {
            Some(url) => Some(url),
            None => Some("N/A"@),
        },
        EventView::Missing => Some("N/A"@),
        EventView::Failed(_) => Some("N/A"@),
        _ => None,
    }
}

/// Once a record of a listing is read: print its line, and read the next or
/// take leave.
pub open spec fn after_read_each(
    settings: SettingsView,
    request: RequestView,
    files: Seq<Seq<Seq<char>>>,
    index: usize,
    event: EventView,
) -> (PhaseView, TurnView) {
    if index >= files.len() || index == usize::MAX {
        stray()
    } else {
        match (request, shown_url(event)) {
            (RequestView::List { divisor, .. }, Some(url)) => {
                let line = LineView::Out(shown_name(files[index as int]) + divisor + url);
                if index + 1 < files.len() {
                    if confined(files[index + 1]) {
                        (
                            PhaseView::ReadEach { files, index: (index + 1) as usize },
                            TurnView {
                                lines: seq![line],
                                action: ActionView::Read(in_store(settings, files[index + 1])),
                            },
                        )
                    } else {
                        giving_up(ErrorKind::FsError, seq![line], stray_message())
                    }
                } else {
                    ending(seq![line])
                }
            },
            _ => stray(),
        }
    }
}

/// Whether a phase is one that a command on this request goes through.
pub open spec fn suits(request: RequestView, phase: PhaseView) -> bool {
    match phase {
        PhaseView::Probe => request is Add || request is Update || request is Move
            || request is Remove || request is Edit,
        PhaseView::Dirs | PhaseView::Write => request is Add || request is Update,
        PhaseView::Gate => request is Add || request is Move || request is Remove,
        PhaseView::GoalDirs | PhaseView::GoalProbe | PhaseView::Rename => request is Move,
        PhaseView::RemoveFile | PhaseView::ProbeDir | PhaseView::RemoveTree => request is Remove,
        PhaseView::Edit => request is Edit,
        PhaseView::Read => request is Get,
        PhaseView::Walk | PhaseView::ReadEach { .. } => request is List,
        PhaseView::Sweep { .. } => request is Move || request is Remove,
        PhaseView::Sync { .. } => !(request is Get) && !(request is List),
        PhaseView::Finished | PhaseView::Failed(_) => true,
    }
}

/// Whether a machine is fit to go on: its request is fit to be carried
/// out, its phase is one of that request, and the directories that the
/// phase is about are reached by plain names and are not the store root. A
/// machine that a command started is always fit; one put together by hand
/// may not be, and is then refused.
pub open spec fn fit(machine: MachineView) -> bool {
    &&& acceptable(machine.settings, machine.request)
    &&& suits(machine.request, machine.phase)
    &&& match machine.phase {
        PhaseView::Sweep { dir, .. } => dir.segments.len() > 0 && confined(dir.segments),
        PhaseView::ProbeDir | PhaseView::Gate | PhaseView::RemoveTree => machine.request
            is Remove ==> folder(machine.settings, machine.request).segments.len() > 0
            && confined(folder(machine.settings, machine.request).segments),
        _ => true,
    }
}

/// The next turn of a machine that is told what came of its last action.
pub open spec fn stepped(machine: MachineView, event: EventView) -> (PhaseView, TurnView) {
    let settings = machine.settings;
    let request = machine.request;
    if !acceptable(settings, request) {
        giving_up(ErrorKind::InvalidPath, Seq::empty(), invalid_path_message())
    } else if !fit(machine) {
        stray()
    } else {
        stepped_on(machine, event)
    }
}

/// The next turn of a machine that is fit.
pub open spec fn stepped_on(machine: MachineView, event: EventView) -> (PhaseView, TurnView) {
    let settings = machine.settings;
    let request = machine.request;
    match machine.phase {
        PhaseView::Dirs => after_dirs(settings, request, event),
        PhaseView::Probe => after_probe(settings, request, event),
        PhaseView::Gate => after_gate(settings, request, event),
        PhaseView::Write => after_write(settings, request, event),
        PhaseView::GoalDirs => after_goal_dirs(settings, request, event),
        PhaseView::GoalProbe => after_goal_probe(settings, request, event),
        PhaseView::Rename => after_rename(settings, request, event),
        PhaseView::RemoveFile => after_remove_file(settings, request, event),
        PhaseView::ProbeDir => after_probe_dir(settings, request, event),
        PhaseView::RemoveTree => after_remove_tree(settings, request, event),
        PhaseView::Edit => after_edit(settings, request, event),
        PhaseView::Read => after_read(settings, request, event),
        PhaseView::Walk => after_walk(settings, request, event),
        PhaseView::ReadEach { files, index } => after_read_each(
            settings,
            request,
            files,
            index,
            event,
        ),
        PhaseView::Sweep { dir, change } => after_sweep(settings, request, dir, change, event),
        PhaseView::Sync { next, change } => after_sync(settings, request, next, change, event),
        PhaseView::Finished => stray(),
        PhaseView::Failed(_) => stray(),
    }
}

/// A turn without lines.
fn quietly(action: Action) -> (turn: Turn)
    ensures
        turn@ == (TurnView { lines: Seq::empty(), action: action@ }),
{
    Turn { lines: silence(), action }
}

/// The turn that fails the command because the record is missing.
fn miss(at: &PhysicalPath) -> (r: (Phase, Turn))
    ensures
        moved_on(r) == giving_up(ErrorKind::NotFound, Seq::empty(), not_found_message(at@.text())),
{
    let text = at.to_text();
    give_up(
        ErrorKind::NotFound,
        silence(),
        String::from_str("Bookmark not found: ").concat(text.as_str()),
    )
}

/// Two lines for the standard output.
fn saying_both(first: &str, second: &str) -> (lines: Vec<Line>)
    ensures
        lines.deep_view() == seq![LineView::Out(first@), LineView::Out(second@)],
{
    let lines = and_saying(saying(String::from_str(first)), String::from_str(second));
    assert(lines.deep_view() =~= seq![LineView::Out(first@), LineView::Out(second@)]);
    lines
}

/// The first turn of a command.
pub fn begin(settings: &Settings, request: &Request) -> (r: (Phase, Turn))
    ensures
        moved_on(r) == begun(settings@, request@),
{
    if !is_acceptable(settings, request) {
        return give_up(
            ErrorKind::InvalidPath,
            silence(),
            String::from_str("Invalid path. Please avoid spaces and special characters."),
        );
    }
    match request {
        Request::Add { url, .. } | Request::Update { url, .. } => {
            if validate_url(url.as_str()).is_err() {
                return give_up(
                    ErrorKind::InvalidUrl,
                    silence(),
                    String::from_str(
                        "Invalid URL. Please use a proper format (e.g., https://example.com).",
                    ),
                );
            }
            (Phase::Probe, quietly(Action::Probe(target_of(settings, request))))
        },
        Request::Get { .. } => (Phase::Read, quietly(Action::Read(target_of(settings, request)))),
        Request::List { .. } => (Phase::Walk, quietly(Action::Walk(folder_of(settings, request)))),
        _ => (Phase::Probe, quietly(Action::Probe(target_of(settings, request)))),
    }
}

fn on_dirs(settings: &Settings, request: &Request, event: Event) -> (r: (Phase, Turn))
    ensures
        moved_on(r) == after_dirs(settings@, request@, event@),
{
    match event {
        Event::Done => match request {
            Request::Add { url, tags, .. } | Request::Update { url, tags, .. } => store(
                settings,
                request,
                url.as_str(),
                tags,
                silence(),
            ),
            _ => go_astray(),
        },
        Event::Failed(reason) => give_up(
            ErrorKind::FsError,
            silence(),
            blame("Failed to create directory", reason.as_str()),
        ),
        _ => go_astray(),
    }
}

fn on_probe(settings: &Settings, request: &Request, event: Event) -> (r: (Phase, Turn))
    ensures
        moved_on(r) == after_probe(settings@, request@, event@),
{
    let at = target_of(settings, request);
    match event {
        Event::Found(found) => match request {
            Request::Add { url, tags, .. } => if found {
                let text = at.to_text();
                (
                    Phase::Gate,
                    quietly(
                        Action::Ask(
                            between(
                                "Bookmark already exists at ",
                                text.as_str(),
                                ". Overwrite? (y/N): ",
                            ),
                        ),
                    ),
                )
            } else {
                prepare(settings, request, url.as_str(), tags, silence())
            },
            Request::Update { url, tags, .. } => if found {
                prepare(settings, request, url.as_str(), tags, silence())
            } else {
                miss(&at)
            },
            Request::Move { .. } => if found {
                (
                    Phase::GoalDirs,
                    quietly(Action::MakeDirs(goal_of(settings, request).parent())),
                )
            } else {
                miss(&at)
            },
            Request::Edit { .. } => if found {
                (Phase::Edit, quietly(Action::Edit(at)))
            } else {
                let text = at.to_text();
                give_up(
                    ErrorKind::NotFound,
                    silence(),
                    String::from_str("Bookmark file does not exist: ").concat(text.as_str()),
                )
            },
            Request::Remove { .. } => if found {
                (Phase::RemoveFile, quietly(Action::RemoveFile(at)))
            } else {
                let dir = folder_of(settings, request);
                if dir.segments.len() > 0 && is_confined(&dir.segments) {
                    (Phase::ProbeDir, quietly(Action::ProbeDir(dir)))
                } else {
                    miss(&at)
                }
            },
            _ => go_astray(),
        },
        _ => go_astray(),
    }
}

fn on_gate(settings: &Settings, request: &Request, event: Event) -> (r: (Phase, Turn))
    ensures
        moved_on(r) == after_gate(settings@, request@, event@),
{
    match event {
        Event::Line(line) => match request {
            Request::Add { url, tags, .. } => match confirm(line.as_str(), false) {
                Verdict::Accepted => prepare(
                    settings,
                    request,
                    url.as_str(),
                    tags,
                    saying(String::from_str("Overwriting file...")),
                ),
                Verdict::Declined => end(saying(String::from_str("Operation cancelled."))),
                Verdict::Unrecognized => end(
                    saying(String::from_str("Invalid input. Operation cancelled.")),
                ),
            },
            Request::Move { .. } => match confirm(line.as_str(), true) {
                Verdict::Accepted => (
                    Phase::Rename,
                    quietly(
                        Action::Rename(target_of(settings, request), goal_of(settings, request)),
                    ),
                ),
                Verdict::Declined => end(saying(String::from_str("Move operation aborted."))),
                Verdict::Unrecognized => end(
                    saying_both("Invalid input, assuming 'no'.", "Move operation aborted."),
                ),
            },
            Request::Remove { .. } => match confirm(line.as_str(), true) {
                Verdict::Accepted => (
                    Phase::RemoveTree,
                    quietly(Action::RemoveTree(folder_of(settings, request))),
                ),
                Verdict::Declined => end(saying(String::from_str("Operation canceled."))),
                Verdict::Unrecognized => end(
                    saying_both("Invalid input, assuming 'no'.", "Operation canceled."),
                ),
            },
            _ => go_astray(),
        },
        Event::Failed(reason) => give_up(
            ErrorKind::FsError,
            silence(),
            blame("Failed to read input", reason.as_str()),
        ),
        _ => go_astray(),
    }
}

fn on_edit(settings: &Settings, request: &Request, event: Event) -> (r: (Phase, Turn))
    ensures
        moved_on(r) == after_edit(settings@, request@, event@),
{
    match event {
        Event::Edited(changed) => if changed {
            sync(settings, request, Change::Edited, silence())
        } else {
            end(saying(String::from_str("No changes made.")))
        },
        Event::Abandoned => {
            let lines = and_warning(silence(), String::from_str("Failed to edit bookmark file."));
            assert(lines.deep_view() =~= seq![LineView::Warn("Failed to edit bookmark file."@)]);
            (Phase::Finished, Turn { lines, action: Action::Exit(0) })
        },
        Event::Failed(reason) => give_up(
            ErrorKind::FsError,
            silence(),
            blame("Failed to open editor", reason.as_str()),
        ),
        _ => go_astray(),
    }
}

fn on_write(settings: &Settings, request: &Request, event: Event) -> (r: (Phase, Turn))
    ensures
        moved_on(r) == after_write(settings@, request@, event@),
{
    match event {
        Event::Done => {
            let text = target_of(settings, request).to_text();
            sync(
                settings,
                request,
                Change::Stored,
                saying(String::from_str("Bookmark file stored at ").concat(text.as_str())),
            )
        },
        Event::Failed(reason) => give_up(
            ErrorKind::WriteError,
            silence(),
            blame("Failed to write bookmark file", reason.as_str()),
        ),
        _ => go_astray(),
    }
}

fn on_goal_dirs(settings: &Settings, request: &Request, event: Event) -> (r: (Phase, Turn))
    ensures
        moved_on(r) == after_goal_dirs(settings@, request@, event@),
{
    match event {
        Event::Done => (Phase::GoalProbe, quietly(Action::Probe(goal_of(settings, request)))),
        Event::Failed(reason) => give_up(
            ErrorKind::FsError,
            silence(),
            blame("Failed to create destination directory", reason.as_str()),
        ),
        _ => go_astray(),
    }
}

fn on_goal_probe(settings: &Settings, request: &Request, event: Event) -> (r: (Phase, Turn))
    ensures
        moved_on(r) == after_goal_probe(settings@, request@, event@),
{
    match event {
        Event::Found(found) => if found {
            let text = goal_of(settings, request).to_text();
            (
                Phase::Gate,
                quietly(
                    Action::Ask(
                        between(
                            "A bookmark already exists at ",
                            text.as_str(),
                            ". Overwrite? [Y/n]: ",
                        ),
                    ),
                ),
            )
        } else {
            (
                Phase::Rename,
                quietly(Action::Rename(target_of(settings, request), goal_of(settings, request))),
            )
        },
        _ => go_astray(),
    }
}

fn on_rename(settings: &Settings, request: &Request, event: Event) -> (r: (Phase, Turn))
    ensures
        moved_on(r) == after_rename(settings@, request@, event@),
{
    match event {
        Event::Done => {
            let dir = target_of(settings, request).parent();
            sweep(settings, request, Change::Moved, cleanup_empty_parents(&dir), silence())
        },
        Event::Failed(reason) => give_up(
            ErrorKind::FsError,
            silence(),
            blame("Failed to move bookmark file", reason.as_str()),
        ),
        _ => go_astray(),
    }
}

fn on_remove_file(settings: &Settings, request: &Request, event: Event) -> (r: (Phase, Turn))
    ensures
        moved_on(r) == after_remove_file(settings@, request@, event@),
{
    match event {
        Event::Done => {
            let dir = target_of(settings, request).parent();
            let line = String::from_str("Bookmark removed successfully as ").concat(
                path_of(request),
            );
            sweep(
                settings,
                request,
                Change::RemovedRecord,
                cleanup_empty_parents(&dir),
                saying(line),
            )
        },
        Event::Failed(reason) => give_up(
            ErrorKind::FsError,
            silence(),
            blame("Failed to remove file", reason.as_str()),
        ),
        _ => go_astray(),
    }
}

fn on_probe_dir(settings: &Settings, request: &Request, event: Event) -> (r: (Phase, Turn))
    ensures
        moved_on(r) == after_probe_dir(settings@, request@, event@),
{
    match event {
        Event::Found(found) => if found {
            (
                Phase::Gate,
                quietly(
                    Action::Ask(
                        between(
                            "Bookmark not found as a file, but '",
                            path_of(request),
                            "' is a directory. Do you want to delete it and all its bookmarks? [Y/n] ",
                        ),
                    ),
                ),
            )
        } else {
            miss(&target_of(settings, request))
        },
        _ => go_astray(),
    }
}

fn on_remove_tree(settings: &Settings, request: &Request, event: Event) -> (r: (Phase, Turn))
    ensures
        moved_on(r) == after_remove_tree(settings@, request@, event@),
{
    match event {
        Event::Done => {
            let dir = folder_of(settings, request).parent();
            sweep(
                settings,
                request,
                Change::RemovedDirectory,
                cleanup_empty_parents(&dir),
                silence(),
            )
        },
        Event::Failed(reason) => give_up(
            ErrorKind::FsError,
            silence(),
            blame("Failed to remove directory", reason.as_str()),
        ),
        _ => go_astray(),
    }
}

fn on_sweep(
    settings: &Settings,
    request: &Request,
    dir: &PhysicalPath,
    change: Change,
    event: Event,
) -> (r: (Phase, Turn))
    ensures
        moved_on(r) == after_sweep(settings@, request@, dir@, change, event@),
{
    match event {
        Event::Failed(reason) => give_up(
            ErrorKind::FsError,
            silence(),
            blame("Failed to clean up empty directories", reason.as_str()),
        ),
        Event::Done => sweep(
            settings,
            request,
            change,
            cleanup_next(dir, Removal::Removed),
            silence(),
        ),
        Event::Missing => sweep(
            settings,
            request,
            change,
            cleanup_next(dir, Removal::AlreadyGone),
            silence(),
        ),
        Event::NotEmpty => sweep(
            settings,
            request,
            change,
            cleanup_next(dir, Removal::NotEmpty),
            silence(),
        ),
        _ => go_astray(),
    }
}

fn on_sync(settings: &Settings, request: &Request, next: usize, change: Change, event: Event) -> (r:
    (Phase, Turn))
    ensures
        moved_on(r) == after_sync(settings@, request@, next, change, event@),
{
    let message = commit_message_of(settings, request, change);
    let plan = git_commit(settings, message.as_str());
    if next >= plan.len() || next == usize::MAX {
        return go_astray();
    }
    assert(plan.deep_view()[next as int] == plan@[next as int]@);
    match event {
        Event::Done => if next + 1 < plan.len() {
            assert(plan.deep_view()[next + 1] == plan@[next + 1]@);
            let lines = if next + 1 == 2 {
                saying(String::from_str("Pushing changes to remote origin..."))
            } else {
                silence()
            };
            (
                Phase::Sync { next: next + 1, change },
                Turn { lines, action: Action::Run(plan[next + 1].duplicate()) },
            )
        } else {
            let lines = closing(silence(), request, change);
            assert(lines.deep_view() =~= closing_lines(request@, change));
            end(lines)
        },
        Event::Failed(reason) => give_up(
            ErrorKind::SyncError,
            silence(),
            blame(plan[next].error_message.as_str(), reason.as_str()),
        ),
        _ => go_astray(),
    }
}

fn on_read(settings: &Settings, request: &Request, event: Event) -> (r: (Phase, Turn))
    ensures
        moved_on(r) == after_read(settings@, request@, event@),
{
    match event {
        Event::Text(text) => match load_bookmark(text.as_str()) {
            Ok(record) => if validate_url(record.url.as_str()).is_ok() {
                end(saying(record.url))
            } else {
                give_up(
                    ErrorKind::InvalidUrl,
                    silence(),
                    String::from_str(
                        "Invalid URL. Please use a proper format (e.g., https://example.com).",
                    ),
                )
            },
            Err(_) => give_up(
                ErrorKind::CorruptRecord,
                silence(),
                String::from_str("Failed to parse TOML content"),
            ),
        },
        Event::Missing => miss(&target_of(settings, request)),
        Event::Failed(reason) => give_up(
            ErrorKind::FsError,
            silence(),
            blame("Failed to read TOML", reason.as_str()),
        ),
        _ => go_astray(),
    }
}

/// The file of the store that `file` names.
fn in_store_of(settings: &Settings, file: &Vec<String>) -> (r: PhysicalPath)
    ensures
        r@ == in_store(settings@, file.deep_view()),
{
    PhysicalPath { root: settings.root.clone(), segments: copy_strings(file) }
}

fn list(settings: &Settings, request: &Request, files: Vec<Vec<String>>) -> (r: (Phase, Turn))
    ensures
        moved_on(r) == listing(settings@, request@, files.deep_view()),
{
    if files.len() == 0 {
        let text = folder_of(settings, request).to_text();
        let lines = and_warning(
            and_warning(
                silence(),
                String::from_str("No .toml files found in ").concat(text.as_str()),
            ),
            String::from_str("No bookmarks found."),
        );
        assert(lines.deep_view() =~= seq![
            LineView::Warn("No .toml files found in "@ + folder(settings@, request@).text()),
            LineView::Warn("No bookmarks found."@),
        ]);
        (Phase::Finished, Turn { lines, action: Action::Exit(0) })
    } else {
        assert(files.deep_view()[0] == files@[0].deep_view());
        let first = in_store_of(settings, &files[0]);
        (Phase::ReadEach { files, index: 0 }, quietly(Action::Read(first)))
    }
}

fn on_walk(settings: &Settings, request: &Request, event: Event) -> (r: (Phase, Turn))
    ensures
        moved_on(r) == after_walk(settings@, request@, event@),
{
    match event {
        Event::Files(files) => list(settings, request, get_toml_bookmark_files(&files)),
        Event::Failed(_) => {
            let none: Vec<Vec<String>> = Vec::new();
            assert(none.deep_view() =~= Seq::<Seq<Seq<char>>>::empty());
            list(settings, request, none)
        },
        _ => go_astray(),
    }
}

/// The URL that a listing shows for what came of reading a record.
fn url_shown(event: Event) -> (r: Option<String>)
    ensures
        r.deep_view() == shown_url(event@),
{
    match event {
        Event::Text(text) => match extract_url_from_toml(text.as_str()) {
            Some(url) => Some(url),
            None => Some(String::from_str("N/A")),
        },
        Event::Missing => Some(String::from_str("N/A")),
        Event::Failed(_) => Some(String::from_str("N/A")),
        _ => None,
    }
}

fn on_read_each(
    settings: &Settings,
    request: &Request,
    files: Vec<Vec<String>>,
    index: usize,
    event: Event,
) -> (r: (Phase, Turn))
    ensures
        moved_on(r) == after_read_each(settings@, request@, files.deep_view(), index, event@),
{
    if index >= files.len() || index == usize::MAX {
        return go_astray();
    }
    assert(files.deep_view()[index as int] == files@[index as int].deep_view());
    match (request, url_shown(event)) {
        (Request::List { divisor, .. }, Some(url)) => {
            let name = match name_of(&files[index]) {
                Some(name) => name,
                None => join_slashed(&files[index]),
            };
            let line = between(name.as_str(), divisor.as_str(), url.as_str());
            if index + 1 < files.len() {
                assert(files.deep_view()[index + 1] == files@[index + 1].deep_view());
                if is_confined(&files[index + 1]) {
                    let following = in_store_of(settings, &files[index + 1]);
                    (
                        Phase::ReadEach { files, index: index + 1 },
                        Turn { lines: saying(line), action: Action::Read(following) },
                    )
                } else {
                    give_up(ErrorKind::FsError, saying(line), String::from_str("Unexpected reply"))
                }
            } else {
                end(saying(line))
            }
        },
        _ => go_astray(),
    }
}

impl Machine {
    /// Whether this machine is fit to go on.
    pub fn is_fit(&self) -> (r: bool)
        ensures
            r == fit(self@),
    {
        if !is_acceptable(&self.settings, &self.request) {
            return false;
        }
        let suited = match &self.phase {
            Phase::Probe => match &self.request {
                Request::Get { .. } | Request::List { .. } => false,
                _ => true,
            },
            Phase::Dirs | Phase::Write => match &self.request {
                Request::Add { .. } | Request::Update { .. } => true,
                _ => false,
            },
            Phase::Gate => match &self.request {
                Request::Add { .. } | Request::Move { .. } | Request::Remove { .. } => true,
                _ => false,
            },
            Phase::GoalDirs | Phase::GoalProbe | Phase::Rename => match &self.request {
                Request::Move { .. } => true,
                _ => false,
            },
            Phase::RemoveFile | Phase::ProbeDir | Phase::RemoveTree => match &self.request {
                Request::Remove { .. } => true,
                _ => false,
            },
            Phase::Edit => match &self.request {
                Request::Edit { .. } => true,
                _ => false,
            },
            Phase::Read => match &self.request {
                Request::Get { .. } => true,
                _ => false,
            },
            Phase::Walk | Phase::ReadEach { .. } => match &self.request {
                Request::List { .. } => true,
                _ => false,
            },
            Phase::Sweep { .. } => match &self.request {
                Request::Move { .. } | Request::Remove { .. } => true,
                _ => false,
            },
            Phase::Sync { .. } => match &self.request {
                Request::Get { .. } | Request::List { .. } => false,
                _ => true,
            },
            Phase::Finished | Phase::Failed(_) => true,
        };
        if !suited {
            return false;
        }
        match &self.phase {
            Phase::Sweep { dir, .. } => dir.segments.len() > 0 && is_confined(&dir.segments),
            Phase::ProbeDir | Phase::Gate | Phase::RemoveTree => match &self.request {
                Request::Remove { .. } => {
                    let dir = folder_of(&self.settings, &self.request);
                    dir.segments.len() > 0 && is_confined(&dir.segments)
                },
                _ => true,
            },
            _ => true,
        }
    }

    /// Starts a command: the machine, and its first turn.
    pub fn start(settings: Settings, request: Request) -> (r: (Machine, Turn))
        ensures
            r.0@.settings == settings@,
            r.0@.request == request@,
            (r.0@.phase, r.1@) == begun(settings@, request@),
    {
        let (phase, turn) = begin(&settings, &request);
        (Machine { settings, request, phase }, turn)
    }

    /// Tells the machine what came of the action of its last turn, and
    /// gets its next turn. The command is over once a turn asks to exit.
    pub fn step(self, event: Event) -> (r: (Machine, Turn))
        ensures
            r.0@.settings == self@.settings,
            r.0@.request == self@.request,
            (r.0@.phase, r.1@) == stepped(self@, event@),
    {
        if !is_acceptable(&self.settings, &self.request) {
            let Machine { settings, request, phase: _ } = self;
            let (phase, turn) = give_up(
                ErrorKind::InvalidPath,
                silence(),
                String::from_str("Invalid path. Please avoid spaces and special characters."),
            );
            return (Machine { settings, request, phase }, turn);
        }
        if !self.is_fit() {
            let Machine { settings, request, phase: _ } = self;
            let (phase, turn) = go_astray();
            return (Machine { settings, request, phase }, turn);
        }
        let Machine { settings, request, phase } = self;
        let (phase, turn) = match phase {
            Phase::Dirs => on_dirs(&settings, &request, event),
            Phase::Probe => on_probe(&settings, &request, event),
            Phase::Gate => on_gate(&settings, &request, event),
            Phase::Write => on_write(&settings, &request, event),
            Phase::GoalDirs => on_goal_dirs(&settings, &request, event),
            Phase::GoalProbe => on_goal_probe(&settings, &request, event),
            Phase::Rename => on_rename(&settings, &request, event),
            Phase::RemoveFile => on_remove_file(&settings, &request, event),
            Phase::ProbeDir => on_probe_dir(&settings, &request, event),
            Phase::RemoveTree => on_remove_tree(&settings, &request, event),
            Phase::Edit => on_edit(&settings, &request, event),
            Phase::Read => on_read(&settings, &request, event),
            Phase::Walk => on_walk(&settings, &request, event),
            Phase::ReadEach { files, index } => on_read_each(
                &settings,
                &request,
                files,
                index,
                event,
            ),
            Phase::Sweep { dir, change } => on_sweep(&settings, &request, &dir, change, event),
            Phase::Sync { next, change } => on_sync(&settings, &request, next, change, event),
            Phase::Finished => go_astray(),
            Phase::Failed(_) => go_astray(),
        };
        (Machine { settings, request, phase }, turn)
    }
}

/// How a command line starts out.
#[derive(Debug)]
pub enum Launch {
    /// As a command on the store: the machine, and its first turn.
    Started(Machine, Turn),
    /// As a command on the store that lacks arguments: the turn that says
    /// so and ends the process.
    Refused(Turn),
    /// As something else than a command on the store.
    Unknown,
}

/// What a `Launch` stands for.
pub enum LaunchView {
    Started(MachineView, TurnView),
    Refused(TurnView),
    Unknown,
}

impl View for Launch {
    type V = LaunchView;

    open spec fn view(&self) -> LaunchView {
        match self {
            Launch::Started(machine, turn) => LaunchView::Started(machine@, turn@),
            Launch::Refused(turn) => LaunchView::Refused(turn@),
            Launch::Unknown => LaunchView::Unknown,
        }
    }
}

/// How the words of a command line start out: a command on the store
/// starts its machine, one that lacks arguments is refused with the usage
/// line and status 1.
pub open spec fn launched(settings: SettingsView, words: Seq<Seq<char>>) -> LaunchView {
    match parsed(words) {
        ParsedView::Command(request) => LaunchView::Started(
            MachineView { settings, request, phase: begun(settings, request).0 },
            begun(settings, request).1,
        ),
        ParsedView::Usage(text) => LaunchView::Refused(
            TurnView { lines: seq![LineView::Warn(text)], action: ActionView::Exit(1) },
        ),
        ParsedView::Other => LaunchView::Unknown,
    }
}

/// Starts the command that a command line asks for.
pub fn run(settings: Settings, args: &Vec<String>) -> (r: Launch)
    ensures
        r@ == launched(settings@, args.deep_view()),
{
    match parse_request(args) {
        Parsed::Command(request) => {
            let (machine, turn) = Machine::start(settings, request);
            Launch::Started(machine, turn)
        },
        Parsed::Usage(text) => {
            let lines = and_warning(silence(), text);
            assert(lines.deep_view() =~= seq![LineView::Warn(text@)]);
            Launch::Refused(Turn { lines, action: Action::Exit(1) })
        },
        Parsed::Other => Launch::Unknown,
    }
}

/// Whether an empty line counts as a yes for the question that a request
/// asks: it does for all but the overwriting of `add`.
pub open spec fn default_on_empty(request: RequestView) -> bool {
    !(request is Add)
}

/// A request that is not fit to be carried out, or that is to store a URL
/// that is not valid, is refused before anything is asked of the store:
/// the first turn ends the command with status 1. A request whose path is
/// not valid is never fit.
pub proof fn law_unfit_request_is_refused(settings: SettingsView, request: RequestView)
    ensures
        !acceptable(settings, request) ==> begun(settings, request).0 == PhaseView::Failed(
            ErrorKind::InvalidPath,
        ) && begun(settings, request).1.action == ActionView::Exit(1),
        !(request is List) && !valid_path(request.path()) ==> !acceptable(settings, request),
        acceptable(settings, request) && url_to_store(request) is Some && !valid_url(
            url_to_store(request).unwrap(),
        ) ==> begun(settings, request).0 == PhaseView::Failed(ErrorKind::InvalidUrl) && begun(
            settings,
            request,
        ).1.action == ActionView::Exit(1),
{
}

/// A command stays inside the store: the files that a request that is fit
/// to be carried out works on are reached from the store root by plain
/// names only, none of them empty, `.` or `..`.
pub proof fn law_requests_stay_inside(settings: SettingsView, request: RequestView)
    requires
        acceptable(settings, request),
        !(request is List),
    ensures
        confined(target(settings, request).segments),
        confined(goal(settings, request).segments),
{
    lemma_resolved_is_confined(settings.root, request.path());
    lemma_resolved_is_confined(settings.root, request.goal_path());
}

/// A refusal is honoured: a machine that asked before overwriting or
/// deleting, and is not told yes, ends the command at once with status 0.
/// Its turn holds no action on the store, so that what was there stays as
/// it was.
pub proof fn law_declined_changes_nothing(machine: MachineView, line: Seq<char>)
    requires
        fit(machine),
        machine.phase is Gate,
        machine.request is Add || machine.request is Move || machine.request is Remove,
        verdict_of(line, default_on_empty(machine.request)) != Verdict::Accepted,
    ensures
        stepped(machine, EventView::Line(line)).0 is Finished,
        stepped(machine, EventView::Line(line)).1.action == ActionView::Exit(0),
{
}

/// A failure ends the command: a machine that is told that its action
/// failed, anywhere but in a listing, ends with status 1 at once. Its turn
/// holds no further action, so that nothing more is changed and nothing is
/// committed.
pub proof fn law_failure_ends_command(machine: MachineView, reason: Seq<char>)
    requires
        !(machine.phase is Walk),
        !(machine.phase is ReadEach),
    ensures
        stepped(machine, EventView::Failed(reason)).0 is Failed,
        stepped(machine, EventView::Failed(reason)).1.action == ActionView::Exit(1),
{
}

/// A command looks before it changes anything: its first turn never holds
/// an action that changes the store, the making of directories included.
pub proof fn law_first_turn_changes_nothing(settings: SettingsView, request: RequestView)
    ensures
        !begun(settings, request).1.action.changes_store(),
{
}

/// The sweep of a command follows the answers it gets: where a directory
/// was removed or was gone already, the machine goes on as the sweep from
/// the directory above says; where the directory holds something, it goes
/// on to commit.
pub proof fn law_sweep_follows_answers(
    machine: MachineView,
    dir: PhysicalPathView,
    change: Change,
)
    requires
        fit(machine),
        machine.phase == (PhaseView::Sweep { dir, change }),
    ensures
        stepped(machine, EventView::Done) == sweeping(
            machine.settings,
            machine.request,
            change,
            sweep_from(dir.parent()),
            Seq::empty(),
        ),
        stepped(machine, EventView::Missing) == stepped(machine, EventView::Done),
        stepped(machine, EventView::NotEmpty) == syncing(
            machine.settings,
            machine.request,
            change,
            Seq::empty(),
        ),
{
}

/// Whether an action names only locations that are reached from the store
/// root by plain names.
pub open spec fn inside(action: ActionView) -> bool {
    match action {
        ActionView::MakeDirs(at) | ActionView::Probe(at) | ActionView::ProbeDir(at)
        | ActionView::Read(at) | ActionView::RemoveFile(at) | ActionView::RemoveDir(at)
        | ActionView::RemoveTree(at) | ActionView::Walk(at) | ActionView::Edit(at) => confined(
            at.segments,
        ),
        ActionView::Write(at, _) => confined(at.segments),
        ActionView::Rename(from, to) => confined(from.segments) && confined(to.segments),
        _ => true,
    }
}

/// Whether an action leaves the store root in place.
pub open spec fn spares_root(action: ActionView) -> bool {
    match action {
        ActionView::RemoveDir(at) | ActionView::RemoveTree(at) | ActionView::RemoveFile(at) =>
            at.segments.len() > 0,
        ActionView::Rename(from, _) => from.segments.len() > 0,
        _ => true,
    }
}

/// A machine never leaves the store and never removes its root. Whatever
/// machine is stepped, one put together by hand included, and whatever it
/// is told: the action of its next turn names only locations that are
/// reached from the store root by plain names, none of them empty, `.` or
/// `..`, and is no removal of the root. The same holds of the first turn
/// of every command, and a machine that is fit stays so.
pub proof fn law_machine_stays_inside(machine: MachineView, event: EventView)
    ensures
        inside(stepped(machine, event).1.action),
        spares_root(stepped(machine, event).1.action),
        inside(begun(machine.settings, machine.request).1.action),
        spares_root(begun(machine.settings, machine.request).1.action),
        fit(machine) ==> fit(MachineView { phase: stepped(machine, event).0, ..machine }),
        fit(
            MachineView { phase: begun(machine.settings, machine.request).0, ..machine },
        ) || begun(machine.settings, machine.request).1.action is Exit,
{
    let settings = machine.settings;
    let request = machine.request;
    if acceptable(settings, request) {
        let at = target(settings, request);
        let to = goal(settings, request);
        let dir = folder(settings, request);
        if !(request is List) {
            lemma_resolved_is_confined(settings.root, request.path());
            lemma_resolved_is_confined(settings.root, request.goal_path());
            lemma_parent_is_confined(at.segments);
            lemma_parent_is_confined(to.segments);
            assert(at.parent().segments == at.segments.drop_last());
            assert(to.parent().segments == to.segments.drop_last());
        }
        if fit(machine) {
            match machine.phase {
                PhaseView::Sweep { dir, .. } => {
                    lemma_parent_is_confined(dir.segments);
                },
                PhaseView::RemoveTree => {
                    if request is Remove {
                        lemma_parent_is_confined(dir.segments);
                    }
                },
                PhaseView::Walk => {
                    match event {
                        EventView::Files(files) => {
                            lemma_record_files_are_confined(files);
                        },
                        _ => {},
                    }
                },
                _ => {},
            }
        }
    }
}

} // verus!
