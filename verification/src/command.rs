//! The commands on the store, each as a machine.
//!
//! A mutating command runs in a line: check the path and the URL, look at
//! what is there and ask before overwriting, change the store, sweep up
//! directories left empty, commit, report. Nothing is asked of the store
//! that changes it before the request is found valid and the record it
//! needs is found. A failure on the way ends the command with status 1 and
//! nothing is committed; a user who declines ends it with status 0 and
//! nothing is changed.
//!
//! This file holds the state of the machine and what the commands have in
//! common: the locations a request is about, the texts that are shown, and
//! the tail of every command that changes the store.

use vstd::prelude::*;
use vstd::string::*;
use crate::error::ErrorKind;
use crate::machine::{
    and_saying, farewell, refusal, refuse, silence, take_leave, Action, ActionView, Line,
    LineView, Turn, TurnView,
};
use crate::path::{
    confined, destination, directory_segments, locate, locate_directory,
    is_confined, move_destination, resolved, valid_path, validate_path, PhysicalPath,
    PhysicalPathView,
};
use crate::record::{record_text, store_bookmark};
use crate::request::{Request, RequestView};
use crate::settings::{Settings, SettingsView};
use crate::sweep::{SweepStep, SweepStepView};
use crate::sync::{commit_plan, git_commit};
use crate::text::between;
use crate::url::{valid_url, validate_url};

verus! {

/// What a command did to the store.
#[derive(Clone, Copy, Debug, PartialEq, Eq, Structural)]
pub enum Change {
    /// It wrote a record.
    Stored,
    /// It renamed a record.
    Moved,
    /// It deleted a record.
    RemovedRecord,
    /// It deleted a directory with all it held.
    RemovedDirectory,
    /// The user changed a record in the editor.
    Edited,
}

/// Where a command stands: the action it is waiting on.
#[derive(Debug)]
pub enum Phase {
    /// The directories of the record that is about to be written are being
    /// created.
    Dirs,
    /// The record is being probed for.
    Probe,
    /// The user is being asked whether to overwrite or delete.
    Gate,
    /// The record is being written.
    Write,
    /// The directories of a move's destination are being created.
    GoalDirs,
    /// The destination of a move is being probed for.
    GoalProbe,
    /// The record is being renamed.
    Rename,
    /// The record is being deleted.
    RemoveFile,
    /// The path is being probed for as a directory.
    ProbeDir,
    /// The directory is being deleted with all it holds.
    RemoveTree,
    /// The record is open in the editor.
    Edit,
    /// The record is being read.
    Read,
    /// The files below a directory are being collected.
    Walk,
    /// The record file number `index` of `files` is being read for its URL.
    ReadEach { files: Vec<Vec<String>>, index: usize },
    /// The directory `dir` is being removed if empty.
    Sweep { dir: PhysicalPath, change: Change },
    /// The git command number `next` of the plan is running.
    Sync { next: usize, change: Change },
    /// The command is over, and did not fail.
    Finished,
    /// The command is over, and failed in this way.
    Failed(ErrorKind),
}

/// What a `Phase` stands for.
pub enum PhaseView {
    Dirs,
    Probe,
    Gate,
    Write,
    GoalDirs,
    GoalProbe,
    Rename,
    RemoveFile,
    ProbeDir,
    RemoveTree,
    Edit,
    Read,
    Walk,
    ReadEach { files: Seq<Seq<Seq<char>>>, index: usize },
    Sweep { dir: PhysicalPathView, change: Change },
    Sync { next: usize, change: Change },
    Finished,
    Failed(ErrorKind),
}

impl View for Phase {
    type V = PhaseView;

    open spec fn view(&self) -> PhaseView {
        match self {
            Phase::Dirs => PhaseView::Dirs,
            Phase::Probe => PhaseView::Probe,
            Phase::Gate => PhaseView::Gate,
            Phase::Write => PhaseView::Write,
            Phase::GoalDirs => PhaseView::GoalDirs,
            Phase::GoalProbe => PhaseView::GoalProbe,
            Phase::Rename => PhaseView::Rename,
            Phase::RemoveFile => PhaseView::RemoveFile,
            Phase::ProbeDir => PhaseView::ProbeDir,
            Phase::RemoveTree => PhaseView::RemoveTree,
            Phase::Edit => PhaseView::Edit,
            Phase::Read => PhaseView::Read,
            Phase::Walk => PhaseView::Walk,
            Phase::ReadEach { files, index } => PhaseView::ReadEach {
                files: files.deep_view(),
                index: *index,
            },
            Phase::Sweep { dir, change } => PhaseView::Sweep { dir: dir@, change: *change },
            Phase::Sync { next, change } => PhaseView::Sync { next: *next, change: *change },
            Phase::Finished => PhaseView::Finished,
            Phase::Failed(kind) => PhaseView::Failed(*kind),
        }
    }
}

/// A command in progress.
#[derive(Debug)]
pub struct Machine {
    pub settings: Settings,
    pub request: Request,
    pub phase: Phase,
}

/// What a `Machine` stands for.
pub struct MachineView {
    pub settings: SettingsView,
    pub request: RequestView,
    pub phase: PhaseView,
}

impl View for Machine {
    type V = MachineView;

    open spec fn view(&self) -> MachineView {
        MachineView { settings: self.settings@, request: self.request@, phase: self.phase@ }
    }
}

/// The view of a phase and a turn.
pub open spec fn moved_on(r: (Phase, Turn)) -> (PhaseView, TurnView) {
    (r.0@, r.1@)
}

impl RequestView {
    /// The logical path the request is about; for a move, the one it moves
    /// from; for a listing of the whole store, the empty path.
    pub open spec fn path(self) -> Seq<char> {
        match self {
            RequestView::Add { path, .. } => path,
            RequestView::Update { path, .. } => path,
            RequestView::Move { from, .. } => from,
            RequestView::Remove { path } => path,
            RequestView::Get { path } => path,
            RequestView::Edit { path } => path,
            RequestView::List { subpath, .. } => match subpath {
                Some(path) => path,
                None => Seq::empty(),
            },
        }
    }

    /// The logical path a request leaves its record under.
    pub open spec fn goal_path(self) -> Seq<char> {
        match self {
            RequestView::Move { from, to } => destination(from, to),
            _ => self.path(),
        }
    }
}

/// The URL that a request is to store, if it is to store one.
pub open spec fn url_to_store(request: RequestView) -> Option<Seq<char>> {
    match request {
        RequestView::Add { url, .. } => Some(url),
        RequestView::Update { url, .. } => Some(url),
        _ => None,
    }
}

/// The file of the record that a request is about.
pub open spec fn target(settings: SettingsView, request: RequestView) -> PhysicalPathView {
    resolved(settings.root, request.path())
}

/// The file that a request leaves its record in.
pub open spec fn goal(settings: SettingsView, request: RequestView) -> PhysicalPathView {
    resolved(settings.root, request.goal_path())
}

/// The directory that the path of a request names.
pub open spec fn folder(settings: SettingsView, request: RequestView) -> PhysicalPathView {
    PhysicalPathView { root: settings.root, segments: directory_segments(request.path()) }
}

/// Whether a request is fit to be carried out: its paths are valid, and the
/// directories they name are plain names, so that nothing outside the store
/// is reached.
pub open spec fn acceptable(settings: SettingsView, request: RequestView) -> bool {
    match request {
        RequestView::List { subpath, .. } => match subpath {
            Some(path) => valid_path(path) && confined(folder(settings, request).segments),
            None => true,
        },
        RequestView::Move { from, to } => valid_path(from) && valid_path(to) && confined(
            target(settings, request).parent().segments,
        ) && confined(goal(settings, request).parent().segments),
        _ => valid_path(request.path()) && confined(target(settings, request).parent().segments),
    }
}

pub open spec fn invalid_path_message() -> Seq<char> {
    "Invalid path. Please avoid spaces and special characters."@
}

pub open spec fn invalid_url_message() -> Seq<char> {
    "Invalid URL. Please use a proper format (e.g., https://example.com)."@
}

pub open spec fn not_found_message(at: Seq<char>) -> Seq<char> {
    "Bookmark not found: "@ + at
}

pub open spec fn stray_message() -> Seq<char> {
    "Unexpected reply"@
}

/// The message under which a change is committed.
pub open spec fn commit_message(settings: SettingsView, request: RequestView, change: Change)
    -> Seq<char> {
    match request {
        RequestView::Edit { .. } => "Edit bookmark "@ + target(settings, request).text(),
        RequestView::Add { path, .. } => "Add bookmark "@ + path,
        RequestView::Update { path, .. } => "Update bookmark "@ + path,
        RequestView::Move { from, to } => "Move bookmark from "@ + from + " to "@ + to,
        RequestView::Remove { path } => if change == Change::RemovedDirectory {
            "Removed directory "@ + path + " and all bookmarks"@
        } else {
            "Remove bookmark "@ + path
        },
        _ => Seq::empty(),
    }
}

/// The lines with which a command that changed the store takes its leave.
pub open spec fn closing_lines(request: RequestView, change: Change) -> Seq<LineView> {
    match request {
        RequestView::Add { path, .. } => seq![
            LineView::Out("Bookmark added successfully as "@ + path),
        ],
        RequestView::Update { path, .. } => seq![
            LineView::Out("Bookmark updated successfully as "@ + path),
        ],
        RequestView::Move { from, to } => seq![
            LineView::Out("Bookmark moved successfully from "@ + from + " to "@ + to),
        ],
        RequestView::Remove { path } => if change == Change::RemovedDirectory {
            seq![LineView::Out("Directory and all bookmarks removed: "@ + path)]
        } else {
            Seq::empty()
        },
        RequestView::Edit { path } => seq![
            LineView::Out("Bookmark edited successfully as "@ + path),
        ],
        _ => Seq::empty(),
    }
}

/// The turn of a machine that was told something it did not ask for.
pub open spec fn stray() -> (PhaseView, TurnView) {
    giving_up(ErrorKind::FsError, Seq::empty(), stray_message())
}

/// The turn of a machine that gives up after `lines` with `message`.
pub open spec fn giving_up(kind: ErrorKind, lines: Seq<LineView>, message: Seq<char>) -> (
    PhaseView,
    TurnView,
) {
    (PhaseView::Failed(kind), refusal(lines, message))
}

/// The turn of a machine that ends well after `lines`.
pub open spec fn ending(lines: Seq<LineView>) -> (PhaseView, TurnView) {
    (PhaseView::Finished, farewell(lines))
}

/// The last stretch of a command that changed the store: after `lines`, run
/// the first command of the commit plan, or, where there is none, take
/// leave.
pub open spec fn syncing(
    settings: SettingsView,
    request: RequestView,
    change: Change,
    lines: Seq<LineView>,
) -> (PhaseView, TurnView) {
    let plan = commit_plan(settings, commit_message(settings, request, change));
    if plan.len() == 0 {
        ending(lines + closing_lines(request, change))
    } else {
        (PhaseView::Sync { next: 0, change }, TurnView { lines, action: ActionView::Run(plan[0]) })
    }
}

/// The sweep of a command that changed the store, at `step`: ask for the
/// next directory to be removed, or, where the sweep is over, go on to
/// commit.
pub open spec fn sweeping(
    settings: SettingsView,
    request: RequestView,
    change: Change,
    step: SweepStepView,
    lines: Seq<LineView>,
) -> (PhaseView, TurnView) {
    match step {
        SweepStepView::Try(dir) => (
            PhaseView::Sweep { dir, change },
            TurnView { lines, action: ActionView::RemoveDir(dir) },
        ),
        SweepStepView::Clean => syncing(settings, request, change, lines),
        SweepStepView::Failed => giving_up(
            ErrorKind::FsError,
            lines,
            "Failed to clean up empty directories"@,
        ),
    }
}

/// The step of a command that is about to store a record with this URL and
/// these tags: once the URL is found valid and the text can be made, ask
/// for the directories of the record.
pub open spec fn preparing(
    settings: SettingsView,
    request: RequestView,
    url: Seq<char>,
    tags: Seq<Seq<char>>,
    lines: Seq<LineView>,
) -> (PhaseView, TurnView) {
    if !valid_url(url) {
        giving_up(ErrorKind::InvalidUrl, lines, invalid_url_message())
    } else {
        match record_text(url, tags) {
            Ok(_) => (
                PhaseView::Dirs,
                TurnView {
                    lines,
                    action: ActionView::MakeDirs(target(settings, request).parent()),
                },
            ),
            Err(_) => giving_up(ErrorKind::WriteError, lines, "Failed to serialize bookmark"@),
        }
    }
}

/// The step of a command that stores a record with this URL and these
/// tags: check the URL, make the text, and ask for it to be written.
pub open spec fn storing(
    settings: SettingsView,
    request: RequestView,
    url: Seq<char>,
    tags: Seq<Seq<char>>,
    lines: Seq<LineView>,
) -> (PhaseView, TurnView) {
    if !valid_url(url) {
        giving_up(ErrorKind::InvalidUrl, lines, invalid_url_message())
    } else {
        match record_text(url, tags) {
            Ok(text) => (
                PhaseView::Write,
                TurnView { lines, action: ActionView::Write(target(settings, request), text) },
            ),
            Err(_) => giving_up(ErrorKind::WriteError, lines, "Failed to serialize bookmark"@),
        }
    }
}

/// The logical path a request is about.
pub fn path_of(request: &Request) -> (r: &str)
    ensures
        r@ == request@.path(),
{
    match request {
        Request::Add { path, .. } => path.as_str(),
        Request::Update { path, .. } => path.as_str(),
        Request::Move { from, .. } => from.as_str(),
        Request::Remove { path } => path.as_str(),
        Request::Get { path } => path.as_str(),
        Request::Edit { path } => path.as_str(),
        Request::List { subpath, .. } => match subpath {
            Some(path) => path.as_str(),
            None => {
                proof {
                    reveal_strlit("");
                }
                assert(""@ =~= Seq::<char>::empty());
                ""
            },
        },
    }
}

/// The file of the record that a request is about.
pub(crate) fn target_of(settings: &Settings, request: &Request) -> (r: PhysicalPath)
    ensures
        r@ == target(settings@, request@),
{
    locate(settings.root.as_str(), path_of(request))
}

/// The file that a request leaves its record in.
pub(crate) fn goal_of(settings: &Settings, request: &Request) -> (r: PhysicalPath)
    ensures
        r@ == goal(settings@, request@),
{
    match request {
        Request::Move { from, to } => {
            let path = move_destination(from.as_str(), to.as_str());
            locate(settings.root.as_str(), path.as_str())
        },
        _ => target_of(settings, request),
    }
}

/// The directory that the path of a request names.
pub(crate) fn folder_of(settings: &Settings, request: &Request) -> (r: PhysicalPath)
    ensures
        r@ == folder(settings@, request@),
{
    locate_directory(settings.root.as_str(), path_of(request))
}

/// Whether a request is fit to be carried out.
pub fn is_acceptable(settings: &Settings, request: &Request) -> (r: bool)
    ensures
        r == acceptable(settings@, request@),
{
    match request {
        Request::List { subpath, .. } => match subpath {
            Some(path) => validate_path(path.as_str()).is_ok() && is_confined(
                &folder_of(settings, request).segments,
            ),
            None => true,
        },
        Request::Move { from, to } => validate_path(from.as_str()).is_ok() && validate_path(
            to.as_str(),
        ).is_ok() && is_confined(&target_of(settings, request).parent().segments) && is_confined(
            &goal_of(settings, request).parent().segments,
        ),
        _ => validate_path(path_of(request)).is_ok() && is_confined(
            &target_of(settings, request).parent().segments,
        ),
    }
}

/// The message under which a change is committed.
pub fn commit_message_of(settings: &Settings, request: &Request, change: Change) -> (r: String)
    ensures
        r@ == commit_message(settings@, request@, change),
{
    match request {
        Request::Edit { .. } => {
            let text = target_of(settings, request).to_text();
            String::from_str("Edit bookmark ").concat(text.as_str())
        },
        Request::Add { path, .. } => String::from_str("Add bookmark ").concat(path.as_str()),
        Request::Update { path, .. } => String::from_str("Update bookmark ").concat(
            path.as_str(),
        ),
        Request::Move { from, to } => between("Move bookmark from ", from.as_str(), " to ").concat(
            to.as_str(),
        ),
        Request::Remove { path } => match change {
            Change::RemovedDirectory => between(
                "Removed directory ",
                path.as_str(),
                " and all bookmarks",
            ),
            _ => String::from_str("Remove bookmark ").concat(path.as_str()),
        },
        _ => String::new(),
    }
}

/// `lines`, and then the lines with which a command takes its leave.
pub fn closing(lines: Vec<Line>, request: &Request, change: Change) -> (r: Vec<Line>)
    ensures
        r.deep_view() == lines.deep_view() + closing_lines(request@, change),
{
    let ghost before = lines.deep_view();
    let r = match request {
        Request::Add { path, .. } => and_saying(
            lines,
            String::from_str("Bookmark added successfully as ").concat(path.as_str()),
        ),
        Request::Update { path, .. } => and_saying(
            lines,
            String::from_str("Bookmark updated successfully as ").concat(path.as_str()),
        ),
        Request::Move { from, to } => and_saying(
            lines,
            between("Bookmark moved successfully from ", from.as_str(), " to ").concat(
                to.as_str(),
            ),
        ),
        Request::Remove { path } => match change {
            Change::RemovedDirectory => and_saying(
                lines,
                String::from_str("Directory and all bookmarks removed: ").concat(path.as_str()),
            ),
            _ => lines,
        },
        Request::Edit { path } => and_saying(
            lines,
            String::from_str("Bookmark edited successfully as ").concat(path.as_str()),
        ),
        _ => lines,
    };
    assert(r.deep_view() =~= before + closing_lines(request@, change));
    r
}

/// The turn of a machine that was told something it did not ask for.
pub fn go_astray() -> (r: (Phase, Turn))
    ensures
        moved_on(r) == stray(),
{
    give_up(ErrorKind::FsError, silence(), String::from_str("Unexpected reply"))
}

/// The turn of a machine that gives up after `lines` with `message`.
pub fn give_up(kind: ErrorKind, lines: Vec<Line>, message: String) -> (r: (Phase, Turn))
    ensures
        moved_on(r) == giving_up(kind, lines.deep_view(), message@),
{
    (Phase::Failed(kind), refuse(lines, message))
}

/// The turn of a machine that ends well after `lines`.
pub fn end(lines: Vec<Line>) -> (r: (Phase, Turn))
    ensures
        moved_on(r) == ending(lines.deep_view()),
{
    (Phase::Finished, take_leave(lines))
}

/// Goes on to commit a change, after `lines`.
pub(crate) fn sync(settings: &Settings, request: &Request, change: Change, lines: Vec<Line>) -> (r: (
    Phase,
    Turn,
))
    ensures
        moved_on(r) == syncing(settings@, request@, change, lines.deep_view()),
{
    let message = commit_message_of(settings, request, change);
    let plan = git_commit(settings, message.as_str());
    if plan.len() == 0 {
        end(closing(lines, request, change))
    } else {
        assert(plan.deep_view()[0] == plan@[0]@);
        (Phase::Sync { next: 0, change }, Turn { lines, action: Action::Run(plan[0].duplicate()) })
    }
}

/// Goes on with the sweep at `step`, after `lines`.
pub(crate) fn sweep(
    settings: &Settings,
    request: &Request,
    change: Change,
    step: SweepStep,
    lines: Vec<Line>,
) -> (r: (Phase, Turn))
    ensures
        moved_on(r) == sweeping(settings@, request@, change, step@, lines.deep_view()),
{
    match step {
        SweepStep::Try(dir) => {
            let again = dir.duplicate();
            (Phase::Sweep { dir, change }, Turn { lines, action: Action::RemoveDir(again) })
        },
        SweepStep::Clean => sync(settings, request, change, lines),
        SweepStep::Failed => give_up(
            ErrorKind::FsError,
            lines,
            String::from_str("Failed to clean up empty directories"),
        ),
    }
}

/// Goes on to make the directories of a record with this URL and these
/// tags, after `lines`.
pub(crate) fn prepare(
    settings: &Settings,
    request: &Request,
    url: &str,
    tags: &Vec<String>,
    lines: Vec<Line>,
) -> (r: (Phase, Turn))
    ensures
        moved_on(r) == preparing(settings@, request@, url@, tags.deep_view(), lines.deep_view()),
{
    if validate_url(url).is_err() {
        return give_up(
            ErrorKind::InvalidUrl,
            lines,
            String::from_str("Invalid URL. Please use a proper format (e.g., https://example.com)."),
        );
    }
    match store_bookmark(url, tags) {
        Ok(_) => (
            Phase::Dirs,
            Turn { lines, action: Action::MakeDirs(target_of(settings, request).parent()) },
        ),
        Err(_) => give_up(
            ErrorKind::WriteError,
            lines,
            String::from_str("Failed to serialize bookmark"),
        ),
    }
}

/// Goes on to store a record with this URL and these tags, after `lines`.
pub(crate) fn store(
    settings: &Settings,
    request: &Request,
    url: &str,
    tags: &Vec<String>,
    lines: Vec<Line>,
) -> (r: (Phase, Turn))
    ensures
        moved_on(r) == storing(settings@, request@, url@, tags.deep_view(), lines.deep_view()),
{
    if validate_url(url).is_err() {
        return give_up(
            ErrorKind::InvalidUrl,
            lines,
            String::from_str("Invalid URL. Please use a proper format (e.g., https://example.com)."),
        );
    }
    match store_bookmark(url, tags) {
        Ok(text) => (
            Phase::Write,
            Turn { lines, action: Action::Write(target_of(settings, request), text) },
        ),
        Err(_) => give_up(
            ErrorKind::WriteError,
            lines,
            String::from_str("Failed to serialize bookmark"),
        ),
    }
}

} // verus!
