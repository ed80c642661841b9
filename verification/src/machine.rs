//! The vocabulary in which a command talks to the world.
//!
//! A command never touches a file, the terminal or git itself. It runs as a
//! machine: it hands out a turn, lines to print and one action to perform,
//! and is told what came of the action before it decides on the next turn.
//! Whoever drives the machine performs the actions.

use vstd::prelude::*;
use vstd::string::*;
use crate::path::{PhysicalPath, PhysicalPathView};
use crate::sync::{Invocation, InvocationView};

verus! {

/// A line of output.
#[derive(Debug)]
pub enum Line {
    /// For the standard output.
    Out(String),
    /// For the error stream.
    Warn(String),
}

/// What a `Line` stands for.
pub enum LineView {
    Out(Seq<char>),
    Warn(Seq<char>),
}

impl DeepView for Line {
    type V = LineView;

    open spec fn deep_view(&self) -> LineView {
        match self {
            Line::Out(text) => LineView::Out(text@),
            Line::Warn(text) => LineView::Warn(text@),
        }
    }
}

/// What the machine wants done.
#[derive(Debug)]
pub enum Action {
    /// Create the directory and every directory above it that is missing.
    /// Answered by `Done` or `Failed`.
    MakeDirs(PhysicalPath),
    /// Say whether anything is at the location. Answered by `Found`.
    Probe(PhysicalPath),
    /// Say whether a directory is at the location. Answered by `Found`.
    ProbeDir(PhysicalPath),
    /// Write the text to the file, replacing what it held. Answered by
    /// `Done` or `Failed`.
    Write(PhysicalPath, String),
    /// Read the file. Answered by `Text`, `Missing` or `Failed`.
    Read(PhysicalPath),
    /// Delete the file. Answered by `Done` or `Failed`.
    RemoveFile(PhysicalPath),
    /// Delete the directory if it is empty. Answered by `Done`, by `Missing`
    /// where it is gone already, by `NotEmpty`, or by `Failed`.
    RemoveDir(PhysicalPath),
    /// Rename the first file to the second, replacing a file that is there.
    /// Answered by `Done` or `Failed`.
    Rename(PhysicalPath, PhysicalPath),
    /// Delete the directory and all it holds. Answered by `Done` or
    /// `Failed`.
    RemoveTree(PhysicalPath),
    /// Name every file below the directory, each by the names that lead to
    /// it from the store root. Answered by `Files` or `Failed`.
    Walk(PhysicalPath),
    /// Show the prompt and read one line. Answered by `Line` or `Failed`.
    Ask(String),
    /// Open the file in the user's editor and wait until the editor ends.
    /// Answered by `Edited`, by `Abandoned` where the editor ended in
    /// failure, or by `Failed` where it could not be started.
    Edit(PhysicalPath),
    /// Run the program. Answered by `Done` where it ran and reported
    /// success, else by `Failed`.
    Run(Invocation),
    /// End the process with this status. Nothing follows.
    Exit(u8),
}

/// What an `Action` stands for.
pub enum ActionView {
    MakeDirs(PhysicalPathView),
    Probe(PhysicalPathView),
    ProbeDir(PhysicalPathView),
    Write(PhysicalPathView, Seq<char>),
    Read(PhysicalPathView),
    RemoveFile(PhysicalPathView),
    RemoveDir(PhysicalPathView),
    Rename(PhysicalPathView, PhysicalPathView),
    RemoveTree(PhysicalPathView),
    Walk(PhysicalPathView),
    Ask(Seq<char>),
    Edit(PhysicalPathView),
    Run(InvocationView),
    Exit(u8),
}

impl View for Action {
    type V = ActionView;

    open spec fn view(&self) -> ActionView {
        match self {
            Action::MakeDirs(dir) => ActionView::MakeDirs(dir@),
            Action::Probe(at) => ActionView::Probe(at@),
            Action::ProbeDir(at) => ActionView::ProbeDir(at@),
            Action::Write(file, text) => ActionView::Write(file@, text@),
            Action::Read(file) => ActionView::Read(file@),
            Action::RemoveFile(file) => ActionView::RemoveFile(file@),
            Action::RemoveDir(dir) => ActionView::RemoveDir(dir@),
            Action::Rename(from, to) => ActionView::Rename(from@, to@),
            Action::RemoveTree(dir) => ActionView::RemoveTree(dir@),
            Action::Walk(dir) => ActionView::Walk(dir@),
            Action::Ask(prompt) => ActionView::Ask(prompt@),
            Action::Edit(file) => ActionView::Edit(file@),
            Action::Run(invocation) => ActionView::Run(invocation@),
            Action::Exit(code) => ActionView::Exit(*code),
        }
    }
}

impl ActionView {
    /// Whether performing the action can change the store: every action on
    /// files and directories but probing, reading and walking.
    pub open spec fn changes_store(self) -> bool {
        self is MakeDirs || self is Write || self is RemoveFile || self is RemoveDir
            || self is Rename || self is RemoveTree || self is Edit
    }
}

/// What came of an action.
#[derive(Debug)]
pub enum Event {
    /// It was done.
    Done,
    /// It failed; the text says why.
    Failed(String),
    /// Whether what was probed for is there.
    Found(bool),
    /// The text of the file that was read.
    Text(String),
    /// What was to be read or removed is not there.
    Missing,
    /// The directory holds something.
    NotEmpty,
    /// The line that was typed.
    Line(String),
    /// The files that were found.
    Files(Vec<Vec<String>>),
    /// The editor ended well; whether the file was changed.
    Edited(bool),
    /// The editor ended in failure.
    Abandoned,
}

/// What an `Event` stands for.
pub enum EventView {
    Done,
    Failed(Seq<char>),
    Found(bool),
    Text(Seq<char>),
    Missing,
    NotEmpty,
    Line(Seq<char>),
    Files(Seq<Seq<Seq<char>>>),
    Edited(bool),
    Abandoned,
}

impl View for Event {
    type V = EventView;

    open spec fn view(&self) -> EventView {
        match self {
            Event::Done => EventView::Done,
            Event::Failed(reason) => EventView::Failed(reason@),
            Event::Found(found) => EventView::Found(*found),
            Event::Text(text) => EventView::Text(text@),
            Event::Missing => EventView::Missing,
            Event::NotEmpty => EventView::NotEmpty,
            Event::Line(line) => EventView::Line(line@),
            Event::Files(files) => EventView::Files(files.deep_view()),
            Event::Edited(changed) => EventView::Edited(*changed),
            Event::Abandoned => EventView::Abandoned,
        }
    }
}

/// One turn of the machine: lines to print, in order, and then an action to
/// perform.
#[derive(Debug)]
pub struct Turn {
    pub lines: Vec<Line>,
    pub action: Action,
}

/// What a `Turn` stands for.
pub struct TurnView {
    pub lines: Seq<LineView>,
    pub action: ActionView,
}

impl View for Turn {
    type V = TurnView;

    open spec fn view(&self) -> TurnView {
        TurnView { lines: self.lines.deep_view(), action: self.action@ }
    }
}

/// The turn that ends the process successfully after printing `lines`.
pub open spec fn farewell(lines: Seq<LineView>) -> TurnView {
    TurnView { lines, action: ActionView::Exit(0) }
}

/// The turn that ends the process as failed: `lines`, then `message` on the
/// error stream.
pub open spec fn refusal(lines: Seq<LineView>, message: Seq<char>) -> TurnView {
    TurnView { lines: lines.push(LineView::Warn(message)), action: ActionView::Exit(1) }
}

/// What is reported when an action failed: what was attempted, and why it
/// failed.
pub open spec fn blamed(message: Seq<char>, reason: Seq<char>) -> Seq<char> {
    message + seq![':', ' '] + reason
}

/// No lines.
pub fn silence() -> (lines: Vec<Line>)
    ensures
        lines.deep_view() == Seq::<LineView>::empty(),
{
    let lines: Vec<Line> = Vec::new();
    assert(lines.deep_view() =~= Seq::<LineView>::empty());
    lines
}

/// One line for the standard output.
pub fn saying(text: String) -> (lines: Vec<Line>)
    ensures
        lines.deep_view() == seq![LineView::Out(text@)],
{
    let mut lines: Vec<Line> = Vec::new();
    lines.push(Line::Out(text));
    assert(lines.deep_view() =~= seq![LineView::Out(text@)]);
    lines
}

/// `lines`, and then one more line for the standard output.
pub fn and_saying(lines: Vec<Line>, text: String) -> (r: Vec<Line>)
    ensures
        r.deep_view() == lines.deep_view().push(LineView::Out(text@)),
{
    let mut lines = lines;
    let ghost before = lines.deep_view();
    lines.push(Line::Out(text));
    assert(lines.deep_view() =~= before.push(LineView::Out(text@)));
    lines
}

/// `lines`, and then one more line for the error stream.
pub fn and_warning(lines: Vec<Line>, text: String) -> (r: Vec<Line>)
    ensures
        r.deep_view() == lines.deep_view().push(LineView::Warn(text@)),
{
    let mut lines = lines;
    let ghost before = lines.deep_view();
    lines.push(Line::Warn(text));
    assert(lines.deep_view() =~= before.push(LineView::Warn(text@)));
    lines
}

/// The turn that ends the process successfully after printing `lines`.
pub fn take_leave(lines: Vec<Line>) -> (turn: Turn)
    ensures
        turn@ == farewell(lines.deep_view()),
{
    Turn { lines, action: Action::Exit(0) }
}

/// The turn that ends the process as failed after printing `lines` and then
/// `message` on the error stream.
pub fn refuse(lines: Vec<Line>, message: String) -> (turn: Turn)
    ensures
        turn@ == refusal(lines.deep_view(), message@),
{
    Turn { lines: and_warning(lines, message), action: Action::Exit(1) }
}

/// What is reported when an action failed.
pub fn blame(message: &str, reason: &str) -> (r: String)
    ensures
        r@ == blamed(message@, reason@),
{
    proof {
        reveal_strlit(": ");
    }
    assert(": "@ =~= seq![':', ' ']);
    let mut out = String::from_str(message);
    out.append(": ");
    out.append(reason);
    out
}

} // verus!
