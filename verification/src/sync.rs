//! Keeping the store under version control.
//!
//! After a change to the store, the change is staged and committed, and
//! pushed where a remote is configured. This module says which git commands
//! that takes; running them is the caller's business.

use vstd::prelude::*;
use vstd::string::*;
use crate::path::copy_strings;
use crate::settings::{Settings, SettingsView};

verus! {

/// One run of the version-control client.
#[derive(Debug)]
pub struct Invocation {
    /// The program to run.
    pub program: String,
    /// Its arguments.
    pub args: Vec<String>,
    /// The directory to run it in: the store root.
    pub dir: String,
    /// What to report if it fails.
    pub error_message: String,
}

/// What an `Invocation` stands for.
pub struct InvocationView {
    pub program: Seq<char>,
    pub args: Seq<Seq<char>>,
    pub dir: Seq<char>,
    pub error_message: Seq<char>,
}

impl DeepView for Invocation {
    type V = InvocationView;

    open spec fn deep_view(&self) -> InvocationView {
        InvocationView {
            program: self.program@,
            args: self.args.deep_view(),
            dir: self.dir@,
            error_message: self.error_message@,
        }
    }
}

impl View for Invocation {
    type V = InvocationView;

    open spec fn view(&self) -> InvocationView {
        self.deep_view()
    }
}

impl Invocation {
    /// A copy of this invocation.
    pub fn duplicate(&self) -> (r: Invocation)
        ensures
            r@ == self@,
    {
        Invocation {
            program: self.program.clone(),
            args: copy_strings(&self.args),
            dir: self.dir.clone(),
            error_message: self.error_message.clone(),
        }
    }
}

pub open spec fn git() -> Seq<char> {
    seq!['g', 'i', 't']
}

/// The git command with arguments `args`, to be run in the store root; none
/// where the store is not kept under version control.
pub open spec fn git_invocation(
    settings: SettingsView,
    args: Seq<Seq<char>>,
    error_message: Seq<char>,
) -> Option<InvocationView> {
    if settings.sync {
        Some(InvocationView { program: git(), args, dir: settings.root, error_message })
    } else {
        None
    }
}

/// The git command with arguments `args`, if the store is kept under version
/// control.
pub fn git_command(settings: &Settings, args: &Vec<String>, error_message: &str) -> (r: Option<
    Invocation,
>)
    ensures
        r.deep_view() == git_invocation(settings@, args.deep_view(), error_message@),
{
    if !settings.sync {
        return None;
    }
    proof {
        reveal_strlit("git");
    }
    assert("git"@ =~= git());
    Some(
        Invocation {
            program: String::from_str("git"),
            args: copy_strings(args),
            dir: settings.root.clone(),
            error_message: String::from_str(error_message),
        },
    )
}

pub open spec fn stage_args() -> Seq<Seq<char>> {
    seq![seq!['a', 'd', 'd'], seq!['-', 'A']]
}

pub open spec fn commit_args(comment: Seq<char>) -> Seq<Seq<char>> {
    seq![seq!['c', 'o', 'm', 'm', 'i', 't'], seq!['-', 'm'], comment]
}

pub open spec fn push_args() -> Seq<Seq<char>> {
    seq![seq!['p', 'u', 's', 'h'], seq!['-', 'u'], seq!['-', '-', 'a', 'l', 'l']]
}

pub open spec fn stage_failure() -> Seq<char> {
    "Failed to add file to git stage"@
}

pub open spec fn commit_failure() -> Seq<char> {
    "Failed to commit to git"@
}

pub open spec fn push_failure() -> Seq<char> {
    "Cannot push to origin"@
}

/// The commands that record a change to the store, in the order in which
/// they run: stage everything, commit with `comment`, and push where a
/// remote is configured. Nothing is run where version control is off.
pub open spec fn commit_plan(settings: SettingsView, comment: Seq<char>) -> Seq<InvocationView> {
    if !settings.sync {
        Seq::empty()
    } else {
        let stage = InvocationView {
            program: git(),
            args: stage_args(),
            dir: settings.root,
            error_message: stage_failure(),
        };
        let commit = InvocationView {
            program: git(),
            args: commit_args(comment),
            dir: settings.root,
            error_message: commit_failure(),
        };
        let push = InvocationView {
            program: git(),
            args: push_args(),
            dir: settings.root,
            error_message: push_failure(),
        };
        if settings.remote {
            seq![stage, commit, push]
        } else {
            seq![stage, commit]
        }
    }
}

/// The commands that record a change to the store under the message
/// `comment`.
pub fn git_commit(settings: &Settings, comment: &str) -> (plan: Vec<Invocation>)
    ensures
        plan.deep_view() == commit_plan(settings@, comment@),
{
    let mut plan: Vec<Invocation> = Vec::new();
    if !settings.sync {
        assert(plan.deep_view() =~= Seq::<InvocationView>::empty());
        return plan;
    }
    proof {
        reveal_strlit("add");
        reveal_strlit("-A");
        reveal_strlit("commit");
        reveal_strlit("-m");
        reveal_strlit("push");
        reveal_strlit("-u");
        reveal_strlit("--all");
    }
    let mut stage: Vec<String> = Vec::new();
    stage.push(String::from_str("add"));
    stage.push(String::from_str("-A"));
    assert(stage.deep_view() =~~= stage_args());
    let mut commit: Vec<String> = Vec::new();
    commit.push(String::from_str("commit"));
    commit.push(String::from_str("-m"));
    commit.push(String::from_str(comment));
    assert(commit.deep_view() =~~= commit_args(comment@));
    let staged = git_command(settings, &stage, "Failed to add file to git stage").unwrap();
    let committed = git_command(settings, &commit, "Failed to commit to git").unwrap();
    let ghost first = staged@;
    let ghost second = committed@;
    plan.push(staged);
    plan.push(committed);
    if settings.remote {
        let mut push: Vec<String> = Vec::new();
        push.push(String::from_str("push"));
        push.push(String::from_str("-u"));
        push.push(String::from_str("--all"));
        assert(push.deep_view() =~~= push_args());
        let pushed = git_command(settings, &push, "Cannot push to origin").unwrap();
        let ghost third = pushed@;
        plan.push(pushed);
        assert(plan.deep_view() =~= seq![first, second, third]);
    } else {
        assert(plan.deep_view() =~= seq![first, second]);
    }
    plan
}

} // verus!
