//! Setting the store up for the first time.
//!
//! The user is asked where the store shall live, whether it shall be kept
//! under git, and for the remote and the branch to start from. What each
//! answer means, and which git commands the setup takes, is decided here.

use vstd::prelude::*;
use vstd::string::*;
use crate::gate::{answer_of, read_answer, Answer};
use crate::settings::{expand_tilde_with, expanded, home_dir, join_under, under, Config};
use crate::sync::{git, Invocation, InvocationView};
use crate::text::{trim, trimmed};

verus! {

/// Where the store shall live.
#[derive(Debug)]
pub struct StoreChoice {
    /// The store root.
    pub path: String,
    /// Whether the user named the path; if not, it is the default one.
    pub given: bool,
}

/// What a `StoreChoice` stands for.
pub struct StoreChoiceView {
    pub path: Seq<char>,
    pub given: bool,
}

impl DeepView for StoreChoice {
    type V = StoreChoiceView;

    open spec fn deep_view(&self) -> StoreChoiceView {
        StoreChoiceView { path: self.path@, given: self.given }
    }
}

/// The store root that an answer names: the path given, with a leading `~`
/// replaced by the home directory, or, for an empty answer, the default
/// store below the home directory. Without a home directory an empty answer
/// names nothing.
pub open spec fn chosen_store(answer: Seq<char>, home: Option<Seq<char>>) -> Option<
    StoreChoiceView,
> {
    let path = trimmed(answer);
    if path.len() == 0 {
        match home {
            Some(home) => Some(
                StoreChoiceView { path: under(home, ".bookmark-store"@), given: false },
            ),
            None => None,
        }
    } else {
        Some(StoreChoiceView { path: expanded(path, home), given: true })
    }
}

/// Reads the store root from the user's answer.
pub fn read_store_path(answer: &str, home: Option<&str>) -> (r: Option<StoreChoice>)
    ensures
        r.deep_view() == chosen_store(answer@, home.deep_view()),
{
    let path = trim(answer);
    if path.as_str().is_empty() {
        match home {
            Some(home) => Some(
                StoreChoice { path: join_under(home, ".bookmark-store"), given: false },
            ),
            None => None,
        }
    } else {
        Some(StoreChoice { path: expand_tilde_with(path.as_str(), home), given: true })
    }
}

/// Reads the store root from the user's answer, with the user's home
/// directory for a leading `~` and for the default.
pub fn prompt_valid_bookmark_store_path(answer: &str) -> (r: Option<StoreChoice>)
    ensures
        exists|home: Option<Seq<char>>| r.deep_view() == chosen_store(answer@, home),
{
    let home = home_dir();
    let r = match &home {
        Some(home) => read_store_path(answer, Some(home.as_str())),
        None => read_store_path(answer, None),
    };
    assert(r.deep_view() == chosen_store(answer@, home.deep_view()));
    r
}

/// Whether the store shall be kept under git: yes, unless the answer is a
/// no.
pub fn read_git_choice(answer: &str) -> (r: bool)
    ensures
        r == (answer_of(answer@) != Answer::No),
{
    match read_answer(answer) {
        Answer::No => false,
        _ => true,
    }
}

/// The remote that an answer names: none for an empty answer.
pub open spec fn chosen_remote(answer: Seq<char>) -> Option<Seq<char>> {
    if trimmed(answer).len() == 0 {
        None
    } else {
        Some(trimmed(answer))
    }
}

/// Reads the remote from the user's answer.
pub fn read_remote_url(answer: &str) -> (r: Option<String>)
    ensures
        r.deep_view() == chosen_remote(answer@),
{
    let url = trim(answer);
    if url.as_str().is_empty() {
        None
    } else {
        Some(url)
    }
}

/// The branch that an answer names: `master` for an empty answer.
pub open spec fn chosen_branch(answer: Seq<char>) -> Seq<char> {
    if trimmed(answer).len() == 0 {
        "master"@
    } else {
        trimmed(answer)
    }
}

/// Reads the branch from the user's answer.
pub fn read_branch_name(answer: &str) -> (r: String)
    ensures
        r@ == chosen_branch(answer@),
{
    let branch = trim(answer);
    if branch.as_str().is_empty() {
        String::from_str("master")
    } else {
        branch
    }
}

/// One step of the setup: a git command, and the line that reports its
/// success.
#[derive(Debug)]
pub struct SetupStep {
    pub invocation: Invocation,
    pub report: String,
}

/// What a `SetupStep` stands for.
pub struct SetupStepView {
    pub invocation: InvocationView,
    pub report: Seq<char>,
}

impl DeepView for SetupStep {
    type V = SetupStepView;

    open spec fn deep_view(&self) -> SetupStepView {
        SetupStepView { invocation: self.invocation@, report: self.report@ }
    }
}

/// The git command with arguments `args`, to be run in `root`.
pub open spec fn git_in(root: Seq<char>, args: Seq<Seq<char>>, error_message: Seq<char>)
    -> InvocationView {
    InvocationView { program: git(), args, dir: root, error_message }
}

/// The steps that put a store under git: create the repository, and, where
/// a remote is given, add it as `origin` and pull `branch` from it.
pub open spec fn setup_plan(root: Seq<char>, remote: Option<Seq<char>>, branch: Seq<char>) -> Seq<
    SetupStepView,
> {
    let create = SetupStepView {
        invocation: git_in(root, seq!["init"@], "Failed to initialize Git repository"@),
        report: "Git repository initialized at "@ + root,
    };
    match remote {
        Some(remote) => seq![
            create,
            SetupStepView {
                invocation: git_in(
                    root,
                    seq!["remote"@, "add"@, "origin"@, remote],
                    "Failed to add remote repository"@,
                ),
                report: "Git remote repository set to "@ + remote,
            },
            SetupStepView {
                invocation: git_in(
                    root,
                    seq!["pull"@, "origin"@, branch],
                    "Failed to pull from origin"@,
                ),
                report: Seq::empty(),
            },
        ],
        None => seq![create],
    }
}

/// A git command to be run in `root`.
fn git_step(root: &str, args: Vec<String>, error_message: &str, report: String) -> (r: SetupStep)
    ensures
        r.deep_view() == (SetupStepView {
            invocation: git_in(root@, args.deep_view(), error_message@),
            report: report@,
        }),
{
    proof {
        reveal_strlit("git");
    }
    assert("git"@ =~= git());
    SetupStep {
        invocation: Invocation {
            program: String::from_str("git"),
            args,
            dir: String::from_str(root),
            error_message: String::from_str(error_message),
        },
        report,
    }
}

/// The steps that put the store at `root` under git.
pub fn handle_git(root: &str, remote: Option<&str>, branch: &str) -> (plan: Vec<SetupStep>)
    ensures
        plan.deep_view() == setup_plan(root@, remote.deep_view(), branch@),
{
    let mut plan: Vec<SetupStep> = Vec::new();
    let mut init: Vec<String> = Vec::new();
    init.push(String::from_str("init"));
    assert(init.deep_view() =~= seq!["init"@]);
    let create = git_step(
        root,
        init,
        "Failed to initialize Git repository",
        String::from_str("Git repository initialized at ").concat(root),
    );
    let ghost first = create.deep_view();
    plan.push(create);
    match remote {
        Some(remote) => {
            let mut add: Vec<String> = Vec::new();
            add.push(String::from_str("remote"));
            add.push(String::from_str("add"));
            add.push(String::from_str("origin"));
            add.push(String::from_str(remote));
            assert(add.deep_view() =~= seq!["remote"@, "add"@, "origin"@, remote@]);
            let added = git_step(
                root,
                add,
                "Failed to add remote repository",
                String::from_str("Git remote repository set to ").concat(remote),
            );
            let mut pull: Vec<String> = Vec::new();
            pull.push(String::from_str("pull"));
            pull.push(String::from_str("origin"));
            pull.push(String::from_str(branch));
            assert(pull.deep_view() =~= seq!["pull"@, "origin"@, branch@]);
            let pulled = git_step(root, pull, "Failed to pull from origin", String::new());
            let ghost second = added.deep_view();
            let ghost third = pulled.deep_view();
            plan.push(added);
            plan.push(pulled);
            assert(plan.deep_view() =~= seq![first, second, third]);
        },
        None => {
            assert(plan.deep_view() =~= seq![first]);
        },
    }
    plan
}

/// The configuration that the setup writes.
pub fn initial_config(dir: String, git: bool, remote: Option<String>) -> (r: Config)
    ensures
        r.dir == dir,
        r.git == git,
        r.remote == remote,
        r.pull_before_push is None,
        r.rebase_on_pull is None,
{
    Config { git, pull_before_push: None, rebase_on_pull: None, remote, dir }
}

} // verus!
