//! The smaller decisions: answers, the sweep, git, settings, shells.

use tempesta::gate::{confirm, read_answer, Answer, Verdict};
use tempesta::init::{
    handle_git, initial_config, prompt_valid_bookmark_store_path, read_branch_name,
    read_git_choice, read_remote_url, read_store_path,
};
use tempesta::listing::{get_toml_bookmark_files, name_of};
use tempesta::outcome::PanicOnError;
use tempesta::path::PhysicalPath;
use tempesta::request::{parse_request, Parsed, Request};
use tempesta::settings::{
    config_location_with, describe, expand_tilde, expand_tilde_with, get_bookmark_store_dir_path,
    get_config_file_path, join_under, settings_from, Config, Settings,
};
use tempesta::shell::{select_shell, Shell};
use tempesta::sweep::{cleanup_empty_parents, cleanup_next, SweepStep};
use tempesta::sync::{git_command, git_commit};
use tempesta::text::{between, join_slashed, same_text, split_on, to_lower, trim};
use tempesta::tree::Removal;

fn words(list: &[&str]) -> Vec<String> {
    list.iter().map(|t| t.to_string()).collect()
}

#[test]
fn answers_are_read_without_regard_to_case_and_space() {
    for yes in ["y", "Y", "yes", "YES", "Yes\n", "  yEs \t\r\n", "\u{a0}y\u{2003}"] {
        assert_eq!(read_answer(yes), Answer::Yes, "{:?}", yes);
    }
    for no in ["n", "N", "no", "NO", "No\n", " nO "] {
        assert_eq!(read_answer(no), Answer::No, "{:?}", no);
    }
    for empty in ["", "\n", "  \t ", "\r\n"] {
        assert_eq!(read_answer(empty), Answer::Empty, "{:?}", empty);
    }
    for other in ["yep", "ye", "nope", "maybe", "y e s", "yes!", "ｙ", "0", "ÿ"] {
        assert_eq!(read_answer(other), Answer::Other, "{:?}", other);
    }
}

#[test]
fn a_question_is_settled() {
    assert_eq!(confirm("y\n", false), Verdict::Accepted);
    assert_eq!(confirm("yes\n", true), Verdict::Accepted);
    assert_eq!(confirm("n\n", true), Verdict::Declined);
    assert_eq!(confirm("no\n", false), Verdict::Declined);
    assert_eq!(confirm("\n", true), Verdict::Accepted);
    assert_eq!(confirm("\n", false), Verdict::Declined);
    assert_eq!(confirm("what\n", true), Verdict::Unrecognized);
    assert_eq!(confirm("what\n", false), Verdict::Unrecognized);
}

fn at(segments: &[&str]) -> PhysicalPath {
    PhysicalPath { root: "/s".to_string(), segments: words(segments) }
}

fn tried(step: SweepStep) -> Option<Vec<String>> {
    match step {
        SweepStep::Try(dir) => {
            assert_eq!(dir.root, "/s");
            Some(dir.segments)
        }
        _ => None,
    }
}

#[test]
fn the_sweep_walks_upward_and_spares_the_root() {
    assert_eq!(tried(cleanup_empty_parents(&at(&["p", "q"]))), Some(words(&["p", "q"])));
    assert!(matches!(cleanup_empty_parents(&at(&[])), SweepStep::Clean));
    assert_eq!(
        tried(cleanup_next(&at(&["p", "q"]), Removal::Removed)),
        Some(words(&["p"]))
    );
    assert_eq!(
        tried(cleanup_next(&at(&["p", "q"]), Removal::AlreadyGone)),
        Some(words(&["p"]))
    );
    assert!(matches!(cleanup_next(&at(&["p"]), Removal::Removed), SweepStep::Clean));
    assert!(matches!(cleanup_next(&at(&["p"]), Removal::AlreadyGone), SweepStep::Clean));
    assert!(matches!(cleanup_next(&at(&["p", "q"]), Removal::NotEmpty), SweepStep::Clean));
    assert!(matches!(cleanup_next(&at(&["p", "q"]), Removal::Failed), SweepStep::Failed));
}

#[test]
fn a_second_sweep_finds_nothing_to_do() {
    // After p/q and p were removed, every request is answered "already gone".
    let mut step = cleanup_empty_parents(&at(&["p", "q"]));
    let mut asked = Vec::new();
    while let SweepStep::Try(dir) = step {
        asked.push(dir.segments.clone());
        step = cleanup_next(&dir, Removal::AlreadyGone);
    }
    assert!(matches!(step, SweepStep::Clean));
    assert_eq!(asked, vec![words(&["p", "q"]), words(&["p"])]);
}

#[test]
fn git_is_run_only_where_it_is_wanted() {
    let off = Settings { root: "/s".to_string(), sync: false, remote: true };
    assert!(git_commit(&off, "msg").is_empty());
    assert!(git_command(&off, &words(&["status"]), "failed").is_none());

    let local = Settings { root: "/s".to_string(), sync: true, remote: false };
    let plan = git_commit(&local, "Add bookmark x");
    assert_eq!(plan.len(), 2);
    assert_eq!(plan[0].program, "git");
    assert_eq!(plan[0].args, words(&["add", "-A"]));
    assert_eq!(plan[0].dir, "/s");
    assert_eq!(plan[0].error_message, "Failed to add file to git stage");
    assert_eq!(plan[1].args, words(&["commit", "-m", "Add bookmark x"]));
    assert_eq!(plan[1].error_message, "Failed to commit to git");
    assert_eq!(plan[1].duplicate().args, plan[1].args);

    let pushed = Settings { root: "/s".to_string(), sync: true, remote: true };
    let plan = git_commit(&pushed, "m");
    assert_eq!(plan.len(), 3);
    assert_eq!(plan[2].args, words(&["push", "-u", "--all"]));
    assert_eq!(plan[2].error_message, "Cannot push to origin");

    let one = git_command(&pushed, &words(&["log", "-1"]), "Cannot log").unwrap();
    assert_eq!(one.program, "git");
    assert_eq!(one.args, words(&["log", "-1"]));
    assert_eq!(one.dir, "/s");
    assert_eq!(one.error_message, "Cannot log");
}

fn config(dir: &str) -> Config {
    Config {
        git: true,
        pull_before_push: None,
        rebase_on_pull: Some(false),
        remote: Some("git@example.com:me/bookmarks.git".to_string()),
        dir: dir.to_string(),
    }
}

#[test]
fn tempesta_config() {
    assert_eq!(
        describe(&config("~/.bookmark-store")),
        vec![
            "Git enabled:              true",
            "Remote:                   git@example.com:me/bookmarks.git",
            "Rebase on pull enabled:   false",
            "Bookmark store directory: ~/.bookmark-store",
        ]
    );
    let plain = Config {
        git: false,
        pull_before_push: Some(true),
        rebase_on_pull: None,
        remote: None,
        dir: "/srv/b".to_string(),
    };
    assert_eq!(
        describe(&plain),
        vec![
            "Git enabled:              false",
            "Remote: None",
            "Pull before push enabled: true",
            "Bookmark store directory: /srv/b",
        ]
    );
    let settings = settings_from(&config("~/.bookmark-store"), Some("/home/u"));
    assert_eq!(settings.root, "/home/u/.bookmark-store");
    assert!(settings.sync);
    assert!(settings.remote);
    let settings = settings_from(&plain, None);
    assert_eq!(settings.root, "/srv/b");
    assert!(!settings.sync);
    assert!(!settings.remote);
    assert_eq!(get_bookmark_store_dir_path(&plain, Some("/home/u")), "/srv/b");
}

#[test]
fn the_tilde_stands_for_home() {
    assert_eq!(expand_tilde_with("~", Some("/home/u")), "/home/u");
    assert_eq!(expand_tilde_with("~/x/y", Some("/home/u")), "/home/u/x/y");
    assert_eq!(expand_tilde_with("~/x", Some("/home/u/")), "/home/u/x");
    assert_eq!(expand_tilde_with("~/", Some("/home/u")), "/home/u/");
    assert_eq!(expand_tilde_with("~/~/x", Some("/home/u")), "/home/u/x");
    assert_eq!(expand_tilde_with("~//etc", Some("/home/u")), "/etc");
    assert_eq!(expand_tilde_with("~x", Some("/home/u")), "~x");
    assert_eq!(expand_tilde_with("/abs/~", Some("/home/u")), "/abs/~");
    assert_eq!(expand_tilde_with("rel", Some("/home/u")), "rel");
    assert_eq!(expand_tilde_with("", Some("/home/u")), "");
    assert_eq!(expand_tilde_with("~", None), "~");
    assert_eq!(expand_tilde_with("~/x", None), "~/x");
    assert_eq!(expand_tilde("/no/tilde"), "/no/tilde");
    assert_eq!(join_under("/a", "b"), "/a/b");
    assert_eq!(join_under("/a/", "b"), "/a/b");
    assert_eq!(join_under("/a", "/b"), "/b");
    assert_eq!(join_under("", "b"), "b");
    assert_eq!(join_under("/a", ""), "/a/");
}

#[test]
fn the_configuration_file_is_found() {
    let chosen = config_location_with(Some("/etc/t.toml"), Some("/home/u")).unwrap();
    assert_eq!(chosen.file, "/etc/t.toml");
    assert_eq!(chosen.directory, None);
    let default = config_location_with(None, Some("/home/u")).unwrap();
    assert_eq!(default.file, "/home/u/.config/tempesta/tempesta.toml");
    assert_eq!(default.directory.as_deref(), Some("/home/u/.config/tempesta"));
    assert!(config_location_with(None, None).is_none());
    let asked = get_config_file_path(Some("./here.toml")).unwrap();
    assert_eq!(asked.file, "./here.toml");
    assert_eq!(asked.directory, None);
}

#[test]
fn tempesta_completion() {
    assert_eq!(Shell::from_shell_str("bash"), Some(Shell::Bash));
    assert_eq!(Shell::from_shell_str("zsh"), Some(Shell::Zsh));
    assert_eq!(Shell::from_shell_str("fish"), Some(Shell::Fish));
    assert_eq!(Shell::from_shell_str("Bash"), None);
    assert_eq!(Shell::from_shell_str("sh"), None);
    assert_eq!(Shell::from_shell_str(""), None);
    assert!(Shell::Bash.completion_script().contains("complete -F _tempesta tempesta"));
    assert!(Shell::Zsh.completion_script().starts_with("#compdef tempesta"));
    assert!(Shell::Fish.completion_script().contains("complete -c tempesta"));
    assert_ne!(Shell::Bash.completion_script(), Shell::Zsh.completion_script());
    assert_eq!(select_shell(Some("/usr/bin/zsh"), None), Shell::Zsh);
    assert_eq!(select_shell(Some("/usr/bin/zsh"), Some("fish")), Shell::Fish);
    assert_eq!(select_shell(Some("/usr/bin/zsh"), Some("tcsh")), Shell::Zsh);
    assert_eq!(select_shell(Some("/bin/tcsh"), None), Shell::Bash);
    assert_eq!(select_shell(Some("fish"), None), Shell::Fish);
    assert_eq!(select_shell(None, None), Shell::Bash);
    assert_eq!(select_shell(None, Some("zsh")), Shell::Zsh);
}

#[test]
fn setup_answers_are_read() {
    let default = read_store_path("\n", Some("/home/u")).unwrap();
    assert_eq!(default.path, "/home/u/.bookmark-store");
    assert!(!default.given);
    assert!(read_store_path("\n", None).is_none());
    let home = read_store_path(" ~/b \n", Some("/home/u")).unwrap();
    assert_eq!(home.path, "/home/u/b");
    assert!(home.given);
    assert_eq!(read_store_path("/srv/b/\n", None).unwrap().path, "/srv/b/");
    assert!(read_git_choice("\n"));
    assert!(read_git_choice("y\n"));
    assert!(read_git_choice("whatever\n"));
    assert!(!read_git_choice("n\n"));
    assert!(!read_git_choice(" NO \n"));
    assert_eq!(read_remote_url(" \n"), None);
    assert_eq!(read_remote_url(" git@h:r.git \n").as_deref(), Some("git@h:r.git"));
    assert_eq!(read_branch_name("\n"), "master");
    assert_eq!(read_branch_name(" main\n"), "main");
    let made = initial_config("/srv/b".to_string(), true, Some("r".to_string()));
    assert_eq!(made.dir, "/srv/b");
    assert!(made.git);
    assert_eq!(made.remote.as_deref(), Some("r"));
    assert_eq!(made.pull_before_push, None);
    assert_eq!(made.rebase_on_pull, None);
}

#[test]
fn setup_takes_these_git_commands() {
    let plan = handle_git("/srv/b", None, "main");
    assert_eq!(plan.len(), 1);
    assert_eq!(plan[0].invocation.program, "git");
    assert_eq!(plan[0].invocation.args, words(&["init"]));
    assert_eq!(plan[0].invocation.dir, "/srv/b");
    assert_eq!(plan[0].invocation.error_message, "Failed to initialize Git repository");
    assert_eq!(plan[0].report, "Git repository initialized at /srv/b");
    let plan = handle_git("/srv/b", Some("git@h:r.git"), "main");
    assert_eq!(plan.len(), 3);
    assert_eq!(plan[1].invocation.args, words(&["remote", "add", "origin", "git@h:r.git"]));
    assert_eq!(plan[1].invocation.error_message, "Failed to add remote repository");
    assert_eq!(plan[1].report, "Git remote repository set to git@h:r.git");
    assert_eq!(plan[2].invocation.args, words(&["pull", "origin", "main"]));
    assert_eq!(plan[2].invocation.error_message, "Failed to pull from origin");
    assert_eq!(plan[2].report, "");
}

#[test]
fn files_are_listed_under_their_logical_path() {
    assert_eq!(name_of(&words(&["x", "y.toml"])).as_deref(), Some("x/y"));
    assert_eq!(name_of(&words(&["y.toml"])).as_deref(), Some("y"));
    assert_eq!(name_of(&words(&["a.toml.toml"])).as_deref(), Some("a.toml"));
    assert_eq!(name_of(&words(&[".toml"])).as_deref(), Some(""));
    assert_eq!(name_of(&words(&["x", "y.txt"])), None);
    assert_eq!(name_of(&words(&["x", "toml"])), None);
    assert_eq!(name_of(&words(&[])), None);
    let files = vec![words(&["b.toml"]), words(&[".git", "config"]), words(&["a", "c.toml"])];
    assert_eq!(get_toml_bookmark_files(&files), vec![words(&["b.toml"]), words(&["a", "c.toml"])]);
    for logical in ["x/y", "top", "a.b/c.d", "a.toml"] {
        let file = tempesta::path::get_bookmark_file_path("/s", logical).unwrap();
        assert_eq!(name_of(&file.segments).as_deref(), Some(logical));
    }
}

#[test]
fn requests_are_read_from_the_command_line() {
    match parse_request(&words(&["tempesta", "a", "p", "https://u.test", "t1", "t2"])) {
        Parsed::Command(Request::Add { path, url, tags }) => {
            assert_eq!(path, "p");
            assert_eq!(url, "https://u.test");
            assert_eq!(tags, words(&["t1", "t2"]));
        }
        other => panic!("{:?}", other),
    }
    match parse_request(&words(&["tempesta", "u", "p", "https://u.test"])) {
        Parsed::Command(Request::Update { path, tags, .. }) => {
            assert_eq!(path, "p");
            assert!(tags.is_empty());
        }
        other => panic!("{:?}", other),
    }
    for word in ["move", "m", "mv"] {
        match parse_request(&words(&["tempesta", word, "a", "b", "ignored"])) {
            Parsed::Command(Request::Move { from, to }) => {
                assert_eq!(from, "a");
                assert_eq!(to, "b");
            }
            other => panic!("{:?}", other),
        }
    }
    for word in ["remove", "r", "rm"] {
        assert!(matches!(
            parse_request(&words(&["tempesta", word, "a"])),
            Parsed::Command(Request::Remove { .. })
        ));
    }
    assert!(matches!(
        parse_request(&words(&["tempesta", "get", "a"])),
        Parsed::Command(Request::Get { .. })
    ));
    match parse_request(&words(&["tempesta", "list"])) {
        Parsed::Command(Request::List { subpath, divisor }) => {
            assert_eq!(subpath, None);
            assert_eq!(divisor, " :: ");
        }
        other => panic!("{:?}", other),
    }
    match parse_request(&words(&["tempesta", "ls", "--divisor", "|", "sub", "more", "--divisor=;"])) {
        Parsed::Command(Request::List { subpath, divisor }) => {
            assert_eq!(subpath.as_deref(), Some("sub"));
            assert_eq!(divisor, ";");
        }
        other => panic!("{:?}", other),
    }
    match parse_request(&words(&["tempesta", "l", "sub", "--divisor"])) {
        Parsed::Command(Request::List { subpath, divisor }) => {
            assert_eq!(subpath.as_deref(), Some("sub"));
            assert_eq!(divisor, " :: ");
        }
        other => panic!("{:?}", other),
    }
    match parse_request(&words(&["tempesta", "e", "a/b"])) {
        Parsed::Command(Request::Edit { path }) => assert_eq!(path, "a/b"),
        other => panic!("{:?}", other),
    }
    for other in ["init", "config", "open", "completion", "--help", "ADD", ""] {
        assert!(matches!(parse_request(&words(&["tempesta", other, "x", "y"])), Parsed::Other));
    }
    match parse_request(&words(&["tempesta"])) {
        Parsed::Usage(text) => assert_eq!(text, "Usage: tempesta <command> [options]"),
        other => panic!("{:?}", other),
    }
}

#[test]
fn text_is_cut_and_joined() {
    assert_eq!(split_on("a/b/c", '/'), words(&["a", "b", "c"]));
    assert_eq!(split_on("", '/'), words(&[""]));
    assert_eq!(split_on("/", '/'), words(&["", ""]));
    assert_eq!(split_on("a//b/", '/'), words(&["a", "", "b", ""]));
    assert_eq!(split_on("åäö/ü", '/'), words(&["åäö", "ü"]));
    for s in ["a/b/c", "", "/", "a//b/", "//", "x"] {
        assert_eq!(join_slashed(&split_on(s, '/')), s);
    }
    assert_eq!(join_slashed(&Vec::new()), "");
    assert_eq!(trim("  a b \n"), "a b");
    assert_eq!(trim("\u{3000}x\u{85}"), "x");
    assert_eq!(trim(" \t\n"), "");
    assert_eq!(trim(""), "");
    assert_eq!(to_lower('A'), 'a');
    assert_eq!(to_lower('Z'), 'z');
    assert_eq!(to_lower('a'), 'a');
    assert_eq!(to_lower('Å'), 'Å');
    assert_eq!(to_lower('['), '[');
    assert_eq!(to_lower('@'), '@');
    assert!(same_text("abc", "abc"));
    assert!(!same_text("abc", "abd"));
    assert!(!same_text("abc", "ab"));
    assert_eq!(between("a", "b", "c"), "abc");
}

#[test]
fn a_good_outcome_gives_its_value() {
    let good: Result<u8, String> = Ok(7);
    assert_eq!(good.panic_on_error("a number"), 7);
    assert_eq!(Some("x").panic_on_error("a word"), "x");
}

#[test]
fn tempesta_init() {
    let home = "/home/u";
    let store = format!("{}/.test-bookmark-store-init/", home);
    // The two answers of a first setup: the store, and no git.
    let dir = read_store_path(&format!("{}\n", store), Some(home)).unwrap().path;
    let use_git = read_git_choice("no\n");
    let config = initial_config(dir, use_git, None);
    assert!(!config.git);
    assert_eq!(config.remote, None);
    assert_eq!(&config.dir, &store);
    assert_eq!(
        config_location_with(Some("/home/u/.config/tempesta/test-tempesta-init.toml"), Some(home))
            .unwrap()
            .file,
        "/home/u/.config/tempesta/test-tempesta-init.toml"
    );
    assert_eq!(prompt_valid_bookmark_store_path("/srv/store\n").unwrap().path, "/srv/store");
}
