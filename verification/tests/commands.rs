//! The commands, run against a directory tree that is kept in memory.

use std::collections::BTreeMap;

use tempesta::command::{Machine, Phase};
use tempesta::error::ErrorKind;
use tempesta::machine::{Action, Event, Line, Turn};
use tempesta::path::PhysicalPath;
use tempesta::request::Request;
use tempesta::settings::Settings;
use tempesta::steps::{run, Launch};

#[derive(Clone, Debug, PartialEq)]
enum Node {
    Dir,
    File(String),
}

/// What a command sees of the world: a tree, a terminal and git.
struct World {
    root: String,
    sync: bool,
    remote: bool,
    nodes: BTreeMap<Vec<String>, Node>,
    typed: Vec<String>,
    out: String,
    err: String,
    ran: Vec<Vec<String>>,
    failing_git: Option<String>,
    failing_write: bool,
    actions: Vec<String>,
    failure: Option<ErrorKind>,
    editor: Editor,
}

/// What the user's editor does with a file.
#[derive(Clone, Debug)]
enum Editor {
    /// It cannot be started.
    Missing,
    /// It ends in failure.
    Fails,
    /// It ends well and leaves the file as it was.
    Leaves,
    /// It ends well and leaves this text in the file.
    Writes(String),
}

impl World {
    fn new(root: &str) -> World {
        World {
            root: root.to_string(),
            sync: false,
            remote: false,
            nodes: BTreeMap::new(),
            typed: Vec::new(),
            out: String::new(),
            err: String::new(),
            ran: Vec::new(),
            failing_git: None,
            failing_write: false,
            actions: Vec::new(),
            failure: None,
            editor: Editor::Leaves,
        }
    }

    fn settings(&self) -> Settings {
        Settings { root: self.root.clone(), sync: self.sync, remote: self.remote }
    }

    fn key(&self, at: &PhysicalPath) -> Vec<String> {
        assert_eq!(at.root, self.root);
        at.segments.clone()
    }

    fn has_child(&self, dir: &[String]) -> bool {
        self.nodes.keys().any(|k| k.len() == dir.len() + 1 && k[..dir.len()] == *dir)
    }

    fn is_dir(&self, at: &[String]) -> bool {
        self.nodes.get(at) == Some(&Node::Dir)
    }

    fn has_record(&self, logical: &str) -> bool {
        let mut key: Vec<String> = logical.split('/').map(String::from).collect();
        let last = key.pop().unwrap();
        key.push(format!("{}.toml", last));
        matches!(self.nodes.get(&key), Some(Node::File(_)))
    }

    fn dir_exists(&self, logical: &str) -> bool {
        let key: Vec<String> = logical.split('/').map(String::from).collect();
        self.is_dir(&key)
    }

    fn text(&self, logical: &str) -> String {
        let mut key: Vec<String> = logical.split('/').map(String::from).collect();
        let last = key.pop().unwrap();
        key.push(format!("{}.toml", last));
        match self.nodes.get(&key) {
            Some(Node::File(text)) => text.clone(),
            other => panic!("no record at {}: {:?}", logical, other),
        }
    }

    fn perform(&mut self, action: &Action) -> Event {
        self.actions.push(format!("{:?}", action).split('(').next().unwrap().to_string());
        match action {
            Action::MakeDirs(dir) => {
                let key = self.key(dir);
                for n in 0..=key.len() {
                    if let Some(Node::File(_)) = self.nodes.get(&key[..n]) {
                        return Event::Failed("Not a directory".to_string());
                    }
                }
                for n in 0..=key.len() {
                    self.nodes.insert(key[..n].to_vec(), Node::Dir);
                }
                Event::Done
            }
            Action::Probe(at) => Event::Found(self.nodes.contains_key(&self.key(at))),
            Action::ProbeDir(at) => Event::Found(self.is_dir(&self.key(at))),
            Action::Write(file, text) => {
                let key = self.key(file);
                if self.failing_write || key.is_empty() || !self.is_dir(&key[..key.len() - 1])
                    || self.is_dir(&key)
                {
                    return Event::Failed("Permission denied".to_string());
                }
                self.nodes.insert(key, Node::File(text.clone()));
                Event::Done
            }
            Action::Read(file) => match self.nodes.get(&self.key(file)) {
                Some(Node::File(text)) => Event::Text(text.clone()),
                Some(Node::Dir) => Event::Failed("Is a directory".to_string()),
                None => Event::Missing,
            },
            Action::RemoveFile(file) => {
                let key = self.key(file);
                match self.nodes.get(&key) {
                    Some(Node::File(_)) => {
                        self.nodes.remove(&key);
                        Event::Done
                    }
                    _ => Event::Failed("No such file".to_string()),
                }
            }
            Action::RemoveDir(dir) => {
                let key = self.key(dir);
                match self.nodes.get(&key) {
                    None => Event::Missing,
                    Some(Node::File(_)) => Event::Failed("Not a directory".to_string()),
                    Some(Node::Dir) => {
                        if self.has_child(&key) {
                            Event::NotEmpty
                        } else {
                            self.nodes.remove(&key);
                            Event::Done
                        }
                    }
                }
            }
            Action::Rename(from, to) => {
                let from = self.key(from);
                let to = self.key(to);
                let text = match self.nodes.get(&from) {
                    Some(Node::File(text)) => text.clone(),
                    _ => return Event::Failed("No such file".to_string()),
                };
                if to.is_empty() || !self.is_dir(&to[..to.len() - 1]) || self.is_dir(&to) {
                    return Event::Failed("Not a directory".to_string());
                }
                self.nodes.remove(&from);
                self.nodes.insert(to, Node::File(text));
                Event::Done
            }
            Action::RemoveTree(dir) => {
                let key = self.key(dir);
                if !self.is_dir(&key) {
                    return Event::Failed("No such directory".to_string());
                }
                self.nodes.retain(|k, _| !(k.len() >= key.len() && k[..key.len()] == key[..]));
                Event::Done
            }
            Action::Walk(dir) => {
                let key = self.key(dir);
                if !self.is_dir(&key) {
                    return Event::Failed("No such directory".to_string());
                }
                Event::Files(
                    self.nodes
                        .iter()
                        .filter(|(k, n)| {
                            matches!(n, Node::File(_))
                                && k.len() > key.len()
                                && k[..key.len()] == key[..]
                        })
                        .map(|(k, _)| k.clone())
                        .collect(),
                )
            }
            Action::Edit(file) => {
                let key = self.key(file);
                match self.editor.clone() {
                    Editor::Missing => Event::Failed("No such file or directory".to_string()),
                    Editor::Fails => Event::Abandoned,
                    Editor::Leaves => Event::Edited(false),
                    Editor::Writes(text) => {
                        let changed = self.nodes.get(&key) != Some(&Node::File(text.clone()));
                        self.nodes.insert(key, Node::File(text));
                        Event::Edited(changed)
                    }
                }
            }
            Action::Ask(prompt) => {
                self.out.push_str(prompt);
                if self.typed.is_empty() {
                    Event::Line(String::new())
                } else {
                    Event::Line(self.typed.remove(0))
                }
            }
            Action::Run(invocation) => {
                assert_eq!(invocation.program, "git");
                assert_eq!(invocation.dir, self.root);
                self.ran.push(invocation.args.clone());
                if self.failing_git.as_deref() == Some(invocation.args[0].as_str()) {
                    Event::Failed("exit status: 1".to_string())
                } else {
                    Event::Done
                }
            }
            Action::Exit(_) => unreachable!(),
        }
    }

    fn show(&mut self, turn: &Turn) {
        for line in &turn.lines {
            match line {
                Line::Out(text) => {
                    self.out.push_str(text);
                    self.out.push('\n');
                }
                Line::Warn(text) => {
                    self.err.push_str(text);
                    self.err.push('\n');
                }
            }
        }
    }

    /// Runs a command line to its end and gives the exit status.
    fn tempesta(&mut self, args: &[&str]) -> u8 {
        self.out.clear();
        self.err.clear();
        self.actions.clear();
        self.failure = None;
        let mut words = vec!["tempesta".to_string()];
        words.extend(args.iter().map(|a| a.to_string()));
        let (mut machine, mut turn) = match run(self.settings(), &words) {
            Launch::Started(machine, turn) => (machine, turn),
            Launch::Refused(turn) => {
                self.show(&turn);
                match turn.action {
                    Action::Exit(code) => return code,
                    other => panic!("a refusal must exit, not {:?}", other),
                }
            }
            Launch::Unknown => panic!("not a command on the store: {:?}", args),
        };
        for _ in 0..1000 {
            self.show(&turn);
            if let Action::Exit(code) = turn.action {
                self.failure = match machine.phase {
                    Phase::Failed(kind) => Some(kind),
                    Phase::Finished => None,
                    ref other => panic!("the command ended in {:?}", other),
                };
                return code;
            }
            let event = self.perform(&turn.action);
            let next = machine.step(event);
            machine = next.0;
            turn = next.1;
        }
        panic!("the command did not end");
    }
}

const ROOT: &str = "/home/u/.test-bookmark-store/";

#[test]
fn tempesta_add() {
    let mut world = World::new(ROOT);
    assert_eq!(world.tempesta(&["add", "test", "https://test.local", "test"]), 0);
    assert_eq!(
        world.out,
        format!(
            "Bookmark file stored at {}test.toml\nBookmark added successfully as test\n",
            ROOT
        )
    );
    world.typed.push("y\n".to_string());
    assert_eq!(world.tempesta(&["add", "test", "https://test.local", "test"]), 0);
    assert_eq!(
        world.out,
        format!(
            "Bookmark already exists at {}test.toml. Overwrite? (y/N): Overwriting file...\nBookmark file stored at {}test.toml\nBookmark added successfully as test\n",
            ROOT, ROOT
        )
    );
}

#[test]
fn tempesta_move() {
    let mut world = World::new(ROOT);
    assert_eq!(world.tempesta(&["add", "test", "https://test.local", "test"]), 0);
    assert_eq!(world.tempesta(&["add", "move/test", "https://test.local/moved", "test"]), 0);
    world.typed.push("y\n".to_string());
    assert_eq!(world.tempesta(&["move", "test", "move/test"]), 0);
    assert_eq!(
        world.out,
        format!(
            "A bookmark already exists at {}move/test.toml. Overwrite? [Y/n]: Bookmark moved successfully from test to move/test\n",
            ROOT
        )
    );
    assert!(!world.has_record("test"));
    assert!(world.text("move/test").contains("https://test.local"));
    assert!(!world.text("move/test").contains("moved"));
}

#[test]
fn tempesta_remove() {
    let mut world = World::new(ROOT);
    assert_eq!(world.tempesta(&["add", "move/test", "https://test.local", "test"]), 0);
    assert_eq!(world.tempesta(&["remove", "move/test"]), 0);
    assert_eq!(world.out, "Bookmark removed successfully as move/test\n");
    assert!(!world.has_record("move/test"));
    assert!(!world.dir_exists("move"));
}

#[test]
fn tempesta_update() {
    let mut world = World::new(ROOT);
    assert_eq!(world.tempesta(&["add", "t", "https://u1.test", "tag1"]), 0);
    assert_eq!(world.tempesta(&["update", "t", "https://u2.test", "tag2"]), 0);
    assert_eq!(
        world.out,
        format!(
            "Bookmark file stored at {}t.toml\nBookmark updated successfully as t\n",
            ROOT
        )
    );
    let record = tempesta::record::load_bookmark(&world.text("t")).unwrap();
    assert_eq!(record.url, "https://u2.test");
    assert_eq!(record.tags, vec!["tag2".to_string()]);
}

#[test]
fn update_needs_the_record() {
    let mut world = World::new(ROOT);
    assert_eq!(world.tempesta(&["update", "nowhere", "https://u2.test"]), 1);
    assert_eq!(world.err, format!("Bookmark not found: {}nowhere.toml\n", ROOT));
    assert_eq!(world.failure, Some(ErrorKind::NotFound));
    assert!(!world.has_record("nowhere"));
    assert!(world.nodes.is_empty());
}

#[test]
fn tempesta_list() {
    let mut world = World::new(ROOT);
    assert_eq!(world.tempesta(&["add", "x/y", "https://a.test"]), 0);
    assert_eq!(world.tempesta(&["add", "x/z/w", "https://b.test", "one", "two"]), 0);
    assert_eq!(world.tempesta(&["add", "top", "https://c.test"]), 0);
    assert_eq!(world.tempesta(&["list", "x"]), 0);
    assert_eq!(world.out, "x/y :: https://a.test\nx/z/w :: https://b.test\n");
    assert_eq!(world.tempesta(&["list"]), 0);
    assert_eq!(
        world.out,
        "top :: https://c.test\nx/y :: https://a.test\nx/z/w :: https://b.test\n"
    );
    assert_eq!(world.tempesta(&["ls", "--divisor", " | "]), 0);
    assert_eq!(
        world.out,
        "top | https://c.test\nx/y | https://a.test\nx/z/w | https://b.test\n"
    );
    assert_eq!(world.tempesta(&["l", "x/z/", "--divisor=\t"]), 0);
    assert_eq!(world.out, "x/z/w\thttps://b.test\n");
}

#[test]
fn list_of_nothing() {
    let mut world = World::new("/srv/store");
    assert_eq!(world.tempesta(&["list", "none"]), 0);
    assert_eq!(world.out, "");
    assert_eq!(world.err, "No .toml files found in /srv/store/none\nNo bookmarks found.\n");
}

#[test]
fn list_shows_a_broken_record_without_url() {
    let mut world = World::new(ROOT);
    assert_eq!(world.tempesta(&["add", "good", "https://a.test"]), 0);
    world.nodes.insert(vec!["bad.toml".to_string()], Node::File("url = [".to_string()));
    world.nodes.insert(vec!["notes.txt".to_string()], Node::File("x".to_string()));
    assert_eq!(world.tempesta(&["list"]), 0);
    assert_eq!(world.out, "bad :: N/A\ngood :: https://a.test\n");
}

#[test]
fn tempesta_open() {
    // What `open` hands to the browser is what `get` prints.
    let mut world = World::new(ROOT);
    assert_eq!(world.tempesta(&["add", "docs/rust", "https://doc.rust-lang.org", "rust"]), 0);
    assert_eq!(world.tempesta(&["get", "docs/rust"]), 0);
    assert_eq!(world.out, "https://doc.rust-lang.org\n");
    assert_eq!(world.tempesta(&["g", "docs/none"]), 1);
    assert_eq!(world.err, format!("Bookmark not found: {}docs/none.toml\n", ROOT));
}

#[test]
fn get_reports_a_corrupt_record() {
    let mut world = World::new(ROOT);
    world.nodes.insert(vec![], Node::Dir);
    world.nodes.insert(vec!["a.toml".to_string()], Node::File("tags = []\n".to_string()));
    world.nodes.insert(
        vec!["b.toml".to_string()],
        Node::File("url = \"mailto:x\"\ntags = []\n".to_string()),
    );
    assert_eq!(world.tempesta(&["get", "a"]), 1);
    assert_eq!(world.err, "Failed to parse TOML content\n");
    assert_eq!(world.failure, Some(ErrorKind::CorruptRecord));
    assert_eq!(world.tempesta(&["get", "b"]), 1);
    assert_eq!(
        world.err,
        "Invalid URL. Please use a proper format (e.g., https://example.com).\n"
    );
}

#[test]
fn create_then_list() {
    let mut world = World::new(ROOT);
    assert_eq!(world.tempesta(&["add", "x/y", "https://a.test"]), 0);
    assert_eq!(world.tempesta(&["list", "x"]), 0);
    assert!(world.out.lines().any(|line| line == "x/y :: https://a.test"));
}

#[test]
fn move_preserves_content_and_cleans_up() {
    let mut world = World::new(ROOT);
    assert_eq!(world.tempesta(&["add", "a/b", "https://a.test", "t1", "t2"]), 0);
    let before = world.text("a/b");
    assert_eq!(world.tempesta(&["move", "a/b", "c/d"]), 0);
    assert_eq!(world.out, "Bookmark moved successfully from a/b to c/d\n");
    assert!(!world.has_record("a/b"));
    assert!(world.has_record("c/d"));
    assert_eq!(world.text("c/d"), before);
    assert!(!world.dir_exists("a"));
    assert!(world.dir_exists("c"));
}

#[test]
fn move_into_a_directory_keeps_the_name() {
    let mut world = World::new(ROOT);
    assert_eq!(world.tempesta(&["add", "a/b", "https://a.test"]), 0);
    assert_eq!(world.tempesta(&["mv", "a/b", "c/"]), 0);
    assert!(world.has_record("c/b"));
    assert!(!world.dir_exists("a"));
    assert_eq!(world.out, "Bookmark moved successfully from a/b to c/\n");
}

#[test]
fn declined_move_changes_nothing() {
    let mut world = World::new(ROOT);
    assert_eq!(world.tempesta(&["add", "a/b", "https://a.test"]), 0);
    assert_eq!(world.tempesta(&["add", "c/d", "https://c.test"]), 0);
    let before = world.nodes.clone();
    world.typed.push("n\n".to_string());
    world.sync = true;
    assert_eq!(world.tempesta(&["move", "a/b", "c/d"]), 0);
    assert_eq!(world.nodes, before);
    assert!(world.ran.is_empty());
    assert_eq!(
        world.out,
        format!(
            "A bookmark already exists at {}c/d.toml. Overwrite? [Y/n]: Move operation aborted.\n",
            ROOT
        )
    );
    world.typed.push("maybe\n".to_string());
    assert_eq!(world.tempesta(&["move", "a/b", "c/d"]), 0);
    assert_eq!(world.nodes, before);
    assert!(world.out.ends_with("Invalid input, assuming 'no'.\nMove operation aborted.\n"));
}

#[test]
fn empty_answer_overwrites_on_move_but_not_on_add() {
    let mut world = World::new(ROOT);
    assert_eq!(world.tempesta(&["add", "a", "https://a.test"]), 0);
    assert_eq!(world.tempesta(&["add", "b", "https://b.test"]), 0);
    world.typed.push("\n".to_string());
    assert_eq!(world.tempesta(&["add", "a", "https://other.test"]), 0);
    assert!(world.out.ends_with("Operation cancelled.\n"));
    assert!(world.text("a").contains("https://a.test"));
    world.typed.push("what\n".to_string());
    assert_eq!(world.tempesta(&["add", "a", "https://other.test"]), 0);
    assert!(world.out.ends_with("Invalid input. Operation cancelled.\n"));
    world.typed.push("\n".to_string());
    assert_eq!(world.tempesta(&["move", "a", "b"]), 0);
    assert!(world.text("b").contains("https://a.test"));
    assert!(!world.has_record("a"));
}

#[test]
fn remove_cascades_cleanup() {
    let mut world = World::new(ROOT);
    assert_eq!(world.tempesta(&["add", "p/q/r", "https://a.test"]), 0);
    assert_eq!(world.tempesta(&["remove", "p/q/r"]), 0);
    assert!(!world.dir_exists("p/q"));
    assert!(!world.dir_exists("p"));
    assert_eq!(world.nodes.get(&Vec::new()), Some(&Node::Dir));
    assert_eq!(world.nodes.len(), 1);
}

#[test]
fn remove_stops_at_a_directory_in_use() {
    let mut world = World::new(ROOT);
    assert_eq!(world.tempesta(&["add", "p/q/r", "https://a.test"]), 0);
    assert_eq!(world.tempesta(&["add", "p/s", "https://b.test"]), 0);
    assert_eq!(world.tempesta(&["rm", "p/q/r"]), 0);
    assert!(!world.dir_exists("p/q"));
    assert!(world.dir_exists("p"));
    assert!(world.has_record("p/s"));
}

#[test]
fn remove_of_nothing_is_reported() {
    let mut world = World::new(ROOT);
    assert_eq!(world.tempesta(&["add", "kept/one", "https://a.test"]), 0);
    let before = world.nodes.clone();
    assert_eq!(world.tempesta(&["remove", "ghost"]), 1);
    assert_eq!(world.out, "");
    assert_eq!(world.err, format!("Bookmark not found: {}ghost.toml\n", ROOT));
    assert_eq!(world.failure, Some(ErrorKind::NotFound));
    assert_eq!(world.tempesta(&["remove", "no/such/record"]), 1);
    assert_eq!(world.failure, Some(ErrorKind::NotFound));
    world.typed.push("n\n".to_string());
    assert_eq!(world.tempesta(&["remove", "kept/"]), 0);
    assert_eq!(world.failure, None);
    assert_eq!(world.nodes, before);
}

#[test]
fn remove_of_a_directory_asks_first() {
    let mut world = World::new(ROOT);
    assert_eq!(world.tempesta(&["add", "p/q/r", "https://a.test"]), 0);
    assert_eq!(world.tempesta(&["add", "p/q/s", "https://b.test"]), 0);
    assert_eq!(world.tempesta(&["add", "keep", "https://c.test"]), 0);
    world.typed.push("no\n".to_string());
    assert_eq!(world.tempesta(&["remove", "p/q"]), 0);
    assert_eq!(
        world.out,
        "Bookmark not found as a file, but 'p/q' is a directory. Do you want to delete it and all its bookmarks? [Y/n] Operation canceled.\n"
    );
    assert!(world.has_record("p/q/r"));
    world.typed.push("\n".to_string());
    assert_eq!(world.tempesta(&["remove", "p/q"]), 0);
    assert!(world.out.ends_with("Directory and all bookmarks removed: p/q\n"));
    assert!(!world.dir_exists("p/q"));
    assert!(!world.dir_exists("p"));
    assert!(world.has_record("keep"));
}

#[test]
fn invalid_input_fails_before_any_change() {
    let mut world = World::new(ROOT);
    assert_eq!(world.tempesta(&["add", "a b", "https://a.test"]), 1);
    assert_eq!(world.err, "Invalid path. Please avoid spaces and special characters.\n");
    assert_eq!(world.failure, Some(ErrorKind::InvalidPath));
    assert!(world.nodes.is_empty());
    assert_eq!(world.tempesta(&["add", "../escape", "https://a.test"]), 1);
    assert!(world.nodes.is_empty());
    assert_eq!(world.tempesta(&["add", "a//b", "https://a.test"]), 1);
    assert!(world.nodes.is_empty());
    assert_eq!(world.tempesta(&["add", "a", "not a url"]), 1);
    assert_eq!(
        world.err,
        "Invalid URL. Please use a proper format (e.g., https://example.com).\n"
    );
    assert_eq!(world.failure, Some(ErrorKind::InvalidUrl));
    assert!(world.nodes.is_empty());
    assert!(world.actions.is_empty());
}

#[test]
fn a_bad_url_changes_nothing() {
    let mut world = World::new(ROOT);
    world.sync = true;
    assert_eq!(world.tempesta(&["add", "x/y", "not-a-url"]), 1);
    assert_eq!(world.failure, Some(ErrorKind::InvalidUrl));
    assert_eq!(
        world.err,
        "Invalid URL. Please use a proper format (e.g., https://example.com).\n"
    );
    assert!(world.nodes.is_empty());
    assert!(!world.dir_exists("x"));
    assert!(world.actions.is_empty());
    assert!(world.ran.is_empty());
    assert_eq!(world.tempesta(&["add", "x/y", "https://a.test"]), 0);
    world.ran.clear();
    let before = world.nodes.clone();
    assert_eq!(world.tempesta(&["update", "x/y", "not-a-url"]), 1);
    assert_eq!(world.failure, Some(ErrorKind::InvalidUrl));
    assert_eq!(world.tempesta(&["update", "x/z/w", "not-a-url"]), 1);
    assert_eq!(world.failure, Some(ErrorKind::InvalidUrl));
    assert_eq!(world.nodes, before);
    assert!(world.ran.is_empty());
}

#[test]
fn a_missing_record_changes_nothing() {
    let mut world = World::new(ROOT);
    world.sync = true;
    assert_eq!(world.tempesta(&["update", "n/m", "https://a.test"]), 1);
    assert_eq!(world.failure, Some(ErrorKind::NotFound));
    assert_eq!(world.err, format!("Bookmark not found: {}n/m.toml\n", ROOT));
    assert!(world.nodes.is_empty());
    assert!(!world.dir_exists("n"));
    assert!(world.ran.is_empty());
    assert_eq!(world.tempesta(&["move", "n/m", "o/p"]), 1);
    assert_eq!(world.failure, Some(ErrorKind::NotFound));
    assert_eq!(world.tempesta(&["remove", "n/m"]), 1);
    assert_eq!(world.failure, Some(ErrorKind::NotFound));
    assert_eq!(world.tempesta(&["get", "n/m"]), 1);
    assert_eq!(world.failure, Some(ErrorKind::NotFound));
    assert_eq!(world.tempesta(&["edit", "n/m"]), 1);
    assert_eq!(world.failure, Some(ErrorKind::NotFound));
    assert_eq!(world.err, format!("Bookmark file does not exist: {}n/m.toml\n", ROOT));
    assert_eq!(world.tempesta(&["list", "n"]), 0);
    assert!(world.nodes.is_empty());
    assert!(world.ran.is_empty());
    assert!(!world.actions.iter().any(|a| a == "MakeDirs"));
}

#[test]
fn tempesta_edit() {
    let mut world = World::new(ROOT);
    world.sync = true;
    assert_eq!(world.tempesta(&["add", "a/b", "https://a.test"]), 0);
    world.ran.clear();
    assert_eq!(world.tempesta(&["edit", "a/b"]), 0);
    assert_eq!(world.out, "No changes made.\n");
    assert!(world.ran.is_empty());
    world.editor = Editor::Writes("url = \"https://b.test\"\ntags = []\n".to_string());
    assert_eq!(world.tempesta(&["e", "a/b"]), 0);
    assert_eq!(world.out, "Bookmark edited successfully as a/b\n");
    assert_eq!(
        world.ran,
        vec![
            vec!["add".to_string(), "-A".to_string()],
            vec!["commit".to_string(), "-m".to_string(), format!("Edit bookmark {}a/b.toml", ROOT)],
        ]
    );
    assert_eq!(world.tempesta(&["get", "a/b"]), 0);
    assert_eq!(world.out, "https://b.test\n");
    world.ran.clear();
    world.editor = Editor::Fails;
    assert_eq!(world.tempesta(&["edit", "a/b"]), 0);
    assert_eq!(world.err, "Failed to edit bookmark file.\n");
    assert_eq!(world.failure, None);
    world.editor = Editor::Missing;
    assert_eq!(world.tempesta(&["edit", "a/b"]), 1);
    assert_eq!(world.err, "Failed to open editor: No such file or directory\n");
    assert_eq!(world.failure, Some(ErrorKind::FsError));
    assert!(world.ran.is_empty());
    assert_eq!(world.tempesta(&["edit"]), 1);
    assert_eq!(world.err, "Usage: tempesta edit <path>\n");
    assert_eq!(world.tempesta(&["edit", "a b"]), 1);
    assert_eq!(world.failure, Some(ErrorKind::InvalidPath));
}

#[test]
fn usage_is_reported() {
    let mut world = World::new(ROOT);
    assert_eq!(world.tempesta(&["add", "only-path"]), 1);
    assert_eq!(world.err, "Usage: tempesta add <path> <url> [tags...]\n");
    assert_eq!(world.tempesta(&["update"]), 1);
    assert_eq!(world.err, "Usage: tempesta update <path> <url> [tags...]\n");
    assert_eq!(world.tempesta(&["move", "a"]), 1);
    assert_eq!(world.err, "Usage: tempesta move <path-from> <path-to>\n");
    assert_eq!(world.tempesta(&["remove"]), 1);
    assert_eq!(world.err, "Usage: tempesta remove <path>\n");
    assert_eq!(world.tempesta(&["get"]), 1);
    assert_eq!(world.err, "Usage: tempesta get <path>\n");
    assert!(matches!(
        run(world.settings(), &vec!["tempesta".to_string(), "init".to_string()]),
        Launch::Unknown
    ));
    assert!(matches!(run(world.settings(), &vec!["tempesta".to_string()]), Launch::Refused(_)));
}

#[test]
fn changes_are_committed_and_pushed() {
    let mut world = World::new(ROOT);
    world.sync = true;
    assert_eq!(world.tempesta(&["add", "a/b", "https://a.test"]), 0);
    assert_eq!(
        world.ran,
        vec![vec!["add", "-A"], vec!["commit", "-m", "Add bookmark a/b"]]
    );
    world.ran.clear();
    world.remote = true;
    assert_eq!(world.tempesta(&["move", "a/b", "c"]), 0);
    assert_eq!(
        world.ran,
        vec![
            vec!["add", "-A"],
            vec!["commit", "-m", "Move bookmark from a/b to c"],
            vec!["push", "-u", "--all"]
        ]
    );
    assert_eq!(
        world.out,
        "Pushing changes to remote origin...\nBookmark moved successfully from a/b to c\n"
    );
    world.ran.clear();
    assert_eq!(world.tempesta(&["remove", "c"]), 0);
    assert_eq!(world.ran[1], vec!["commit", "-m", "Remove bookmark c"]);
    world.ran.clear();
    assert_eq!(world.tempesta(&["get", "c"]), 1);
    assert_eq!(world.tempesta(&["list"]), 0);
    assert!(world.ran.is_empty());
}

#[test]
fn a_failed_commit_fails_the_command() {
    let mut world = World::new(ROOT);
    world.sync = true;
    world.remote = true;
    world.failing_git = Some("commit".to_string());
    assert_eq!(world.tempesta(&["add", "a", "https://a.test"]), 1);
    assert_eq!(world.err, "Failed to commit to git: exit status: 1\n");
    assert_eq!(world.failure, Some(ErrorKind::SyncError));
    assert_eq!(world.ran.len(), 2);
    assert!(world.has_record("a"));
    world.failing_git = Some("push".to_string());
    world.ran.clear();
    assert_eq!(world.tempesta(&["update", "a", "https://b.test"]), 1);
    assert_eq!(world.err, "Cannot push to origin: exit status: 1\n");
    assert_eq!(world.ran.len(), 3);
}

#[test]
fn a_failed_write_fails_the_command_without_commit() {
    let mut world = World::new(ROOT);
    world.sync = true;
    world.failing_write = true;
    assert_eq!(world.tempesta(&["add", "a", "https://a.test"]), 1);
    assert_eq!(world.err, "Failed to write bookmark file: Permission denied\n");
    assert_eq!(world.failure, Some(ErrorKind::WriteError));
    assert!(world.ran.is_empty());
}

#[test]
fn a_stray_reply_ends_the_machine() {
    let settings = Settings { root: ROOT.to_string(), sync: false, remote: false };
    let (machine, turn) = Machine::start(settings, Request::Get { path: "a".to_string() });
    assert!(matches!(turn.action, Action::Read(_)));
    assert!(matches!(machine.phase, Phase::Read));
    let (machine, turn) = machine.step(Event::Found(true));
    assert!(matches!(machine.phase, Phase::Failed(ErrorKind::FsError)));
    assert!(matches!(turn.action, Action::Exit(1)));
    let (_, turn) = machine.step(Event::Done);
    assert!(matches!(turn.action, Action::Exit(1)));
}

#[test]
fn a_file_in_the_way_fails_the_command() {
    let mut world = World::new(ROOT);
    assert_eq!(world.tempesta(&["add", "a", "https://a.test"]), 0);
    // `a.toml` is a file, so no record can live below it.
    assert_eq!(world.tempesta(&["add", "a.toml/b", "https://b.test"]), 1);
    assert_eq!(world.err, "Failed to create directory: Not a directory\n");
    assert_eq!(world.failure, Some(ErrorKind::FsError));
    assert_eq!(world.tempesta(&["move", "a", "a.toml/b"]), 1);
    assert_eq!(world.err, "Failed to create destination directory: Not a directory\n");
    assert_eq!(world.failure, Some(ErrorKind::FsError));
    assert!(world.has_record("a"));
    assert_eq!(world.tempesta(&["move", "nothing", "b"]), 1);
    assert_eq!(world.failure, Some(ErrorKind::NotFound));
}

#[test]
fn a_declined_command_has_not_failed() {
    let mut world = World::new(ROOT);
    assert_eq!(world.tempesta(&["add", "a", "https://a.test"]), 0);
    assert_eq!(world.failure, None);
    world.typed.push("n\n".to_string());
    assert_eq!(world.tempesta(&["add", "a", "https://b.test"]), 0);
    assert_eq!(world.failure, None);
    world.typed.push("n\n".to_string());
    assert_eq!(world.tempesta(&["move", "a", "a"]), 0);
    assert_eq!(world.failure, None);
}

fn by_hand(request: Request, phase: Phase) -> Machine {
    Machine {
        settings: Settings { root: ROOT.to_string(), sync: false, remote: false },
        request,
        phase,
    }
}

#[test]
fn a_machine_put_together_by_hand_stays_inside_the_store() {
    // A request that leaves the store is refused in whatever phase.
    let outside = Request::Add {
        path: "../x".to_string(),
        url: "https://a.test".to_string(),
        tags: Vec::new(),
    };
    let (machine, turn) = by_hand(outside, Phase::Dirs).step(Event::Done);
    assert!(matches!(machine.phase, Phase::Failed(ErrorKind::InvalidPath)));
    assert!(matches!(turn.action, Action::Exit(1)));

    // A directory with a dot name is never removed.
    let dots = Request::Remove { path: "x/..".to_string() };
    let (machine, turn) = by_hand(dots, Phase::Gate).step(Event::Line("y\n".to_string()));
    assert!(matches!(machine.phase, Phase::Failed(ErrorKind::FsError)));
    assert!(matches!(turn.action, Action::Exit(1)));

    // A phase that is not one of the request is refused.
    let get = Request::Get { path: "a".to_string() };
    let (machine, turn) = by_hand(get, Phase::Rename).step(Event::Done);
    assert!(matches!(machine.phase, Phase::Failed(ErrorKind::FsError)));
    assert!(matches!(turn.action, Action::Exit(1)));

    // The sweep never asks for the root, nor for a directory outside.
    for segments in [vec![], vec!["..".to_string()], vec!["a".to_string(), "".to_string()]] {
        let remove = Request::Remove { path: "a/b".to_string() };
        let dir = PhysicalPath { root: ROOT.to_string(), segments };
        let phase = Phase::Sweep { dir, change: tempesta::command::Change::RemovedRecord };
        let (machine, turn) = by_hand(remove, phase).step(Event::Done);
        assert!(matches!(machine.phase, Phase::Failed(ErrorKind::FsError)));
        assert!(matches!(turn.action, Action::Exit(1)));
    }
    let remove = Request::Remove { path: "a/b".to_string() };
    let dir = PhysicalPath { root: ROOT.to_string(), segments: vec!["a".to_string()] };
    let phase = Phase::Sweep { dir, change: tempesta::command::Change::RemovedRecord };
    let (machine, turn) = by_hand(remove, phase).step(Event::Done);
    assert!(matches!(machine.phase, Phase::Finished));
    assert!(matches!(turn.action, Action::Exit(0)));
}

#[test]
fn a_listing_keeps_to_plain_names() {
    let list = Request::List { subpath: None, divisor: " :: ".to_string() };
    let files = vec![
        vec!["..".to_string(), "out.toml".to_string()],
        vec!["in.toml".to_string()],
        vec!["".to_string(), "odd.toml".to_string()],
    ];
    let (machine, turn) = by_hand(list, Phase::Walk).step(Event::Files(files));
    match (&machine.phase, &turn.action) {
        (Phase::ReadEach { files, index: 0 }, Action::Read(at)) => {
            assert_eq!(files, &vec![vec!["in.toml".to_string()]]);
            assert_eq!(at.segments, vec!["in.toml"]);
        }
        other => panic!("{:?}", other),
    }
}
