//! Configuration: where the store lives and whether it is kept under version
//! control.
//!
//! The configuration file is read and written by the caller. This module
//! holds its fields, the places derived from them, and the one question that
//! only the machine can answer: where the user's home directory is.

use vstd::prelude::*;
use vstd::string::*;
use crate::text::{has_prefix, to_chars};

verus! {

/// The fields of the configuration file.
#[derive(Debug)]
pub struct Config {
    /// Whether changes are committed with git.
    pub git: bool,
    pub pull_before_push: Option<bool>,
    pub rebase_on_pull: Option<bool>,
    /// The remote that commits are pushed to, if there is one.
    pub remote: Option<String>,
    /// The store root; a leading `~` stands for the home directory.
    pub dir: String,
}

/// What the commands need to know of the configuration.
#[derive(Debug)]
pub struct Settings {
    /// The store root, with the home directory filled in.
    pub root: String,
    /// Whether changes are committed.
    pub sync: bool,
    /// Whether commits are pushed.
    pub remote: bool,
}

/// What a `Settings` stands for.
pub struct SettingsView {
    pub root: Seq<char>,
    pub sync: bool,
    pub remote: bool,
}

impl View for Settings {
    type V = SettingsView;

    open spec fn view(&self) -> SettingsView {
        SettingsView { root: self.root@, sync: self.sync, remote: self.remote }
    }
}

/// The user's home directory, asked of `dirs::home_dir`, as text. The answer
/// depends on the environment and the machine, so nothing is promised of it.
#[verifier::external_body]
pub(crate) fn home_dir() -> Option<String> {
    dirs::home_dir().map(|home| home.to_string_lossy().into_owned())
}

pub open spec fn home_mark() -> Seq<char> {
    seq!['~', '/']
}

/// `s` without the marks `~/` it begins with.
pub open spec fn unmarked(s: Seq<char>) -> Seq<char>
    decreases s.len(),
{
    if home_mark().is_prefix_of(s) {
        unmarked(s.skip(2))
    } else {
        s
    }
}

/// The path `rest` taken from the directory `base`: an absolute `rest`
/// stands for itself, any other is appended, after a slash where `base` does
/// not end in one.
pub open spec fn under(base: Seq<char>, rest: Seq<char>) -> Seq<char> {
    if rest.len() > 0 && rest[0] == '/' {
        rest
    } else if base.len() == 0 || base.last() == '/' {
        base + rest
    } else {
        base.push('/') + rest
    }
}

/// `path` with a leading `~` replaced by the home directory. Without a home
/// directory, and for a path that does not begin with `~`, the path stands
/// for itself.
pub open spec fn expanded(path: Seq<char>, home: Option<Seq<char>>) -> Seq<char> {
    match home {
        Some(home) => if path == seq!['~'] {
            home
        } else if home_mark().is_prefix_of(path) {
            under(home, unmarked(path))
        } else {
            path
        },
        None => path,
    }
}

/// The path `rest` taken from the directory `base`.
pub fn join_under(base: &str, rest: &str) -> (r: String)
    ensures
        r@ == under(base@, rest@),
{
    let rest_chars = to_chars(rest);
    if rest_chars.len() > 0 && rest_chars[0] == '/' {
        return String::from_str(rest);
    }
    let base_chars = to_chars(base);
    let mut out = String::from_str(base);
    if base_chars.len() > 0 && base_chars[base_chars.len() - 1] != '/' {
        proof {
            reveal_strlit("/");
        }
        out.append("/");
        assert(out@ =~= base@.push('/'));
    }
    out.append(rest);
    out
}

/// Replaces a leading `~` by `home`, where there is one.
pub fn expand_tilde_with(path: &str, home: Option<&str>) -> (r: String)
    ensures
        r@ == expanded(path@, home.deep_view()),
{
    let home = match home {
        Some(home) => home,
        None => {
            return String::from_str(path);
        },
    };
    let chars = to_chars(path);
    if chars.len() == 1 && chars[0] == '~' {
        assert(chars@ =~= seq!['~']);
        return String::from_str(home);
    }
    let mark = vec!['~', '/'];
    assert(mark@ =~= home_mark());
    if !has_prefix(&chars, &mark) {
        return String::from_str(path);
    }
    let n = chars.len();
    let mut from: usize = 0;
    assert(chars@.skip(0) =~= chars@);
    while n - from >= 2 && chars[from] == '~' && chars[from + 1] == '/'
        invariant
            n == chars@.len(),
            from <= n,
            unmarked(chars@) == unmarked(chars@.skip(from as int)),
        decreases n - from,
    {
        let ghost rest = chars@.skip(from as int);
        assert(rest.subrange(0, 2) =~= home_mark());
        assert(rest.skip(2) =~= chars@.skip(from + 2));
        from += 2;
    }
    proof {
        let rest = chars@.skip(from as int);
        if home_mark().is_prefix_of(rest) {
            assert(rest[0] == home_mark()[0]);
            assert(rest[1] == home_mark()[1]);
        }
        assert(chars@.skip(from as int) =~= chars@.subrange(from as int, n as int));
    }
    join_under(home, path.substring_char(from, n))
}

/// Replaces a leading `~` by the user's home directory. A path that does not
/// begin with `~` comes back unchanged, whatever the machine says.
pub fn expand_tilde(path: &str) -> (r: String)
    ensures
        exists|home: Option<Seq<char>>| r@ == expanded(path@, home),
        path@ != seq!['~'] && !home_mark().is_prefix_of(path@) ==> r@ == path@,
{
    let home = home_dir();
    let r = match &home {
        Some(home) => expand_tilde_with(path, Some(home.as_str())),
        None => expand_tilde_with(path, None),
    };
    assert(r@ == expanded(path@, home.deep_view()));
    r
}

/// The store root that a configuration names, with `home` filled in.
pub fn get_bookmark_store_dir_path(config: &Config, home: Option<&str>) -> (r: String)
    ensures
        r@ == expanded(config.dir@, home.deep_view()),
{
    expand_tilde_with(config.dir.as_str(), home)
}

/// What the commands need to know of a configuration.
pub fn settings_from(config: &Config, home: Option<&str>) -> (r: Settings)
    ensures
        r@ == (SettingsView {
            root: expanded(config.dir@, home.deep_view()),
            sync: config.git,
            remote: config.remote is Some,
        }),
{
    Settings {
        root: get_bookmark_store_dir_path(config, home),
        sync: config.git,
        remote: config.remote.is_some(),
    }
}

/// What the commands need to know of a configuration, with the user's home
/// directory filled in for a leading `~` of the store root.
pub fn load_settings(config: &Config) -> (r: Settings)
    ensures
        exists|home: Option<Seq<char>>|
            r@ == (SettingsView {
                root: expanded(config.dir@, home),
                sync: config.git,
                remote: config.remote is Some,
            }),
{
    let home = home_dir();
    let r = match &home {
        Some(home) => settings_from(config, Some(home.as_str())),
        None => settings_from(config, None),
    };
    assert(r@.root == expanded(config.dir@, home.deep_view()));
    r
}

/// Where the configuration file is, and the directory to create for it
/// first, if any.
#[derive(Debug)]
pub struct ConfigLocation {
    pub file: String,
    pub directory: Option<String>,
}

pub open spec fn config_directory_name() -> Seq<char> {
    seq!['.', 'c', 'o', 'n', 'f', 'i', 'g', '/', 't', 'e', 'm', 'p', 'e', 's', 't', 'a']
}

pub open spec fn config_file_name() -> Seq<char> {
    seq!['t', 'e', 'm', 'p', 'e', 's', 't', 'a', '.', 't', 'o', 'm', 'l']
}

/// The configuration file to use: the one asked for, else the default one
/// below the home directory, whose directory is then to be created. Without
/// either there is none.
pub open spec fn config_location(chosen: Option<Seq<char>>, home: Option<Seq<char>>) -> Option<
    (Seq<char>, Option<Seq<char>>),
> {
    match chosen {
        Some(file) => Some((file, None)),
        None => match home {
            Some(home) => {
                let directory = under(home, config_directory_name());
                Some((under(directory, config_file_name()), Some(directory)))
            },
            None => None,
        },
    }
}

pub open spec fn location_view(r: Option<ConfigLocation>) -> Option<
    (Seq<char>, Option<Seq<char>>),
> {
    match r {
        Some(location) => Some((location.file@, location.directory.deep_view())),
        None => None,
    }
}

/// The configuration file to use, given the one asked for and the home
/// directory.
pub fn config_location_with(chosen: Option<&str>, home: Option<&str>) -> (r: Option<
    ConfigLocation,
>)
    ensures
        location_view(r) == config_location(chosen.deep_view(), home.deep_view()),
{
    match chosen {
        Some(file) => Some(ConfigLocation { file: String::from_str(file), directory: None }),
        None => match home {
            Some(home) => {
                proof {
                    reveal_strlit(".config/tempesta");
                    reveal_strlit("tempesta.toml");
                }
                assert(".config/tempesta"@ =~= config_directory_name());
                assert("tempesta.toml"@ =~= config_file_name());
                let directory = join_under(home, ".config/tempesta");
                let file = join_under(directory.as_str(), "tempesta.toml");
                Some(ConfigLocation { file, directory: Some(directory) })
            },
            None => None,
        },
    }
}

/// The configuration file to use: the one asked for, else the default one
/// below the user's home directory.
pub fn get_config_file_path(chosen: Option<&str>) -> (r: Option<ConfigLocation>)
    ensures
        exists|home: Option<Seq<char>>|
            location_view(r) == config_location(chosen.deep_view(), home),
        chosen is Some ==> location_view(r) == Some((chosen.unwrap()@, None::<Seq<char>>)),
{
    let home = home_dir();
    let r = match &home {
        Some(home) => config_location_with(chosen, Some(home.as_str())),
        None => config_location_with(chosen, None),
    };
    assert(location_view(r) == config_location(chosen.deep_view(), home.deep_view()));
    r
}

/// How a yes or no is shown.
pub open spec fn shown_flag(flag: bool) -> Seq<char> {
    if flag {
        "true"@
    } else {
        "false"@
    }
}

/// The lines that describe a configuration: whether git is used, the
/// remote, the two options on pulling where they are set, and the store
/// root.
pub open spec fn description(
    git: bool,
    pull_before_push: Option<bool>,
    rebase_on_pull: Option<bool>,
    remote: Option<Seq<char>>,
    dir: Seq<char>,
) -> Seq<Seq<char>> {
    let head = seq![
        "Git enabled:              "@ + shown_flag(git),
        match remote {
            Some(remote) => "Remote:                   "@ + remote,
            None => "Remote: None"@,
        },
    ];
    let pull = match pull_before_push {
        Some(flag) => seq!["Pull before push enabled: "@ + shown_flag(flag)],
        None => Seq::empty(),
    };
    let rebase = match rebase_on_pull {
        Some(flag) => seq!["Rebase on pull enabled:   "@ + shown_flag(flag)],
        None => Seq::empty(),
    };
    head + pull + rebase + seq!["Bookmark store directory: "@ + dir]
}

fn flag_text(flag: bool) -> (r: &'static str)
    ensures
        r@ == shown_flag(flag),
{
    if flag {
        "true"
    } else {
        "false"
    }
}

/// The lines that describe a configuration.
pub fn describe(config: &Config) -> (lines: Vec<String>)
    ensures
        lines.deep_view() == description(
            config.git,
            config.pull_before_push,
            config.rebase_on_pull,
            config.remote.deep_view(),
            config.dir@,
        ),
{
    let mut lines: Vec<String> = Vec::new();
    lines.push(String::from_str("Git enabled:              ").concat(flag_text(config.git)));
    match &config.remote {
        Some(remote) => {
            lines.push(String::from_str("Remote:                   ").concat(remote.as_str()));
        },
        None => {
            lines.push(String::from_str("Remote: None"));
        },
    }
    let ghost head = lines.deep_view();
    assert(head =~= seq![
        "Git enabled:              "@ + shown_flag(config.git),
        match config.remote.deep_view() {
            Some(remote) => "Remote:                   "@ + remote,
            None => "Remote: None"@,
        },
    ]);
    match config.pull_before_push {
        Some(flag) => {
            lines.push(String::from_str("Pull before push enabled: ").concat(flag_text(flag)));
            assert(lines.deep_view() =~= head + seq![
                "Pull before push enabled: "@ + shown_flag(flag),
            ]);
        },
        None => {
            assert(lines.deep_view() =~= head + Seq::<Seq<char>>::empty());
        },
    }
    let ghost middle = lines.deep_view();
    match config.rebase_on_pull {
        Some(flag) => {
            lines.push(String::from_str("Rebase on pull enabled:   ").concat(flag_text(flag)));
            assert(lines.deep_view() =~= middle + seq![
                "Rebase on pull enabled:   "@ + shown_flag(flag),
            ]);
        },
        None => {
            assert(lines.deep_view() =~= middle + Seq::<Seq<char>>::empty());
        },
    }
    let ghost body = lines.deep_view();
    lines.push(String::from_str("Bookmark store directory: ").concat(config.dir.as_str()));
    assert(lines.deep_view() =~= body + seq!["Bookmark store directory: "@ + config.dir@]);
    lines
}

} // verus!
