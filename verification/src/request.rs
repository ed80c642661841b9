//! What the user asks of the store.
//!
//! A request is read from the words of the command line: the name of the
//! program, the name of the command, and the command's own arguments.

use vstd::prelude::*;
use vstd::string::*;
use crate::text::{has_prefix, same_text, to_chars};

verus! {

/// A command on the store, with its arguments.
#[derive(Debug)]
pub enum Request {
    /// Store a new bookmark.
    Add { path: String, url: String, tags: Vec<String> },
    /// Replace a bookmark that exists.
    Update { path: String, url: String, tags: Vec<String> },
    /// Give a bookmark another path.
    Move { from: String, to: String },
    /// Delete a bookmark, or a directory of bookmarks.
    Remove { path: String },
    /// Print the URL of a bookmark.
    Get { path: String },
    /// Open the file of a bookmark in the user's editor.
    Edit { path: String },
    /// Print the bookmarks below a directory, each with its URL.
    List { subpath: Option<String>, divisor: String },
}

/// What a `Request` stands for.
pub enum RequestView {
    Add { path: Seq<char>, url: Seq<char>, tags: Seq<Seq<char>> },
    Update { path: Seq<char>, url: Seq<char>, tags: Seq<Seq<char>> },
    Move { from: Seq<char>, to: Seq<char> },
    Remove { path: Seq<char> },
    Get { path: Seq<char> },
    Edit { path: Seq<char> },
    List { subpath: Option<Seq<char>>, divisor: Seq<char> },
}

impl View for Request {
    type V = RequestView;

    open spec fn view(&self) -> RequestView {
        match self {
            Request::Add { path, url, tags } => RequestView::Add {
                path: path@,
                url: url@,
                tags: tags.deep_view(),
            },
            Request::Update { path, url, tags } => RequestView::Update {
                path: path@,
                url: url@,
                tags: tags.deep_view(),
            },
            Request::Move { from, to } => RequestView::Move { from: from@, to: to@ },
            Request::Remove { path } => RequestView::Remove { path: path@ },
            Request::Get { path } => RequestView::Get { path: path@ },
            Request::Edit { path } => RequestView::Edit { path: path@ },
            Request::List { subpath, divisor } => RequestView::List {
                subpath: subpath.deep_view(),
                divisor: divisor@,
            },
        }
    }
}

/// What the words of a command line amount to.
#[derive(Debug)]
pub enum Parsed {
    /// A command on the store.
    Command(Request),
    /// A command on the store that lacks arguments; the text says which it
    /// takes.
    Usage(String),
    /// Not a command on the store.
    Other,
}

/// What a `Parsed` stands for.
pub enum ParsedView {
    Command(RequestView),
    Usage(Seq<char>),
    Other,
}

impl View for Parsed {
    type V = ParsedView;

    open spec fn view(&self) -> ParsedView {
        match self {
            Parsed::Command(request) => ParsedView::Command(request@),
            Parsed::Usage(text) => ParsedView::Usage(text@),
            Parsed::Other => ParsedView::Other,
        }
    }
}

/// The separator that `list` puts between a bookmark and its URL unless told
/// otherwise.
pub open spec fn default_divisor() -> Seq<char> {
    seq![' ', ':', ':', ' ']
}

pub open spec fn divisor_flag() -> Seq<char> {
    "--divisor"@
}

pub open spec fn divisor_assignment() -> Seq<char> {
    seq!['-', '-', 'd', 'i', 'v', 'i', 's', 'o', 'r', '=']
}

/// The options of `list`, read from the words from `from` on. The word
/// after `--divisor`, or the rest of a word that begins with `--divisor=`,
/// is the separator; the first other word is the directory to list. Where
/// an option is given twice, the last one counts.
pub open spec fn listing_options(
    words: Seq<Seq<char>>,
    from: int,
    subpath: Option<Seq<char>>,
    divisor: Seq<char>,
) -> (Option<Seq<char>>, Seq<char>)
    decreases words.len() - from,
{
    if from < 0 || from >= words.len() {
        (subpath, divisor)
    } else if words[from] == divisor_flag() {
        if from + 1 < words.len() {
            listing_options(words, from + 2, subpath, words[from + 1])
        } else {
            (subpath, divisor)
        }
    } else if divisor_assignment().is_prefix_of(words[from]) {
        listing_options(words, from + 1, subpath, words[from].skip(10))
    } else if subpath is None {
        listing_options(words, from + 1, Some(words[from]), divisor)
    } else {
        listing_options(words, from + 1, subpath, divisor)
    }
}

/// Whether `word` is one of the up to three names of a command.
pub open spec fn names(word: Seq<char>, a: Seq<char>, b: Seq<char>, c: Seq<char>) -> bool {
    word == a || word == b || word == c
}

/// The request that the words of a command line make.
pub open spec fn parsed(words: Seq<Seq<char>>) -> ParsedView {
    if words.len() < 2 {
        ParsedView::Usage("Usage: tempesta <command> [options]"@)
    } else if names(words[1], "add"@, "a"@, "a"@) {
        if words.len() < 4 {
            ParsedView::Usage("Usage: tempesta add <path> <url> [tags...]"@)
        } else {
            ParsedView::Command(
                RequestView::Add { path: words[2], url: words[3], tags: words.skip(4) },
            )
        }
    } else if names(words[1], "update"@, "u"@, "u"@) {
        if words.len() < 4 {
            ParsedView::Usage("Usage: tempesta update <path> <url> [tags...]"@)
        } else {
            ParsedView::Command(
                RequestView::Update { path: words[2], url: words[3], tags: words.skip(4) },
            )
        }
    } else if names(words[1], "move"@, "m"@, "mv"@) {
        if words.len() < 4 {
            ParsedView::Usage("Usage: tempesta move <path-from> <path-to>"@)
        } else {
            ParsedView::Command(RequestView::Move { from: words[2], to: words[3] })
        }
    } else if names(words[1], "remove"@, "r"@, "rm"@) {
        if words.len() < 3 {
            ParsedView::Usage("Usage: tempesta remove <path>"@)
        } else {
            ParsedView::Command(RequestView::Remove { path: words[2] })
        }
    } else if names(words[1], "get"@, "g"@, "g"@) {
        if words.len() < 3 {
            ParsedView::Usage("Usage: tempesta get <path>"@)
        } else {
            ParsedView::Command(RequestView::Get { path: words[2] })
        }
    } else if names(words[1], "edit"@, "e"@, "e"@) {
        if words.len() < 3 {
            ParsedView::Usage("Usage: tempesta edit <path>"@)
        } else {
            ParsedView::Command(RequestView::Edit { path: words[2] })
        }
    } else if names(words[1], "list"@, "l"@, "ls"@) {
        let options = listing_options(words, 2, None, default_divisor());
        ParsedView::Command(RequestView::List { subpath: options.0, divisor: options.1 })
    } else {
        ParsedView::Other
    }
}

/// Whether `word` is one of the up to three names of a command.
fn is_named(word: &str, a: &str, b: &str, c: &str) -> (r: bool)
    ensures
        r == names(word@, a@, b@, c@),
{
    same_text(word, a) || same_text(word, b) || same_text(word, c)
}

/// The words from `from` on.
fn words_from(words: &Vec<String>, from: usize) -> (r: Vec<String>)
    requires
        from <= words.len(),
    ensures
        r.deep_view() == words.deep_view().skip(from as int),
{
    let mut out: Vec<String> = Vec::new();
    let mut i: usize = from;
    while i < words.len()
        invariant
            from <= i <= words.len(),
            out.deep_view() == words.deep_view().subrange(from as int, i as int),
        decreases words.len() - i,
    {
        let ghost before = out.deep_view();
        out.push(words[i].clone());
        assert(out.deep_view() =~= before.push(words@[i as int]@));
        assert(words.deep_view().subrange(from as int, i + 1) =~= before.push(words@[i as int]@));
        i += 1;
    }
    assert(words.deep_view().subrange(from as int, words.len() as int) =~= words.deep_view().skip(
        from as int,
    ));
    out
}

/// Reads the options of `list` from the words after the command.
fn read_listing_options(words: &Vec<String>) -> (r: (Option<String>, String))
    requires
        words.len() >= 2,
    ensures
        (r.0.deep_view(), r.1@) == listing_options(words.deep_view(), 2, None, default_divisor()),
{
    proof {
        reveal_strlit(" :: ");
    }
    assert(" :: "@ =~= default_divisor());
    let mut subpath: Option<String> = None;
    let mut divisor = String::from_str(" :: ");
    let assignment = vec!['-', '-', 'd', 'i', 'v', 'i', 's', 'o', 'r', '='];
    assert(assignment@ =~= divisor_assignment());
    let ghost all = words.deep_view();
    let mut i: usize = 2;
    while i < words.len()
        invariant
            2 <= i <= words.len(),
            all == words.deep_view(),
            assignment@ == divisor_assignment(),
            listing_options(all, 2, None, default_divisor()) == listing_options(
                all,
                i as int,
                subpath.deep_view(),
                divisor@,
            ),
        decreases words.len() - i,
    {
        assert(all[i as int] == words@[i as int]@);
        let word = words[i].as_str();
        let chars = to_chars(word);
        if same_text(word, "--divisor") {
            if i + 1 < words.len() {
                assert(all[i + 1] == words@[i + 1]@);
                divisor = words[i + 1].clone();
                i += 2;
            } else {
                i += 1;
            }
        } else if has_prefix(&chars, &assignment) {
            let n = chars.len();
            assert(word@.skip(10) =~= word@.subrange(10, n as int));
            divisor = String::from_str(word.substring_char(10, n));
            i += 1;
        } else if subpath.is_none() {
            subpath = Some(words[i].clone());
            i += 1;
        } else {
            i += 1;
        }
    }
    (subpath, divisor)
}

/// Reads a request from the words of a command line.
pub fn parse_request(words: &Vec<String>) -> (r: Parsed)
    ensures
        r@ == parsed(words.deep_view()),
{
    let ghost all = words.deep_view();
    if words.len() < 2 {
        return Parsed::Usage(String::from_str("Usage: tempesta <command> [options]"));
    }
    assert(all[1] == words@[1]@);
    let word = words[1].as_str();
    if is_named(word, "add", "a", "a") {
        if words.len() < 4 {
            return Parsed::Usage(String::from_str("Usage: tempesta add <path> <url> [tags...]"));
        }
        assert(all[2] == words@[2]@ && all[3] == words@[3]@);
        Parsed::Command(
            Request::Add {
                path: words[2].clone(),
                url: words[3].clone(),
                tags: words_from(words, 4),
            },
        )
    } else if is_named(word, "update", "u", "u") {
        if words.len() < 4 {
            return Parsed::Usage(
                String::from_str("Usage: tempesta update <path> <url> [tags...]"),
            );
        }
        assert(all[2] == words@[2]@ && all[3] == words@[3]@);
        Parsed::Command(
            Request::Update {
                path: words[2].clone(),
                url: words[3].clone(),
                tags: words_from(words, 4),
            },
        )
    } else if is_named(word, "move", "m", "mv") {
        if words.len() < 4 {
            return Parsed::Usage(String::from_str("Usage: tempesta move <path-from> <path-to>"));
        }
        assert(all[2] == words@[2]@ && all[3] == words@[3]@);
        Parsed::Command(Request::Move { from: words[2].clone(), to: words[3].clone() })
    } else if is_named(word, "remove", "r", "rm") {
        if words.len() < 3 {
            return Parsed::Usage(String::from_str("Usage: tempesta remove <path>"));
        }
        assert(all[2] == words@[2]@);
        Parsed::Command(Request::Remove { path: words[2].clone() })
    } else if is_named(word, "get", "g", "g") {
        if words.len() < 3 {
            return Parsed::Usage(String::from_str("Usage: tempesta get <path>"));
        }
        assert(all[2] == words@[2]@);
        Parsed::Command(Request::Get { path: words[2].clone() })
    } else if is_named(word, "edit", "e", "e") {
        if words.len() < 3 {
            return Parsed::Usage(String::from_str("Usage: tempesta edit <path>"));
        }
        assert(all[2] == words@[2]@);
        Parsed::Command(Request::Edit { path: words[2].clone() })
    } else if is_named(word, "list", "l", "ls") {
        let (subpath, divisor) = read_listing_options(words);
        Parsed::Command(Request::List { subpath, divisor })
    } else {
        Parsed::Other
    }
}

} // verus!
