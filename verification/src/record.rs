//! The bookmark record and its text form.
//!
//! A record is kept on disk as a TOML document with a string `url` and a list
//! of strings `tags`. Writing and parsing TOML is the `toml` crate's work;
//! what is read out of a parsed document, and when a document counts as a
//! record, is decided here.

use vstd::prelude::*;
use vstd::string::*;
use crate::error::ErrorKind;

verus! {

/// A bookmark: where it points, and the labels it carries, in order.
#[derive(Debug)]
pub struct Bookmark {
    pub url: String,
    pub tags: Vec<String>,
}

/// What a `Bookmark` stands for.
pub struct BookmarkView {
    pub url: Seq<char>,
    pub tags: Seq<Seq<char>>,
}

impl DeepView for Bookmark {
    type V = BookmarkView;

    open spec fn deep_view(&self) -> BookmarkView {
        BookmarkView { url: self.url@, tags: self.tags.deep_view() }
    }
}

impl View for Bookmark {
    type V = BookmarkView;

    open spec fn view(&self) -> BookmarkView {
        self.deep_view()
    }
}

/// The value of one top-level entry of a document, as far as a record reads
/// it.
#[derive(Debug)]
pub enum Entry {
    /// A string.
    Text(String),
    /// An array. An item that is a string is given; any other item is `None`.
    List(Vec<Option<String>>),
    /// A value of any other kind.
    Other,
}

/// What an `Entry` stands for.
pub enum EntryView {
    Text(Seq<char>),
    List(Seq<Option<Seq<char>>>),
    Other,
}

impl DeepView for Entry {
    type V = EntryView;

    open spec fn deep_view(&self) -> EntryView {
        match self {
            Entry::Text(s) => EntryView::Text(s@),
            Entry::List(items) => EntryView::List(items.deep_view()),
            Entry::Other => EntryView::Other,
        }
    }
}

/// The error of the TOML parser, `toml::de::Error`. It is carried through;
/// nothing is read out of it.
#[verifier::external_type_specification]
#[verifier::external_body]
pub struct ExDocumentError(toml::de::Error);

/// The error of the TOML serializer, `toml::ser::Error`. It is carried
/// through; nothing is read out of it.
#[verifier::external_type_specification]
#[verifier::external_body]
pub struct ExRenderError(toml::ser::Error);

/// The top-level entries of the TOML document `text`, in the order in which
/// the parser keeps them, or `None` where `text` is not a TOML document.
pub uninterp spec fn toml_entries(text: Seq<char>) -> Option<Seq<(Seq<char>, EntryView)>>;

/// The TOML document that holds the string `text` under `text_key` and then
/// the list of strings `list` under `list_key`, or `None` where the
/// serializer refuses.
pub uninterp spec fn toml_document(
    text_key: Seq<char>,
    text: Seq<char>,
    list_key: Seq<char>,
    list: Seq<Seq<char>>,
) -> Option<Seq<char>>;

/// Parses a document with `toml::from_str`, as a `toml::Table`, and hands out
/// its entries one for one. Nothing is claimed about what the parser accepts
/// or finds: the outcome is only given its name, `toml_entries`.
#[verifier::external_body]
fn parse_document(text: &str) -> (r: Result<Vec<(String, Entry)>, toml::de::Error>)
    ensures
        match r {
            Ok(entries) => toml_entries(text@) == Some(entries.deep_view()),
            Err(_) => toml_entries(text@) is None,
        },
{
    let table: toml::Table = toml::from_str(text)?;
    Ok(table.into_iter().map(|(key, value)| (key, match value {
        toml::Value::String(s) => Entry::Text(s),
        toml::Value::Array(items) => Entry::List(items.into_iter().map(|item| match item {
            toml::Value::String(s) => Some(s),
            _ => None,
        }).collect()),
        _ => Entry::Other,
    })).collect())
}

/// Builds a `toml::Table` with a string entry and an entry that is an array
/// of strings, in this order, and serializes it with `toml::to_string`.
/// Nothing is claimed about the text that comes out: it is only given its
/// name, `toml_document`.
#[verifier::external_body]
fn render_document(text_key: &str, text: &str, list_key: &str, list: &Vec<String>) -> (r: Result<
    String,
    toml::ser::Error,
>)
    ensures
        match r {
            Ok(out) => toml_document(text_key@, text@, list_key@, list.deep_view()) == Some(out@),
            Err(_) => toml_document(text_key@, text@, list_key@, list.deep_view()) is None,
        },
{
    let mut table = toml::Table::new();
    table.insert(text_key.to_string(), toml::Value::String(text.to_string()));
    let items = list.iter().map(|item| toml::Value::String(item.clone())).collect();
    table.insert(list_key.to_string(), toml::Value::Array(items));
    toml::to_string(&table)
}

/// The key under which a record keeps its URL.
pub open spec fn url_key() -> Seq<char> {
    seq!['u', 'r', 'l']
}

/// The key under which a record keeps its tags.
pub open spec fn tags_key() -> Seq<char> {
    seq!['t', 'a', 'g', 's']
}

/// The value of the first entry with the key `key`.
pub open spec fn lookup(entries: Seq<(Seq<char>, EntryView)>, key: Seq<char>) -> Option<EntryView>
    decreases entries.len(),
{
    if entries.len() == 0 {
        None
    } else if entries[0].0 == key {
        Some(entries[0].1)
    } else {
        lookup(entries.drop_first(), key)
    }
}

/// Whether every item of a list is a string.
pub open spec fn all_text(items: Seq<Option<Seq<char>>>) -> bool {
    forall|i: int| 0 <= i < items.len() ==> (#[trigger] items[i]) is Some
}

/// The strings of a list whose items are all strings.
pub open spec fn texts(items: Seq<Option<Seq<char>>>) -> Seq<Seq<char>> {
    Seq::new(items.len(), |i: int| items[i].unwrap())
}

/// The URL that a document's entries give: the string under `url`.
pub open spec fn url_of(entries: Seq<(Seq<char>, EntryView)>) -> Option<Seq<char>> {
    match lookup(entries, url_key()) {
        Some(EntryView::Text(url)) => Some(url),
        _ => None,
    }
}

/// The tags that a document's entries give: the list under `tags`, if each
/// of its items is a string.
pub open spec fn tags_of(entries: Seq<(Seq<char>, EntryView)>) -> Option<Seq<Seq<char>>> {
    match lookup(entries, tags_key()) {
        Some(EntryView::List(items)) => if all_text(items) {
            Some(texts(items))
        } else {
            None
        },
        _ => None,
    }
}

/// The record that a document's entries make up. Both fields are required;
/// entries under other keys are ignored.
pub open spec fn record_of(entries: Seq<(Seq<char>, EntryView)>) -> Result<
    BookmarkView,
    ErrorKind,
> {
    match (url_of(entries), tags_of(entries)) {
        (Some(url), Some(tags)) => Ok(BookmarkView { url, tags }),
        _ => Err(ErrorKind::CorruptRecord),
    }
}

/// The record that the text of a file holds.
pub open spec fn parsed_record(text: Seq<char>) -> Result<BookmarkView, ErrorKind> {
    match toml_entries(text) {
        Some(entries) => record_of(entries),
        None => Err(ErrorKind::CorruptRecord),
    }
}

/// The URL that the text of a file holds, whatever else it holds.
pub open spec fn parsed_url(text: Seq<char>) -> Option<Seq<char>> {
    match toml_entries(text) {
        Some(entries) => url_of(entries),
        None => None,
    }
}

/// The text that a record is stored as.
pub open spec fn record_text(url: Seq<char>, tags: Seq<Seq<char>>) -> Result<Seq<char>, ErrorKind> {
    match toml_document(url_key(), url, tags_key(), tags) {
        Some(text) => Ok(text),
        None => Err(ErrorKind::WriteError),
    }
}

/// The view of a result that holds a record.
pub open spec fn record_result_view(r: Result<Bookmark, ErrorKind>) -> Result<
    BookmarkView,
    ErrorKind,
> {
    match r {
        Ok(record) => Ok(record@),
        Err(e) => Err(e),
    }
}

/// The view of a result that holds a text.
pub open spec fn text_result_view(r: Result<String, ErrorKind>) -> Result<Seq<char>, ErrorKind> {
    match r {
        Ok(text) => Ok(text@),
        Err(e) => Err(e),
    }
}

/// The index of the first entry with the key `key`.
fn find_entry(entries: &Vec<(String, Entry)>, key: &str) -> (r: Option<usize>)
    ensures
        match r {
            Some(i) => i < entries.len() && lookup(entries.deep_view(), key@) == Some(
                entries@[i as int].1.deep_view(),
            ),
            None => lookup(entries.deep_view(), key@) is None,
        },
{
    let ghost all = entries.deep_view();
    let wanted = String::from_str(key);
    let mut i: usize = 0;
    assert(all.skip(0) =~= all);
    while i < entries.len()
        invariant
            i <= entries.len(),
            all == entries.deep_view(),
            wanted@ == key@,
            lookup(all, key@) == lookup(all.skip(i as int), key@),
        decreases entries.len() - i,
    {
        assert(all.skip(i as int)[0] == all[i as int]);
        assert(all[i as int] == (entries@[i as int].0@, entries@[i as int].1.deep_view()));
        assert(all.skip(i as int).drop_first() =~= all.skip(i + 1));
        if entries[i].0 == wanted {
            return Some(i);
        }
        i += 1;
    }
    None
}

/// The strings of a list, if each of its items is a string.
fn collect_texts(items: &Vec<Option<String>>) -> (r: Option<Vec<String>>)
    ensures
        match r {
            Some(list) => all_text(items.deep_view()) && list.deep_view() == texts(
                items.deep_view(),
            ),
            None => !all_text(items.deep_view()),
        },
{
    let ghost all = items.deep_view();
    let mut list: Vec<String> = Vec::new();
    let mut i: usize = 0;
    while i < items.len()
        invariant
            i <= items.len(),
            all == items.deep_view(),
            forall|j: int| 0 <= j < i ==> (#[trigger] all[j]) is Some,
            list.deep_view() == Seq::new(i as nat, |j: int| all[j].unwrap()),
        decreases items.len() - i,
    {
        let ghost before = list.deep_view();
        assert(all[i as int] == items@[i as int].deep_view());
        match &items[i] {
            Some(text) => {
                list.push(text.clone());
                assert(list.deep_view() =~= before.push(text@));
            },
            None => {
                return None;
            },
        }
        i += 1;
        assert(list.deep_view() =~= Seq::new(i as nat, |j: int| all[j].unwrap()));
    }
    assert(list.deep_view() =~= texts(all));
    Some(list)
}

/// Reads the URL out of a document's entries.
pub fn url_from_entries(entries: &Vec<(String, Entry)>) -> (r: Option<String>)
    ensures
        r.deep_view() == url_of(entries.deep_view()),
{
    proof {
        reveal_strlit("url");
    }
    assert("url"@ =~= url_key());
    match find_entry(entries, "url") {
        Some(i) => match &entries[i].1 {
            Entry::Text(url) => Some(url.clone()),
            _ => None,
        },
        None => None,
    }
}

/// Reads a record out of a document's entries. The document is a record when
/// it holds a string under `url` and a list of strings under `tags`.
pub fn record_from_entries(entries: &Vec<(String, Entry)>) -> (r: Result<Bookmark, ErrorKind>)
    ensures
        record_result_view(r) == record_of(entries.deep_view()),
{
    let url = match url_from_entries(entries) {
        Some(url) => url,
        None => {
            return Err(ErrorKind::CorruptRecord);
        },
    };
    proof {
        reveal_strlit("tags");
    }
    assert("tags"@ =~= tags_key());
    let tags = match find_entry(entries, "tags") {
        Some(i) => match &entries[i].1 {
            Entry::List(items) => match collect_texts(items) {
                Some(tags) => tags,
                None => {
                    return Err(ErrorKind::CorruptRecord);
                },
            },
            _ => {
                return Err(ErrorKind::CorruptRecord);
            },
        },
        None => {
            return Err(ErrorKind::CorruptRecord);
        },
    };
    Ok(Bookmark { url, tags })
}

/// Parses the text of a record file. Fails with `CorruptRecord` where the
/// text is not a TOML document or the document is not a record.
pub fn load_bookmark(text: &str) -> (r: Result<Bookmark, ErrorKind>)
    ensures
        record_result_view(r) == parsed_record(text@),
{
    match parse_document(text) {
        Ok(entries) => record_from_entries(&entries),
        Err(_) => Err(ErrorKind::CorruptRecord),
    }
}

/// Reads only the URL out of the text of a record file.
pub fn extract_url_from_toml(text: &str) -> (r: Option<String>)
    ensures
        r.deep_view() == parsed_url(text@),
{
    match parse_document(text) {
        Ok(entries) => url_from_entries(&entries),
        Err(_) => None,
    }
}

/// The text under which a bookmark with this URL and these tags is stored.
pub fn store_bookmark(url: &str, tags: &Vec<String>) -> (r: Result<String, ErrorKind>)
    ensures
        text_result_view(r) == record_text(url@, tags.deep_view()),
{
    proof {
        reveal_strlit("url");
        reveal_strlit("tags");
    }
    assert("url"@ =~= url_key());
    assert("tags"@ =~= tags_key());
    match render_document("url", url, "tags", tags) {
        Ok(text) => Ok(text),
        Err(_) => Err(ErrorKind::WriteError),
    }
}

} // verus!
