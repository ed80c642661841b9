//! The record and its text form.

use tempesta::error::ErrorKind;
use tempesta::record::{
    extract_url_from_toml, load_bookmark, record_from_entries, store_bookmark, url_from_entries,
    Entry,
};

fn tags(list: &[&str]) -> Vec<String> {
    list.iter().map(|t| t.to_string()).collect()
}

#[test]
fn a_record_is_stored_as_toml() {
    assert_eq!(
        store_bookmark("https://test.local", &tags(&["test"])).unwrap(),
        "url = \"https://test.local\"\ntags = [\"test\"]\n"
    );
    assert_eq!(
        store_bookmark("https://a.test", &Vec::new()).unwrap(),
        "url = \"https://a.test\"\ntags = []\n"
    );
}

#[test]
fn a_record_round_trips() {
    let cases: Vec<(&str, Vec<String>)> = vec![
        ("https://a.test", tags(&[])),
        ("https://a.test/path?q=1#frag", tags(&["one", "two", "three"])),
        ("ftp://host/\"quoted\"", tags(&["with \"quotes\"", "back\\slash"])),
        ("http://ü.example/ä", tags(&["ünïcödé", "日本語", ""])),
        ("", tags(&["line\nbreak", "tab\there", "\u{7f}\u{0}"])),
        ("'single'", tags(&["a, b", "[x]", "k = v", "# no comment"])),
    ];
    for (url, tags) in cases {
        let text = store_bookmark(url, &tags).unwrap();
        let back = load_bookmark(&text).unwrap();
        assert_eq!(back.url, url);
        assert_eq!(back.tags, tags);
        assert_eq!(extract_url_from_toml(&text).as_deref(), Some(url));
    }
}

#[test]
fn a_hand_written_record_is_read() {
    let text = "# my bookmark\ntags = ['a', \"b\"]\nextra = 1\nurl = 'https://x.test'\n\n[more]\nk = true\n";
    let record = load_bookmark(text).unwrap();
    assert_eq!(record.url, "https://x.test");
    assert_eq!(record.tags, tags(&["a", "b"]));
}

#[test]
fn a_corrupt_record_is_refused() {
    assert_eq!(load_bookmark("url = ").unwrap_err(), ErrorKind::CorruptRecord);
    assert_eq!(load_bookmark("not toml at all").unwrap_err(), ErrorKind::CorruptRecord);
    assert_eq!(load_bookmark("").unwrap_err(), ErrorKind::CorruptRecord);
    assert_eq!(load_bookmark("tags = []\n").unwrap_err(), ErrorKind::CorruptRecord);
    assert_eq!(load_bookmark("url = 3\ntags = []\n").unwrap_err(), ErrorKind::CorruptRecord);
    assert_eq!(load_bookmark("url = \"https://a.test\"\n").unwrap_err(), ErrorKind::CorruptRecord);
    assert_eq!(
        load_bookmark("url = \"https://a.test\"\ntags = \"t\"\n").unwrap_err(),
        ErrorKind::CorruptRecord
    );
    assert_eq!(
        load_bookmark("url = \"https://a.test\"\ntags = [\"t\", 1]\n").unwrap_err(),
        ErrorKind::CorruptRecord
    );
    assert_eq!(
        load_bookmark("[url]\nx = 1\n[tags]\ny = 2\n").unwrap_err(),
        ErrorKind::CorruptRecord
    );
}

#[test]
fn the_url_alone_is_read_from_any_document() {
    assert_eq!(extract_url_from_toml("url = \"https://a.test\"\n").as_deref(), Some("https://a.test"));
    assert_eq!(extract_url_from_toml("tags = []\n"), None);
    assert_eq!(extract_url_from_toml("url = 1\n"), None);
    assert_eq!(extract_url_from_toml("url = [\n"), None);
}

#[test]
fn entries_make_a_record() {
    let entries = vec![
        ("other".to_string(), Entry::Other),
        ("tags".to_string(), Entry::List(vec![Some("a".to_string()), Some("b".to_string())])),
        ("url".to_string(), Entry::Text("https://a.test".to_string())),
        ("url".to_string(), Entry::Text("https://second.test".to_string())),
    ];
    let record = record_from_entries(&entries).unwrap();
    assert_eq!(record.url, "https://a.test");
    assert_eq!(record.tags, tags(&["a", "b"]));
    assert_eq!(url_from_entries(&entries).as_deref(), Some("https://a.test"));

    let no_url = vec![("tags".to_string(), Entry::List(Vec::new()))];
    assert_eq!(record_from_entries(&no_url).unwrap_err(), ErrorKind::CorruptRecord);
    assert_eq!(url_from_entries(&no_url), None);

    let mixed = vec![
        ("url".to_string(), Entry::Text("https://a.test".to_string())),
        ("tags".to_string(), Entry::List(vec![Some("a".to_string()), None])),
    ];
    assert_eq!(record_from_entries(&mixed).unwrap_err(), ErrorKind::CorruptRecord);

    let wrong = vec![
        ("url".to_string(), Entry::List(Vec::new())),
        ("tags".to_string(), Entry::List(Vec::new())),
    ];
    assert_eq!(record_from_entries(&wrong).unwrap_err(), ErrorKind::CorruptRecord);
    assert_eq!(record_from_entries(&Vec::new()).unwrap_err(), ErrorKind::CorruptRecord);
}
