//! Paths and URLs: what is accepted, held against the patterns that
//! describe the two languages.

use regex::Regex;
use tempesta::error::ErrorKind;
use tempesta::path::{
    get_bookmark_file_path, get_directory_path, is_confined, is_path_char, is_plain_segment,
    move_destination, resolve, validate_path,
};
use tempesta::settings::Settings;
use tempesta::url::validate_url;

/// Every string over `alphabet` of length up to `len`.
fn strings(alphabet: &[char], len: usize) -> Vec<String> {
    let mut all = vec![String::new()];
    let mut last = vec![String::new()];
    for _ in 0..len {
        let mut next = Vec::new();
        for s in &last {
            for c in alphabet {
                let mut t = s.clone();
                t.push(*c);
                next.push(t);
            }
        }
        all.extend(next.iter().cloned());
        last = next;
    }
    all
}

#[test]
fn path_validation_accepts_the_plain_path() {
    assert_eq!(validate_path("a/b-c_1.d"), Ok(()));
    assert_eq!(validate_path("Ångström/öl"), Ok(()));
    assert_eq!(validate_path("café/ül"), Err(ErrorKind::InvalidPath));
    assert_eq!(validate_path("Åäö/ÖÄå"), Ok(()));
}

#[test]
fn path_validation_rejects_empty_and_foreign_characters() {
    assert_eq!(validate_path(""), Err(ErrorKind::InvalidPath));
    assert_eq!(validate_path("a b"), Err(ErrorKind::InvalidPath));
    assert_eq!(validate_path(" "), Err(ErrorKind::InvalidPath));
    assert_eq!(validate_path("a\n"), Err(ErrorKind::InvalidPath));
    assert_eq!(validate_path("a\\b"), Err(ErrorKind::InvalidPath));
    assert_eq!(validate_path("a:b"), Err(ErrorKind::InvalidPath));
    assert_eq!(validate_path("~/a"), Err(ErrorKind::InvalidPath));
    assert_eq!(validate_path("é"), Err(ErrorKind::InvalidPath));
}

#[test]
fn path_validation_agrees_with_the_pattern() {
    let pattern = Regex::new(r"^[a-zåäöA-ZÅÄÖ0-9_/.-]+$").unwrap();
    let alphabet = ['a', 'Z', '0', '_', '/', '.', '-', 'å', 'Ö', ' ', '\n', '~', 'é', '\\', '*'];
    for s in strings(&alphabet, 3) {
        assert_eq!(validate_path(&s).is_ok(), pattern.is_match(&s), "{:?}", s);
    }
    for code in 0u32..0x3000 {
        if let Some(c) = char::from_u32(code) {
            let s = c.to_string();
            assert_eq!(is_path_char(c), pattern.is_match(&s), "{:?}", c);
        }
    }
}

#[test]
fn url_validation_by_example() {
    assert_eq!(validate_url("https://example.com"), Ok(()));
    assert_eq!(validate_url("http://a.b/c?d=e#f"), Ok(()));
    assert_eq!(validate_url("ftp://host/file"), Ok(()));
    assert_eq!(validate_url("https://test.local"), Ok(()));
    assert_eq!(validate_url("http://ab"), Ok(()));
    assert_eq!(validate_url("http://a "), Ok(()));
    assert_eq!(validate_url(""), Err(ErrorKind::InvalidUrl));
    assert_eq!(validate_url("http://a"), Err(ErrorKind::InvalidUrl));
    assert_eq!(validate_url("http://"), Err(ErrorKind::InvalidUrl));
    assert_eq!(validate_url("https:///x"), Err(ErrorKind::InvalidUrl));
    assert_eq!(validate_url("https://.x"), Err(ErrorKind::InvalidUrl));
    assert_eq!(validate_url("https://a b c"), Err(ErrorKind::InvalidUrl));
    assert_eq!(validate_url("http://a\nb"), Err(ErrorKind::InvalidUrl));
    assert_eq!(validate_url("mailto:someone"), Err(ErrorKind::InvalidUrl));
    assert_eq!(validate_url("HTTP://example.com"), Err(ErrorKind::InvalidUrl));
    assert_eq!(validate_url(" https://example.com"), Err(ErrorKind::InvalidUrl));
    assert_eq!(validate_url("https://example.com\n"), Err(ErrorKind::InvalidUrl));
    assert_eq!(validate_url("not a url"), Err(ErrorKind::InvalidUrl));
}

#[test]
fn url_validation_agrees_with_the_pattern() {
    let pattern = Regex::new(r"^(https?|ftp)://[^\s/$.?#].[^\s]*$").unwrap();
    let tails = strings(
        &['a', '/', '$', '.', '?', '#', ' ', '\n', '\t', '\u{a0}', '\u{2003}', '\u{85}', 'é'],
        3,
    );
    for head in ["http://", "https://", "ftp://", "http:/", "https:", "ftps://", "xhttp://", ""] {
        for tail in &tails {
            let s = format!("{}{}", head, tail);
            assert_eq!(validate_url(&s).is_ok(), pattern.is_match(&s), "{:?}", s);
        }
    }
    let space = Regex::new(r"^\s$").unwrap();
    for code in 0u32..0x3100 {
        if let Some(c) = char::from_u32(code) {
            assert_eq!(
                tempesta::text::char_is_space(c),
                space.is_match(&c.to_string()),
                "{:?}",
                c
            );
            assert_eq!(tempesta::text::char_is_space(c), c.is_whitespace(), "{:?}", c);
        }
    }
}

#[test]
fn a_path_resolves_to_its_file() {
    let p = get_bookmark_file_path("/store", "x/y/z").unwrap();
    assert_eq!(p.root, "/store");
    assert_eq!(p.segments, vec!["x", "y", "z.toml"]);
    assert_eq!(p.to_text(), "/store/x/y/z.toml");
    assert_eq!(p.parent().segments, vec!["x", "y"]);
    assert_eq!(p.parent().to_text(), "/store/x/y");
    let p = get_bookmark_file_path("/store/", "top").unwrap();
    assert_eq!(p.segments, vec!["top.toml"]);
    assert_eq!(p.to_text(), "/store/top.toml");
    assert_eq!(p.parent().segments, Vec::<String>::new());
    assert_eq!(p.parent().to_text(), "/store/");
    assert_eq!(p.parent().parent().segments, Vec::<String>::new());
    let p = get_bookmark_file_path("", "a.b/c.d").unwrap();
    assert_eq!(p.segments, vec!["a.b", "c.d.toml"]);
    assert_eq!(p.to_text(), "a.b/c.d.toml");
    assert_eq!(p.duplicate().segments, p.segments);
}

#[test]
fn a_path_never_leaves_the_store() {
    for outside in ["../b", "a//b", "/", "/b", "a/../b", "./b", "a/./b", "x/../../y", "../"] {
        assert_eq!(
            get_bookmark_file_path("/s", outside).unwrap_err(),
            ErrorKind::InvalidPath,
            "{:?}",
            outside
        );
    }
    assert_eq!(get_bookmark_file_path("/s", "a/").unwrap().segments, vec!["a", ".toml"]);
    assert_eq!(get_bookmark_file_path("/s", "..").unwrap().segments, vec!["...toml"]);
    assert_eq!(get_bookmark_file_path("/s", "a/..b/c").unwrap().segments, vec!["a", "..b", "c.toml"]);
    assert_eq!(get_bookmark_file_path("/s", "").unwrap().segments, vec![".toml"]);
    assert!(is_confined(&vec!["a".to_string(), "b.c".to_string(), "...".to_string()]));
    assert!(!is_confined(&vec!["a".to_string(), "..".to_string()]));
    assert!(!is_confined(&vec![".".to_string()]));
    assert!(!is_confined(&vec!["".to_string(), "a".to_string()]));
    assert!(is_confined(&Vec::new()));
    assert!(is_plain_segment(".toml"));
    assert!(!is_plain_segment(""));
}

#[test]
fn a_directory_path_drops_the_trailing_slash() {
    assert_eq!(get_directory_path("/s", "a/b").unwrap().segments, vec!["a", "b"]);
    assert_eq!(get_directory_path("/s", "a/b/").unwrap().segments, vec!["a", "b"]);
    assert_eq!(get_directory_path("/s", "").unwrap().segments, Vec::<String>::new());
    assert_eq!(get_directory_path("/s", "a/b").unwrap().to_text(), "/s/a/b");
    for outside in ["a//", "..", "../a", "a/..", ".", "/a", "a/./b"] {
        assert_eq!(
            get_directory_path("/s", outside).unwrap_err(),
            ErrorKind::InvalidPath,
            "{:?}",
            outside
        );
    }
}

#[test]
fn a_move_into_a_directory_keeps_the_stem() {
    assert_eq!(move_destination("a/b", "c/d"), "c/d");
    assert_eq!(move_destination("a/b", "c/"), "c/b");
    assert_eq!(move_destination("a/b.x", "c/d/"), "c/d/b.x");
    assert_eq!(move_destination("b", "/"), "/b");
    assert_eq!(move_destination("a/b", ""), "");
}

#[test]
fn resolving_stays_inside_the_store() {
    let settings = Settings { root: "/store".to_string(), sync: false, remote: false };
    let at = resolve(&settings, "x/y/z").unwrap();
    assert_eq!(at.root, "/store");
    assert_eq!(at.segments, vec!["x", "y", "z.toml"]);
    assert_eq!(resolve(&settings, "top").unwrap().segments, vec!["top.toml"]);
    assert_eq!(resolve(&settings, "a/..b/c.").unwrap().segments, vec!["a", "..b", "c..toml"]);
    assert_eq!(resolve(&settings, "a/").unwrap().segments, vec!["a", ".toml"]);
    assert_eq!(resolve(&settings, "..").unwrap().segments, vec!["...toml"]);
    for outside in ["../x", "/x", "a//b", "a/../b", "./x", "a/./b", "/", "x/../../y"] {
        assert_eq!(validate_path(outside), Ok(()), "{:?}", outside);
        assert_eq!(resolve(&settings, outside).unwrap_err(), ErrorKind::InvalidPath, "{:?}", outside);
    }
    for invalid in ["", "a b", "a\\b", "x/y z"] {
        assert_eq!(resolve(&settings, invalid).unwrap_err(), ErrorKind::InvalidPath);
    }
}
