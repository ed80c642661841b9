//! The shape a bookmark's URL must have.
//!
//! A URL is one of the schemes `http`, `https` or `ftp`, then `://`, then a
//! first character of the host, then one more character, then any number of
//! characters that are not white space.

use vstd::prelude::*;
use crate::error::ErrorKind;
use crate::text::{char_is_space, has_prefix, is_space, to_chars};

verus! {

/// A character that may open the host: not white space and none of
/// `/ $ . ? #`.
pub open spec fn host_start(c: char) -> bool {
    !is_space(c) && c != '/' && c != '$' && c != '.' && c != '?' && c != '#'
}

pub open spec fn https_prefix() -> Seq<char> {
    seq!['h', 't', 't', 'p', 's', ':', '/', '/']
}

pub open spec fn http_prefix() -> Seq<char> {
    seq!['h', 't', 't', 'p', ':', '/', '/']
}

pub open spec fn ftp_prefix() -> Seq<char> {
    seq!['f', 't', 'p', ':', '/', '/']
}

/// What follows the scheme and `://`: a host character, any character but a
/// line feed, and no white space after that.
pub open spec fn valid_remainder(rest: Seq<char>) -> bool {
    &&& rest.len() >= 2
    &&& host_start(rest[0])
    &&& rest[1] != '\n'
    &&& forall|i: int| 2 <= i < rest.len() ==> !is_space(#[trigger] rest[i])
}

/// The strings that are accepted as URLs.
pub open spec fn valid_url(s: Seq<char>) -> bool {
    ||| https_prefix().is_prefix_of(s) && valid_remainder(s.skip(8))
    ||| http_prefix().is_prefix_of(s) && valid_remainder(s.skip(7))
    ||| ftp_prefix().is_prefix_of(s) && valid_remainder(s.skip(6))
}

/// Whether what stands in `chars` from `from` on is a valid remainder.
fn check_remainder(chars: &Vec<char>, from: usize) -> (r: bool)
    requires
        from <= chars@.len(),
    ensures
        r == valid_remainder(chars@.skip(from as int)),
{
    let n = chars.len();
    let ghost rest = chars@.skip(from as int);
    if n - from < 2 {
        return false;
    }
    let first = chars[from];
    assert(rest[0] == first);
    if char_is_space(first) || first == '/' || first == '$' || first == '.' || first == '?'
        || first == '#' {
        return false;
    }
    assert(rest[1] == chars@[from + 1]);
    if chars[from + 1] == '\n' {
        return false;
    }
    let mut i: usize = from + 2;
    while i < n
        invariant
            n == chars@.len(),
            from + 2 <= i <= n,
            rest == chars@.skip(from as int),
            forall|j: int| 2 <= j < i - from ==> !is_space(#[trigger] rest[j]),
        decreases n - i,
    {
        assert(rest[i - from] == chars@[i as int]);
        if char_is_space(chars[i]) {
            return false;
        }
        i += 1;
    }
    true
}

/// Accepts exactly the valid URLs.
pub fn validate_url(url: &str) -> (r: Result<(), ErrorKind>)
    ensures
        r == (if valid_url(url@) {
            Ok::<(), ErrorKind>(())
        } else {
            Err::<(), ErrorKind>(ErrorKind::InvalidUrl)
        }),
{
    let chars = to_chars(url);
    let https = vec!['h', 't', 't', 'p', 's', ':', '/', '/'];
    let http = vec!['h', 't', 't', 'p', ':', '/', '/'];
    let ftp = vec!['f', 't', 'p', ':', '/', '/'];
    assert(https@ =~= https_prefix());
    assert(http@ =~= http_prefix());
    assert(ftp@ =~= ftp_prefix());
    let accepted = (has_prefix(&chars, &https) && check_remainder(&chars, 8)) || (has_prefix(
        &chars,
        &http,
    ) && check_remainder(&chars, 7)) || (has_prefix(&chars, &ftp) && check_remainder(&chars, 6));
    if accepted {
        Ok(())
    } else {
        Err(ErrorKind::InvalidUrl)
    }
}

} // verus!
