//! Which files of the store are bookmarks, and by what name each is listed.
//!
//! A bookmark is listed under its logical path: the names that lead to its
//! file, joined by slashes, the file name without the record extension.

use vstd::prelude::*;
use vstd::string::*;
use crate::path::{confined, copy_strings, extension, is_confined, resolved};
use crate::text::{
    has_suffix, join, join_slashed, lemma_join_split, lemma_split_pieces, split, to_chars,
};

verus! {

/// The name under which the file reached by `file` is listed, if it is a
/// record file.
pub open spec fn listed_name(file: Seq<Seq<char>>) -> Option<Seq<char>> {
    if file.len() > 0 && extension().is_suffix_of(file.last()) {
        let stem = file.last().take(file.last().len() - extension().len());
        Some(join(file.drop_last().push(stem), '/'))
    } else {
        None
    }
}

/// Whether `file` is taken for a record file of the store: it has the
/// record extension and is reached by plain names.
pub open spec fn is_listed(file: Seq<Seq<char>>) -> bool {
    listed_name(file) is Some && confined(file)
}

/// The record files among `files`, in the order in which they were given.
pub open spec fn record_files(files: Seq<Seq<Seq<char>>>) -> Seq<Seq<Seq<char>>>
    decreases files.len(),
{
    if files.len() == 0 {
        Seq::empty()
    } else if is_listed(files.last()) {
        record_files(files.drop_last()).push(files.last())
    } else {
        record_files(files.drop_last())
    }
}

/// A bookmark is listed under the logical path it was stored under: the
/// name of the file that a logical path resolves to is that logical path.
pub proof fn law_listed_under_its_path(root: Seq<char>, logical: Seq<char>)
    ensures
        listed_name(resolved(root, logical).segments) == Some(logical),
{
    let parts = split(logical, '/');
    lemma_split_pieces(logical, '/');
    lemma_join_split(logical, '/');
    let file = resolved(root, logical).segments;
    let last = parts.last() + extension();
    assert(file.last() == last);
    assert(last.subrange(last.len() - extension().len(), last.len() as int) =~= extension());
    assert(last.take(last.len() - extension().len()) =~= parts.last());
    assert(file.drop_last().push(parts.last()) =~= parts);
}

/// The name under which a file is listed, if it is a record file.
pub fn name_of(file: &Vec<String>) -> (r: Option<String>)
    ensures
        r.deep_view() == listed_name(file.deep_view()),
{
    if file.len() == 0 {
        return None;
    }
    let ghost all = file.deep_view();
    assert(all.last() == file@[file.len() - 1]@);
    let last = file[file.len() - 1].as_str();
    let chars = to_chars(last);
    let dot_toml = vec!['.', 't', 'o', 'm', 'l'];
    assert(dot_toml@ =~= extension());
    if !has_suffix(&chars, &dot_toml) {
        return None;
    }
    let n = chars.len();
    let mut names = copy_strings(file);
    names.pop();
    assert(names.deep_view() =~= all.drop_last());
    assert(last@.take(n - 5) =~= last@.subrange(0, n - 5));
    let ghost dirs = names.deep_view();
    names.push(String::from_str(last.substring_char(0, n - 5)));
    assert(names.deep_view() =~= dirs.push(last@.take(n - 5)));
    Some(join_slashed(&names))
}

/// The record files among `files`.
pub fn get_toml_bookmark_files(files: &Vec<Vec<String>>) -> (r: Vec<Vec<String>>)
    ensures
        r.deep_view() == record_files(files.deep_view()),
{
    let ghost all = files.deep_view();
    let mut kept: Vec<Vec<String>> = Vec::new();
    let mut i: usize = 0;
    assert(kept.deep_view() =~= record_files(all.take(0)));
    while i < files.len()
        invariant
            i <= files.len(),
            all == files.deep_view(),
            kept.deep_view() == record_files(all.take(i as int)),
        decreases files.len() - i,
    {
        let ghost before = kept.deep_view();
        assert(all.take(i + 1).drop_last() =~= all.take(i as int));
        assert(all.take(i + 1).last() == files@[i as int].deep_view());
        if name_of(&files[i]).is_some() && is_confined(&files[i]) {
            kept.push(copy_strings(&files[i]));
            assert(kept.deep_view() =~= before.push(files@[i as int].deep_view()));
        }
        i += 1;
    }
    assert(all.take(files.len() as int) =~= all);
    kept
}

/// Every file that is kept as a record file is reached by plain names.
pub proof fn lemma_record_files_are_confined(files: Seq<Seq<Seq<char>>>)
    ensures
        forall|i: int| 0 <= i < record_files(files).len() ==> confined(#[trigger] record_files(files)[i]),
    decreases files.len(),
{
    if files.len() > 0 {
        lemma_record_files_are_confined(files.drop_last());
        let head = record_files(files.drop_last());
        let all = record_files(files);
        assert forall|i: int| 0 <= i < all.len() implies confined(#[trigger] all[i]) by {
            if i < head.len() {
                assert(all[i] == head[i]);
            }
        }
    }
}

} // verus!
