//! Selection of the Python source files among the entries of a directory
//! tree.

use vstd::prelude::*;
use crate::text::{chars_of, rows, same, slice_text, split, split_text, texts, Cut};

verus! {

/// Whether `s` ends with `suffix`.
pub open spec fn ends_with(s: Seq<char>, suffix: Seq<char>) -> bool {
    s.len() >= suffix.len() && s.subrange(s.len() - suffix.len(), s.len() as int) == suffix
}

/// Whether the path names a Python source file: its last segment is a
/// non-empty stem followed by `.py`.
pub open spec fn is_python_path(path: Seq<char>) -> bool {
    let name = split(path, Cut::At('/')).last();
    name.len() > ".py"@.len() && ends_with(name, ".py"@)
}

/// The Python source files among `entries`, in order.
pub open spec fn python_paths(entries: Seq<Seq<char>>) -> Seq<Seq<char>>
    decreases entries.len(),
{
    if entries.len() == 0 {
        Seq::<Seq<char>>::empty()
    } else if is_python_path(entries.last()) {
        python_paths(entries.drop_last()).push(entries.last())
    } else {
        python_paths(entries.drop_last())
    }
}

/// Decides whether `s` ends with `suffix`.
pub fn ends_with_text(s: &Vec<char>, suffix: &Vec<char>) -> (r: bool)
    ensures
        r == ends_with(s@, suffix@),
{
    if s.len() < suffix.len() {
        return false;
    }
    let tail = slice_text(s, s.len() - suffix.len(), s.len());
    same(&tail, suffix)
}

/// Decides whether the path names a Python source file.
pub fn is_python_file(path: &str) -> (r: bool)
    ensures
        r == is_python_path(path@),
{
    let segments = split_text(&chars_of(path), Cut::At('/'));
    assert(rows(segments@).last() == segments@[segments.len() - 1]@);
    let name = &segments[segments.len() - 1];
    let suffix = chars_of(".py");
    name.len() > suffix.len() && ends_with_text(name, &suffix)
}

/// Keeps the entries of a directory tree that name Python source files, in
/// the order in which they were found.
pub fn list_python_files(entries: &Vec<String>) -> (python_files: Vec<String>)
    ensures
        texts(python_files@) == python_paths(texts(entries@)),
{
    let mut python_files: Vec<String> = Vec::new();
    let mut i: usize = 0;
    while i < entries.len()
        invariant
            i <= entries.len(),
            texts(python_files@) == python_paths(texts(entries@).take(i as int)),
        decreases entries.len() - i,
    {
        let ghost done = texts(python_files@);
        assert(texts(entries@).take(i + 1).drop_last() =~= texts(entries@).take(i as int));
        assert(texts(entries@).take(i + 1).last() == entries@[i as int]@);
        if is_python_file(entries[i].as_str()) {
            python_files.push(entries[i].clone());
            assert(texts(python_files@) =~= done.push(entries@[i as int]@));
        }
        i += 1;
    }
    assert(texts(entries@).take(entries.len() as int) =~= texts(entries@));
    python_files
}

} // verus!
