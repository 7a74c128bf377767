//! File-system paths, carried through the verified logic as opaque values.

use std::path::PathBuf;
use vstd::prelude::*;

verus! {

#[verifier::external_type_specification]
#[verifier::external_body]
pub struct ExPathBuf(std::path::PathBuf);

/// `<PathBuf as Clone>::clone` (std) copies the path.
pub assume_specification[ <PathBuf as Clone>::clone ](path: &PathBuf) -> (copy: PathBuf)
    ensures
        copy == *path,
;

/// The path that `Path::join` makes of a directory and a file name.
pub uninterp spec fn joined_path(directory: PathBuf, name: Seq<char>) -> PathBuf;

/// `Path::join` (std) of a file name onto a directory. The result depends on
/// the two arguments alone and is named `joined_path`.
#[verifier::external_body]
pub(crate) fn join_file_name(directory: &PathBuf, name: &str) -> (joined: PathBuf)
    ensures
        joined == joined_path(*directory, name@),
{
    directory.join(name)
}

/// The text of a path, as `Path::to_string_lossy` gives it.
pub uninterp spec fn path_text(path: PathBuf) -> Seq<char>;

/// `Path::to_string_lossy` (std), made an owned `String`: the path's text,
/// with U+FFFD in place of what is not valid Unicode. It depends on the path
/// alone and is named `path_text`.
#[verifier::external_body]
pub(crate) fn path_text_lossy(path: &PathBuf) -> (text: String)
    ensures
        text@ == path_text(*path),
{
    path.to_string_lossy().into_owned()
}

} // verus!

verus! {

/// The last component of a path as `Path::file_name` gives it, where that is
/// valid Unicode.
pub uninterp spec fn file_name_text(path: PathBuf) -> Option<Seq<char>>;

/// `Path::file_name` (std), as a `String` where the name is valid Unicode.
/// The result depends on the path alone and is named `file_name_text`.
#[verifier::external_body]
pub(crate) fn path_file_name(path: &PathBuf) -> (name: Option<String>)
    ensures
        match name {
            Some(n) => file_name_text(*path) == Some(n@),
            None => file_name_text(*path) is None,
        },
{
    path.file_name().and_then(|name| name.to_str()).map(str::to_owned)
}

} // verus!
