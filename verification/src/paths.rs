//! Filesystem paths as text. The library names files and directories; how
//! path components combine is left to `std::path`.

use vstd::prelude::*;

verus! {

/// What `Path::join` makes of a base path and a part joined to it.
pub uninterp spec fn joined_path(base: Seq<char>, part: Seq<char>) -> Seq<char>;

/// What `Path::parent` gives for a path: the path without its last
/// component, or nothing where the path has none to drop.
pub uninterp spec fn parent_path(path: Seq<char>) -> Option<Seq<char>>;

/// What `Path::file_stem` gives for a path: the last component without
/// its extension, or nothing where the path names no file.
pub uninterp spec fn stem_of_path(path: Seq<char>) -> Option<Seq<char>>;

/// View of an optional string.
pub open spec fn optional_text(s: Option<String>) -> Option<Seq<char>> {
    match s {
        Some(t) => Some(t@),
        None => None,
    }
}

/// `Path::join` on text: `part` adjoined to `base`. The result is a
/// function of the two texts alone.
#[verifier::external_body]
pub(crate) fn join_path(base: &str, part: &str) -> (joined: String)
    ensures
        joined@ == joined_path(base@, part@),
{
    std::path::Path::new(base).join(part).to_string_lossy().into_owned()
}

/// `Path::parent` on text. The result is a function of the text alone.
#[verifier::external_body]
pub(crate) fn parent_of(path: &str) -> (parent: Option<String>)
    ensures
        optional_text(parent) == parent_path(path@),
{
    match std::path::Path::new(path).parent() {
        Some(p) => Some(p.to_string_lossy().into_owned()),
        None => None,
    }
}

/// `Path::file_stem` on text. The result is a function of the text alone.
#[verifier::external_body]
pub(crate) fn stem_of(path: &str) -> (stem: Option<String>)
    ensures
        optional_text(stem) == stem_of_path(path@),
{
    match std::path::Path::new(path).file_stem() {
        Some(s) => Some(s.to_string_lossy().into_owned()),
        None => None,
    }
}

} // verus!
