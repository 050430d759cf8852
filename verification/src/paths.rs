//! File-system paths, held as text. The path algebra (`parent`, `join`,
//! `extension`) is std's; what is on disk is asked of the file system.

use vstd::prelude::*;

verus! {

/// The text of an optional string.
pub open spec fn opt_view(o: Option<String>) -> Option<Seq<char>> {
    match o {
        Some(s) => Some(s@),
        None => None,
    }
}

/// What `Path::parent` gives for the path `p`.
pub uninterp spec fn path_parent_spec(p: Seq<char>) -> Option<Seq<char>>;

/// What `Path::join` gives for `base` and `rest`.
pub uninterp spec fn path_join_spec(base: Seq<char>, rest: Seq<char>) -> Seq<char>;

/// What `Path::extension` gives for the path `p`.
pub uninterp spec fn path_extension_spec(p: Seq<char>) -> Option<Seq<char>>;

/// `Path::parent` of the path `p`. The contract only names the result: the
/// component rules of std's path type are not restated here.
#[verifier::external_body]
pub(crate) fn path_parent(p: &str) -> (r: Option<String>)
    ensures
        opt_view(r) == path_parent_spec(p@),
{
    std::path::Path::new(p).parent().map(|q| q.to_string_lossy().into_owned())
}

/// `Path::join` of `base` and `rest`. The contract only names the result:
/// the separator and the handling of absolute `rest` are std's.
#[verifier::external_body]
pub(crate) fn path_join(base: &str, rest: &str) -> (r: String)
    ensures
        r@ == path_join_spec(base@, rest@),
{
    std::path::Path::new(base).join(rest).to_string_lossy().into_owned()
}

/// `Path::extension` of the path `p`. The contract only names the result.
#[verifier::external_body]
pub(crate) fn path_extension(p: &str) -> (r: Option<String>)
    ensures
        opt_view(r) == path_extension_spec(p@),
{
    std::path::Path::new(p).extension().map(|e| e.to_string_lossy().into_owned())
}

/// `Path::is_file`: whether a regular file is at `p` now. It depends on the
/// disk, so nothing is promised of the answer.
#[verifier::external_body]
pub(crate) fn is_file(p: &str) -> bool {
    std::path::Path::new(p).is_file()
}

/// `Path::exists`: whether anything is at `p` now. It depends on the disk,
/// so nothing is promised of the answer.
#[verifier::external_body]
pub(crate) fn path_exists(p: &str) -> bool {
    std::path::Path::new(p).exists()
}

/// The directory that holds `p`, or `"."` when `p` has no parent.
pub open spec fn parent_or_dot(p: Seq<char>) -> Seq<char> {
    match path_parent_spec(p) {
        Some(q) => q,
        None => "."@,
    }
}

pub fn parent_or_current(p: &str) -> (r: String)
    ensures
        r@ == parent_or_dot(p@),
{
    match path_parent(p) {
        Some(q) => q,
        None => String::from_str("."),
    }
}

} // verus!
