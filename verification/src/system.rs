//! What the library asks of the operating system's paths.

use vstd::prelude::*;

verus! {

/// The path that the platform makes of `base` extended by `component`.
pub uninterp spec fn joined(base: Seq<char>, component: Seq<char>) -> Seq<char>;

/// `std::path::Path::join`: `base` extended by `component`, by the rules of
/// the platform that the program was built for. The result depends on the
/// two texts alone, and `joined` is its name.
#[verifier::external_body]
pub(crate) fn join_path(base: &str, component: &str) -> (path: String)
    ensures
        path@ == joined(base@, component@),
{
    std::path::Path::new(base).join(component).to_string_lossy().into_owned()
}

/// The path without its last component, where it has one.
pub uninterp spec fn parent_of(path: Seq<char>) -> Option<Seq<char>>;

/// `std::path::Path::parent`: `path` without its last component, or nothing
/// where `path` ends in a root or is empty. The result depends on the text
/// alone, and `parent_of` is its name.
#[verifier::external_body]
pub(crate) fn parent_path(path: &str) -> (parent: Option<String>)
    ensures
        match parent {
            Some(up) => parent_of(path@) == Some(up@),
            None => parent_of(path@) is None,
        },
{
    match std::path::Path::new(path).parent() {
        Some(parent) => Some(parent.to_string_lossy().into_owned()),
        None => None,
    }
}

/// `std::path::Path::exists`: whether `path` names something on disk right
/// now. Nothing is promised of the answer.
#[verifier::external_body]
pub(crate) fn path_exists(path: &str) -> (there: bool) {
    std::path::Path::new(path).exists()
}

} // verus!
