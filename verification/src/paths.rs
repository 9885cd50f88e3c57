//! Joining a relative path onto a base directory.

use vstd::prelude::*;

verus! {

/// The path that `std::path::Path::join` gives for `base` and `relative`, as
/// text. The standard library fixes it for a target platform; nothing more is
/// stated of it here.
pub uninterp spec fn joined_path(base: Seq<char>, relative: Seq<char>) -> Seq<char>;

/// Calls `std::path::Path::join` on `base` with `relative` and hands the joined
/// path back as text.
///
/// Trusted: the result is the value that [`joined_path`] names for the two
/// arguments. Both arguments are UTF-8, so the joined path is too, and turning
/// it into a `String` changes nothing.
#[verifier::external_body]
pub(crate) fn join_path(base: &str, relative: &str) -> (joined: String)
    ensures
        joined@ == joined_path(base@, relative@),
{
    std::path::Path::new(base).join(relative).to_string_lossy().into_owned()
}

} // verus!
