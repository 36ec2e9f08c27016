//! Paths in the file system, as text.

use crate::text::append_text;
use vstd::prelude::*;
use vstd::string::*;

verus! {

/// A path without its last part, where it has one.
pub uninterp spec fn path_parent(path: Seq<char>) -> Option<Seq<char>>;

/// A path and a name below it. A separator stands between them unless the path
/// ends in one.
pub open spec fn path_below(path: Seq<char>, name: Seq<char>) -> Seq<char> {
    if path.len() > 0 && path.last() == '/' {
        path + name
    } else {
        path + "/"@ + name
    }
}

/// Calls `std::path::Path::parent`.
#[verifier::external_body]
pub(crate) fn parent_of(path: &str) -> (parent: Option<String>)
    ensures
        parent is Some == path_parent(path@) is Some,
        parent matches Some(text) ==> Some(text@) == path_parent(path@),
{
    std::path::Path::new(path).parent().map(|parent| parent.to_string_lossy().into_owned())
}

/// Put a name below a path.
pub fn join_path(path: &str, name: &str) -> (joined: String)
    ensures
        joined@ == path_below(path@, name@),
{
    let length: usize = path.unicode_len();
    let mut joined: String = path.to_owned();
    if length == 0 || path.get_char(length - 1) != '/' {
        append_text(&mut joined, "/");
    }
    append_text(&mut joined, name);
    joined
}

} // verus!
