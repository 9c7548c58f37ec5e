//! Relative paths of a traversal, as `/`-joined strings.

use vstd::prelude::*;
use vstd::string::*;

use crate::text::compare::starts_with;

verus! {

/// The path of an entry named `segment` in the directory walked under
/// `prefix`: the segment itself at the root, else `prefix/segment`.
pub open spec fn joined(prefix: Seq<char>, segment: Seq<char>) -> Seq<char> {
    if prefix.len() == 0 {
        segment
    } else {
        prefix + seq!['/'] + segment
    }
}

/// Builds the traversal path of an entry from the prefix of its directory
/// and its name.
pub fn entry_path(prefix: &str, segment: &str) -> (path: String)
    ensures
        path@ == joined(prefix@, segment@),
{
    if prefix.is_empty() {
        String::from_str(segment)
    } else {
        let mut path = String::from_str(prefix);
        proof {
            reveal_strlit("/");
        }
        path.append("/");
        path.append(segment);
        assert("/"@ =~= seq!['/']);
        path
    }
}

/// Whether `path` names `other` itself or something below it: `other` is a
/// prefix of `path` that ends where `path` ends or where a `/` follows. The
/// empty path is the root, which holds every path.
pub open spec fn inside_or_equal(path: Seq<char>, other: Seq<char>) -> bool {
    &&& other.is_prefix_of(path)
    &&& (other.len() == 0 || path.len() == other.len() || path[other.len() as int] == '/')
}

/// Whether a name begins with a dot.
pub open spec fn dot_name(segment: Seq<char>) -> bool {
    segment.len() > 0 && segment[0] == '.'
}

/// Tests whether `path` is `other` or lies below it.
pub fn is_inside_or_equal(path: &str, other: &str) -> (inside: bool)
    ensures
        inside == inside_or_equal(path@, other@),
{
    if starts_with(path, other) {
        if other.is_empty() {
            true
        } else {
            let n = other.unicode_len();
            let m = path.unicode_len();
            n == m || path.get_char(n) == '/'
        }
    } else {
        false
    }
}

/// Tests whether a name begins with a dot.
pub fn is_dot_name(segment: &str) -> (dot: bool)
    ensures
        dot == dot_name(segment@),
{
    !segment.is_empty() && segment.get_char(0) == '.'
}

} // verus!
