//! Following symbolic links without walking in circles.

use vstd::prelude::*;
use vstd::string::*;

use crate::glob::entry::{DirectoryEntry, EntryView};
use crate::glob::paths::{inside_or_equal, is_inside_or_equal};

verus! {

/// A link to a directory that holds the link itself, so that a walk which
/// followed it would come back to where it is.
#[derive(Debug)]
pub struct SymlinkLoop {
    /// Where the offending link is.
    pub path: String,
}

/// The text that reports a loop at `path`.
pub open spec fn loop_message(path: Seq<char>) -> Seq<char> {
    "'"@ + path + "' is a symlink causes that causes an infinite loop!"@
}

impl SymlinkLoop {
    /// The report of the loop, which names the link.
    pub fn message(&self) -> (text: String)
        ensures
            text@ == loop_message(self.path@),
    {
        let mut text = String::from_str("'");
        text.append(self.path.as_str());
        text.append("' is a symlink causes that causes an infinite loop!");
        text
    }
}

/// Whether following `entry` to `resolved` closes a loop: the resolution
/// changed the entry, it led to a directory, and the entry's own path is that
/// directory or lies below it.
pub open spec fn closes_loop(entry: EntryView, resolved: EntryView) -> bool {
    &&& resolved != entry
    &&& resolved is Directory
    &&& entry.path() is Some
    &&& inside_or_equal(entry.path()->0, resolved->Directory_0)
}

/// Accepts what the file system resolved `entry` to, unless walking on
/// through it would never end. `resolved` is the file system's answer for
/// `entry`. An entry without a path of its own closes no loop.
pub fn resolve_symlink_safely(entry: &DirectoryEntry, resolved: DirectoryEntry) -> (outcome: Result<
    DirectoryEntry,
    SymlinkLoop,
>)
    ensures
        match outcome {
            Ok(e) => !closes_loop(entry@, resolved@) && e == resolved,
            Err(l) => closes_loop(entry@, resolved@) && Some(l.path@) == entry@.path(),
        },
{
    if resolved != *entry {
        if let DirectoryEntry::Directory(target) = &resolved {
            match entry.path() {
                Some(source) => {
                    if is_inside_or_equal(source.as_str(), target.as_str()) {
                        return Err(SymlinkLoop { path: source.clone() });
                    }
                },
                None => {},
            }
        }
    }
    Ok(resolved)
}

} // verus!
