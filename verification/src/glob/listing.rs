//! A directory's listing, with the answers that a walk needs about each
//! entry, and the one way in which every walk looks at an entry.

use vstd::prelude::*;

use crate::glob::entry::{DirectoryEntry, EntryView};
use crate::glob::paths::{entry_path, joined};
use crate::glob::symlink::{closes_loop, resolve_symlink_safely, SymlinkLoop};

verus! {

/// One entry of a listing together with what the file system and the glob
/// say of it.
#[derive(Debug)]
pub struct ListedEntry {
    /// The entry's name in its directory.
    pub segment: String,
    /// The entry as listed, links not followed.
    pub entry: DirectoryEntry,
    /// What the file system resolved the entry to.
    pub resolved: DirectoryEntry,
    /// Whether the glob matches the entry's traversal path.
    pub matches: bool,
    /// Whether the glob can match anything below the entry's traversal path.
    pub can_match_in_directory: bool,
}

/// A `ListedEntry` with its strings as sequences of characters.
pub struct ListedView {
    pub segment: Seq<char>,
    pub entry: EntryView,
    pub resolved: EntryView,
    pub matches: bool,
    pub can_match_in_directory: bool,
}

impl View for ListedEntry {
    type V = ListedView;

    open spec fn view(&self) -> ListedView {
        ListedView {
            segment: self.segment@,
            entry: self.entry@,
            resolved: self.resolved@,
            matches: self.matches,
            can_match_in_directory: self.can_match_in_directory,
        }
    }
}

/// What reading a directory gave: its entries, or that there is no such
/// directory.
#[derive(Debug)]
pub enum DirectoryContent {
    Entries(Vec<ListedEntry>),
    NotFound,
}

impl View for DirectoryContent {
    type V = Seq<ListedView>;

    /// The entries in the order of the listing; none for a directory that
    /// does not exist.
    open spec fn view(&self) -> Seq<ListedView> {
        match self {
            DirectoryContent::Entries(entries) => entries@.map_values(|l: ListedEntry| l@),
            DirectoryContent::NotFound => Seq::empty(),
        }
    }
}

/// Entry `i` of the listing is a link that closes a loop.
pub open spec fn looping(listing: Seq<ListedView>, i: int) -> bool {
    0 <= i < listing.len() && closes_loop(listing[i].entry, listing[i].resolved)
}

/// Entry `i` is the first of the listing that closes a loop.
pub open spec fn first_loop(listing: Seq<ListedView>, i: int) -> bool {
    looping(listing, i) && forall|j: int| 0 <= j < i ==> !looping(listing, j)
}

/// Whether a walk goes down into an entry: it resolved to a directory in
/// which the glob can match.
pub open spec fn descends(l: ListedView) -> bool {
    l.resolved is Directory && l.can_match_in_directory
}

/// What a walk sees of an entry: its traversal path, what it resolved to,
/// whether the glob matches it, and whether the walk goes down into it.
#[derive(Debug)]
pub struct Visit {
    pub path: String,
    pub entry: DirectoryEntry,
    pub matches: bool,
    pub descends: bool,
}

/// A `Visit` with its strings as sequences of characters.
pub struct VisitView {
    pub path: Seq<char>,
    pub entry: EntryView,
    pub matches: bool,
    pub descends: bool,
}

impl View for Visit {
    type V = VisitView;

    open spec fn view(&self) -> VisitView {
        VisitView {
            path: self.path@,
            entry: self.entry@,
            matches: self.matches,
            descends: self.descends,
        }
    }
}

/// What a walk under `prefix` sees of an entry.
pub open spec fn visit_of(prefix: Seq<char>, l: ListedView) -> VisitView {
    VisitView {
        path: joined(prefix, l.segment),
        entry: l.resolved,
        matches: l.matches,
        descends: descends(l),
    }
}

/// Looks at one entry of the directory walked under `prefix`, as reading and
/// tracking both do: refuses a link that closes a loop, and tells of any
/// other entry its traversal path, what it resolved to, whether the glob
/// matches it and whether the walk goes down into it.
pub fn visit(prefix: &str, item: &ListedEntry) -> (outcome: Result<Visit, SymlinkLoop>)
    ensures
        match outcome {
            Ok(seen) => !closes_loop(item@.entry, item@.resolved) && seen@ == visit_of(
                prefix@,
                item@,
            ),
            Err(l) => closes_loop(item@.entry, item@.resolved) && Some(l.path@)
                == item@.entry.path(),
        },
{
    let entry = match resolve_symlink_safely(&item.entry, item.resolved.clone()) {
        Ok(entry) => entry,
        Err(l) => {
            return Err(l);
        },
    };
    let descends = entry.is_directory() && item.can_match_in_directory;
    Ok(Visit { path: entry_path(prefix, item.segment.as_str()), entry, matches: item.matches, descends })
}

} // verus!
