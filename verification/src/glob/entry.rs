//! The entries of a directory listing.

use vstd::prelude::*;
use vstd::std_specs::cmp::PartialEqSpecImpl;

use crate::text::compare::same_text;

verus! {

/// One named child of a directory. `File`, `Directory` and `Other` hold the
/// path where the child really is; `Symlink` holds the path of the link
/// itself, not yet followed; `Error` stands for a child that could not be
/// classified.
#[derive(Debug)]
pub enum DirectoryEntry {
    File(String),
    Directory(String),
    Symlink(String),
    Other(String),
    Error,
}

/// What a `DirectoryEntry` is, with its path as a sequence of characters.
pub enum EntryView {
    File(Seq<char>),
    Directory(Seq<char>),
    Symlink(Seq<char>),
    Other(Seq<char>),
    Error,
}

impl EntryView {
    /// The path that the entry holds; `Error` holds none.
    pub open spec fn path(self) -> Option<Seq<char>> {
        match self {
            EntryView::File(p) => Some(p),
            EntryView::Directory(p) => Some(p),
            EntryView::Symlink(p) => Some(p),
            EntryView::Other(p) => Some(p),
            EntryView::Error => None,
        }
    }
}

impl View for DirectoryEntry {
    type V = EntryView;

    open spec fn view(&self) -> EntryView {
        match self {
            DirectoryEntry::File(p) => EntryView::File(p@),
            DirectoryEntry::Directory(p) => EntryView::Directory(p@),
            DirectoryEntry::Symlink(p) => EntryView::Symlink(p@),
            DirectoryEntry::Other(p) => EntryView::Other(p@),
            DirectoryEntry::Error => EntryView::Error,
        }
    }
}

impl DirectoryEntry {
    /// The path that the entry holds, if it holds one.
    pub fn path(&self) -> (path: Option<&String>)
        ensures
            match path {
                Some(p) => self@.path() == Some(p@),
                None => self@.path() is None,
            },
    {
        match self {
            DirectoryEntry::File(p) => Some(p),
            DirectoryEntry::Directory(p) => Some(p),
            DirectoryEntry::Symlink(p) => Some(p),
            DirectoryEntry::Other(p) => Some(p),
            DirectoryEntry::Error => None,
        }
    }

    /// Whether the entry is a directory.
    pub fn is_directory(&self) -> (b: bool)
        ensures
            b == (self@ is Directory),
    {
        match self {
            DirectoryEntry::Directory(_) => true,
            _ => false,
        }
    }
}

impl Clone for DirectoryEntry {
    fn clone(&self) -> (copy: Self)
        ensures
            copy == *self,
    {
        match self {
            DirectoryEntry::File(p) => DirectoryEntry::File(p.clone()),
            DirectoryEntry::Directory(p) => DirectoryEntry::Directory(p.clone()),
            DirectoryEntry::Symlink(p) => DirectoryEntry::Symlink(p.clone()),
            DirectoryEntry::Other(p) => DirectoryEntry::Other(p.clone()),
            DirectoryEntry::Error => DirectoryEntry::Error,
        }
    }
}

impl PartialEq for DirectoryEntry {
    fn eq(&self, other: &Self) -> (same: bool) {
        match (self, other) {
            (DirectoryEntry::File(a), DirectoryEntry::File(b)) => same_text(a.as_str(), b.as_str()),
            (DirectoryEntry::Directory(a), DirectoryEntry::Directory(b)) => same_text(
                a.as_str(),
                b.as_str(),
            ),
            (DirectoryEntry::Symlink(a), DirectoryEntry::Symlink(b)) => same_text(
                a.as_str(),
                b.as_str(),
            ),
            (DirectoryEntry::Other(a), DirectoryEntry::Other(b)) => same_text(
                a.as_str(),
                b.as_str(),
            ),
            (DirectoryEntry::Error, DirectoryEntry::Error) => true,
            _ => false,
        }
    }
}

impl PartialEqSpecImpl for DirectoryEntry {
    open spec fn obeys_eq_spec() -> bool {
        true
    }

    open spec fn eq_spec(&self, other: &Self) -> bool {
        self@ == other@
    }
}

impl Eq for DirectoryEntry {

}

} // verus!
