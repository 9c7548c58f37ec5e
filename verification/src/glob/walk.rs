//! A walk as a whole: the directories that reading and tracking come to
//! when each subdirectory found is walked in turn, over a model of what the
//! file system and the glob answer.

use vstd::prelude::*;

use crate::glob::entry::EntryView;
use crate::glob::listing::{looping, ListedView};
use crate::glob::paths::joined;
use crate::glob::read::{read_inner, read_results};
use crate::glob::track::{track_descents, track_looping, DescentView};

verus! {

/// An entry of a directory as the file system lists it: its name and what it
/// is, links not followed.
pub struct Named {
    pub name: Seq<char>,
    pub entry: EntryView,
}

/// What a walk can learn from its surroundings.
pub struct World {
    /// The entries of each directory that exists, by its path.
    pub listings: Map<Seq<char>, Seq<Named>>,
    /// What the file system resolves an entry to, where that is not the
    /// entry itself.
    pub resolutions: Map<EntryView, EntryView>,
    /// The paths that the glob matches.
    pub matching: Set<Seq<char>>,
    /// The paths below which the glob can match.
    pub open: Set<Seq<char>>,
}

/// The traversal path made of the names `segments`, from the directory at
/// which the walk begins.
pub open spec fn path_of(segments: Seq<Seq<char>>) -> Seq<char>
    decreases segments.len(),
{
    if segments.len() == 0 {
        Seq::empty()
    } else {
        joined(path_of(segments.drop_last()), segments.last())
    }
}

/// The listing holds an entry of this name, which is `entry`.
pub open spec fn entry_named(listing: Seq<Named>, name: Seq<char>, entry: EntryView) -> bool {
    exists|i: int| 0 <= i < listing.len() && #[trigger] listing[i] == (Named { name, entry })
}

impl World {
    /// No two entries of one directory have one name.
    pub open spec fn names_distinct(self) -> bool {
        forall|directory: Seq<char>, i: int, j: int|
            self.listings.contains_key(directory) && 0 <= i < j < self.listings[directory].len()
                ==> (#[trigger] self.listings[directory][i]).name
                != (#[trigger] self.listings[directory][j]).name
    }

    /// The file system resolves links only: what is no link is resolved to
    /// itself.
    pub open spec fn resolves_links_only(self) -> bool {
        forall|entry: EntryView| !(entry is Symlink) ==> #[trigger] self.resolve(entry) == entry
    }

    /// No directory lists a link.
    pub open spec fn no_symlinks(self) -> bool {
        forall|directory: Seq<char>, i: int|
            self.listings.contains_key(directory) && 0 <= i < self.listings[directory].len()
                ==> !((#[trigger] self.listings[directory][i]).entry is Symlink)
    }

    /// The glob can match below every path that lies above a path which it
    /// matches.
    pub open spec fn glob_consistent(self) -> bool {
        forall|segments: Seq<Seq<char>>, k: int|
            0 < k < segments.len() && self.matching.contains(path_of(segments))
                ==> self.open.contains(#[trigger] path_of(segments.take(k)))
    }

    /// The directory `parent` exists and lists `entry` under `name`.
    pub open spec fn lists(self, parent: Seq<char>, name: Seq<char>, entry: EntryView) -> bool {
        self.listings.contains_key(parent) && entry_named(self.listings[parent], name, entry)
    }

    /// Going down from `root` through the directories named by `segments`,
    /// as the file system lists them, ends in `directory`.
    pub open spec fn leads_to(
        self,
        root: Seq<char>,
        segments: Seq<Seq<char>>,
        directory: Seq<char>,
    ) -> bool
        decreases segments.len(),
    {
        if segments.len() == 0 {
            directory == root
        } else {
            exists|parent: Seq<char>|
                self.leads_to(root, segments.drop_last(), parent) && #[trigger] self.lists(
                    parent,
                    segments.last(),
                    EntryView::Directory(directory),
                )
        }
    }

    /// `entry` lies under `root` at the end of the names `segments`.
    pub open spec fn located(
        self,
        root: Seq<char>,
        segments: Seq<Seq<char>>,
        entry: EntryView,
    ) -> bool {
        &&& segments.len() > 0
        &&& exists|parent: Seq<char>|
            self.leads_to(root, segments.drop_last(), parent) && #[trigger] self.lists(
                parent,
                segments.last(),
                entry,
            )
    }

    /// What the file system resolves an entry to.
    pub open spec fn resolve(self, entry: EntryView) -> EntryView {
        if self.resolutions.contains_key(entry) {
            self.resolutions[entry]
        } else {
            entry
        }
    }

    /// An entry of the directory walked under `prefix`, with the answers of
    /// the file system and the glob.
    pub open spec fn answer(self, prefix: Seq<char>, named: Named) -> ListedView {
        ListedView {
            segment: named.name,
            entry: named.entry,
            resolved: self.resolve(named.entry),
            matches: self.matching.contains(joined(prefix, named.name)),
            can_match_in_directory: self.open.contains(joined(prefix, named.name)),
        }
    }

    /// The content of `directory` as the walk under `prefix` is handed it:
    /// nothing where there is no such directory.
    pub open spec fn probe(self, prefix: Seq<char>, directory: Seq<char>) -> Seq<ListedView> {
        if self.listings.contains_key(directory) {
            self.listings[directory].map_values(|named: Named| self.answer(prefix, named))
        } else {
            Seq::empty()
        }
    }

    /// Reading the directory `parent` under `prefix` succeeds and holds the
    /// subdirectory `name`, which is `directory`, in its `inner`.
    pub open spec fn read_step(
        self,
        prefix: Seq<char>,
        parent: Seq<char>,
        name: Seq<char>,
        directory: Seq<char>,
    ) -> bool {
        &&& forall|i: int| !looping(self.probe(prefix, parent), i)
        &&& read_inner(self.probe(prefix, parent)).contains_pair(
            name,
            EntryView::Directory(directory),
        )
    }

    /// Reading, begun at `root`, comes to `directory` by going down through
    /// the names `segments`: each directory on the way was read without a
    /// loop, and held the next one in its `inner`.
    pub open spec fn read_visits(
        self,
        root: Seq<char>,
        segments: Seq<Seq<char>>,
        directory: Seq<char>,
    ) -> bool
        decreases segments.len(),
    {
        if segments.len() == 0 {
            directory == root
        } else {
            exists|parent: Seq<char>|
                self.read_visits(root, segments.drop_last(), parent) && #[trigger] self.read_step(
                    path_of(segments.drop_last()),
                    parent,
                    segments.last(),
                    directory,
                )
        }
    }

    /// Reading the directory at `segments` succeeds and has `entry` under
    /// `path` in its results.
    pub open spec fn read_yields(
        self,
        segments: Seq<Seq<char>>,
        directory: Seq<char>,
        path: Seq<char>,
        entry: EntryView,
    ) -> bool {
        &&& forall|i: int| !looping(self.probe(path_of(segments), directory), i)
        &&& read_results(path_of(segments), self.probe(path_of(segments), directory)).contains_pair(
            path,
            entry,
        )
    }

    /// Reading, begun at `root`, finds `entry` under `path` in the results
    /// of some directory that it comes to.
    pub open spec fn read_finds(self, root: Seq<char>, path: Seq<char>, entry: EntryView) -> bool {
        exists|segments: Seq<Seq<char>>, directory: Seq<char>|
            self.read_visits(root, segments, directory) && #[trigger] self.read_yields(
                segments,
                directory,
                path,
                entry,
            )
    }

    /// Tracking the directory `parent` under `prefix` succeeds and asks for
    /// the subdirectory `name`, which is `directory`, to be tracked.
    pub open spec fn track_step(
        self,
        include_dot_files: bool,
        prefix: Seq<char>,
        parent: Seq<char>,
        name: Seq<char>,
        directory: Seq<char>,
    ) -> bool {
        &&& forall|j: int| !track_looping(self.probe(prefix, parent), include_dot_files, j)
        &&& track_descents(prefix, self.probe(prefix, parent), include_dot_files).contains(
            DescentView { prefix: joined(prefix, name), directory },
        )
    }

    /// Tracking, begun at `root`, comes to `directory` by going down through
    /// the names `segments`: each directory on the way was tracked without a
    /// loop, and asked for the next one to be tracked.
    pub open spec fn track_visits(
        self,
        include_dot_files: bool,
        root: Seq<char>,
        segments: Seq<Seq<char>>,
        directory: Seq<char>,
    ) -> bool
        decreases segments.len(),
    {
        if segments.len() == 0 {
            directory == root
        } else {
            exists|parent: Seq<char>|
                self.track_visits(include_dot_files, root, segments.drop_last(), parent)
                    && #[trigger] self.track_step(
                    include_dot_files,
                    path_of(segments.drop_last()),
                    parent,
                    segments.last(),
                    directory,
                )
        }
    }
}

} // verus!
