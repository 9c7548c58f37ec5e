//! Reading the matches of a glob, one directory at a time.

use rustc_hash::FxHashMap;
use vstd::prelude::*;

use crate::glob::collect::{collected, lemma_collected_empty, lemma_collected_push, Choice};
use crate::glob::entry::{DirectoryEntry, EntryView};
use crate::glob::entry_map::{empty_map, entries_of, get_entry, insert_entry, no_entries};
use crate::glob::listing::{
    descends, first_loop, looping, visit, DirectoryContent, ListedEntry, ListedView,
};
use crate::glob::paths::joined;
use crate::glob::symlink::{closes_loop, SymlinkLoop};

verus! {

/// What one directory contributes to the matches of a glob.
#[derive(Debug)]
pub struct ReadGlobResult {
    /// The matching entries of this directory, each under its traversal path
    /// and as the file system resolved it.
    pub results: FxHashMap<String, DirectoryEntry>,
    /// The subdirectories in which the glob can still match, each under its
    /// name: the directories whose own results continue this one.
    pub inner: FxHashMap<String, DirectoryEntry>,
}

/// What an entry brings to `results`: under its traversal path, if the glob
/// matches it, the entry as resolved.
pub open spec fn result_choice(prefix: Seq<char>, l: ListedView) -> Choice {
    Choice { key: joined(prefix, l.segment), taken: l.matches, value: l.resolved }
}

/// What an entry brings to `inner`: under its name, if the walk goes down
/// into it, the directory that it resolved to.
pub open spec fn inner_choice(l: ListedView) -> Choice {
    Choice { key: l.segment, taken: descends(l), value: l.resolved }
}

/// The `results` of a directory walked under `prefix`.
pub open spec fn read_results(prefix: Seq<char>, listing: Seq<ListedView>) -> Map<
    Seq<char>,
    EntryView,
> {
    collected(listing.map_values(|l: ListedView| result_choice(prefix, l)))
}

/// The `inner` of a directory.
pub open spec fn read_inner(listing: Seq<ListedView>) -> Map<Seq<char>, EntryView> {
    collected(listing.map_values(|l: ListedView| inner_choice(l)))
}

impl ReadGlobResult {
    /// The matches held, by traversal path.
    pub open spec fn results_view(&self) -> Map<Seq<char>, EntryView> {
        entries_of(self.results)
    }

    /// The subdirectories held, by name.
    pub open spec fn inner_view(&self) -> Map<Seq<char>, EntryView> {
        entries_of(self.inner)
    }

    /// The match stored under a traversal path.
    pub fn result(&self, path: &str) -> (found: Option<&DirectoryEntry>)
        ensures
            match found {
                Some(entry) => self.results_view().contains_pair(path@, entry@),
                None => !self.results_view().contains_key(path@),
            },
    {
        get_entry(&self.results, path)
    }

    /// The subdirectory stored under a name.
    pub fn child(&self, name: &str) -> (found: Option<&DirectoryEntry>)
        ensures
            match found {
                Some(entry) => self.inner_view().contains_pair(name@, entry@),
                None => !self.inner_view().contains_key(name@),
            },
    {
        get_entry(&self.inner, name)
    }

    /// Takes one entry of the directory walked under `prefix` into the
    /// result, or reports the loop that the entry closes and leaves the
    /// result as it was.
    pub fn record(&mut self, prefix: &str, item: &ListedEntry) -> (outcome: Result<
        (),
        SymlinkLoop,
    >)
        ensures
            match outcome {
                Ok(_) => {
                    &&& !closes_loop(item@.entry, item@.resolved)
                    &&& final(self).results_view() == if item@.matches {
                        old(self).results_view().insert(
                            joined(prefix@, item@.segment),
                            item@.resolved,
                        )
                    } else {
                        old(self).results_view()
                    }
                    &&& final(self).inner_view() == if descends(item@) {
                        old(self).inner_view().insert(item@.segment, item@.resolved)
                    } else {
                        old(self).inner_view()
                    }
                },
                Err(l) => {
                    &&& closes_loop(item@.entry, item@.resolved)
                    &&& Some(l.path@) == item@.entry.path()
                    &&& *final(self) == *old(self)
                },
            },
    {
        let seen = match visit(prefix, item) {
            Ok(seen) => seen,
            Err(l) => {
                return Err(l);
            },
        };
        if seen.matches {
            insert_entry(&mut self.results, seen.path, seen.entry.clone());
        }
        if seen.descends {
            insert_entry(&mut self.inner, item.segment.clone(), seen.entry);
        }
        Ok(())
    }
}

impl Default for ReadGlobResult {
    fn default() -> (fresh: Self)
        ensures
            fresh.results_view() == no_entries(),
            fresh.inner_view() == no_entries(),
    {
        ReadGlobResult { results: empty_map(), inner: empty_map() }
    }
}

/// Reads what the directory walked under `prefix` contributes: its matching
/// entries and the subdirectories in which the walk goes on. A directory that
/// does not exist contributes nothing. The first entry that closes a loop
/// ends the reading with its report.
pub fn read_glob_internal(prefix: &str, content: &DirectoryContent) -> (outcome: Result<
    ReadGlobResult,
    SymlinkLoop,
>)
    ensures
        match outcome {
            Ok(result) => {
                &&& forall|i: int| !looping(content@, i)
                &&& result.results_view() == read_results(prefix@, content@)
                &&& result.inner_view() == read_inner(content@)
            },
            Err(l) => exists|i: int|
                first_loop(content@, i) && Some(l.path@) == (#[trigger] content@[i]).entry.path(),
        },
{
    let mut result = ReadGlobResult::default();
    proof {
        lemma_collected_empty();
    }
    match content {
        DirectoryContent::Entries(entries) => {
            let ghost listing = content@;
            let mut i: usize = 0;
            while i < entries.len()
                invariant
                    0 <= i <= entries.len(),
                    listing == content@,
                    listing == entries@.map_values(|l: ListedEntry| l@),
                    forall|j: int| 0 <= j < i ==> !looping(listing, j),
                    result.results_view() == read_results(prefix@, listing.take(i as int)),
                    result.inner_view() == read_inner(listing.take(i as int)),
                decreases entries.len() - i,
            {
                let ghost before = listing.take(i as int);
                let ghost item = listing[i as int];
                proof {
                    assert(listing.take(i + 1) =~= before.push(item));
                    assert(before.push(item).map_values(|l: ListedView| result_choice(prefix@, l))
                        =~= before.map_values(|l: ListedView| result_choice(prefix@, l)).push(
                        result_choice(prefix@, item),
                    ));
                    assert(before.push(item).map_values(|l: ListedView| inner_choice(l))
                        =~= before.map_values(|l: ListedView| inner_choice(l)).push(
                        inner_choice(item),
                    ));
                    lemma_collected_push(
                        before.map_values(|l: ListedView| result_choice(prefix@, l)),
                        result_choice(prefix@, item),
                    );
                    lemma_collected_push(
                        before.map_values(|l: ListedView| inner_choice(l)),
                        inner_choice(item),
                    );
                }
                match result.record(prefix, &entries[i]) {
                    Ok(_) => {},
                    Err(l) => {
                        assert(first_loop(content@, i as int));
                        assert(Some(l.path@) == content@[i as int].entry.path());
                        return Err(l);
                    },
                }
                i = i + 1;
            }
            assert(listing.take(i as int) =~= listing);
        },
        DirectoryContent::NotFound => {
            assert(content@.map_values(|l: ListedView| result_choice(prefix@, l)) =~= Seq::empty());
            assert(content@.map_values(|l: ListedView| inner_choice(l)) =~= Seq::empty());
        },
    }
    Ok(result)
}

/// Reads the matches of a glob in the directory at which a walk begins.
pub fn read_glob(content: &DirectoryContent) -> (outcome: Result<ReadGlobResult, SymlinkLoop>)
    ensures
        match outcome {
            Ok(result) => {
                &&& forall|i: int| !looping(content@, i)
                &&& result.results_view() == read_results(Seq::empty(), content@)
                &&& result.inner_view() == read_inner(content@)
            },
            Err(l) => exists|i: int|
                first_loop(content@, i) && Some(l.path@) == (#[trigger] content@[i]).entry.path(),
        },
{
    proof {
        reveal_strlit("");
    }
    assert(""@ =~= Seq::<char>::empty());
    read_glob_internal("", content)
}

/// Reads the matches of a glob in a directory that the walk came down to
/// under `prefix`.
pub fn read_glob_inner(prefix: String, content: &DirectoryContent) -> (outcome: Result<
    ReadGlobResult,
    SymlinkLoop,
>)
    ensures
        match outcome {
            Ok(result) => {
                &&& forall|i: int| !looping(content@, i)
                &&& result.results_view() == read_results(prefix@, content@)
                &&& result.inner_view() == read_inner(content@)
            },
            Err(l) => exists|i: int|
                first_loop(content@, i) && Some(l.path@) == (#[trigger] content@[i]).entry.path(),
        },
{
    read_glob_internal(prefix.as_str(), content)
}

} // verus!
