//! Hash maps from strings to directory entries.

use rustc_hash::FxHashMap;
use vstd::prelude::*;

use crate::glob::entry::{DirectoryEntry, EntryView};

verus! {

/// `rustc_hash::FxBuildHasher`, which makes the hashers of the maps below.
/// Nothing is claimed of it.
#[verifier::external_type_specification]
#[verifier::external_body]
pub struct ExFxBuildHasher(rustc_hash::FxBuildHasher);

/// What a map holds: for each key, by its characters, the entry stored
/// under it.
pub uninterp spec fn entries_of(map: FxHashMap<String, DirectoryEntry>) -> Map<
    Seq<char>,
    EntryView,
>;

/// The map that holds nothing.
pub open spec fn no_entries() -> Map<Seq<char>, EntryView> {
    Map::empty()
}

/// `FxHashMap::default`: a map that holds nothing.
#[verifier::external_body]
pub(crate) fn empty_map() -> (fresh: FxHashMap<String, DirectoryEntry>)
    ensures
        entries_of(fresh) == no_entries(),
{
    FxHashMap::default()
}

/// `HashMap::insert`: afterwards the map holds `value` under `key`, in place
/// of what it held there before, and everything else as before.
#[verifier::external_body]
pub(crate) fn insert_entry(
    map: &mut FxHashMap<String, DirectoryEntry>,
    key: String,
    value: DirectoryEntry,
)
    ensures
        entries_of(*final(map)) == entries_of(*old(map)).insert(key@, value@),
{
    map.insert(key, value);
}

/// `HashMap::get`: the entry stored under `key`, if there is one.
#[verifier::external_body]
pub(crate) fn get_entry<'a>(map: &'a FxHashMap<String, DirectoryEntry>, key: &str) -> (found:
    Option<&'a DirectoryEntry>)
    ensures
        match found {
            Some(entry) => entries_of(*map).contains_pair(key@, entry@),
            None => !entries_of(*map).contains_key(key@),
        },
{
    map.get(key)
}

} // verus!
