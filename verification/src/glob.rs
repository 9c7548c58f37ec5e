//! Walking a directory tree with a glob: what each directory contributes to
//! reading and to tracking, which subdirectories are walked in turn, and
//! which links are refused.

pub mod collect;
pub mod entry;
pub mod entry_map;
pub mod laws;
pub mod listing;
pub mod paths;
pub mod read;
pub mod symlink;
pub mod track;
pub mod walk;
