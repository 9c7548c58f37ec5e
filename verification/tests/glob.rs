use std::collections::BTreeMap;

use glob_walk::glob::entry::DirectoryEntry;
use glob_walk::glob::listing::{visit, DirectoryContent, ListedEntry};
use glob_walk::glob::paths::{entry_path, is_dot_name, is_inside_or_equal};
use glob_walk::glob::read::{read_glob, read_glob_inner, ReadGlobResult};
use glob_walk::glob::symlink::{resolve_symlink_safely, SymlinkLoop};
use glob_walk::glob::track::{track_entry, track_glob, track_glob_inner, TrackAction, TrackPlan};

/// What lies at a path of the file system used by these tests.
#[derive(Clone, Debug, PartialEq)]
enum Node {
    File(String),
    Dir,
    Link(String),
}

/// A file system held in memory: every path below the root, with what lies
/// there. The root is the empty path.
#[derive(Clone, Debug, PartialEq)]
struct Fs {
    nodes: BTreeMap<String, Node>,
}

impl Fs {
    fn new() -> Fs {
        Fs { nodes: BTreeMap::new() }
    }

    fn file(&mut self, path: &str, content: &str) {
        self.nodes.insert(path.to_string(), Node::File(content.to_string()));
    }

    fn dir(&mut self, path: &str) {
        self.nodes.insert(path.to_string(), Node::Dir);
    }

    fn link(&mut self, path: &str, target: &str) {
        self.nodes.insert(path.to_string(), Node::Link(target.to_string()));
    }

    fn remove(&mut self, path: &str) {
        self.nodes.remove(path);
    }

    fn is_dir(&self, path: &str) -> bool {
        path.is_empty() || self.nodes.get(path) == Some(&Node::Dir)
    }

    fn classify(&self, path: &str) -> DirectoryEntry {
        match self.nodes.get(path) {
            Some(Node::File(_)) => DirectoryEntry::File(path.to_string()),
            Some(Node::Dir) => DirectoryEntry::Directory(path.to_string()),
            Some(Node::Link(_)) => DirectoryEntry::Symlink(path.to_string()),
            None if path.is_empty() => DirectoryEntry::Directory(String::new()),
            None => DirectoryEntry::Error,
        }
    }

    /// Follows links until something else is reached.
    fn resolve(&self, entry: &DirectoryEntry) -> DirectoryEntry {
        let mut current = entry.clone();
        let mut hops = 0;
        while let DirectoryEntry::Symlink(path) = &current {
            let target = match self.nodes.get(path) {
                Some(Node::Link(target)) => target.clone(),
                _ => return DirectoryEntry::Error,
            };
            hops += 1;
            if hops > 40 {
                return DirectoryEntry::Error;
            }
            current = self.classify(&target);
        }
        current
    }

    /// The names and entries of a directory, or `None` if there is none.
    fn read_dir(&self, dir: &str) -> Option<Vec<(String, DirectoryEntry)>> {
        if !self.is_dir(dir) {
            return None;
        }
        let mut entries = Vec::new();
        for path in self.nodes.keys() {
            let name = if dir.is_empty() {
                path.as_str()
            } else {
                match path.strip_prefix(dir).and_then(|rest| rest.strip_prefix('/')) {
                    Some(name) => name,
                    None => continue,
                }
            };
            if !name.is_empty() && !name.contains('/') {
                entries.push((name.to_string(), self.classify(path)));
            }
        }
        Some(entries)
    }
}

fn segment_matches(pattern: &str, name: &str) -> bool {
    match pattern.split_once('*') {
        None => pattern == name,
        Some((head, tail)) => {
            name.len() >= head.len() + tail.len() && name.starts_with(head) && name.ends_with(tail)
        }
    }
}

fn segments_match(pattern: &[&str], path: &[&str]) -> bool {
    match pattern.split_first() {
        None => path.is_empty(),
        Some((&"**", rest)) => (0..=path.len()).any(|skip| segments_match(rest, &path[skip..])),
        Some((first, rest)) => match path.split_first() {
            None => false,
            Some((name, below)) => segment_matches(first, name) && segments_match(rest, below),
        },
    }
}

fn segments_can_match_below(pattern: &[&str], dir: &[&str]) -> bool {
    match pattern.split_first() {
        None => false,
        Some((&"**", _)) => true,
        Some((first, rest)) => match dir.split_first() {
            None => true,
            Some((name, below)) => {
                segment_matches(first, name) && segments_can_match_below(rest, below)
            }
        },
    }
}

/// A small glob for these tests: `*` within a name, `**` for any run of
/// names.
struct Glob {
    pattern: String,
}

impl Glob {
    fn new(pattern: &str) -> Glob {
        Glob { pattern: pattern.to_string() }
    }

    fn matches(&self, path: &str) -> bool {
        let pattern: Vec<&str> = self.pattern.split('/').collect();
        let path: Vec<&str> = path.split('/').collect();
        segments_match(&pattern, &path)
    }

    fn can_match_in_directory(&self, path: &str) -> bool {
        let pattern: Vec<&str> = self.pattern.split('/').collect();
        let path: Vec<&str> = path.split('/').collect();
        segments_can_match_below(&pattern, &path)
    }
}

/// Reads a directory and asks the file system and the glob about each entry.
fn probe(fs: &Fs, glob: &Glob, prefix: &str, dir: &str) -> DirectoryContent {
    match fs.read_dir(dir) {
        None => DirectoryContent::NotFound,
        Some(entries) => DirectoryContent::Entries(
            entries
                .into_iter()
                .map(|(segment, entry)| {
                    let path = entry_path(prefix, &segment);
                    ListedEntry {
                        resolved: fs.resolve(&entry),
                        matches: glob.matches(&path),
                        can_match_in_directory: glob.can_match_in_directory(&path),
                        segment,
                        entry,
                    }
                })
                .collect(),
        ),
    }
}

fn directory_of(entry: &DirectoryEntry) -> String {
    match entry {
        DirectoryEntry::Directory(path) => path.clone(),
        other => panic!("not a directory: {:?}", other),
    }
}

/// The result of the subdirectory `name` of a directory walked under
/// `prefix`.
fn child_result(
    fs: &Fs,
    glob: &Glob,
    prefix: &str,
    parent: &ReadGlobResult,
    name: &str,
) -> Result<ReadGlobResult, SymlinkLoop> {
    let directory = directory_of(parent.inner.get(name).unwrap());
    let below = entry_path(prefix, name);
    let content = probe(fs, glob, &below, &directory);
    read_glob_inner(below, &content)
}

/// Reads a whole tree, failing as soon as a directory does.
fn read_tree(
    fs: &Fs,
    glob: &Glob,
    prefix: &str,
    dir: &str,
    all: &mut BTreeMap<String, DirectoryEntry>,
) -> Result<(), SymlinkLoop> {
    let content = probe(fs, glob, prefix, dir);
    let result = read_glob_inner(prefix.to_string(), &content)?;
    for (path, entry) in result.results.iter() {
        all.insert(path.clone(), entry.clone());
    }
    for (name, entry) in result.inner.iter() {
        read_tree(fs, glob, &entry_path(prefix, name), &directory_of(entry), all)?;
    }
    Ok(())
}

/// What a tracking walk depends on, with the state of each thing at the time
/// of the walk. Two walks saw the same if and only if these are equal.
#[derive(Debug, PartialEq)]
struct Seen {
    listings: BTreeMap<String, Option<Vec<(String, DirectoryEntry)>>>,
    contents: BTreeMap<String, Option<String>>,
    types: BTreeMap<String, DirectoryEntry>,
}

fn track_tree(
    fs: &Fs,
    glob: &Glob,
    prefix: &str,
    dir: &str,
    include_dot_files: bool,
    seen: &mut Seen,
) -> Result<(), SymlinkLoop> {
    seen.listings.insert(dir.to_string(), fs.read_dir(dir));
    let content = probe(fs, glob, prefix, dir);
    let plan: TrackPlan = track_glob_inner(prefix.to_string(), &content, include_dot_files)?;
    for path in plan.reads.iter() {
        let content = match fs.nodes.get(path) {
            Some(Node::File(content)) => Some(content.clone()),
            _ => None,
        };
        seen.contents.insert(path.clone(), content);
    }
    for path in plan.types.iter() {
        seen.types.insert(path.clone(), fs.classify(path));
    }
    for descent in plan.completions.iter() {
        track_tree(fs, glob, &descent.prefix, &descent.directory, include_dot_files, seen)?;
    }
    Ok(())
}

fn track_star_star_glob(fs: &Fs, dir: &str) -> Seen {
    let mut seen =
        Seen { listings: BTreeMap::new(), contents: BTreeMap::new(), types: BTreeMap::new() };
    track_tree(fs, &Glob::new("**"), "", dir, false, &mut seen).unwrap();
    seen
}

#[test]
fn read_glob_basic() {
    let mut fs = Fs::new();
    fs.file("foo", "foo");
    fs.dir("sub");
    fs.file("sub/bar", "bar");

    let glob = Glob::new("**");
    let read_dir = read_glob(&probe(&fs, &glob, "", "")).unwrap();
    assert_eq!(read_dir.results.len(), 2);
    assert_eq!(read_dir.results.get("foo"), Some(&DirectoryEntry::File("foo".to_string())));
    assert_eq!(read_dir.results.get("sub"), Some(&DirectoryEntry::Directory("sub".to_string())));
    assert_eq!(read_dir.inner.len(), 1);
    let inner = child_result(&fs, &glob, "", &read_dir, "sub").unwrap();
    assert_eq!(inner.results.len(), 1);
    assert_eq!(inner.results.get("sub/bar"), Some(&DirectoryEntry::File("sub/bar".to_string())));
    assert_eq!(inner.inner.len(), 0);

    // Now with a more specific pattern
    let glob = Glob::new("**/bar");
    let read_dir = read_glob(&probe(&fs, &glob, "", "")).unwrap();
    assert_eq!(read_dir.results.len(), 0);
    assert_eq!(read_dir.inner.len(), 1);
    let inner = child_result(&fs, &glob, "", &read_dir, "sub").unwrap();
    assert_eq!(inner.results.len(), 1);
    assert_eq!(inner.results.get("sub/bar"), Some(&DirectoryEntry::File("sub/bar".to_string())));
    assert_eq!(inner.inner.len(), 0);
}

#[test]
fn read_glob_symlinks() {
    let mut fs = Fs::new();
    fs.dir("sub");
    fs.file("sub/foo.js", "foo");
    fs.link("link.js", "sub/foo.js");

    let read_dir = read_glob(&probe(&fs, &Glob::new("*.js"), "", "")).unwrap();
    assert_eq!(read_dir.results.len(), 1);
    assert_eq!(
        read_dir.results.get("link.js"),
        Some(&DirectoryEntry::File("sub/foo.js".to_string()))
    );
    assert_eq!(read_dir.inner.len(), 0);
}

#[test]
fn track_glob_invalidations() {
    let mut fs = Fs::new();
    fs.dir("dir");
    fs.file("dir/foo", "foo");
    fs.dir("dir/sub");
    fs.file("dir/sub/bar", "bar");
    // Add a dotfile
    fs.dir("dir/sub/.vim");
    fs.file("dir/sub/.vim/.gitignore", "ignore");
    // put a link in the dir that points at a file in the root.
    fs.file("link_target.js", "link_target");
    fs.link("dir/link.js", "link_target.js");

    let read_dir = track_star_star_glob(&fs, "dir");

    // Delete a file that we shouldn't be tracking
    fs.remove("dir/sub/.vim/.gitignore");
    let read_dir2 = track_star_star_glob(&fs, "dir");
    assert!(read_dir == read_dir2);

    // Delete a file that we should be tracking
    fs.remove("dir/foo");
    let read_dir2 = track_star_star_glob(&fs, "dir");
    assert!(read_dir != read_dir2);

    // Modify a symlink target file
    fs.file("link_target.js", "new_contents");
    let read_dir3 = track_star_star_glob(&fs, "dir");
    assert!(read_dir3 != read_dir2);
}

#[test]
fn track_glob_symlinks_loop() {
    let mut fs = Fs::new();
    fs.dir("sub");
    fs.file("sub/foo.js", "foo");
    // put a link in sub that points back at its parent director
    fs.link("sub/link", "sub");

    let mut seen =
        Seen { listings: BTreeMap::new(), contents: BTreeMap::new(), types: BTreeMap::new() };
    let err = track_tree(&fs, &Glob::new("**"), "", "", false, &mut seen)
        .expect_err("Should have detected an infinite loop");
    assert_eq!("'sub/link' is a symlink causes that causes an infinite loop!", err.message());

    // Same when calling track glob
    let mut seen =
        Seen { listings: BTreeMap::new(), contents: BTreeMap::new(), types: BTreeMap::new() };
    let err = track_tree(&fs, &Glob::new("**"), "", "", false, &mut seen)
        .expect_err("Should have detected an infinite loop");
    assert_eq!("'sub/link' is a symlink causes that causes an infinite loop!", err.message());
}

#[test]
fn read_glob_symlinks_loop() {
    let mut fs = Fs::new();
    fs.dir("sub");
    fs.file("sub/foo.js", "foo");
    // put a link in sub that points back at its parent director
    fs.link("sub/link", "sub");

    let mut all = BTreeMap::new();
    let err = read_tree(&fs, &Glob::new("**"), "", "", &mut all)
        .expect_err("Should have detected an infinite loop");
    assert_eq!("'sub/link' is a symlink causes that causes an infinite loop!", err.message());

    // Same when calling track glob
    let mut seen =
        Seen { listings: BTreeMap::new(), contents: BTreeMap::new(), types: BTreeMap::new() };
    let err = track_tree(&fs, &Glob::new("**"), "", "", false, &mut seen)
        .expect_err("Should have detected an infinite loop");
    assert_eq!("'sub/link' is a symlink causes that causes an infinite loop!", err.message());
}

#[test]
fn entry_path_joins_with_slash() {
    assert_eq!(entry_path("", "foo"), "foo");
    assert_eq!(entry_path("sub", "bar"), "sub/bar");
    assert_eq!(entry_path("a/b", "c"), "a/b/c");
    assert_eq!(entry_path("a", ""), "a/");
}

#[test]
fn inside_or_equal_goes_by_whole_names() {
    assert!(is_inside_or_equal("sub/link", "sub"));
    assert!(is_inside_or_equal("sub", "sub"));
    assert!(is_inside_or_equal("sub/a/b", ""));
    assert!(is_inside_or_equal("", ""));
    assert!(!is_inside_or_equal("subway/link", "sub"));
    assert!(!is_inside_or_equal("sub", "sub/link"));
    assert!(!is_inside_or_equal("other/link", "sub"));
}

#[test]
fn dot_names_begin_with_a_dot() {
    assert!(is_dot_name(".vim"));
    assert!(is_dot_name("."));
    assert!(!is_dot_name("vim."));
    assert!(!is_dot_name(""));
}

#[test]
fn link_to_own_directory_is_a_loop() {
    let entry = DirectoryEntry::Symlink("a/b/link".to_string());
    for target in ["a/b", "a", ""] {
        let err = resolve_symlink_safely(&entry, DirectoryEntry::Directory(target.to_string()))
            .expect_err("a link to an ancestor");
        assert_eq!(err.path, "a/b/link");
    }
}

#[test]
fn link_elsewhere_is_followed() {
    let entry = DirectoryEntry::Symlink("a/b/link".to_string());
    let resolved = resolve_symlink_safely(&entry, DirectoryEntry::Directory("a/c".to_string()));
    assert_eq!(resolved.unwrap(), DirectoryEntry::Directory("a/c".to_string()));
    let resolved = resolve_symlink_safely(&entry, DirectoryEntry::File("a/b".to_string()));
    assert_eq!(resolved.unwrap(), DirectoryEntry::File("a/b".to_string()));
    let resolved = resolve_symlink_safely(&entry, DirectoryEntry::Error);
    assert_eq!(resolved.unwrap(), DirectoryEntry::Error);
}

#[test]
fn unchanged_entry_is_no_loop() {
    let entry = DirectoryEntry::Directory("a/b".to_string());
    let resolved = resolve_symlink_safely(&entry, entry.clone());
    assert_eq!(resolved.unwrap(), entry);
}

#[test]
fn pruned_directory_is_not_descended() {
    let mut fs = Fs::new();
    fs.dir("keep");
    fs.file("keep/a.js", "a");
    fs.dir("skip");
    fs.file("skip/a.js", "a");

    let glob = Glob::new("keep/*.js");
    let top = read_glob(&probe(&fs, &glob, "", "")).unwrap();
    assert_eq!(top.results.len(), 0);
    assert_eq!(top.inner.len(), 1);
    assert!(top.child("keep").is_some());
    assert!(top.child("skip").is_none());

    let mut all = BTreeMap::new();
    read_tree(&fs, &glob, "", "", &mut all).unwrap();
    assert_eq!(all.len(), 1);
    assert_eq!(all.get("keep/a.js"), Some(&DirectoryEntry::File("keep/a.js".to_string())));

    let mut before =
        Seen { listings: BTreeMap::new(), contents: BTreeMap::new(), types: BTreeMap::new() };
    track_tree(&fs, &glob, "", "", true, &mut before).unwrap();
    fs.file("skip/b.js", "b");
    fs.remove("skip/a.js");
    let mut after =
        Seen { listings: BTreeMap::new(), contents: BTreeMap::new(), types: BTreeMap::new() };
    track_tree(&fs, &glob, "", "", true, &mut after).unwrap();
    assert_eq!(before, after);
    assert!(!before.listings.contains_key("skip"));
}

#[test]
fn read_keeps_dot_files_that_track_passes_over() {
    let mut fs = Fs::new();
    fs.file(".hidden", "h");
    fs.dir(".git");
    fs.file(".git/config", "c");
    fs.file("shown", "s");

    let glob = Glob::new("**");
    let content = probe(&fs, &glob, "", "");
    let read = read_glob(&content).unwrap();
    assert_eq!(read.result(".hidden"), Some(&DirectoryEntry::File(".hidden".to_string())));
    assert_eq!(read.result(".git"), Some(&DirectoryEntry::Directory(".git".to_string())));
    assert!(read.child(".git").is_some());
    assert_eq!(read.results.len(), 3);

    let plan = track_glob(&content, false).unwrap();
    assert_eq!(plan.reads, vec!["shown".to_string()]);
    assert!(plan.types.is_empty());
    assert!(plan.completions.is_empty());

    let plan = track_glob(&content, true).unwrap();
    assert_eq!(plan.reads, vec![".hidden".to_string(), "shown".to_string()]);
    assert_eq!(plan.completions.len(), 1);
    assert_eq!(plan.completions[0].prefix, ".git");
    assert_eq!(plan.completions[0].directory, ".git");
}

#[test]
fn hidden_loop_is_not_seen_by_track_without_dot_files() {
    let mut fs = Fs::new();
    fs.dir("sub");
    fs.link("sub/.link", "sub");
    let glob = Glob::new("**");
    let content = probe(&fs, &glob, "sub", "sub");
    assert!(track_glob_inner("sub".to_string(), &content, false).is_ok());
    let err = track_glob_inner("sub".to_string(), &content, true).expect_err("a loop");
    assert_eq!(err.path, "sub/.link");
    let err = read_glob_inner("sub".to_string(), &content).expect_err("a loop");
    assert_eq!(err.path, "sub/.link");
}

#[test]
fn missing_directory_is_empty() {
    let read = read_glob(&DirectoryContent::NotFound).unwrap();
    assert!(read.results.is_empty());
    assert!(read.inner.is_empty());
    let plan = track_glob(&DirectoryContent::NotFound, true).unwrap();
    assert!(plan.reads.is_empty() && plan.types.is_empty() && plan.completions.is_empty());
}

#[test]
fn track_entry_decides_by_kind() {
    let item = |resolved: DirectoryEntry, matches: bool, can: bool| ListedEntry {
        segment: "x".to_string(),
        entry: resolved.clone(),
        resolved,
        matches,
        can_match_in_directory: can,
    };
    let file = item(DirectoryEntry::File("p/x".to_string()), true, false);
    assert!(matches!(track_entry("q", &file, true), Ok(TrackAction::ReadContent(p)) if p == "p/x"));
    let file = item(DirectoryEntry::File("p/x".to_string()), false, true);
    assert!(matches!(track_entry("q", &file, true), Ok(TrackAction::Nothing)));
    let other = item(DirectoryEntry::Other("p/x".to_string()), true, false);
    assert!(matches!(track_entry("q", &other, true), Ok(TrackAction::ReadType(p)) if p == "p/x"));
    let dir = item(DirectoryEntry::Directory("p/x".to_string()), false, true);
    assert!(matches!(
        track_entry("q", &dir, true),
        Ok(TrackAction::Descend(d)) if d.prefix == "q/x" && d.directory == "p/x"
    ));
    let dir = item(DirectoryEntry::Directory("p/x".to_string()), true, false);
    assert!(matches!(track_entry("q", &dir, true), Ok(TrackAction::Nothing)));
    let error = item(DirectoryEntry::Error, true, true);
    assert!(matches!(track_entry("q", &error, true), Ok(TrackAction::Nothing)));
}

#[test]
fn later_entry_replaces_earlier_under_same_key() {
    let item = |path: &str| ListedEntry {
        segment: "x".to_string(),
        entry: DirectoryEntry::File(path.to_string()),
        resolved: DirectoryEntry::File(path.to_string()),
        matches: true,
        can_match_in_directory: false,
    };
    let content = DirectoryContent::Entries(vec![item("first"), item("second")]);
    let read = read_glob_inner("d".to_string(), &content).unwrap();
    assert_eq!(read.results.len(), 1);
    assert_eq!(read.result("d/x"), Some(&DirectoryEntry::File("second".to_string())));
}

#[test]
fn read_finds_exactly_the_matches() {
    let mut fs = Fs::new();
    fs.file("a.js", "");
    fs.file("b.ts", "");
    fs.dir("src");
    fs.file("src/c.js", "");
    fs.dir("src/deep");
    fs.file("src/deep/d.js", "");
    fs.file("src/deep/bar", "");
    fs.dir("src/.cache");
    fs.file("src/.cache/e.js", "");
    fs.dir("empty");
    fs.dir("bar");
    fs.file("bar/bar", "");

    for pattern in ["**", "**/bar", "*.js", "src/*.js", "src/**", "**/*.js", "src/*/bar", "none"] {
        let glob = Glob::new(pattern);
        let mut found = BTreeMap::new();
        read_tree(&fs, &glob, "", "", &mut found).unwrap();
        let mut expected = BTreeMap::new();
        for path in fs.nodes.keys() {
            if glob.matches(path) {
                expected.insert(path.clone(), fs.classify(path));
            }
        }
        assert_eq!(found, expected, "pattern {}", pattern);
    }
}

#[test]
fn visit_tells_path_match_and_descent() {
    let item = ListedEntry {
        segment: "lib".to_string(),
        entry: DirectoryEntry::Symlink("src/lib".to_string()),
        resolved: DirectoryEntry::Directory("vendor/lib".to_string()),
        matches: false,
        can_match_in_directory: true,
    };
    let seen = visit("src", &item).unwrap();
    assert_eq!(seen.path, "src/lib");
    assert_eq!(seen.entry, DirectoryEntry::Directory("vendor/lib".to_string()));
    assert!(!seen.matches);
    assert!(seen.descends);

    let item = ListedEntry {
        segment: "a".to_string(),
        entry: DirectoryEntry::File("a".to_string()),
        resolved: DirectoryEntry::File("a".to_string()),
        matches: true,
        can_match_in_directory: true,
    };
    let seen = visit("", &item).unwrap();
    assert_eq!(seen.path, "a");
    assert!(seen.matches);
    assert!(!seen.descends);

    let item = ListedEntry {
        segment: "up".to_string(),
        entry: DirectoryEntry::Symlink("a/b/up".to_string()),
        resolved: DirectoryEntry::Directory("a".to_string()),
        matches: true,
        can_match_in_directory: true,
    };
    assert_eq!(visit("a/b", &item).unwrap_err().path, "a/b/up");
}

#[test]
fn other_entries_are_tracked_by_type() {
    let content = DirectoryContent::Entries(vec![
        ListedEntry {
            segment: "socket".to_string(),
            entry: DirectoryEntry::Other("run/socket".to_string()),
            resolved: DirectoryEntry::Other("run/socket".to_string()),
            matches: true,
            can_match_in_directory: false,
        },
        ListedEntry {
            segment: "broken".to_string(),
            entry: DirectoryEntry::Error,
            resolved: DirectoryEntry::Error,
            matches: true,
            can_match_in_directory: true,
        },
    ]);
    let plan = track_glob_inner("run".to_string(), &content, true).unwrap();
    assert!(plan.reads.is_empty());
    assert_eq!(plan.types, vec!["run/socket".to_string()]);
    assert!(plan.completions.is_empty());
    let read = read_glob_inner("run".to_string(), &content).unwrap();
    assert_eq!(read.result("run/socket"), Some(&DirectoryEntry::Other("run/socket".to_string())));
    assert_eq!(read.result("run/broken"), Some(&DirectoryEntry::Error));
    assert!(read.inner.is_empty());
}

#[test]
fn order_of_the_listing_does_not_matter_to_reading() {
    let item = |name: &str, resolved: DirectoryEntry, matches: bool, can: bool| ListedEntry {
        segment: name.to_string(),
        entry: resolved.clone(),
        resolved,
        matches,
        can_match_in_directory: can,
    };
    let entries = || {
        vec![
            item("a", DirectoryEntry::File("d/a".to_string()), true, false),
            item("b", DirectoryEntry::Directory("d/b".to_string()), true, true),
            item("c", DirectoryEntry::Directory("d/c".to_string()), false, true),
            item("e", DirectoryEntry::Other("d/e".to_string()), false, false),
        ]
    };
    let forward = read_glob_inner("d".to_string(), &DirectoryContent::Entries(entries())).unwrap();
    let mut reversed = entries();
    reversed.reverse();
    let backward = read_glob_inner("d".to_string(), &DirectoryContent::Entries(reversed)).unwrap();
    assert_eq!(forward.results, backward.results);
    assert_eq!(forward.inner, backward.inner);
    assert_eq!(forward.results.len(), 2);
    assert_eq!(forward.inner.len(), 2);
}
