//! Tracking the matches of a glob, one directory at a time: which files,
//! types and subdirectories a caller has to depend on, and nothing of what
//! they hold.

use vstd::prelude::*;

use crate::glob::entry::DirectoryEntry;
use crate::glob::listing::{descends, looping, visit, DirectoryContent, ListedEntry, ListedView};
use crate::glob::paths::{dot_name, is_dot_name, joined};
use crate::glob::symlink::{closes_loop, SymlinkLoop};

verus! {

/// A subdirectory in which the walk goes on: the prefix under which it is
/// walked and the directory that is read there.
#[derive(Debug)]
pub struct Descent {
    pub prefix: String,
    pub directory: String,
}

/// A `Descent` with its strings as sequences of characters.
pub struct DescentView {
    pub prefix: Seq<char>,
    pub directory: Seq<char>,
}

impl View for Descent {
    type V = DescentView;

    open spec fn view(&self) -> DescentView {
        DescentView { prefix: self.prefix@, directory: self.directory@ }
    }
}

/// What tracking asks for on account of one entry.
#[derive(Debug)]
pub enum TrackAction {
    /// Nothing depends on the entry.
    Nothing,
    /// Track the subdirectory.
    Descend(Descent),
    /// Depend on the content of the file at this path.
    ReadContent(String),
    /// Depend on the type of what is at this path.
    ReadType(String),
}

/// A `TrackAction` with its strings as sequences of characters.
pub enum ActionView {
    Nothing,
    Descend(DescentView),
    ReadContent(Seq<char>),
    ReadType(Seq<char>),
}

impl View for TrackAction {
    type V = ActionView;

    open spec fn view(&self) -> ActionView {
        match self {
            TrackAction::Nothing => ActionView::Nothing,
            TrackAction::Descend(d) => ActionView::Descend(d@),
            TrackAction::ReadContent(p) => ActionView::ReadContent(p@),
            TrackAction::ReadType(p) => ActionView::ReadType(p@),
        }
    }
}

/// Whether tracking looks at an entry of this name at all: always when dot
/// files are included, else only when the name begins with no dot.
pub open spec fn considered(segment: Seq<char>, include_dot_files: bool) -> bool {
    include_dot_files || !dot_name(segment)
}

/// Tracking goes down into the entry.
pub open spec fn tracks_directory(l: ListedView, include_dot_files: bool) -> bool {
    considered(l.segment, include_dot_files) && descends(l)
}

/// Tracking depends on the entry's content.
pub open spec fn tracks_content(l: ListedView, include_dot_files: bool) -> bool {
    considered(l.segment, include_dot_files) && l.resolved is File && l.matches
}

/// Tracking depends on the entry's type.
pub open spec fn tracks_type(l: ListedView, include_dot_files: bool) -> bool {
    considered(l.segment, include_dot_files) && l.resolved is Other && l.matches
}

/// The subdirectory walk that an entry gives rise to.
pub open spec fn descent_into(prefix: Seq<char>, l: ListedView) -> DescentView {
    DescentView { prefix: joined(prefix, l.segment), directory: l.resolved->Directory_0 }
}

/// What tracking asks for on account of one entry of the directory walked
/// under `prefix`.
pub open spec fn track_action(
    prefix: Seq<char>,
    l: ListedView,
    include_dot_files: bool,
) -> ActionView {
    if tracks_directory(l, include_dot_files) {
        ActionView::Descend(descent_into(prefix, l))
    } else if tracks_content(l, include_dot_files) {
        ActionView::ReadContent(l.resolved->File_0)
    } else if tracks_type(l, include_dot_files) {
        ActionView::ReadType(l.resolved->Other_0)
    } else {
        ActionView::Nothing
    }
}

/// Entry `i` is looked at and closes a loop.
pub open spec fn track_looping(listing: Seq<ListedView>, include_dot_files: bool, i: int) -> bool {
    looping(listing, i) && considered(listing[i].segment, include_dot_files)
}

/// Entry `i` is the first that is looked at and closes a loop.
pub open spec fn first_track_loop(
    listing: Seq<ListedView>,
    include_dot_files: bool,
    i: int,
) -> bool {
    track_looping(listing, include_dot_files, i) && forall|j: int|
        0 <= j < i ==> !track_looping(listing, include_dot_files, j)
}

/// No entry that is looked at is still an unresolved link.
pub open spec fn links_resolved(listing: Seq<ListedView>, include_dot_files: bool) -> bool {
    forall|i: int|
        0 <= i < listing.len() && considered(listing[i].segment, include_dot_files) ==> !((
        #[trigger] listing[i]).resolved is Symlink)
}

/// The files whose content tracking depends on, in the order of the listing.
pub open spec fn track_reads(listing: Seq<ListedView>, include_dot_files: bool) -> Seq<Seq<char>> {
    listing.filter(|l: ListedView| tracks_content(l, include_dot_files)).map_values(
        |l: ListedView| l.resolved->File_0,
    )
}

/// The paths whose type tracking depends on, in the order of the listing.
pub open spec fn track_types(listing: Seq<ListedView>, include_dot_files: bool) -> Seq<Seq<char>> {
    listing.filter(|l: ListedView| tracks_type(l, include_dot_files)).map_values(
        |l: ListedView| l.resolved->Other_0,
    )
}

/// The subdirectories in which tracking goes on, in the order of the listing.
pub open spec fn track_descents(
    prefix: Seq<char>,
    listing: Seq<ListedView>,
    include_dot_files: bool,
) -> Seq<DescentView> {
    listing.filter(|l: ListedView| tracks_directory(l, include_dot_files)).map_values(
        |l: ListedView| descent_into(prefix, l),
    )
}

/// What tracking one directory asks for.
#[derive(Debug)]
pub struct TrackPlan {
    /// Files whose content is depended on.
    pub reads: Vec<String>,
    /// Paths whose type is depended on.
    pub types: Vec<String>,
    /// Subdirectories to track in turn.
    pub completions: Vec<Descent>,
}

impl TrackPlan {
    /// The files whose content is depended on.
    pub open spec fn reads_view(&self) -> Seq<Seq<char>> {
        self.reads@.map_values(|p: String| p@)
    }

    /// The paths whose type is depended on.
    pub open spec fn types_view(&self) -> Seq<Seq<char>> {
        self.types@.map_values(|p: String| p@)
    }

    /// The subdirectories to track in turn.
    pub open spec fn completions_view(&self) -> Seq<DescentView> {
        self.completions@.map_values(|d: Descent| d@)
    }
}

/// Filtering a sequence with one more item at its end keeps that item if it
/// passes, and is the filtered sequence if it does not.
pub proof fn lemma_filter_push<A>(s: Seq<A>, x: A, pred: spec_fn(A) -> bool)
    ensures
        s.push(x).filter(pred) == if pred(x) {
            s.filter(pred).push(x)
        } else {
            s.filter(pred)
        },
{
    reveal(Seq::filter);
    assert(s.push(x).drop_last() =~= s);
}

/// What is picked out of a sequence and then mapped holds a value exactly
/// when some item that passes is mapped to it.
pub proof fn lemma_filter_map_contains<A, B>(
    s: Seq<A>,
    pred: spec_fn(A) -> bool,
    f: spec_fn(A) -> B,
    x: B,
)
    ensures
        s.filter(pred).map_values(f).contains(x) <==> exists|i: int|
            0 <= i < s.len() && pred(#[trigger] s[i]) && f(s[i]) == x,
    decreases s.len(),
{
    let picked = s.filter(pred).map_values(f);
    if s.len() == 0 {
        reveal(Seq::filter);
        assert(s.filter(pred) =~= Seq::<A>::empty());
        if picked.contains(x) {
            let k = choose|k: int| 0 <= k < picked.len() && picked[k] == x;
        }
    } else {
        let before = s.drop_last();
        let last = s.last();
        assert(s =~= before.push(last));
        lemma_filter_push(before, last, pred);
        lemma_filter_map_contains(before, pred, f, x);
        let earlier = before.filter(pred).map_values(f);
        if picked.contains(x) {
            let k = choose|k: int| 0 <= k < picked.len() && picked[k] == x;
            if pred(last) && k == picked.len() - 1 {
                assert(f(s[s.len() - 1]) == x);
            } else {
                assert(earlier[k] == x);
                assert(earlier.contains(x));
                let i = choose|i: int| 0 <= i < before.len() && pred(#[trigger] before[i]) && f(
                    before[i],
                ) == x;
                assert(s[i] == before[i]);
            }
        }
        if exists|i: int| 0 <= i < s.len() && pred(#[trigger] s[i]) && f(s[i]) == x {
            let i = choose|i: int| 0 <= i < s.len() && pred(#[trigger] s[i]) && f(s[i]) == x;
            if i == s.len() - 1 {
                assert(picked[picked.len() - 1] == x);
            } else {
                assert(before[i] == s[i]);
                assert(earlier.contains(x));
                let k = choose|k: int| 0 <= k < earlier.len() && earlier[k] == x;
                assert(picked[k] == x);
            }
        }
    }
}

/// Decides what tracking asks for on account of one entry of the directory
/// walked under `prefix`. An entry whose name begins with a dot is passed
/// over unseen when dot files are not included; any other entry that closes
/// a loop is reported.
pub fn track_entry(prefix: &str, item: &ListedEntry, include_dot_files: bool) -> (outcome: Result<
    TrackAction,
    SymlinkLoop,
>)
    requires
        considered(item@.segment, include_dot_files) ==> !(item@.resolved is Symlink),
    ensures
        match outcome {
            Ok(action) => {
                &&& !(considered(item@.segment, include_dot_files) && closes_loop(
                    item@.entry,
                    item@.resolved,
                ))
                &&& action@ == track_action(prefix@, item@, include_dot_files)
            },
            Err(l) => {
                &&& considered(item@.segment, include_dot_files)
                &&& closes_loop(item@.entry, item@.resolved)
                &&& Some(l.path@) == item@.entry.path()
            },
        },
{
    if !include_dot_files && is_dot_name(item.segment.as_str()) {
        return Ok(TrackAction::Nothing);
    }
    let seen = match visit(prefix, item) {
        Ok(seen) => seen,
        Err(l) => {
            return Err(l);
        },
    };
    match seen.entry {
        DirectoryEntry::Directory(path) => {
            if seen.descends {
                Ok(TrackAction::Descend(Descent { prefix: seen.path, directory: path }))
            } else {
                Ok(TrackAction::Nothing)
            }
        },
        DirectoryEntry::File(path) => {
            if seen.matches {
                Ok(TrackAction::ReadContent(path))
            } else {
                Ok(TrackAction::Nothing)
            }
        },
        DirectoryEntry::Other(path) => {
            if seen.matches {
                Ok(TrackAction::ReadType(path))
            } else {
                Ok(TrackAction::Nothing)
            }
        },
        DirectoryEntry::Symlink(_) => Ok(TrackAction::Nothing),
        DirectoryEntry::Error => Ok(TrackAction::Nothing),
    }
}

/// Tracks the directory walked under `prefix`: gathers the files and types
/// to depend on and the subdirectories to track in turn. A directory that
/// does not exist asks for nothing. The first entry that is looked at and
/// closes a loop ends the tracking with its report.
pub fn track_glob_internal(
    prefix: &str,
    content: &DirectoryContent,
    include_dot_files: bool,
) -> (outcome: Result<TrackPlan, SymlinkLoop>)
    requires
        links_resolved(content@, include_dot_files),
    ensures
        match outcome {
            Ok(plan) => {
                &&& forall|i: int| !track_looping(content@, include_dot_files, i)
                &&& plan.reads_view() == track_reads(content@, include_dot_files)
                &&& plan.types_view() == track_types(content@, include_dot_files)
                &&& plan.completions_view() == track_descents(
                    prefix@,
                    content@,
                    include_dot_files,
                )
            },
            Err(l) => exists|i: int|
                first_track_loop(content@, include_dot_files, i) && Some(l.path@) == (
                #[trigger] content@[i]).entry.path(),
        },
{
    let mut plan = TrackPlan { reads: Vec::new(), types: Vec::new(), completions: Vec::new() };
    let ghost content_pred = |l: ListedView| tracks_content(l, include_dot_files);
    let ghost type_pred = |l: ListedView| tracks_type(l, include_dot_files);
    let ghost directory_pred = |l: ListedView| tracks_directory(l, include_dot_files);
    let ghost file_path = |l: ListedView| l.resolved->File_0;
    let ghost other_path = |l: ListedView| l.resolved->Other_0;
    let ghost descent = |l: ListedView| descent_into(prefix@, l);
    proof {
        reveal(Seq::filter);
        assert(plan.reads_view() =~= Seq::<ListedView>::empty().filter(content_pred).map_values(
            file_path,
        ));
        assert(plan.types_view() =~= Seq::<ListedView>::empty().filter(type_pred).map_values(
            other_path,
        ));
        assert(plan.completions_view() =~= Seq::<ListedView>::empty().filter(
            directory_pred,
        ).map_values(descent));
    }
    match content {
        DirectoryContent::Entries(entries) => {
            let ghost listing = content@;
            let mut i: usize = 0;
            while i < entries.len()
                invariant
                    0 <= i <= entries.len(),
                    listing == content@,
                    listing == entries@.map_values(|l: ListedEntry| l@),
                    links_resolved(listing, include_dot_files),
                    content_pred == |l: ListedView| tracks_content(l, include_dot_files),
                    type_pred == |l: ListedView| tracks_type(l, include_dot_files),
                    directory_pred == |l: ListedView| tracks_directory(l, include_dot_files),
                    file_path == |l: ListedView| l.resolved->File_0,
                    other_path == |l: ListedView| l.resolved->Other_0,
                    descent == |l: ListedView| descent_into(prefix@, l),
                    forall|j: int| 0 <= j < i ==> !track_looping(listing, include_dot_files, j),
                    plan.reads_view() == listing.take(i as int).filter(content_pred).map_values(
                        file_path,
                    ),
                    plan.types_view() == listing.take(i as int).filter(type_pred).map_values(
                        other_path,
                    ),
                    plan.completions_view() == listing.take(i as int).filter(
                        directory_pred,
                    ).map_values(descent),
                decreases entries.len() - i,
            {
                let ghost before = listing.take(i as int);
                let ghost item = listing[i as int];
                let ghost old_reads = plan.reads_view();
                let ghost old_types = plan.types_view();
                let ghost old_completions = plan.completions_view();
                proof {
                    assert(listing.take(i + 1) =~= before.push(item));
                    lemma_filter_push(before, item, content_pred);
                    lemma_filter_push(before, item, type_pred);
                    lemma_filter_push(before, item, directory_pred);
                    assert(before.filter(content_pred).push(item).map_values(file_path)
                        =~= before.filter(content_pred).map_values(file_path).push(
                        file_path(item),
                    ));
                    assert(before.filter(type_pred).push(item).map_values(other_path)
                        =~= before.filter(type_pred).map_values(other_path).push(other_path(item)));
                    assert(before.filter(directory_pred).push(item).map_values(descent)
                        =~= before.filter(directory_pred).map_values(descent).push(descent(item)));
                    assert(entries[i as int]@ == item);
                }
                match track_entry(prefix, &entries[i], include_dot_files) {
                    Ok(TrackAction::Nothing) => {},
                    Ok(TrackAction::Descend(d)) => {
                        plan.completions.push(d);
                        assert(plan.completions_view() =~= old_completions.push(descent(item)));
                    },
                    Ok(TrackAction::ReadContent(path)) => {
                        plan.reads.push(path);
                        assert(plan.reads_view() =~= old_reads.push(file_path(item)));
                    },
                    Ok(TrackAction::ReadType(path)) => {
                        plan.types.push(path);
                        assert(plan.types_view() =~= old_types.push(other_path(item)));
                    },
                    Err(l) => {
                        assert(first_track_loop(content@, include_dot_files, i as int));
                        assert(Some(l.path@) == content@[i as int].entry.path());
                        return Err(l);
                    },
                }
                i = i + 1;
            }
            assert(listing.take(i as int) =~= listing);
        },
        DirectoryContent::NotFound => {},
    }
    Ok(plan)
}

/// Tracks the matches of a glob in the directory at which a walk begins.
pub fn track_glob(content: &DirectoryContent, include_dot_files: bool) -> (outcome: Result<
    TrackPlan,
    SymlinkLoop,
>)
    requires
        links_resolved(content@, include_dot_files),
    ensures
        match outcome {
            Ok(plan) => {
                &&& forall|i: int| !track_looping(content@, include_dot_files, i)
                &&& plan.reads_view() == track_reads(content@, include_dot_files)
                &&& plan.types_view() == track_types(content@, include_dot_files)
                &&& plan.completions_view() == track_descents(
                    Seq::empty(),
                    content@,
                    include_dot_files,
                )
            },
            Err(l) => exists|i: int|
                first_track_loop(content@, include_dot_files, i) && Some(l.path@) == (
                #[trigger] content@[i]).entry.path(),
        },
{
    proof {
        reveal_strlit("");
    }
    assert(""@ =~= Seq::<char>::empty());
    track_glob_internal("", content, include_dot_files)
}

/// Tracks the matches of a glob in a directory that the walk came down to
/// under `prefix`.
pub fn track_glob_inner(
    prefix: String,
    content: &DirectoryContent,
    include_dot_files: bool,
) -> (outcome: Result<TrackPlan, SymlinkLoop>)
    requires
        links_resolved(content@, include_dot_files),
    ensures
        match outcome {
            Ok(plan) => {
                &&& forall|i: int| !track_looping(content@, include_dot_files, i)
                &&& plan.reads_view() == track_reads(content@, include_dot_files)
                &&& plan.types_view() == track_types(content@, include_dot_files)
                &&& plan.completions_view() == track_descents(
                    prefix@,
                    content@,
                    include_dot_files,
                )
            },
            Err(l) => exists|i: int|
                first_track_loop(content@, include_dot_files, i) && Some(l.path@) == (
                #[trigger] content@[i]).entry.path(),
        },
{
    track_glob_internal(prefix.as_str(), content, include_dot_files)
}

} // verus!
