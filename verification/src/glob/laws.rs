//! What holds of every walk.

use vstd::prelude::*;

use crate::glob::collect::{
    brings, collected, keys_distinct, last_taken, lemma_collected_distinct,
    lemma_collected_of_distinct, lemma_collected_pair, lemma_taken_has_last, Choice,
};
use crate::glob::entry::EntryView;
use crate::glob::listing::{descends, first_loop, looping, ListedView};
use crate::glob::paths::{dot_name, inside_or_equal, joined};
use crate::glob::read::{inner_choice, read_inner, read_results, result_choice};
use crate::glob::symlink::closes_loop;
use crate::glob::track::{
    considered, descent_into, lemma_filter_map_contains, track_action, track_looping, track_reads,
    track_types, tracks_content, tracks_directory, tracks_type, ActionView, DescentView,
};
use crate::glob::walk::{path_of, Named, World};

verus! {

/// Two names that give one path in one directory are one name.
pub proof fn lemma_joined_injective(prefix: Seq<char>, a: Seq<char>, b: Seq<char>)
    requires
        joined(prefix, a) == joined(prefix, b),
    ensures
        a == b,
{
    if prefix.len() > 0 {
        let head = prefix + seq!['/'];
        assert((head + a).skip(head.len() as int) =~= a);
        assert((head + b).skip(head.len() as int) =~= b);
    }
}

/// A link to the directory that holds it, or to a directory above that one,
/// closes a loop, whatever the link is called.
pub proof fn law_link_to_ancestor_closes_loop(
    directory: Seq<char>,
    name: Seq<char>,
    target: Seq<char>,
)
    requires
        inside_or_equal(directory, target),
    ensures
        closes_loop(
            EntryView::Symlink(joined(directory, name)),
            EntryView::Directory(target),
        ),
{
    let link = joined(directory, name);
    if directory.len() > 0 {
        assert(link.subrange(0, target.len() as int) =~= directory.subrange(
            0,
            target.len() as int,
        ));
        if directory.len() == target.len() {
            assert(link[target.len() as int] == '/');
        } else if target.len() > 0 {
            assert(link[target.len() as int] == directory[target.len() as int]);
        }
    } else {
        assert(target.len() == 0);
        assert(link.subrange(0, 0) =~= target);
    }
}

/// A listing with such a link is not read to the end, and not tracked to the
/// end unless the link's name hides it from tracking: the link closes a
/// loop, and where it is the only entry that does, it is the first, which
/// the report names.
pub proof fn law_link_to_ancestor_ends_the_walk(
    listing: Seq<ListedView>,
    i: int,
    target: Seq<char>,
    include_dot_files: bool,
)
    requires
        0 <= i < listing.len(),
        listing[i].entry is Symlink,
        listing[i].resolved == EntryView::Directory(target),
        inside_or_equal(listing[i].entry->Symlink_0, target),
    ensures
        looping(listing, i),
        considered(listing[i].segment, include_dot_files) ==> track_looping(
            listing,
            include_dot_files,
            i,
        ),
        (forall|j: int| j != i ==> !looping(listing, j)) ==> first_loop(listing, i) && forall|
            k: int,
        |
            first_loop(listing, k) ==> k == i,
{
}

/// Tracking without dot files asks for nothing on account of an entry whose
/// name begins with a dot, whatever the glob says of it, and sees no loop in
/// it.
pub proof fn law_track_passes_over_dot_files(prefix: Seq<char>, l: ListedView)
    requires
        dot_name(l.segment),
    ensures
        track_action(prefix, l, false) == ActionView::Nothing,
        !tracks_content(l, false),
        !tracks_type(l, false),
        !tracks_directory(l, false),
        !considered(l.segment, false),
{
}

/// Without dot files, every file and every type that tracking a directory
/// depends on belongs to an entry whose name begins with no dot.
pub proof fn law_plan_leaves_out_dot_files(listing: Seq<ListedView>, path: Seq<char>)
    ensures
        track_reads(listing, false).contains(path) ==> exists|i: int|
            0 <= i < listing.len() && !dot_name((#[trigger] listing[i]).segment)
                && listing[i].matches && listing[i].resolved == EntryView::File(path),
        track_types(listing, false).contains(path) ==> exists|i: int|
            0 <= i < listing.len() && !dot_name((#[trigger] listing[i]).segment)
                && listing[i].matches && listing[i].resolved == EntryView::Other(path),
{
    lemma_filter_map_contains(
        listing,
        |l: ListedView| tracks_content(l, false),
        |l: ListedView| l.resolved->File_0,
        path,
    );
    lemma_filter_map_contains(
        listing,
        |l: ListedView| tracks_type(l, false),
        |l: ListedView| l.resolved->Other_0,
        path,
    );
    if track_reads(listing, false).contains(path) {
        let i = choose|i: int|
            0 <= i < listing.len() && tracks_content(#[trigger] listing[i], false)
                && listing[i].resolved->File_0 == path;
        assert(!dot_name(listing[i].segment) && listing[i].matches && listing[i].resolved
            == EntryView::File(path));
    }
    if track_types(listing, false).contains(path) {
        let i = choose|i: int|
            0 <= i < listing.len() && tracks_type(#[trigger] listing[i], false)
                && listing[i].resolved->Other_0 == path;
        assert(!dot_name(listing[i].segment) && listing[i].matches && listing[i].resolved
            == EntryView::Other(path));
    }
}

/// Reading knows no such exception: every entry that the glob matches has
/// its traversal path among the results, whatever its name, and every
/// directory in which the glob can match has its name in `inner`.
pub proof fn law_read_keeps_every_match(prefix: Seq<char>, listing: Seq<ListedView>, i: int)
    requires
        0 <= i < listing.len(),
    ensures
        listing[i].matches ==> read_results(prefix, listing).contains_key(
            joined(prefix, listing[i].segment),
        ),
        descends(listing[i]) ==> read_inner(listing).contains_key(listing[i].segment),
{
    if listing[i].matches {
        let items = listing.map_values(|l: ListedView| result_choice(prefix, l));
        let last = lemma_taken_has_last(items, i);
        assert(items[i].key == joined(prefix, listing[i].segment));
    }
    if descends(listing[i]) {
        let items = listing.map_values(|l: ListedView| inner_choice(l));
        let last = lemma_taken_has_last(items, i);
        assert(items[i].key == listing[i].segment);
    }
}

/// No two entries of the listing have one name.
pub open spec fn names_differ(listing: Seq<ListedView>) -> bool {
    forall|i: int, j: int|
        0 <= i < j < listing.len() ==> (#[trigger] listing[i]).segment != (
        #[trigger] listing[j]).segment
}

/// Each listing holds every entry of the other.
pub open spec fn same_entries(a: Seq<ListedView>, b: Seq<ListedView>) -> bool {
    &&& forall|i: int| 0 <= i < a.len() ==> b.contains(#[trigger] a[i])
    &&& forall|j: int| 0 <= j < b.len() ==> a.contains(#[trigger] b[j])
}

/// The maps gathered from two sequences of choices are equal where each
/// sequence holds every taken item of the other and neither has a key twice.
proof fn lemma_collected_same(a: Seq<Choice>, b: Seq<Choice>)
    requires
        keys_distinct(a),
        keys_distinct(b),
        forall|i: int| 0 <= i < a.len() && (#[trigger] a[i]).taken ==> b.contains(a[i]),
        forall|j: int| 0 <= j < b.len() && (#[trigger] b[j]).taken ==> a.contains(b[j]),
    ensures
        collected(a) == collected(b),
{
    assert forall|key: Seq<char>, value: EntryView|
        collected(a).contains_pair(key, value) <==> collected(b).contains_pair(key, value) by {
        lemma_collected_of_distinct(a, key, value);
        lemma_collected_of_distinct(b, key, value);
        if exists|i: int| brings(a, key, value, i) {
            let i = choose|i: int| brings(a, key, value, i);
            let j = choose|j: int| 0 <= j < b.len() && b[j] == a[i];
            assert(brings(b, key, value, j));
        }
        if exists|j: int| brings(b, key, value, j) {
            let j = choose|j: int| brings(b, key, value, j);
            let i = choose|i: int| 0 <= i < a.len() && a[i] == b[j];
            assert(brings(a, key, value, i));
        }
    }
    assert forall|key: Seq<char>| collected(a).dom().contains(key) <==> collected(b).dom().contains(
        key,
    ) by {
        if collected(a).dom().contains(key) {
            assert(collected(a).contains_pair(key, collected(a)[key]));
        }
        if collected(b).dom().contains(key) {
            assert(collected(b).contains_pair(key, collected(b)[key]));
        }
    }
    assert forall|key: Seq<char>| collected(a).dom().contains(key) implies collected(a)[key]
        == collected(b)[key] by {
        assert(collected(a).contains_pair(key, collected(a)[key]));
    }
    assert(collected(a) =~= collected(b));
}

/// What a directory contributes to reading does not depend on the order in
/// which its entries are listed.
pub proof fn law_read_ignores_listing_order(
    prefix: Seq<char>,
    a: Seq<ListedView>,
    b: Seq<ListedView>,
)
    requires
        names_differ(a),
        names_differ(b),
        same_entries(a, b),
    ensures
        read_results(prefix, a) == read_results(prefix, b),
        read_inner(a) == read_inner(b),
{
    let results_a = a.map_values(|l: ListedView| result_choice(prefix, l));
    let results_b = b.map_values(|l: ListedView| result_choice(prefix, l));
    let inner_a = a.map_values(|l: ListedView| inner_choice(l));
    let inner_b = b.map_values(|l: ListedView| inner_choice(l));
    assert forall|i: int, j: int|
        0 <= i < j < a.len() && results_a[i].taken && results_a[j].taken implies results_a[i].key
        != results_a[j].key by {
        if results_a[i].key == results_a[j].key {
            lemma_joined_injective(prefix, a[i].segment, a[j].segment);
        }
    }
    assert forall|i: int, j: int|
        0 <= i < j < b.len() && results_b[i].taken && results_b[j].taken implies results_b[i].key
        != results_b[j].key by {
        if results_b[i].key == results_b[j].key {
            lemma_joined_injective(prefix, b[i].segment, b[j].segment);
        }
    }
    assert forall|i: int| 0 <= i < results_a.len() implies results_b.contains(
        #[trigger] results_a[i],
    ) by {
        let j = choose|j: int| 0 <= j < b.len() && b[j] == a[i];
        assert(results_b[j] == results_a[i]);
    }
    assert forall|i: int| 0 <= i < inner_a.len() implies inner_b.contains(#[trigger] inner_a[i]) by {
        let j = choose|j: int| 0 <= j < b.len() && b[j] == a[i];
        assert(inner_b[j] == inner_a[i]);
    }
    assert forall|j: int| 0 <= j < results_b.len() implies results_a.contains(
        #[trigger] results_b[j],
    ) by {
        let i = choose|i: int| 0 <= i < a.len() && a[i] == b[j];
        assert(results_a[i] == results_b[j]);
    }
    assert forall|j: int| 0 <= j < inner_b.len() implies inner_a.contains(#[trigger] inner_b[j]) by {
        let i = choose|i: int| 0 <= i < a.len() && a[i] == b[j];
        assert(inner_a[i] == inner_b[j]);
    }
    assert(keys_distinct(inner_a)) by {
        assert forall|i: int, j: int|
            0 <= i < j < inner_a.len() && inner_a[i].taken && inner_a[j].taken implies inner_a[i].key
            != inner_a[j].key by {
            assert(a[i].segment != a[j].segment);
        }
    }
    assert(keys_distinct(inner_b)) by {
        assert forall|i: int, j: int|
            0 <= i < j < inner_b.len() && inner_b[i].taken && inner_b[j].taken implies inner_b[i].key
            != inner_b[j].key by {
            assert(b[i].segment != b[j].segment);
        }
    }
    lemma_collected_same(results_a, results_b);
    lemma_collected_same(inner_a, inner_b);
}

/// A link to a file is matched by the path of the link and depended on by
/// the path of the file: where the glob matches the link's traversal path,
/// reading holds the file under that path, and tracking reads the file's
/// content, whether or not the glob matches where the file is.
pub proof fn law_link_to_file_goes_by_its_own_path(
    world: World,
    prefix: Seq<char>,
    named: Named,
    file: Seq<char>,
    include_dot_files: bool,
)
    requires
        named.entry is Symlink,
        world.resolve(named.entry) == EntryView::File(file),
        world.matching.contains(joined(prefix, named.name)),
    ensures
        result_choice(prefix, world.answer(prefix, named)) == (Choice {
            key: joined(prefix, named.name),
            taken: true,
            value: EntryView::File(file),
        }),
        !closes_loop(named.entry, world.resolve(named.entry)),
        considered(named.name, include_dot_files) ==> track_action(
            prefix,
            world.answer(prefix, named),
            include_dot_files,
        ) == ActionView::ReadContent(file),
{
}

/// Whatever `inner` holds is a directory.
pub proof fn law_inner_holds_only_directories(listing: Seq<ListedView>, name: Seq<char>)
    requires
        read_inner(listing).contains_key(name),
    ensures
        read_inner(listing)[name] is Directory,
{
    let items = listing.map_values(|l: ListedView| inner_choice(l));
    lemma_collected_pair(items, name, read_inner(listing)[name]);
    let i = choose|i: int| last_taken(items, name, i) && items[i].value == read_inner(listing)[name];
    assert(items[i] == inner_choice(listing[i]));
}

/// A directory is in `inner` only if the glob can match in it: one in which
/// it cannot is left out.
pub proof fn law_inner_holds_only_open_directories(
    world: World,
    prefix: Seq<char>,
    directory: Seq<char>,
    name: Seq<char>,
)
    requires
        read_inner(world.probe(prefix, directory)).contains_key(name),
    ensures
        world.open.contains(joined(prefix, name)),
{
    let listing = world.probe(prefix, directory);
    let items = listing.map_values(|l: ListedView| inner_choice(l));
    let i = choose|i: int| last_taken(items, name, i);
    assert(last_taken(items, name, i));
    assert(items[i] == inner_choice(listing[i]));
    assert(listing[i] == world.answer(prefix, world.listings[directory][i]));
}

/// Reading goes down only through directories in which the glob can match:
/// every path on the way from the root to a directory that it comes to is
/// one below which the glob can match.
pub proof fn law_read_descends_only_where_open(
    world: World,
    root: Seq<char>,
    segments: Seq<Seq<char>>,
    directory: Seq<char>,
)
    requires
        world.read_visits(root, segments, directory),
    ensures
        forall|k: int| 0 < k <= segments.len() ==> world.open.contains(#[trigger] path_of(segments.take(k))),
    decreases segments.len(),
{
    if segments.len() > 0 {
        let above = segments.drop_last();
        let parent = choose|parent: Seq<char>|
            world.read_visits(root, above, parent) && #[trigger] world.read_step(
                path_of(above),
                parent,
                segments.last(),
                directory,
            );
        law_read_descends_only_where_open(world, root, above, parent);
        law_inner_holds_only_open_directories(world, path_of(above), parent, segments.last());
        assert forall|k: int| 0 < k <= segments.len() implies world.open.contains(
            #[trigger] path_of(segments.take(k)),
        ) by {
            if k < segments.len() {
                assert(segments.take(k) =~= above.take(k));
            } else {
                assert(segments.take(k) =~= segments);
            }
        }
    }
}

/// Below a directory in which the glob cannot match, reading comes to
/// nothing: neither to that directory nor to any directory under it.
pub proof fn law_pruned_subtree_is_not_read(
    world: World,
    root: Seq<char>,
    pruned: Seq<Seq<char>>,
    below: Seq<Seq<char>>,
    directory: Seq<char>,
)
    requires
        pruned.len() > 0,
        !world.open.contains(path_of(pruned)),
    ensures
        !world.read_visits(root, pruned + below, directory),
{
    if world.read_visits(root, pruned + below, directory) {
        law_read_descends_only_where_open(world, root, pruned + below, directory);
        assert((pruned + below).take(pruned.len() as int) =~= pruned);
    }
}

/// Tracking goes down only through directories in which the glob can match
/// and whose names it looks at.
pub proof fn law_track_descends_only_where_open(
    world: World,
    include_dot_files: bool,
    root: Seq<char>,
    segments: Seq<Seq<char>>,
    directory: Seq<char>,
)
    requires
        world.track_visits(include_dot_files, root, segments, directory),
    ensures
        forall|k: int| 0 < k <= segments.len() ==> world.open.contains(#[trigger] path_of(segments.take(k))),
        forall|k: int| 0 <= k < segments.len() ==> considered(#[trigger] segments[k], include_dot_files),
    decreases segments.len(),
{
    if segments.len() > 0 {
        let above = segments.drop_last();
        let parent = choose|parent: Seq<char>|
            world.track_visits(include_dot_files, root, above, parent) && #[trigger] world.track_step(
                include_dot_files,
                path_of(above),
                parent,
                segments.last(),
                directory,
            );
        law_track_descends_only_where_open(world, include_dot_files, root, above, parent);
        let listing = world.probe(path_of(above), parent);
        lemma_filter_map_contains(
            listing,
            |l: ListedView| tracks_directory(l, include_dot_files),
            |l: ListedView| descent_into(path_of(above), l),
            DescentView { prefix: path_of(segments), directory },
        );
        let i = choose|i: int|
            0 <= i < listing.len() && tracks_directory(#[trigger] listing[i], include_dot_files)
                && descent_into(path_of(above), listing[i]) == (DescentView {
                prefix: path_of(segments),
                directory,
            });
        assert(listing[i] == world.answer(path_of(above), world.listings[parent][i]));
        lemma_joined_injective(path_of(above), listing[i].segment, segments.last());
        assert(world.open.contains(path_of(segments)));
        assert forall|k: int| 0 < k <= segments.len() implies world.open.contains(
            #[trigger] path_of(segments.take(k)),
        ) by {
            if k < segments.len() {
                assert(segments.take(k) =~= above.take(k));
            } else {
                assert(segments.take(k) =~= segments);
            }
        }
        assert forall|k: int| 0 <= k < segments.len() implies considered(
            #[trigger] segments[k],
            include_dot_files,
        ) by {
            if k < segments.len() - 1 {
                assert(segments[k] == above[k]);
            }
        }
    }
}

/// Below a directory in which the glob cannot match, tracking comes to
/// nothing, so that nothing there is depended on.
pub proof fn law_pruned_subtree_is_not_tracked(
    world: World,
    include_dot_files: bool,
    root: Seq<char>,
    pruned: Seq<Seq<char>>,
    below: Seq<Seq<char>>,
    directory: Seq<char>,
)
    requires
        pruned.len() > 0,
        !world.open.contains(path_of(pruned)),
    ensures
        !world.track_visits(include_dot_files, root, pruned + below, directory),
{
    if world.track_visits(include_dot_files, root, pruned + below, directory) {
        law_track_descends_only_where_open(world, include_dot_files, root, pruned + below, directory);
        assert((pruned + below).take(pruned.len() as int) =~= pruned);
    }
}

/// Without dot files, tracking comes to nothing below a directory whose
/// name begins with a dot.
pub proof fn law_hidden_subtree_is_not_tracked(
    world: World,
    root: Seq<char>,
    hidden: Seq<Seq<char>>,
    below: Seq<Seq<char>>,
    directory: Seq<char>,
)
    requires
        hidden.len() > 0,
        dot_name(hidden.last()),
    ensures
        !world.track_visits(false, root, hidden + below, directory),
{
    if world.track_visits(false, root, hidden + below, directory) {
        law_track_descends_only_where_open(world, false, root, hidden + below, directory);
        assert((hidden + below)[hidden.len() - 1] == hidden.last());
    }
}

/// Tracking depends on nothing but the directories that it comes to: in a
/// world that hands it the same content for each of them, whatever else has
/// changed, it comes to the same directories and is handed the same there.
pub proof fn law_track_sees_only_what_it_visits(
    before: World,
    after: World,
    include_dot_files: bool,
    root: Seq<char>,
    segments: Seq<Seq<char>>,
    directory: Seq<char>,
)
    requires
        forall|s: Seq<Seq<char>>, d: Seq<char>| #[trigger]
            before.track_visits(include_dot_files, root, s, d) ==> after.probe(path_of(s), d)
                == before.probe(path_of(s), d),
    ensures
        before.track_visits(include_dot_files, root, segments, directory) <==> after.track_visits(
            include_dot_files,
            root,
            segments,
            directory,
        ),
    decreases segments.len(),
{
    if segments.len() > 0 {
        let above = segments.drop_last();
        if before.track_visits(include_dot_files, root, segments, directory) {
            let parent = choose|parent: Seq<char>|
                before.track_visits(include_dot_files, root, above, parent)
                    && #[trigger] before.track_step(
                    include_dot_files,
                    path_of(above),
                    parent,
                    segments.last(),
                    directory,
                );
            law_track_sees_only_what_it_visits(
                before,
                after,
                include_dot_files,
                root,
                above,
                parent,
            );
            assert(after.track_step(
                include_dot_files,
                path_of(above),
                parent,
                segments.last(),
                directory,
            ));
        }
        if after.track_visits(include_dot_files, root, segments, directory) {
            let parent = choose|parent: Seq<char>|
                after.track_visits(include_dot_files, root, above, parent)
                    && #[trigger] after.track_step(
                    include_dot_files,
                    path_of(above),
                    parent,
                    segments.last(),
                    directory,
                );
            law_track_sees_only_what_it_visits(
                before,
                after,
                include_dot_files,
                root,
                above,
                parent,
            );
            assert(before.track_step(
                include_dot_files,
                path_of(above),
                parent,
                segments.last(),
                directory,
            ));
        }
    }
}

/// Reading depends on nothing but the directories that it comes to.
pub proof fn law_read_sees_only_what_it_visits(
    before: World,
    after: World,
    root: Seq<char>,
    segments: Seq<Seq<char>>,
    directory: Seq<char>,
)
    requires
        forall|s: Seq<Seq<char>>, d: Seq<char>| #[trigger]
            before.read_visits(root, s, d) ==> after.probe(path_of(s), d) == before.probe(
                path_of(s),
                d,
            ),
    ensures
        before.read_visits(root, segments, directory) <==> after.read_visits(
            root,
            segments,
            directory,
        ),
    decreases segments.len(),
{
    if segments.len() > 0 {
        let above = segments.drop_last();
        if before.read_visits(root, segments, directory) {
            let parent = choose|parent: Seq<char>|
                before.read_visits(root, above, parent) && #[trigger] before.read_step(
                    path_of(above),
                    parent,
                    segments.last(),
                    directory,
                );
            law_read_sees_only_what_it_visits(before, after, root, above, parent);
            assert(after.read_step(path_of(above), parent, segments.last(), directory));
        }
        if after.read_visits(root, segments, directory) {
            let parent = choose|parent: Seq<char>|
                after.read_visits(root, above, parent) && #[trigger] after.read_step(
                    path_of(above),
                    parent,
                    segments.last(),
                    directory,
                );
            law_read_sees_only_what_it_visits(before, after, root, above, parent);
            assert(before.read_step(path_of(above), parent, segments.last(), directory));
        }
    }
}

/// Where nothing is a link, reading a directory meets no loop.
pub proof fn lemma_plain_level_has_no_loop(world: World, prefix: Seq<char>, directory: Seq<char>)
    requires
        world.resolves_links_only(),
        world.no_symlinks(),
    ensures
        forall|i: int| !looping(world.probe(prefix, directory), i),
{
    let listing = world.probe(prefix, directory);
    assert forall|i: int| !looping(listing, i) by {
        if 0 <= i < listing.len() {
            let named = world.listings[directory][i];
            assert(listing[i] == world.answer(prefix, named));
            assert(world.resolve(named.entry) == named.entry);
        }
    }
}

/// Where nothing is a link, every directory that reading comes to is where
/// the names lead.
pub proof fn lemma_read_follows_the_names(
    world: World,
    root: Seq<char>,
    segments: Seq<Seq<char>>,
    directory: Seq<char>,
)
    requires
        world.resolves_links_only(),
        world.no_symlinks(),
        world.read_visits(root, segments, directory),
    ensures
        world.leads_to(root, segments, directory),
    decreases segments.len(),
{
    if segments.len() > 0 {
        let above = segments.drop_last();
        let parent = choose|parent: Seq<char>|
            world.read_visits(root, above, parent) && #[trigger] world.read_step(
                path_of(above),
                parent,
                segments.last(),
                directory,
            );
        lemma_read_follows_the_names(world, root, above, parent);
        let listing = world.probe(path_of(above), parent);
        let items = listing.map_values(|l: ListedView| inner_choice(l));
        lemma_collected_pair(items, segments.last(), EntryView::Directory(directory));
        let i = choose|i: int|
            last_taken(items, segments.last(), i) && items[i].value
                == EntryView::Directory(directory);
        let named = world.listings[parent][i];
        assert(items[i] == inner_choice(listing[i]));
        assert(listing[i] == world.answer(path_of(above), named));
        assert(world.resolve(named.entry) == named.entry);
        assert(named == (Named { name: segments.last(), entry: EntryView::Directory(directory) }));
        assert(world.leads_to(root, above, parent));
        assert(world.listings[parent][i] == named);
        assert(world.lists(parent, segments.last(), EntryView::Directory(directory)));
    }
}

/// Where nothing is a link, reading comes to every directory to which the
/// names lead through paths below which the glob can match.
pub proof fn lemma_read_reaches_what_is_open(
    world: World,
    root: Seq<char>,
    segments: Seq<Seq<char>>,
    directory: Seq<char>,
)
    requires
        world.names_distinct(),
        world.resolves_links_only(),
        world.no_symlinks(),
        world.leads_to(root, segments, directory),
        forall|k: int| 0 < k <= segments.len() ==> world.open.contains(#[trigger] path_of(segments.take(k))),
    ensures
        world.read_visits(root, segments, directory),
    decreases segments.len(),
{
    if segments.len() > 0 {
        let above = segments.drop_last();
        let parent = choose|parent: Seq<char>|
            world.leads_to(root, above, parent) && #[trigger] world.lists(
                parent,
                segments.last(),
                EntryView::Directory(directory),
            );
        assert forall|k: int| 0 < k <= above.len() implies world.open.contains(
            #[trigger] path_of(above.take(k)),
        ) by {
            assert(above.take(k) =~= segments.take(k));
        }
        lemma_read_reaches_what_is_open(world, root, above, parent);
        let named = Named { name: segments.last(), entry: EntryView::Directory(directory) };
        let i = choose|i: int|
            0 <= i < world.listings[parent].len() && #[trigger] world.listings[parent][i] == named;
        let listing = world.probe(path_of(above), parent);
        let items = listing.map_values(|l: ListedView| inner_choice(l));
        assert(listing[i] == world.answer(path_of(above), named));
        assert(world.resolve(named.entry) == named.entry);
        assert(segments.take(segments.len() as int) =~= segments);
        assert(world.open.contains(path_of(segments)));
        assert(items[i] == inner_choice(listing[i]));
        assert forall|a: int, b: int|
            0 <= a < b < items.len() && items[a].taken && items[b].taken implies items[a].key
            != items[b].key by {
            assert(listing[a] == world.answer(path_of(above), world.listings[parent][a]));
            assert(listing[b] == world.answer(path_of(above), world.listings[parent][b]));
        }
        lemma_collected_distinct(items, i);
        lemma_plain_level_has_no_loop(world, path_of(above), parent);
        assert(world.read_step(path_of(above), parent, segments.last(), directory));
    }
}

/// Where nothing under the root is a link, reading finds exactly the
/// entries that the glob matches: an entry is found under a path if and only
/// if it lies at the end of names that make up this path, and the glob
/// matches the path. In what order directories are read plays no part.
pub proof fn law_read_finds_exactly_the_matches(
    world: World,
    root: Seq<char>,
    path: Seq<char>,
    entry: EntryView,
)
    requires
        world.names_distinct(),
        world.resolves_links_only(),
        world.glob_consistent(),
        world.no_symlinks(),
    ensures
        world.read_finds(root, path, entry) <==> world.matching.contains(path) && exists|
            segments: Seq<Seq<char>>,
        |
            path_of(segments) == path && #[trigger] world.located(root, segments, entry),
{
    if world.read_finds(root, path, entry) {
        let (above, parent) = choose|segments: Seq<Seq<char>>, directory: Seq<char>|
            world.read_visits(root, segments, directory) && #[trigger] world.read_yields(
                segments,
                directory,
                path,
                entry,
            );
        lemma_read_follows_the_names(world, root, above, parent);
        let listing = world.probe(path_of(above), parent);
        let items = listing.map_values(|l: ListedView| result_choice(path_of(above), l));
        lemma_collected_pair(items, path, entry);
        let i = choose|i: int| last_taken(items, path, i) && items[i].value == entry;
        let named = world.listings[parent][i];
        assert(items[i] == result_choice(path_of(above), listing[i]));
        assert(listing[i] == world.answer(path_of(above), named));
        assert(world.resolve(named.entry) == named.entry);
        let segments = above.push(named.name);
        assert(segments.drop_last() =~= above);
        assert(path_of(segments) == path);
        assert(named == (Named { name: segments.last(), entry }));
        assert(world.listings[parent][i] == named);
        assert(world.lists(parent, segments.last(), entry));
        assert(world.located(root, segments, entry));
    }
    if world.matching.contains(path) && exists|segments: Seq<Seq<char>>|
        path_of(segments) == path && #[trigger] world.located(root, segments, entry) {
        let segments = choose|segments: Seq<Seq<char>>|
            path_of(segments) == path && #[trigger] world.located(root, segments, entry);
        let above = segments.drop_last();
        let parent = choose|parent: Seq<char>|
            world.leads_to(root, above, parent) && #[trigger] world.lists(
                parent,
                segments.last(),
                entry,
            );
        assert forall|k: int| 0 < k <= above.len() implies world.open.contains(
            #[trigger] path_of(above.take(k)),
        ) by {
            assert(above.take(k) =~= segments.take(k));
        }
        lemma_read_reaches_what_is_open(world, root, above, parent);
        let named = Named { name: segments.last(), entry };
        let i = choose|i: int|
            0 <= i < world.listings[parent].len() && #[trigger] world.listings[parent][i] == named;
        let listing = world.probe(path_of(above), parent);
        let items = listing.map_values(|l: ListedView| result_choice(path_of(above), l));
        assert(listing[i] == world.answer(path_of(above), named));
        assert(world.resolve(named.entry) == named.entry);
        assert(items[i] == result_choice(path_of(above), listing[i]));
        assert forall|a: int, b: int|
            0 <= a < b < items.len() && items[a].taken && items[b].taken implies items[a].key
            != items[b].key by {
            assert(listing[a] == world.answer(path_of(above), world.listings[parent][a]));
            assert(listing[b] == world.answer(path_of(above), world.listings[parent][b]));
            if items[a].key == items[b].key {
                lemma_joined_injective(
                    path_of(above),
                    world.listings[parent][a].name,
                    world.listings[parent][b].name,
                );
            }
        }
        lemma_collected_distinct(items, i);
        lemma_plain_level_has_no_loop(world, path_of(above), parent);
        assert(world.read_yields(above, parent, path, entry));
    }
}

} // verus!
