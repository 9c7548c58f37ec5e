//! Maps gathered from a sequence of keyed choices, where a later choice
//! replaces an earlier one under the same key.

use vstd::prelude::*;

use crate::glob::entry::EntryView;

verus! {

/// One item of a sequence: a key, whether the item is taken, and the value
/// that it brings.
pub struct Choice {
    pub key: Seq<char>,
    pub taken: bool,
    pub value: EntryView,
}

/// Item `i` is the last one taken under `key`.
pub open spec fn last_taken(items: Seq<Choice>, key: Seq<char>, i: int) -> bool {
    &&& 0 <= i < items.len()
    &&& items[i].taken
    &&& items[i].key == key
    &&& forall|j: int| i < j < items.len() ==> !(#[trigger] items[j].taken && items[j].key == key)
}

/// The map that holds, under each key that some taken item has, the value of
/// the last such item.
pub open spec fn collected(items: Seq<Choice>) -> Map<Seq<char>, EntryView> {
    Map::new(
        |key: Seq<char>| exists|i: int| last_taken(items, key, i),
        |key: Seq<char>| items[choose|i: int| last_taken(items, key, i)].value,
    )
}

/// Under one key at most one item is the last taken.
pub proof fn lemma_last_taken_unique(items: Seq<Choice>, key: Seq<char>, i: int, j: int)
    requires
        last_taken(items, key, i),
        last_taken(items, key, j),
    ensures
        i == j,
{
    if i < j {
        assert(items[j].taken && items[j].key == key);
    } else if j < i {
        assert(items[i].taken && items[i].key == key);
    }
}

/// Nothing is gathered from no items.
pub proof fn lemma_collected_empty()
    ensures
        collected(Seq::<Choice>::empty()) == Map::<Seq<char>, EntryView>::empty(),
{
    assert(collected(Seq::<Choice>::empty()) =~= Map::<Seq<char>, EntryView>::empty());
}

/// One more item at the end adds its value under its key if it is taken, and
/// changes nothing if it is not.
pub proof fn lemma_collected_push(items: Seq<Choice>, x: Choice)
    ensures
        collected(items.push(x)) == if x.taken {
            collected(items).insert(x.key, x.value)
        } else {
            collected(items)
        },
{
    let more = items.push(x);
    let n = items.len() as int;
    let expected = if x.taken {
        collected(items).insert(x.key, x.value)
    } else {
        collected(items)
    };
    assert forall|key: Seq<char>, i: int|
        0 <= i < n && !(x.taken && x.key == key) implies (last_taken(more, key, i) <==> last_taken(
            items,
            key,
            i,
        )) by {
        assert(more[i] == items[i]);
        if last_taken(items, key, i) {
            assert forall|j: int| i < j < more.len() implies !(#[trigger] more[j].taken
                && more[j].key == key) by {
                if j < n {
                    assert(more[j] == items[j]);
                    assert(!(items[j].taken && items[j].key == key));
                }
            }
        }
        if last_taken(more, key, i) {
            assert forall|j: int| i < j < items.len() implies !(#[trigger] items[j].taken
                && items[j].key == key) by {
                assert(more[j] == items[j]);
                assert(!(more[j].taken && more[j].key == key));
            }
        }
    }
    assert forall|key: Seq<char>| #[trigger]
        collected(more).dom().contains(key) <==> expected.dom().contains(key) by {
        if x.taken && x.key == key {
            assert(last_taken(more, key, n));
        } else {
            if collected(more).dom().contains(key) {
                let i = choose|i: int| last_taken(more, key, i);
                assert(i < n);
                assert(last_taken(items, key, i));
            }
            if collected(items).dom().contains(key) {
                let i = choose|i: int| last_taken(items, key, i);
                assert(last_taken(more, key, i));
            }
        }
    }
    assert forall|key: Seq<char>| #[trigger]
        collected(more).dom().contains(key) implies collected(more)[key] == expected[key] by {
        let i = choose|i: int| last_taken(more, key, i);
        if x.taken && x.key == key {
            assert(last_taken(more, key, n));
            lemma_last_taken_unique(more, key, i, n);
        } else {
            assert(i < n);
            assert(last_taken(items, key, i));
            let k = choose|k: int| last_taken(items, key, k);
            lemma_last_taken_unique(items, key, i, k);
            assert(more[i] == items[i]);
        }
    }
    assert(collected(more) =~= expected);
}

/// The map holds a value under a key exactly when that is the value of the
/// last item taken under the key.
pub proof fn lemma_collected_pair(items: Seq<Choice>, key: Seq<char>, value: EntryView)
    ensures
        collected(items).contains_pair(key, value) <==> exists|i: int|
            last_taken(items, key, i) && items[i].value == value,
{
    if collected(items).contains_pair(key, value) {
        let i = choose|i: int| last_taken(items, key, i);
        assert(last_taken(items, key, i) && items[i].value == value);
    }
    if exists|i: int| last_taken(items, key, i) && items[i].value == value {
        let i = choose|i: int| last_taken(items, key, i) && items[i].value == value;
        let k = choose|k: int| last_taken(items, key, k);
        lemma_last_taken_unique(items, key, i, k);
    }
}

/// A key that some item is taken under has a last item taken under it, at
/// that item or after it.
pub proof fn lemma_taken_has_last(items: Seq<Choice>, i: int) -> (last: int)
    requires
        0 <= i < items.len(),
        items[i].taken,
    ensures
        i <= last,
        last_taken(items, items[i].key, last),
    decreases items.len() - i,
{
    let key = items[i].key;
    if exists|j: int| i < j < items.len() && items[j].taken && items[j].key == key {
        let j = choose|j: int| i < j < items.len() && items[j].taken && items[j].key == key;
        lemma_taken_has_last(items, j)
    } else {
        i
    }
}

/// Where no two taken items share a key, every taken item is the last under
/// its key, and the map holds its value.
pub proof fn lemma_collected_distinct(items: Seq<Choice>, i: int)
    requires
        0 <= i < items.len(),
        items[i].taken,
        forall|a: int, b: int|
            0 <= a < b < items.len() && items[a].taken && items[b].taken ==> items[a].key
                != items[b].key,
    ensures
        collected(items).contains_pair(items[i].key, items[i].value),
{
    let last = lemma_taken_has_last(items, i);
    assert(last == i);
    lemma_collected_pair(items, items[i].key, items[i].value);
}

/// No two taken items share a key.
pub open spec fn keys_distinct(items: Seq<Choice>) -> bool {
    forall|a: int, b: int|
        0 <= a < b < items.len() && items[a].taken && items[b].taken ==> items[a].key
            != items[b].key
}

/// Item `i` is taken and brings `value` under `key`.
pub open spec fn brings(items: Seq<Choice>, key: Seq<char>, value: EntryView, i: int) -> bool {
    0 <= i < items.len() && items[i] == (Choice { key, taken: true, value })
}

/// Where no two taken items share a key, the map holds a value under a key
/// exactly when some taken item brings it.
pub proof fn lemma_collected_of_distinct(items: Seq<Choice>, key: Seq<char>, value: EntryView)
    requires
        keys_distinct(items),
    ensures
        collected(items).contains_pair(key, value) <==> exists|i: int|
            brings(items, key, value, i),
{
    lemma_collected_pair(items, key, value);
    if collected(items).contains_pair(key, value) {
        let i = choose|i: int| last_taken(items, key, i) && items[i].value == value;
        assert(brings(items, key, value, i));
    }
    if exists|i: int| brings(items, key, value, i) {
        let i = choose|i: int| brings(items, key, value, i);
        lemma_collected_distinct(items, i);
    }
}

} // verus!
