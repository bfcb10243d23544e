//! The listing of a set of entries: newest first, without repetition.

use crate::entry::{entry_models, precedes, DiaryEntry, EntryModel};
use vstd::prelude::*;

verus! {

/// Whether every entry of `entries` is stored under its own identifier.
pub open spec fn keyed_by_id(entries: Map<u64, EntryModel>) -> bool {
    forall|id: u64| entries.contains_key(id) ==> (#[trigger] entries[id]).id == id
}

/// Whether each element of `list` is listed strictly before all that follow it.
pub open spec fn newest_first(list: Seq<EntryModel>) -> bool {
    forall|i: int, j: int| 0 <= i < j < list.len() ==> precedes(#[trigger] list[i], #[trigger] list[j])
}

/// Whether the timestamps of `list` never grow from one element to the next.
pub open spec fn timestamps_descending(list: Seq<EntryModel>) -> bool {
    forall|i: int, j: int|
        0 <= i < j < list.len() ==> (#[trigger] list[i]).timestamp >= (#[trigger] list[j]).timestamp
}

/// Whether `list` is the listing of `entries`: it holds exactly the entries
/// of the map, each once, the newest first.
pub open spec fn is_listing(list: Seq<EntryModel>, entries: Map<u64, EntryModel>) -> bool {
    &&& newest_first(list)
    &&& forall|i: int|
        0 <= i < list.len() ==> entries.contains_key((#[trigger] list[i]).id) && entries[list[i].id]
            == list[i]
    &&& forall|id: u64| #[trigger] entries.contains_key(id) ==> list.contains(entries[id])
}

/// The listing of `entries`. For a finite map whose entries are stored under
/// their own identifiers there is exactly one, see [`lemma_listing_exists`]
/// and [`lemma_listing_unique`].
pub open spec fn listing(entries: Map<u64, EntryModel>) -> Seq<EntryModel> {
    choose|list: Seq<EntryModel>| is_listing(list, entries)
}

/// Of two different entries stored under their own identifiers, one is
/// listed before the other.
pub proof fn lemma_precedes_total(a: EntryModel, b: EntryModel)
    requires
        a.id != b.id,
    ensures
        precedes(a, b) || precedes(b, a),
        !(precedes(a, b) && precedes(b, a)),
{
}

/// A map has at most one listing.
pub proof fn lemma_listing_unique(
    first: Seq<EntryModel>,
    second: Seq<EntryModel>,
    entries: Map<u64, EntryModel>,
)
    requires
        keyed_by_id(entries),
        is_listing(first, entries),
        is_listing(second, entries),
    ensures
        first == second,
    decreases first.len(),
{
    if first.len() == 0 {
        if second.len() > 0 {
            assert(entries.contains_key(second[0].id));
            assert(first.contains(entries[second[0].id]));
        }
        assert(first =~= second);
    } else {
        let head = first[0];
        assert(entries.contains_key(head.id));
        assert(second.contains(entries[head.id]));
        let k = choose|k: int| 0 <= k < second.len() && second[k] == head;
        if k > 0 {
            let other = second[0];
            assert(precedes(other, head));
            assert(entries.contains_key(other.id));
            assert(first.contains(entries[other.id]));
            let j = choose|j: int| 0 <= j < first.len() && first[j] == other;
            if j > 0 {
                assert(precedes(first[0], first[j]));
            }
            assert(false);
        }
        assert(second[0] == head);
        let rest = entries.remove(head.id);
        let first_tail = first.subrange(1, first.len() as int);
        let second_tail = second.subrange(1, second.len() as int);
        lemma_tail_is_listing(first, entries);
        lemma_tail_is_listing(second, entries);
        lemma_listing_unique(first_tail, second_tail, rest);
        assert(first =~= seq![head] + first_tail);
        assert(second =~= seq![head] + second_tail);
    }
}

/// Without its first element, a listing is the listing of the map without
/// that element.
pub proof fn lemma_tail_is_listing(list: Seq<EntryModel>, entries: Map<u64, EntryModel>)
    requires
        keyed_by_id(entries),
        is_listing(list, entries),
        list.len() > 0,
    ensures
        keyed_by_id(entries.remove(list[0].id)),
        is_listing(list.subrange(1, list.len() as int), entries.remove(list[0].id)),
{
    let head = list[0];
    let tail = list.subrange(1, list.len() as int);
    let rest = entries.remove(head.id);
    assert forall|i: int, j: int| 0 <= i < j < tail.len() implies precedes(
        #[trigger] tail[i],
        #[trigger] tail[j],
    ) by {
        assert(precedes(list[i + 1], list[j + 1]));
    }
    assert forall|i: int| 0 <= i < tail.len() implies rest.contains_key((#[trigger] tail[i]).id)
        && rest[tail[i].id] == tail[i] by {
        assert(tail[i] == list[i + 1]);
        assert(precedes(list[0], list[i + 1]));
        assert(entries.contains_key(list[i + 1].id));
        assert(entries.contains_key(list[0].id));
        if tail[i].id == head.id {
            assert(entries[head.id] == head);
            assert(entries[tail[i].id] == tail[i]);
        }
    }
    assert forall|id: u64| #[trigger] rest.contains_key(id) implies tail.contains(rest[id]) by {
        assert(entries.contains_key(id));
        assert(list.contains(entries[id]));
        let k = choose|k: int| 0 <= k < list.len() && list[k] == entries[id];
        if k == 0 {
            assert(entries.contains_key(head.id) && entries[head.id] == head);
            assert(entries.contains_key(list[k].id));
        }
        assert(k >= 1 ==> tail[k - 1] == list[k]);
    }
}

/// A listing has as many elements as the map has entries.
pub proof fn lemma_listing_len(list: Seq<EntryModel>, entries: Map<u64, EntryModel>)
    requires
        entries.dom().finite(),
        keyed_by_id(entries),
        is_listing(list, entries),
    ensures
        list.len() == entries.dom().len(),
    decreases list.len(),
{
    if list.len() == 0 {
        assert forall|id: u64| !entries.dom().contains(id) by {
            if entries.contains_key(id) {
                assert(list.contains(entries[id]));
            }
        }
        assert(entries.dom() =~= Set::empty());
    } else {
        assert(entries.contains_key(list[0].id));
        lemma_tail_is_listing(list, entries);
        lemma_listing_len(list.subrange(1, list.len() as int), entries.remove(list[0].id));
    }
}

/// Putting a new entry at its place in a listing gives the listing of the
/// map with that entry added.
pub proof fn lemma_insert_keeps_listing(
    list: Seq<EntryModel>,
    entries: Map<u64, EntryModel>,
    entry: EntryModel,
    at: int,
)
    requires
        keyed_by_id(entries),
        is_listing(list, entries),
        !entries.contains_key(entry.id),
        0 <= at <= list.len(),
        forall|j: int| 0 <= j < at ==> precedes(#[trigger] list[j], entry),
        forall|j: int| at <= j < list.len() ==> precedes(entry, #[trigger] list[j]),
    ensures
        keyed_by_id(entries.insert(entry.id, entry)),
        is_listing(list.insert(at, entry), entries.insert(entry.id, entry)),
{
    let longer = list.insert(at, entry);
    let more = entries.insert(entry.id, entry);
    assert forall|i: int, j: int| 0 <= i < j < longer.len() implies precedes(
        #[trigger] longer[i],
        #[trigger] longer[j],
    ) by {
        let a = if i < at { i } else { i - 1 };
        let b = if j < at { j } else { j - 1 };
        if i != at && j != at {
            assert(precedes(list[a], list[b]));
        } else if i == at {
            assert(precedes(entry, list[b]));
        } else {
            assert(precedes(list[a], entry));
        }
    }
    assert forall|i: int| 0 <= i < longer.len() implies more.contains_key(
        (#[trigger] longer[i]).id,
    ) && more[longer[i].id] == longer[i] by {
        if i != at {
            let a = if i < at { i } else { i - 1 };
            assert(longer[i] == list[a]);
            assert(entries.contains_key(list[a].id));
        }
    }
    assert forall|id: u64| #[trigger] more.contains_key(id) implies longer.contains(more[id]) by {
        if id == entry.id {
            assert(longer[at] == entry);
        } else {
            assert(entries.contains_key(id));
            assert(list.contains(entries[id]));
            let k = choose|k: int| 0 <= k < list.len() && list[k] == entries[id];
            let at_k = if k < at { k } else { k + 1 };
            assert(longer[at_k] == list[k]);
        }
    }
}

/// The place of `entry` in `list`: the number of leading elements that are
/// listed before it.
pub open spec fn place_of(list: Seq<EntryModel>, entry: EntryModel) -> int
    decreases list.len(),
{
    if list.len() > 0 && precedes(list[0], entry) {
        1 + place_of(list.subrange(1, list.len() as int), entry)
    } else {
        0
    }
}

/// In a listing that does not hold `entry`, everything before the place of
/// `entry` is listed before it and everything from there on after it.
pub proof fn lemma_place_of(list: Seq<EntryModel>, entry: EntryModel)
    requires
        newest_first(list),
        forall|i: int| 0 <= i < list.len() ==> (#[trigger] list[i]).id != entry.id,
    ensures
        0 <= place_of(list, entry) <= list.len(),
        forall|j: int| 0 <= j < place_of(list, entry) ==> precedes(#[trigger] list[j], entry),
        forall|j: int|
            place_of(list, entry) <= j < list.len() ==> precedes(entry, #[trigger] list[j]),
    decreases list.len(),
{
    if list.len() > 0 && precedes(list[0], entry) {
        let tail = list.subrange(1, list.len() as int);
        assert forall|i: int, j: int| 0 <= i < j < tail.len() implies precedes(
            #[trigger] tail[i],
            #[trigger] tail[j],
        ) by {
            assert(precedes(list[i + 1], list[j + 1]));
        }
        assert forall|i: int| 0 <= i < tail.len() implies (#[trigger] tail[i]).id != entry.id by {
            assert(tail[i] == list[i + 1]);
        }
        lemma_place_of(tail, entry);
        assert forall|j: int| 0 <= j < place_of(list, entry) implies precedes(
            #[trigger] list[j],
            entry,
        ) by {
            if j > 0 {
                assert(list[j] == tail[j - 1]);
            }
        }
        assert forall|j: int| place_of(list, entry) <= j < list.len() implies precedes(
            entry,
            #[trigger] list[j],
        ) by {
            assert(list[j] == tail[j - 1]);
        }
    } else {
        assert forall|j: int| 0 <= j < list.len() implies precedes(entry, #[trigger] list[j]) by {
            lemma_precedes_total(list[0], entry);
            if j > 0 {
                assert(precedes(list[0], list[j]));
            }
        }
    }
}

/// Every finite map whose entries are stored under their own identifiers has
/// a listing, and [`listing`] is it.
pub proof fn lemma_listing_exists(entries: Map<u64, EntryModel>)
    requires
        entries.dom().finite(),
        keyed_by_id(entries),
    ensures
        is_listing(listing(entries), entries),
    decreases entries.dom().len(),
{
    if entries.dom().len() == 0 {
        assert(entries.dom() =~= Set::empty());
        assert(is_listing(Seq::<EntryModel>::empty(), entries));
    } else {
        let id = entries.dom().choose();
        let entry = entries[id];
        let rest = entries.remove(id);
        lemma_listing_exists(rest);
        let list = listing(rest);
        assert forall|i: int| 0 <= i < list.len() implies (#[trigger] list[i]).id != entry.id by {
            assert(rest.contains_key(list[i].id));
        }
        lemma_place_of(list, entry);
        lemma_insert_keeps_listing(list, rest, entry, place_of(list, entry));
        assert(rest.insert(entry.id, entry) =~= entries);
        assert(is_listing(list.insert(place_of(list, entry), entry), entries));
    }
}

/// Puts `entry` at its place in `list`, and returns that place.
pub(crate) fn insert_in_order(list: &mut Vec<DiaryEntry>, entry: DiaryEntry) -> (at: usize)
    requires
        newest_first(entry_models(old(list)@)),
        forall|i: int| 0 <= i < old(list)@.len() ==> (#[trigger] old(list)@[i]).id != entry.id,
    ensures
        at <= old(list)@.len(),
        entry_models(final(list)@) == entry_models(old(list)@).insert(at as int, entry@),
        forall|j: int| 0 <= j < at ==> precedes(#[trigger] entry_models(old(list)@)[j], entry@),
        forall|j: int|
            at <= j < old(list)@.len() ==> precedes(
                entry@,
                #[trigger] entry_models(old(list)@)[j],
            ),
{
    let ghost before = entry_models(list@);
    let mut at: usize = 0;
    while at < list.len() && list[at].listed_before(&entry)
        invariant
            at <= list.len(),
            before == entry_models(list@),
            forall|j: int| 0 <= j < at ==> precedes(#[trigger] before[j], entry@),
        decreases list.len() - at,
    {
        at += 1;
    }
    proof {
        assert forall|j: int| at <= j < before.len() implies precedes(entry@, #[trigger] before[j]) by {
            assert(before[at as int].id != entry.id);
            lemma_precedes_total(before[at as int], entry@);
            if j > at {
                assert(precedes(before[at as int], before[j]));
            }
        }
    }
    list.insert(at, entry);
    assert(entry_models(list@) =~= before.insert(at as int, entry@));
    at
}

} // verus!
