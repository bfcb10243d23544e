//! The journal's state: the owner's credentials, the counter that assigns
//! identifiers, and the entries.

use crate::entry::{entry_models, DiaryEntry, EntryModel};
use crate::listing::{
    insert_in_order, is_listing, keyed_by_id, lemma_insert_keeps_listing, lemma_listing_exists,
    lemma_listing_len, lemma_listing_unique, listing, timestamps_descending,
};
use std::collections::HashMap;
use vstd::prelude::*;

verus! {

broadcast use vstd::std_specs::hash::group_hash_axioms;

/// What a [`DiaryState`] holds, as mathematical values.
pub struct DiaryModel {
    /// Verification digest of the secret phrase; empty until the journal is
    /// initialized.
    pub secret_phrase_hash: Seq<char>,
    /// Identity of the owner, recorded at initialization.
    pub owner: Seq<char>,
    /// The entries that exist, by identifier.
    pub entries: Map<u64, EntryModel>,
    /// The next identifier to assign.
    pub entry_count: nat,
}

impl DiaryModel {
    /// The state of a journal that nothing has been done to.
    pub open spec fn empty() -> DiaryModel {
        DiaryModel {
            secret_phrase_hash: Seq::empty(),
            owner: Seq::empty(),
            entries: Map::empty(),
            entry_count: 0,
        }
    }

    /// Whether the journal has been initialized.
    pub open spec fn is_initialized(self) -> bool {
        self.secret_phrase_hash.len() > 0
    }

    /// The number of entries that exist.
    pub open spec fn live_count(self) -> nat {
        self.entries.dom().len()
    }

    /// Well-formedness: every entry is stored under its own identifier, every
    /// identifier in use lies below the counter, the counter fits a `u64`,
    /// the owner is recorded exactly when the digest is, and a journal that
    /// is not initialized holds nothing.
    pub open spec fn wf(self) -> bool {
        &&& self.entries.dom().finite()
        &&& keyed_by_id(self.entries)
        &&& forall|id: u64| #[trigger] self.entries.contains_key(id) ==> id < self.entry_count
        &&& self.entry_count <= u64::MAX
        &&& self.owner.len() > 0 <==> self.secret_phrase_hash.len() > 0
        &&& !self.is_initialized() ==> self.entries.dom() =~= Set::empty() && self.entry_count
            == 0
    }

    /// The entries, newest first.
    pub open spec fn listing(self) -> Seq<EntryModel> {
        listing(self.entries)
    }
}

/// The listing of a well-formed state holds exactly the entries that exist,
/// each once; it has as many elements as there are entries; and its
/// timestamps never grow from one element to the next.
pub proof fn lemma_listing_of_state(state: DiaryModel)
    requires
        state.wf(),
    ensures
        is_listing(state.listing(), state.entries),
        state.listing().len() == state.live_count(),
        timestamps_descending(state.listing()),
        forall|limit: nat| #[trigger]
            state.listing().take(at_most(limit, state.live_count()) as int).len() == at_most(
                limit,
                state.live_count(),
            ),
{
    lemma_listing_exists(state.entries);
    lemma_listing_len(state.listing(), state.entries);
}

/// The models of the stored entries, under the same identifiers.
pub open spec fn models_of(stored: Map<u64, DiaryEntry>) -> Map<u64, EntryModel> {
    Map::new(|id: u64| stored.contains_key(id), |id: u64| stored[id]@)
}

/// The entries of `entries` whose identifiers lie below `bound`.
pub open spec fn below(entries: Map<u64, EntryModel>, bound: nat) -> Map<u64, EntryModel> {
    entries.restrict(Set::new(|id: u64| id < bound))
}

/// The test that an entry's timestamp lies between `start` and `end`, both
/// included.
pub open spec fn in_range(start: u64, end: u64) -> spec_fn(EntryModel) -> bool {
    |entry: EntryModel| start <= entry.timestamp <= end
}

/// The smaller of two lengths.
pub open spec fn at_most(limit: nat, len: nat) -> nat {
    if limit <= len {
        limit
    } else {
        len
    }
}

/// Whether a digest, an owner, a counter and entries that were kept
/// somewhere make up a well-formed journal: the identifiers differ from each
/// other and lie below the counter, the owner is there exactly when the
/// digest is, and a journal without a digest holds nothing.
pub open spec fn restorable(
    secret_phrase_hash: Seq<char>,
    owner: Seq<char>,
    entry_count: u64,
    entries: Seq<EntryModel>,
) -> bool {
    &&& owner.len() > 0 <==> secret_phrase_hash.len() > 0
    &&& forall|i: int| 0 <= i < entries.len() ==> (#[trigger] entries[i]).id < entry_count
    &&& forall|i: int, j: int|
        0 <= i < j < entries.len() ==> (#[trigger] entries[i]).id != (#[trigger] entries[j]).id
    &&& secret_phrase_hash.len() == 0 ==> entries.len() == 0 && entry_count == 0
}

/// Whether `stored` holds exactly the entries of `entries`, each under its
/// own identifier.
pub open spec fn holds_exactly(stored: Map<u64, EntryModel>, entries: Seq<EntryModel>) -> bool {
    &&& forall|i: int|
        0 <= i < entries.len() ==> stored.contains_key((#[trigger] entries[i]).id)
            && stored[entries[i].id] == entries[i]
    &&& forall|id: u64| #[trigger]
        stored.contains_key(id) ==> exists|i: int|
            0 <= i < entries.len() && (#[trigger] entries[i]).id == id
}

/// The state of one journal.
pub struct DiaryState {
    secret_phrase_hash: String,
    owner: String,
    entries: HashMap<u64, DiaryEntry>,
    entry_count: u64,
}

impl View for DiaryState {
    type V = DiaryModel;

    closed spec fn view(&self) -> DiaryModel {
        DiaryModel {
            secret_phrase_hash: self.secret_phrase_hash@,
            owner: self.owner@,
            entries: models_of(self.entries@),
            entry_count: self.entry_count as nat,
        }
    }
}

impl DiaryState {
    #[verifier::type_invariant]
    closed spec fn well_formed(&self) -> bool {
        self@.wf()
    }

    /// The state of a journal that nothing has been done to.
    pub fn new() -> (state: Self)
        ensures
            state@ == DiaryModel::empty(),
            state@.wf(),
    {
        let entries: HashMap<u64, DiaryEntry> = HashMap::new();
        assert(models_of(entries@) =~= Map::empty());
        DiaryState { secret_phrase_hash: String::new(), owner: String::new(), entries, entry_count: 0 }
    }

    /// The state that is made up of parts that were kept somewhere, or
    /// `None` where they do not make up a well-formed journal.
    pub fn restore(
        secret_phrase_hash: String,
        owner: String,
        entry_count: u64,
        entries: Vec<DiaryEntry>,
    ) -> (restored: Option<Self>)
        ensures
            restored is Some <==> restorable(
                secret_phrase_hash@,
                owner@,
                entry_count,
                entry_models(entries@),
            ),
            restored matches Some(state) ==> {
                &&& state@.secret_phrase_hash == secret_phrase_hash@
                &&& state@.owner == owner@
                &&& state@.entry_count == entry_count
                &&& holds_exactly(state@.entries, entry_models(entries@))
                &&& state@.wf()
            },
    {
        let ghost models = entry_models(entries@);
        if secret_phrase_hash.as_str().is_empty() != owner.as_str().is_empty() {
            return None;
        }
        if secret_phrase_hash.as_str().is_empty() && (entries.len() != 0 || entry_count != 0) {
            return None;
        }
        let mut stored: HashMap<u64, DiaryEntry> = HashMap::new();
        let mut i: usize = 0;
        assert(models_of(stored@) =~= Map::empty());
        while i < entries.len()
            invariant
                i <= entries.len(),
                models == entry_models(entries@),
                holds_exactly(models_of(stored@), models.take(i as int)),
                restorable(secret_phrase_hash@, owner@, entry_count, models.take(i as int)),
            decreases entries.len() - i,
        {
            let entry = &entries[i];
            let ghost before = models_of(stored@);
            let ghost earlier = models.take(i as int);
            assert(models[i as int] == entry@);
            if entry.id >= entry_count {
                return None;
            }
            if stored.contains_key(&entry.id) {
                proof {
                    assert(before.contains_key(entry.id));
                    let j = choose|j: int| 0 <= j < earlier.len() && (#[trigger] earlier[j]).id == entry.id;
                    assert(models[j].id == models[i as int].id);
                }
                return None;
            }
            stored.insert(entry.id, entry.clone());
            proof {
                let later = models.take(i + 1);
                assert(later =~= earlier.push(entry@));
                assert(models_of(stored@) =~= before.insert(entry.id, entry@));
                assert forall|k: int| 0 <= k < later.len() implies models_of(stored@).contains_key(
                    (#[trigger] later[k]).id,
                ) && models_of(stored@)[later[k].id] == later[k] by {
                    if k < i {
                        assert(later[k] == earlier[k]);
                        assert(before.contains_key(earlier[k].id));
                        if earlier[k].id == entry.id {
                            assert(false);
                        }
                    }
                }
                assert forall|id: u64| #[trigger]
                    models_of(stored@).contains_key(id) implies exists|k: int|
                    0 <= k < later.len() && (#[trigger] later[k]).id == id by {
                    if id == entry.id {
                        assert(later[i as int].id == id);
                    } else {
                        assert(before.contains_key(id));
                        let k = choose|k: int| 0 <= k < earlier.len() && (#[trigger] earlier[k]).id == id;
                        assert(later[k].id == id);
                    }
                }
                assert forall|a: int, b: int| 0 <= a < b < later.len() implies (#[trigger] later[a]).id
                    != (#[trigger] later[b]).id by {
                    if b < i {
                        assert(later[a] == earlier[a] && later[b] == earlier[b]);
                    } else {
                        assert(later[a] == earlier[a]);
                        assert(before.contains_key(earlier[a].id));
                    }
                }
            }
            i += 1;
        }
        assert(models.take(i as int) =~= models);
        proof {
            let kept = models_of(stored@);
            assert(kept.dom() =~= stored@.dom());
            assert forall|id: u64| kept.contains_key(id) implies (#[trigger] kept[id]).id == id
                && id < entry_count by {
                let k = choose|k: int| 0 <= k < models.len() && (#[trigger] models[k]).id == id;
                assert(kept[models[k].id] == models[k]);
            }
            if secret_phrase_hash@.len() == 0 {
                assert(kept.dom() =~= Set::empty()) by {
                    assert forall|id: u64| !kept.contains_key(id) by {
                        if kept.contains_key(id) {
                            let k = choose|k: int| 0 <= k < models.len() && (#[trigger] models[k]).id == id;
                        }
                    }
                }
            }
        }
        Some(DiaryState { secret_phrase_hash, owner, entries: stored, entry_count })
    }

    /// The recorded digest of the secret phrase; empty before initialization.
    pub fn get_secret_phrase_hash(&self) -> (digest: String)
        ensures
            digest@ == self@.secret_phrase_hash,
    {
        self.secret_phrase_hash.clone()
    }

    /// Whether the journal has been initialized.
    pub fn is_initialized(&self) -> (initialized: bool)
        ensures
            initialized == self@.is_initialized(),
            initialized == (self@.owner.len() > 0),
            self@.wf(),
    {
        proof {
            use_type_invariant(self);
        }
        !self.secret_phrase_hash.as_str().is_empty()
    }

    /// The owner's identity; empty before initialization.
    pub fn get_owner(&self) -> (owner: String)
        ensures
            owner@ == self@.owner,
    {
        self.owner.clone()
    }

    /// Whether `digest` is the recorded digest of the secret phrase.
    pub fn has_digest(&self, digest: &str) -> (same: bool)
        ensures
            same == (digest@ == self@.secret_phrase_hash),
    {
        let given = digest.to_owned();
        self.secret_phrase_hash == given
    }

    /// Whether `caller` is the recorded owner.
    pub fn is_owner(&self, caller: &str) -> (same: bool)
        ensures
            same == (caller@ == self@.owner),
    {
        let given = caller.to_owned();
        self.owner == given
    }

    /// The number of entries that exist.
    pub fn get_entry_count(&self) -> (count: u64)
        ensures
            count == self@.live_count(),
    {
        assert(models_of(self.entries@).dom() =~= self.entries@.dom());
        self.entries.len() as u64
    }

    /// The identifier that the next new entry will get.
    pub fn next_id(&self) -> (id: u64)
        ensures
            id == self@.entry_count,
    {
        self.entry_count
    }

    /// The entry stored under `id`, if there is one.
    pub fn get_entry(&self, id: u64) -> (entry: Option<DiaryEntry>)
        ensures
            match entry {
                Some(found) => self@.entries.contains_key(id) && found@ == self@.entries[id],
                None => !self@.entries.contains_key(id),
            },
    {
        match self.entries.get(&id) {
            Some(found) => Some(found.clone()),
            None => None,
        }
    }

    /// All entries, newest first: by timestamp, the later first, and among
    /// entries of one timestamp by identifier, the larger first.
    pub fn get_all_entries(&self) -> (list: Vec<DiaryEntry>)
        ensures
            entry_models(list@) == self@.listing(),
            is_listing(entry_models(list@), self@.entries),
            list@.len() == self@.live_count(),
            timestamps_descending(entry_models(list@)),
            self@.wf(),
    {
        proof {
            use_type_invariant(self);
        }
        let ghost entries = self@.entries;
        let mut list: Vec<DiaryEntry> = Vec::new();
        let mut id: u64 = 0;
        assert(below(entries, 0) =~= Map::empty());
        while id < self.entry_count
            invariant
                id <= self.entry_count,
                entries == models_of(self.entries@),
                keyed_by_id(entries),
                is_listing(entry_models(list@), below(entries, id as nat)),
            decreases self.entry_count - id,
        {
            let ghost so_far = below(entries, id as nat);
            match self.entries.get(&id) {
                Some(found) => {
                    let ghost shorter = entry_models(list@);
                    assert(entries.contains_key(id) && entries[id] == found@);
                    assert(found.id == id);
                    assert forall|i: int| 0 <= i < list@.len() implies (#[trigger] list@[i]).id
                        != found.id by {
                        assert(shorter[i] == list@[i]@);
                        assert(so_far.contains_key(shorter[i].id));
                    }
                    let at = insert_in_order(&mut list, found.clone());
                    proof {
                        lemma_insert_keeps_listing(shorter, so_far, found@, at as int);
                        assert(so_far.insert(id, found@) =~= below(entries, (id + 1) as nat));
                    }
                },
                None => {
                    assert(so_far =~= below(entries, (id + 1) as nat));
                },
            }
            id += 1;
        }
        proof {
            assert(below(entries, id as nat) =~= entries);
            lemma_listing_exists(entries);
            lemma_listing_unique(entry_models(list@), listing(entries), entries);
            lemma_listing_len(entry_models(list@), entries);
        }
        list
    }

    /// The first `limit` entries of the listing, or all of them where there
    /// are fewer.
    pub fn get_latest_entries(&self, limit: usize) -> (list: Vec<DiaryEntry>)
        ensures
            entry_models(list@) == self@.listing().take(
                at_most(limit as nat, self@.live_count()) as int,
            ),
            list@.len() == at_most(limit as nat, self@.live_count()),
            timestamps_descending(entry_models(list@)),
            self@.wf(),
    {
        let mut list = self.get_all_entries();
        let ghost all = entry_models(list@);
        list.truncate(limit);
        assert(entry_models(list@) =~= all.take(at_most(limit as nat, all.len()) as int));
        list
    }

    /// The entries whose timestamp lies between `start` and `end`, both
    /// included, in the order of the listing.
    pub fn get_entries_in_range(&self, start: u64, end: u64) -> (list: Vec<DiaryEntry>)
        ensures
            entry_models(list@) == self@.listing().filter(in_range(start, end)),
            self@.wf(),
    {
        let all = self.get_all_entries();
        let ghost models = entry_models(all@);
        let mut list: Vec<DiaryEntry> = Vec::new();
        let mut i: usize = 0;
        assert(models.take(0) =~= Seq::empty());
        assert(models.take(0).filter(in_range(start, end)) =~= Seq::empty()) by {
            reveal(Seq::filter);
        }
        while i < all.len()
            invariant
                i <= all.len(),
                models == entry_models(all@),
                entry_models(list@) == models.take(i as int).filter(in_range(start, end)),
            decreases all.len() - i,
        {
            let entry = &all[i];
            proof {
                assert(models.take(i + 1) =~= models.take(i as int).push(entry@));
                models.take(i as int).lemma_filter_push(entry@, in_range(start, end));
            }
            if entry.timestamp >= start && entry.timestamp <= end {
                let ghost shorter = entry_models(list@);
                list.push(entry.clone());
                assert(entry_models(list@) =~= shorter.push(entry@));
            }
            i += 1;
        }
        assert(models.take(i as int) =~= models);
        list
    }

    /// Takes the entries out of the state, which holds none until they are
    /// put back. The state stays well-formed meanwhile.
    fn take_entries(&mut self) -> (entries: HashMap<u64, DiaryEntry>)
        ensures
            models_of(entries@) == old(self)@.entries,
            final(self)@ == (DiaryModel { entries: Map::empty(), ..old(self)@ }),
    {
        proof {
            use_type_invariant(&*self);
        }
        let mut entries: HashMap<u64, DiaryEntry> = HashMap::new();
        assert(models_of(entries@) =~= Map::empty());
        std::mem::swap(&mut self.entries, &mut entries);
        entries
    }

    /// Puts `entries` in the place of the entries of the state.
    fn put_entries(&mut self, entries: HashMap<u64, DiaryEntry>)
        requires
            (DiaryModel { entries: models_of(entries@), ..old(self)@ }).wf(),
        ensures
            final(self)@ == (DiaryModel { entries: models_of(entries@), ..old(self)@ }),
    {
        let mut entries = entries;
        std::mem::swap(&mut self.entries, &mut entries);
    }

    /// Records the digest of the secret phrase and the owner's identity, and
    /// starts the identifiers at zero.
    pub(crate) fn set_credentials(&mut self, digest: String, owner: String)
        requires
            !old(self)@.is_initialized(),
            digest@.len() > 0,
            owner@.len() > 0,
        ensures
            final(self)@ == (DiaryModel {
                secret_phrase_hash: digest@,
                owner: owner@,
                entry_count: 0,
                ..old(self)@
            }),
            final(self)@.wf(),
    {
        proof {
            use_type_invariant(&*self);
        }
        let entries = self.take_entries();
        let mut fresh = DiaryState { secret_phrase_hash: digest, owner, entries, entry_count: 0 };
        std::mem::swap(self, &mut fresh);
    }

    /// Stores a new entry under the next identifier and advances the counter
    /// past it.
    pub(crate) fn append(&mut self, title: String, content: String, timestamp: u64) -> (id: u64)
        requires
            old(self)@.is_initialized(),
            old(self)@.entry_count < u64::MAX,
        ensures
            id == old(self)@.entry_count,
            final(self)@ == (DiaryModel {
                entries: old(self)@.entries.insert(
                    id,
                    EntryModel { id, title: title@, content: content@, timestamp },
                ),
                entry_count: old(self)@.entry_count + 1,
                ..old(self)@
            }),
            final(self)@.wf(),
    {
        proof {
            use_type_invariant(&*self);
        }
        let id = self.entry_count;
        let entry = DiaryEntry { id, title, content, timestamp };
        let mut entries = self.take_entries();
        entries.insert(id, entry);
        self.entry_count = id + 1;
        assert(models_of(entries@) =~= old(self)@.entries.insert(id, entry@));
        self.put_entries(entries);
        id
    }

    /// Stores `entry` in place of the entry that has its identifier.
    pub(crate) fn replace(&mut self, entry: DiaryEntry)
        requires
            old(self)@.entries.contains_key(entry.id),
        ensures
            final(self)@ == (DiaryModel {
                entries: old(self)@.entries.insert(entry.id, entry@),
                ..old(self)@
            }),
            final(self)@.wf(),
    {
        proof {
            use_type_invariant(&*self);
        }
        let ghost model = entry@;
        let mut entries = self.take_entries();
        entries.insert(entry.id, entry);
        assert(models_of(entries@) =~= old(self)@.entries.insert(model.id, model));
        self.put_entries(entries);
    }

    /// Removes the entry stored under `id`, if there is one. The counter
    /// stays where it is.
    pub(crate) fn remove(&mut self, id: u64)
        ensures
            final(self)@ == (DiaryModel { entries: old(self)@.entries.remove(id), ..old(self)@ }),
            final(self)@.wf(),
    {
        proof {
            use_type_invariant(&*self);
        }
        let mut entries = self.take_entries();
        entries.remove(&id);
        assert(models_of(entries@) =~= old(self)@.entries.remove(id));
        self.put_entries(entries);
    }
}

} // verus!
