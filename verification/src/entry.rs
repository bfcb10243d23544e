//! Journal entries and the order in which they are listed.

use vstd::prelude::*;

verus! {

/// A single journal entry.
#[derive(Debug, PartialEq, Eq)]
pub struct DiaryEntry {
    /// Identifier, assigned at creation and never reused.
    pub id: u64,
    /// Entry title.
    pub title: String,
    /// Entry content.
    pub content: String,
    /// Time of creation or of the last update, as supplied by the host.
    pub timestamp: u64,
}

/// What a [`DiaryEntry`] holds, as mathematical values.
pub struct EntryModel {
    pub id: u64,
    pub title: Seq<char>,
    pub content: Seq<char>,
    pub timestamp: u64,
}

impl View for DiaryEntry {
    type V = EntryModel;

    open spec fn view(&self) -> EntryModel {
        EntryModel {
            id: self.id,
            title: self.title@,
            content: self.content@,
            timestamp: self.timestamp,
        }
    }
}

impl Clone for DiaryEntry {
    fn clone(&self) -> (copy: Self)
        ensures
            copy@ == self@,
    {
        DiaryEntry {
            id: self.id,
            title: self.title.clone(),
            content: self.content.clone(),
            timestamp: self.timestamp,
        }
    }
}

/// The models of a sequence of entries, in the same order.
pub open spec fn entry_models(entries: Seq<DiaryEntry>) -> Seq<EntryModel> {
    Seq::new(entries.len(), |i: int| entries[i]@)
}

/// Whether `a` is listed strictly before `b`: the later timestamp goes
/// first, and of two entries with one timestamp the larger identifier.
pub open spec fn precedes(a: EntryModel, b: EntryModel) -> bool {
    a.timestamp > b.timestamp || (a.timestamp == b.timestamp && a.id > b.id)
}

impl DiaryEntry {
    /// Whether this entry is listed strictly before `other`.
    pub fn listed_before(&self, other: &DiaryEntry) -> (before: bool)
        ensures
            before == precedes(self@, other@),
    {
        self.timestamp > other.timestamp || (self.timestamp == other.timestamp && self.id
            > other.id)
    }
}

} // verus!
