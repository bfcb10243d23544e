//! The executor: it validates each command against the journal's state and
//! applies it, or rejects it and leaves the state as it was.

use crate::entry::{DiaryEntry, EntryModel};
use crate::listing::is_listing;
use crate::operation::{DiaryError, Effect, Operation, OperationModel, ShapeFault};
use crate::secret::{hash_secret_phrase, secret_digest};
use crate::state::{DiaryModel, DiaryState};
use vstd::prelude::*;

verus! {

/// Why the holder of `secret_phrase` who calls as `caller` may not change the
/// journal, or `None` if they may. The first check that fails decides: the
/// journal is initialized, the phrase has the recorded digest, the caller is
/// the owner.
pub open spec fn refusal(state: DiaryModel, secret_phrase: Seq<char>, caller: Seq<char>) -> Option<
    DiaryError,
> {
    if !state.is_initialized() {
        Some(DiaryError::NotInitialized)
    } else if secret_digest(secret_phrase) != state.secret_phrase_hash {
        Some(DiaryError::InvalidSecret)
    } else if caller != state.owner {
        Some(DiaryError::NotOwner)
    } else {
        None
    }
}

/// The error that rejects `operation` before anyone asks who submits it, or
/// `None` where no such check fails. An `Initialize` is rejected where the
/// journal is initialized already, and else where the digest that it brings
/// is empty; any other command where the journal is not initialized, and
/// else where its phrase does not have the recorded digest.
pub open spec fn early_rejection(state: DiaryModel, operation: OperationModel) -> Option<
    DiaryError,
> {
    match operation {
        OperationModel::Initialize { secret_phrase_hash } => {
            if state.is_initialized() {
                Some(DiaryError::AlreadyInitialized)
            } else if secret_phrase_hash.len() == 0 {
                Some(DiaryError::ShapeValidationFailed(ShapeFault::EmptySecret))
            } else {
                None
            }
        },
        OperationModel::AddEntry { secret_phrase, .. }
        | OperationModel::UpdateEntry { secret_phrase, .. }
        | OperationModel::DeleteEntry { secret_phrase, .. } => {
            if !state.is_initialized() {
                Some(DiaryError::NotInitialized)
            } else if secret_digest(secret_phrase) != state.secret_phrase_hash {
                Some(DiaryError::InvalidSecret)
            } else {
                None
            }
        },
    }
}

/// The secret phrase that a command brings. An `Initialize` brings none.
pub open spec fn phrase_of(operation: OperationModel) -> Option<Seq<char>> {
    match operation {
        OperationModel::Initialize { .. } => None,
        OperationModel::AddEntry { secret_phrase, .. }
        | OperationModel::UpdateEntry { secret_phrase, .. }
        | OperationModel::DeleteEntry { secret_phrase, .. } => Some(secret_phrase),
    }
}

/// Whether `operation` is an `AddEntry` that nothing rejects, so that it
/// takes a new identifier.
pub open spec fn takes_identifier(
    state: DiaryModel,
    operation: OperationModel,
    caller: Seq<char>,
) -> bool {
    operation matches OperationModel::AddEntry { secret_phrase, .. } && refusal(
        state,
        secret_phrase,
        caller,
    ) is None
}

/// The text that an update leaves in a field: the new one where one is
/// given, else the one that was there.
pub open spec fn updated_text(given: Option<Seq<char>>, kept: Seq<char>) -> Seq<char> {
    match given {
        Some(text) => text,
        None => kept,
    }
}

/// What an `AddEntry` that is permitted does: it stores the entry under the
/// counter's value and advances the counter.
pub open spec fn added(state: DiaryModel, title: Seq<char>, content: Seq<char>, now: u64) -> (
    DiaryModel,
    Effect,
) {
    let id = state.entry_count as u64;
    (
        DiaryModel {
            entries: state.entries.insert(id, EntryModel { id, title, content, timestamp: now }),
            entry_count: state.entry_count + 1,
            ..state
        },
        Effect::EntryAdded { id },
    )
}

/// What an `UpdateEntry` that is permitted does: it is rejected where no
/// entry has the identifier; else it replaces the fields that it brings and
/// sets the timestamp.
pub open spec fn updated(
    state: DiaryModel,
    entry_id: u64,
    title: Option<Seq<char>>,
    content: Option<Seq<char>>,
    now: u64,
) -> Result<(DiaryModel, Effect), DiaryError> {
    if state.entries.contains_key(entry_id) {
        let existing = state.entries[entry_id];
        let entry = EntryModel {
            id: entry_id,
            title: updated_text(title, existing.title),
            content: updated_text(content, existing.content),
            timestamp: now,
        };
        Ok(
            (
                DiaryModel { entries: state.entries.insert(entry_id, entry), ..state },
                Effect::EntryUpdated { id: entry_id },
            ),
        )
    } else {
        Err(DiaryError::EntryNotFound)
    }
}

/// What a `DeleteEntry` that is permitted does: it leaves no entry under the
/// identifier, whether there was one or not, and the counter where it is.
pub open spec fn deleted(state: DiaryModel, entry_id: u64) -> (DiaryModel, Effect) {
    (
        DiaryModel { entries: state.entries.remove(entry_id), ..state },
        Effect::EntryDeleted { id: entry_id },
    )
}

/// What the command `operation` does to `state` when `caller` submits it at
/// the time `now`: the state that it leaves and its effect, or the error
/// that rejects it.
///
/// `Initialize` is rejected once the journal is initialized, and else where
/// the digest that it brings is empty; else it records the digest and the
/// caller as the owner. Every other command is first held against
/// [`refusal`].
pub open spec fn step(
    state: DiaryModel,
    operation: OperationModel,
    caller: Seq<char>,
    now: u64,
) -> Result<(DiaryModel, Effect), DiaryError> {
    match operation {
        OperationModel::Initialize { secret_phrase_hash } => {
            if state.is_initialized() {
                Err(DiaryError::AlreadyInitialized)
            } else if secret_phrase_hash.len() == 0 {
                Err(DiaryError::ShapeValidationFailed(ShapeFault::EmptySecret))
            } else {
                Ok(
                    (
                        DiaryModel { secret_phrase_hash, owner: caller, entry_count: 0, ..state },
                        Effect::Initialized,
                    ),
                )
            }
        },
        OperationModel::AddEntry { secret_phrase, title, content } => {
            match refusal(state, secret_phrase, caller) {
                Some(error) => Err(error),
                None => Ok(added(state, title, content, now)),
            }
        },
        OperationModel::UpdateEntry { secret_phrase, entry_id, title, content } => {
            match refusal(state, secret_phrase, caller) {
                Some(error) => Err(error),
                None => updated(state, entry_id, title, content, now),
            }
        },
        OperationModel::DeleteEntry { secret_phrase, entry_id } => {
            match refusal(state, secret_phrase, caller) {
                Some(error) => Err(error),
                None => Ok(deleted(state, entry_id)),
            }
        },
    }
}

/// The executor of one journal. It owns the state for as long as it runs.
pub struct DiaryContract {
    state: DiaryState,
}

impl View for DiaryContract {
    type V = DiaryModel;

    closed spec fn view(&self) -> DiaryModel {
        self.state@
    }
}

impl DiaryContract {
    /// An executor for the journal in `state`.
    pub fn load(state: DiaryState) -> (contract: Self)
        ensures
            contract@ == state@,
    {
        DiaryContract { state }
    }

    /// The journal's state as the commands so far have left it.
    pub fn state(&self) -> (state: &DiaryState)
        ensures
            state@ == self@,
    {
        &self.state
    }

    /// Gives up the state, to be kept until the next command.
    pub fn store(self) -> (state: DiaryState)
        ensures
            state@ == self@,
    {
        self.state
    }

    /// Checks that the holder of `secret_phrase` who calls as `caller` may
    /// change the journal.
    pub fn authorize(&self, secret_phrase: &str, caller: &str) -> (verdict: Result<(), DiaryError>)
        ensures
            match refusal(self@, secret_phrase@, caller@) {
                Some(error) => verdict == Err::<(), DiaryError>(error),
                None => verdict is Ok,
            },
            self@.wf(),
    {
        if !self.state.is_initialized() {
            return Err(DiaryError::NotInitialized);
        }
        let digest = hash_secret_phrase(secret_phrase);
        if !self.state.has_digest(digest.as_str()) {
            return Err(DiaryError::InvalidSecret);
        }
        if !self.state.is_owner(caller) {
            return Err(DiaryError::NotOwner);
        }
        Ok(())
    }

    /// The error that rejects `operation` before anyone asks who submits
    /// it, if there is one. Whoever submits the command, that error is what
    /// [`DiaryContract::execute_operation`] answers.
    pub fn check_before_caller(&self, operation: &Operation) -> (rejection: Option<DiaryError>)
        ensures
            rejection == early_rejection(self@, operation@),
            self@.wf(),
    {
        let initialized = self.state.is_initialized();
        match operation {
            Operation::Initialize { secret_phrase_hash } => {
                if initialized {
                    Some(DiaryError::AlreadyInitialized)
                } else if secret_phrase_hash.as_str().is_empty() {
                    Some(DiaryError::ShapeValidationFailed(ShapeFault::EmptySecret))
                } else {
                    None
                }
            },
            Operation::AddEntry { secret_phrase, .. } => self.check_secret(
                initialized,
                secret_phrase.as_str(),
            ),
            Operation::UpdateEntry { secret_phrase, .. } => self.check_secret(
                initialized,
                secret_phrase.as_str(),
            ),
            Operation::DeleteEntry { secret_phrase, .. } => self.check_secret(
                initialized,
                secret_phrase.as_str(),
            ),
        }
    }

    /// Checks that the journal is initialized and that `secret_phrase` has
    /// the recorded digest.
    fn check_secret(&self, initialized: bool, secret_phrase: &str) -> (rejection: Option<DiaryError>)
        requires
            initialized == self@.is_initialized(),
        ensures
            rejection == if !self@.is_initialized() {
                Some(DiaryError::NotInitialized)
            } else if secret_digest(secret_phrase@) != self@.secret_phrase_hash {
                Some(DiaryError::InvalidSecret)
            } else {
                None
            },
    {
        if !initialized {
            return Some(DiaryError::NotInitialized);
        }
        let digest = hash_secret_phrase(secret_phrase);
        if !self.state.has_digest(digest.as_str()) {
            return Some(DiaryError::InvalidSecret);
        }
        None
    }

    /// Applies one command, submitted by `caller` at the time `now`.
    ///
    /// The command does what [`step`] says, and one that is rejected changes
    /// nothing. The caller's identity is not empty. An `AddEntry` that
    /// nothing rejects needs an identifier that is left to assign: the
    /// counter is a `u64`, and the last value cannot be stepped past. Where
    /// that is not known, call [`DiaryContract::try_execute_operation`].
    pub fn execute_operation(&mut self, operation: Operation, caller: &str, now: u64) -> (outcome:
        Result<Effect, DiaryError>)
        requires
            caller@.len() > 0,
            takes_identifier(old(self)@, operation@, caller@) ==> old(self)@.entry_count
                < u64::MAX,
        ensures
            match step(old(self)@, operation@, caller@, now) {
                Ok((state, effect)) => outcome == Ok::<Effect, DiaryError>(effect) && final(self)@
                    == state,
                Err(error) => outcome == Err::<Effect, DiaryError>(error) && final(self)@ == old(
                    self,
                )@,
            },
            outcome is Ok ==> final(self)@.is_initialized(),
            final(self)@.entry_count >= old(self)@.entry_count,
            old(self)@.is_initialized() ==> final(self)@.secret_phrase_hash == old(
                self,
            )@.secret_phrase_hash && final(self)@.owner == old(self)@.owner,
            final(self)@.wf(),
    {
        match operation {
            Operation::Initialize { secret_phrase_hash } => {
                if self.state.is_initialized() {
                    return Err(DiaryError::AlreadyInitialized);
                }
                if secret_phrase_hash.as_str().is_empty() {
                    return Err(DiaryError::ShapeValidationFailed(ShapeFault::EmptySecret));
                }
                self.state.set_credentials(secret_phrase_hash, caller.to_owned());
                Ok(Effect::Initialized)
            },
            Operation::AddEntry { secret_phrase, title, content } => {
                match self.authorize(secret_phrase.as_str(), caller) {
                    Err(error) => Err(error),
                    Ok(_) => {
                        let id = self.state.append(title, content, now);
                        Ok(Effect::EntryAdded { id })
                    },
                }
            },
            Operation::UpdateEntry { secret_phrase, entry_id, title, content } => {
                match self.authorize(secret_phrase.as_str(), caller) {
                    Err(error) => Err(error),
                    Ok(_) => match self.state.get_entry(entry_id) {
                        None => Err(DiaryError::EntryNotFound),
                        Some(existing) => {
                            let entry = DiaryEntry {
                                id: entry_id,
                                title: match title {
                                    Some(text) => text,
                                    None => existing.title,
                                },
                                content: match content {
                                    Some(text) => text,
                                    None => existing.content,
                                },
                                timestamp: now,
                            };
                            self.state.replace(entry);
                            Ok(Effect::EntryUpdated { id: entry_id })
                        },
                    },
                }
            },
            Operation::DeleteEntry { secret_phrase, entry_id } => {
                match self.authorize(secret_phrase.as_str(), caller) {
                    Err(error) => Err(error),
                    Ok(_) => {
                        self.state.remove(entry_id);
                        Ok(Effect::EntryDeleted { id: entry_id })
                    },
                }
            },
        }
    }

    /// Applies one command as [`DiaryContract::execute_operation`] does,
    /// unless it is an `AddEntry` that nothing rejects while no identifier is
    /// left to assign: then it answers `None` and changes nothing.
    pub fn try_execute_operation(&mut self, operation: Operation, caller: &str, now: u64) -> (outcome:
        Option<Result<Effect, DiaryError>>)
        requires
            caller@.len() > 0,
        ensures
            outcome is None <==> takes_identifier(old(self)@, operation@, caller@) && old(
                self,
            )@.entry_count == u64::MAX,
            outcome is None ==> final(self)@ == old(self)@,
            outcome matches Some(answer) ==> match step(old(self)@, operation@, caller@, now) {
                Ok((state, effect)) => answer == Ok::<Effect, DiaryError>(effect) && final(self)@
                    == state,
                Err(error) => answer == Err::<Effect, DiaryError>(error) && final(self)@ == old(
                    self,
                )@,
            },
            outcome matches Some(Ok(_)) ==> final(self)@.is_initialized(),
            final(self)@.entry_count >= old(self)@.entry_count,
            old(self)@.is_initialized() ==> final(self)@.secret_phrase_hash == old(
                self,
            )@.secret_phrase_hash && final(self)@.owner == old(self)@.owner,
            final(self)@.wf(),
    {
        let exhausted = match &operation {
            Operation::AddEntry { secret_phrase, .. } => self.state.next_id() == u64::MAX
                && self.authorize(secret_phrase.as_str(), caller).is_ok(),
            _ => false,
        };
        if exhausted {
            None
        } else {
            Some(self.execute_operation(operation, caller, now))
        }
    }
}

/// A command that is applied to a well-formed state leaves a well-formed
/// state, in which the journal is initialized and the counter is no smaller
/// than it was.
pub proof fn lemma_step_keeps_well_formed(
    state: DiaryModel,
    operation: OperationModel,
    caller: Seq<char>,
    now: u64,
)
    requires
        state.wf(),
        caller.len() > 0,
        takes_identifier(state, operation, caller) ==> state.entry_count < u64::MAX,
    ensures
        step(state, operation, caller, now) matches Ok((after, _)) ==> after.wf()
            && after.is_initialized() && after.entry_count >= state.entry_count,
{
    if let Ok((after, _)) = step(state, operation, caller, now) {
        match operation {
            OperationModel::Initialize { .. } => {
                assert(after.entries.dom() =~= Set::empty());
            },
            OperationModel::AddEntry { .. } => {},
            OperationModel::UpdateEntry { .. } => {},
            OperationModel::DeleteEntry { .. } => {},
        }
    }
}

/// Once the journal is initialized, no command changes its credentials:
/// whatever is applied leaves the digest and the owner as they were and the
/// journal initialized, and an `Initialize` is rejected as
/// `AlreadyInitialized`.
pub proof fn lemma_credentials_are_kept(
    state: DiaryModel,
    operation: OperationModel,
    caller: Seq<char>,
    now: u64,
)
    requires
        state.is_initialized(),
    ensures
        step(state, operation, caller, now) matches Ok((after, _)) ==> {
            &&& after.secret_phrase_hash == state.secret_phrase_hash
            &&& after.owner == state.owner
            &&& after.is_initialized()
        },
        operation is Initialize ==> step(state, operation, caller, now) == Err::<
            (DiaryModel, Effect),
            DiaryError,
        >(DiaryError::AlreadyInitialized),
{
}

/// `Initialize` succeeds once. Where it is applied, the journal is
/// initialized and holds the digest given and the caller as the owner; every
/// later `Initialize` is rejected as `AlreadyInitialized`, whatever digest
/// it brings and whoever submits it. It is applied exactly where the journal
/// is not initialized and the digest is not empty.
pub proof fn lemma_initialize_only_once(
    state: DiaryModel,
    digest: Seq<char>,
    caller: Seq<char>,
    now: u64,
    later_digest: Seq<char>,
    later_caller: Seq<char>,
    later: u64,
)
    ensures
        step(state, OperationModel::Initialize { secret_phrase_hash: digest }, caller, now) is Ok
            <==> !state.is_initialized() && digest.len() > 0,
        step(state, OperationModel::Initialize { secret_phrase_hash: digest }, caller, now)
            matches Ok((after, effect)) ==> {
            &&& effect == Effect::Initialized
            &&& after.is_initialized()
            &&& after.secret_phrase_hash == digest
            &&& after.owner == caller
            &&& after.entry_count == 0
            &&& after.entries == state.entries
            &&& step(
                after,
                OperationModel::Initialize { secret_phrase_hash: later_digest },
                later_caller,
                later,
            ) == Err::<(DiaryModel, Effect), DiaryError>(DiaryError::AlreadyInitialized)
        },
{
}

/// A command whose phrase does not have the recorded digest is rejected as
/// `InvalidSecret`, whoever submits it, so that it changes nothing.
pub proof fn lemma_wrong_secret_is_rejected(
    state: DiaryModel,
    operation: OperationModel,
    caller: Seq<char>,
    now: u64,
)
    requires
        state.is_initialized(),
        match phrase_of(operation) {
            Some(secret_phrase) => secret_digest(secret_phrase) != state.secret_phrase_hash,
            None => false,
        },
    ensures
        step(state, operation, caller, now) == Err::<(DiaryModel, Effect), DiaryError>(
            DiaryError::InvalidSecret,
        ),
{
}

/// What rejects a command before anyone asks who submits it rejects it
/// whoever submits it.
pub proof fn lemma_early_rejection_decides(
    state: DiaryModel,
    operation: OperationModel,
    caller: Seq<char>,
    now: u64,
)
    ensures
        early_rejection(state, operation) matches Some(error) ==> step(
            state,
            operation,
            caller,
            now,
        ) == Err::<(DiaryModel, Effect), DiaryError>(error),
{
}

/// An `AddEntry` that is applied stores one entry more. The entry stands
/// under the identifier that the effect names, which is the counter's value
/// before; it holds the title and the content given and the time of the
/// command; and the counter goes up by one.
pub proof fn lemma_add_entry_stores_one_more(
    state: DiaryModel,
    secret_phrase: Seq<char>,
    title: Seq<char>,
    content: Seq<char>,
    caller: Seq<char>,
    now: u64,
)
    requires
        state.wf(),
        state.entry_count < u64::MAX,
    ensures
        step(state, OperationModel::AddEntry { secret_phrase, title, content }, caller, now)
            matches Ok((after, effect)) ==> {
            &&& effect == Effect::EntryAdded { id: state.entry_count as u64 }
            &&& after.live_count() == state.live_count() + 1
            &&& after.entry_count == state.entry_count + 1
            &&& after.entries.contains_key(state.entry_count as u64)
            &&& after.entries[state.entry_count as u64] == EntryModel {
                id: state.entry_count as u64,
                title,
                content,
                timestamp: now,
            }
            &&& forall|id: u64|
                state.entries.contains_key(id) ==> #[trigger] after.entries.contains_key(id)
                    && after.entries[id] == state.entries[id]
        },
{
    let id = state.entry_count as u64;
    if state.entries.contains_key(id) {
        assert(id < state.entry_count);
    }
}

/// An `UpdateEntry` that brings a title and no content, and is applied,
/// leaves the content of the entry as it was, puts the title in, and sets
/// the timestamp to the time of the command. No other entry changes, and
/// no entry comes or goes.
pub proof fn lemma_update_of_title_keeps_content(
    state: DiaryModel,
    secret_phrase: Seq<char>,
    entry_id: u64,
    title: Seq<char>,
    caller: Seq<char>,
    now: u64,
)
    requires
        state.wf(),
    ensures
        step(
            state,
            OperationModel::UpdateEntry { secret_phrase, entry_id, title: Some(title), content: None },
            caller,
            now,
        ) matches Ok((after, effect)) ==> {
            &&& effect == Effect::EntryUpdated { id: entry_id }
            &&& state.entries.contains_key(entry_id)
            &&& after.entries[entry_id] == EntryModel {
                id: entry_id,
                title,
                content: state.entries[entry_id].content,
                timestamp: now,
            }
            &&& after.entries.dom() == state.entries.dom()
            &&& after.live_count() == state.live_count()
            &&& after.entry_count == state.entry_count
            &&& forall|id: u64|
                id != entry_id && state.entries.contains_key(id) ==> #[trigger] after.entries[id]
                    == state.entries[id]
        },
{
    let operation = OperationModel::UpdateEntry {
        secret_phrase,
        entry_id,
        title: Some(title),
        content: None,
    };
    if let Ok((after, _)) = step(state, operation, caller, now) {
        assert(after.entries.dom() =~= state.entries.dom());
    }
}

/// A `DeleteEntry` that is applied leaves no entry under the identifier.
/// Where there was one, one entry fewer exists; where there was none,
/// nothing changes. The counter stays where it is either way.
pub proof fn lemma_delete_entry_removes_it(
    state: DiaryModel,
    secret_phrase: Seq<char>,
    entry_id: u64,
    caller: Seq<char>,
    now: u64,
)
    requires
        state.wf(),
    ensures
        step(state, OperationModel::DeleteEntry { secret_phrase, entry_id }, caller, now)
            matches Ok((after, effect)) ==> {
            &&& effect == Effect::EntryDeleted { id: entry_id }
            &&& !after.entries.contains_key(entry_id)
            &&& after.entry_count == state.entry_count
            &&& state.entries.contains_key(entry_id) ==> after.live_count() + 1
                == state.live_count()
            &&& !state.entries.contains_key(entry_id) ==> after == state
            &&& forall|id: u64|
                id != entry_id && state.entries.contains_key(id) ==> #[trigger] after.entries.contains_key(
                    id,
                ) && after.entries[id] == state.entries[id]
        },
{
    let operation = OperationModel::DeleteEntry { secret_phrase, entry_id };
    if let Ok((after, _)) = step(state, operation, caller, now) {
        if !state.entries.contains_key(entry_id) {
            assert(after.entries =~= state.entries);
        }
    }
}

/// An identifier that was assigned once and holds no entry now holds none
/// after any command, and no listing of the entries shows it: identifiers
/// are not assigned twice.
pub proof fn lemma_retired_identifier_stays_retired(
    state: DiaryModel,
    retired: u64,
    operation: OperationModel,
    caller: Seq<char>,
    now: u64,
)
    requires
        state.wf(),
        retired < state.entry_count,
        !state.entries.contains_key(retired),
    ensures
        step(state, operation, caller, now) matches Ok((after, _)) ==> {
            &&& retired < after.entry_count
            &&& !after.entries.contains_key(retired)
            &&& forall|list: Seq<EntryModel>, i: int|
                is_listing(list, after.entries) && 0 <= i < list.len() ==> (#[trigger] list[i]).id
                    != retired
        },
{
}

} // verus!
