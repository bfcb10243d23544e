//! The front end: read-only queries over the journal, and the validation of
//! requests before they are scheduled for execution.
//!
//! A request is checked for its shape alone. Whether the secret phrase is
//! the right one and whether the caller is the owner is decided later, by
//! the executor.

use crate::entry::{entry_models, DiaryEntry, EntryModel};
use crate::listing::timestamps_descending;
use crate::operation::{
    text_of, ArgumentFault, DiaryError, Operation, OperationModel, OperationResponse,
    ResponseModel, ShapeFault,
};
use crate::secret::{hash_secret_phrase, secret_digest};
use crate::state::{at_most, in_range, DiaryModel, DiaryState};
use crate::text::{decimal, decimal_string, lowered_query, matches_query, text_matches};
use vstd::prelude::*;
use vstd::string::*;

verus! {

/// The least number of characters that a secret phrase must have.
pub const MIN_SECRET_LEN: usize = 8;

/// A request that passed validation: the command to hand to the scheduler,
/// and the answer to give meanwhile.
#[derive(Debug, PartialEq, Eq)]
pub struct Scheduled {
    pub operation: Operation,
    pub response: OperationResponse,
}

/// What a [`Scheduled`] holds, as mathematical values.
pub struct ScheduledModel {
    pub operation: OperationModel,
    pub response: ResponseModel,
}

impl View for Scheduled {
    type V = ScheduledModel;

    open spec fn view(&self) -> ScheduledModel {
        ScheduledModel { operation: self.operation@, response: self.response@ }
    }
}

/// The model of what a request came to.
pub open spec fn request_model(outcome: Result<Scheduled, DiaryError>) -> Result<
    ScheduledModel,
    DiaryError,
> {
    match outcome {
        Ok(scheduled) => Ok(scheduled@),
        Err(error) => Err(error),
    }
}

/// The rejection of a request for the fault in its shape.
pub open spec fn rejected<T>(fault: ShapeFault) -> Result<T, DiaryError> {
    Err(DiaryError::ShapeValidationFailed(fault))
}

/// A command together with the answer that it was scheduled.
pub open spec fn scheduled_with(operation: OperationModel, message: Seq<char>) -> ScheduledModel {
    ScheduledModel { operation, response: ResponseModel { success: true, message } }
}

/// What a request to initialize the journal comes to. The phrase must not
/// be empty and must have at least [`MIN_SECRET_LEN`] characters; the
/// command carries its digest, not the phrase.
pub open spec fn initialize_request(secret_phrase: Seq<char>) -> Result<ScheduledModel, DiaryError> {
    if secret_phrase.len() == 0 {
        rejected(ShapeFault::EmptySecret)
    } else if secret_phrase.len() < MIN_SECRET_LEN {
        rejected(ShapeFault::ShortSecret)
    } else {
        Ok(
            scheduled_with(
                OperationModel::Initialize { secret_phrase_hash: secret_digest(secret_phrase) },
                "Diary initialization scheduled. Please wait for the operation to be executed."@,
            ),
        )
    }
}

/// What a request to add an entry comes to. The phrase, the title and the
/// content must not be empty.
pub open spec fn add_entry_request(
    secret_phrase: Seq<char>,
    title: Seq<char>,
    content: Seq<char>,
) -> Result<ScheduledModel, DiaryError> {
    if secret_phrase.len() == 0 {
        rejected(ShapeFault::EmptySecret)
    } else if title.len() == 0 {
        rejected(ShapeFault::EmptyTitle)
    } else if content.len() == 0 {
        rejected(ShapeFault::EmptyContent)
    } else {
        Ok(
            scheduled_with(
                OperationModel::AddEntry { secret_phrase, title, content },
                "Entry '"@ + title
                    + "' creation scheduled. Please wait for the operation to be executed."@,
            ),
        )
    }
}

/// What a request to update an entry comes to. The phrase must not be
/// empty, a title or a content must be given, and what is given must not be
/// empty.
pub open spec fn update_entry_request(
    secret_phrase: Seq<char>,
    entry_id: u64,
    title: Option<Seq<char>>,
    content: Option<Seq<char>>,
) -> Result<ScheduledModel, DiaryError> {
    if secret_phrase.len() == 0 {
        rejected(ShapeFault::EmptySecret)
    } else if title is None && content is None {
        rejected(ShapeFault::NothingToUpdate)
    } else if title matches Some(text) && text.len() == 0 {
        rejected(ShapeFault::EmptyTitle)
    } else if content matches Some(text) && text.len() == 0 {
        rejected(ShapeFault::EmptyContent)
    } else {
        Ok(
            scheduled_with(
                OperationModel::UpdateEntry { secret_phrase, entry_id, title, content },
                "Entry "@ + decimal(entry_id as nat)
                    + " update scheduled. Please wait for the operation to be executed."@,
            ),
        )
    }
}

/// What a request to delete an entry comes to. The phrase must not be empty.
pub open spec fn delete_entry_request(secret_phrase: Seq<char>, entry_id: u64) -> Result<
    ScheduledModel,
    DiaryError,
> {
    if secret_phrase.len() == 0 {
        rejected(ShapeFault::EmptySecret)
    } else {
        Ok(
            scheduled_with(
                OperationModel::DeleteEntry { secret_phrase, entry_id },
                "Entry "@ + decimal(entry_id as nat)
                    + " deletion scheduled. Please wait for the operation to be executed."@,
            ),
        )
    }
}

/// One entry of a request to add several.
#[derive(Debug, PartialEq, Eq)]
pub struct BatchEntryInput {
    pub title: String,
    pub content: String,
}

/// What a [`BatchEntryInput`] holds, as mathematical values.
pub struct BatchEntryModel {
    pub title: Seq<char>,
    pub content: Seq<char>,
}

impl View for BatchEntryInput {
    type V = BatchEntryModel;

    open spec fn view(&self) -> BatchEntryModel {
        BatchEntryModel { title: self.title@, content: self.content@ }
    }
}

/// A request to add several entries that passed validation: the commands to
/// hand to the scheduler, in order, and one answer for each entry of the
/// request.
#[derive(Debug, PartialEq, Eq)]
pub struct Batch {
    pub operations: Vec<Operation>,
    pub responses: Vec<OperationResponse>,
}

/// What a [`Batch`] holds, as mathematical values.
pub struct BatchModel {
    pub operations: Seq<OperationModel>,
    pub responses: Seq<ResponseModel>,
}

/// The models of a sequence of batch entries, in the same order.
pub open spec fn item_models(items: Seq<BatchEntryInput>) -> Seq<BatchEntryModel> {
    Seq::new(items.len(), |i: int| items[i]@)
}

/// The models of a sequence of commands, in the same order.
pub open spec fn operation_models(operations: Seq<Operation>) -> Seq<OperationModel> {
    Seq::new(operations.len(), |i: int| operations[i]@)
}

/// The models of a sequence of answers, in the same order.
pub open spec fn response_models(responses: Seq<OperationResponse>) -> Seq<ResponseModel> {
    Seq::new(responses.len(), |i: int| responses[i]@)
}

impl View for Batch {
    type V = BatchModel;

    open spec fn view(&self) -> BatchModel {
        BatchModel {
            operations: operation_models(self.operations@),
            responses: response_models(self.responses@),
        }
    }
}

/// The test that a batch entry has a title and a content.
pub open spec fn is_complete() -> spec_fn(BatchEntryModel) -> bool {
    |item: BatchEntryModel| item.title.len() > 0 && item.content.len() > 0
}

/// The command that adds a batch entry.
pub open spec fn as_operation(secret_phrase: Seq<char>) -> spec_fn(BatchEntryModel) -> OperationModel {
    |item: BatchEntryModel|
        OperationModel::AddEntry { secret_phrase, title: item.title, content: item.content }
}

/// The answer for a batch entry: scheduled where it has a title and a
/// content, else a failure.
pub open spec fn as_response() -> spec_fn(BatchEntryModel) -> ResponseModel {
    |item: BatchEntryModel|
        if is_complete()(item) {
            ResponseModel { success: true, message: "Entry '"@ + item.title + "' scheduled"@ }
        } else {
            ResponseModel { success: false, message: "Title and content cannot be empty"@ }
        }
}

/// What a request to add several entries comes to. The phrase must not be
/// empty and there must be an entry. An entry without a title or without a
/// content gets an answer of failure and no command; the others are
/// scheduled all the same.
pub open spec fn add_entries_request(secret_phrase: Seq<char>, items: Seq<BatchEntryModel>) -> Result<
    BatchModel,
    DiaryError,
> {
    if secret_phrase.len() == 0 {
        rejected(ShapeFault::EmptySecret)
    } else if items.len() == 0 {
        rejected(ShapeFault::NoEntries)
    } else {
        Ok(
            BatchModel {
                operations: items.filter(is_complete()).map_values(as_operation(secret_phrase)),
                responses: items.map_values(as_response()),
            },
        )
    }
}

/// The model of what a request to add several entries came to.
pub open spec fn batch_model(outcome: Result<Batch, DiaryError>) -> Result<BatchModel, DiaryError> {
    match outcome {
        Ok(batch) => Ok(batch@),
        Err(error) => Err(error),
    }
}

/// The test that an entry holds `query`, in its title or in its content,
/// when case is disregarded.
pub open spec fn holds_query(query: Seq<char>, in_title: bool) -> spec_fn(EntryModel) -> bool {
    |entry: EntryModel|
        matches_query(
            if in_title {
                entry.title
            } else {
                entry.content
            },
            query,
        )
}

/// The front end of one journal. It reads the state and never changes it.
pub struct DiaryService<'a> {
    state: &'a DiaryState,
}

impl<'a> View for DiaryService<'a> {
    type V = DiaryModel;

    closed spec fn view(&self) -> DiaryModel {
        self.state@
    }
}

impl<'a> DiaryService<'a> {
    /// A front end over the journal in `state`.
    pub fn new(state: &'a DiaryState) -> (service: Self)
        ensures
            service@ == state@,
    {
        DiaryService { state }
    }

    /// Whether the journal has been initialized.
    pub fn is_initialized(&self) -> (initialized: bool)
        ensures
            initialized == self@.is_initialized(),
    {
        self.state.is_initialized()
    }

    /// The owner's identity; empty before initialization.
    pub fn owner(&self) -> (owner: String)
        ensures
            owner@ == self@.owner,
    {
        self.state.get_owner()
    }

    /// The number of entries that exist.
    pub fn entry_count(&self) -> (count: u64)
        ensures
            count == self@.live_count(),
    {
        self.state.get_entry_count()
    }

    /// All entries, newest first.
    pub fn entries(&self) -> (list: Vec<DiaryEntry>)
        ensures
            entry_models(list@) == self@.listing(),
            list@.len() == self@.live_count(),
            timestamps_descending(entry_models(list@)),
    {
        self.state.get_all_entries()
    }

    /// The entry stored under `id`, if there is one.
    pub fn entry(&self, id: u64) -> (entry: Option<DiaryEntry>)
        ensures
            match entry {
                Some(found) => self@.entries.contains_key(id) && found@ == self@.entries[id],
                None => !self@.entries.contains_key(id),
            },
    {
        self.state.get_entry(id)
    }

    /// The first `limit` entries of the listing, or all of them where there
    /// are fewer. A limit that is not positive is rejected.
    pub fn latest_entries(&self, limit: i32) -> (outcome: Result<Vec<DiaryEntry>, DiaryError>)
        ensures
            limit <= 0 ==> outcome == Err::<Vec<DiaryEntry>, DiaryError>(
                DiaryError::InvalidArgument(ArgumentFault::LimitNotPositive),
            ),
            limit > 0 ==> (outcome matches Ok(list) && {
                &&& entry_models(list@) == self@.listing().take(
                    at_most(limit as nat, self@.live_count()) as int,
                )
                &&& list@.len() == at_most(limit as nat, self@.live_count())
                &&& timestamps_descending(entry_models(list@))
            }),
    {
        if limit <= 0 {
            return Err(DiaryError::InvalidArgument(ArgumentFault::LimitNotPositive));
        }
        Ok(self.state.get_latest_entries(limit as usize))
    }

    /// The entries whose timestamp lies between `start` and `end`, both
    /// included, in the order of the listing. A range that starts after its
    /// end is rejected.
    pub fn entries_in_range(&self, start: u64, end: u64) -> (outcome: Result<
        Vec<DiaryEntry>,
        DiaryError,
    >)
        ensures
            start > end ==> outcome == Err::<Vec<DiaryEntry>, DiaryError>(
                DiaryError::InvalidArgument(ArgumentFault::RangeInverted),
            ),
            start <= end ==> (outcome matches Ok(list) && entry_models(list@)
                == self@.listing().filter(in_range(start, end))),
    {
        if start > end {
            return Err(DiaryError::InvalidArgument(ArgumentFault::RangeInverted));
        }
        Ok(self.state.get_entries_in_range(start, end))
    }

    /// The entries whose title holds `query` when case is disregarded, in
    /// the order of the listing.
    pub fn search_by_title(&self, query: &str) -> (list: Vec<DiaryEntry>)
        ensures
            entry_models(list@) == self@.listing().filter(holds_query(query@, true)),
    {
        self.search(query, true)
    }

    /// The entries whose content holds `query` when case is disregarded, in
    /// the order of the listing.
    pub fn search_by_content(&self, query: &str) -> (list: Vec<DiaryEntry>)
        ensures
            entry_models(list@) == self@.listing().filter(holds_query(query@, false)),
    {
        self.search(query, false)
    }

    /// The entries that hold `query`, in the title or in the content.
    fn search(&self, query: &str, in_title: bool) -> (list: Vec<DiaryEntry>)
        ensures
            entry_models(list@) == self@.listing().filter(holds_query(query@, in_title)),
    {
        let all = self.state.get_all_entries();
        let lowered = lowered_query(query);
        let ghost models = entry_models(all@);
        let ghost wanted = holds_query(query@, in_title);
        let mut list: Vec<DiaryEntry> = Vec::new();
        let mut i: usize = 0;
        assert(models.take(0).filter(wanted) =~= Seq::empty()) by {
            reveal(Seq::filter);
        }
        while i < all.len()
            invariant
                i <= all.len(),
                models == entry_models(all@),
                wanted == holds_query(query@, in_title),
                lowered@ == crate::text::lowercase(query@),
                entry_models(list@) == models.take(i as int).filter(wanted),
            decreases all.len() - i,
        {
            let entry = &all[i];
            proof {
                assert(models.take(i + 1) =~= models.take(i as int).push(entry@));
                models.take(i as int).lemma_filter_push(entry@, wanted);
            }
            let found = if in_title {
                text_matches(entry.title.as_str(), &lowered)
            } else {
                text_matches(entry.content.as_str(), &lowered)
            };
            if found {
                let ghost shorter = entry_models(list@);
                list.push(entry.clone());
                assert(entry_models(list@) =~= shorter.push(entry@));
            }
            i += 1;
        }
        assert(models.take(i as int) =~= models);
        list
    }

    /// Validates a request to initialize the journal.
    pub fn initialize(secret_phrase: String) -> (outcome: Result<Scheduled, DiaryError>)
        ensures
            request_model(outcome) == initialize_request(secret_phrase@),
    {
        if secret_phrase.as_str().is_empty() {
            return Err(DiaryError::ShapeValidationFailed(ShapeFault::EmptySecret));
        }
        if secret_phrase.as_str().unicode_len() < MIN_SECRET_LEN {
            return Err(DiaryError::ShapeValidationFailed(ShapeFault::ShortSecret));
        }
        let secret_phrase_hash = hash_secret_phrase(secret_phrase.as_str());
        Ok(
            Scheduled {
                operation: Operation::Initialize { secret_phrase_hash },
                response: OperationResponse::ok(
                    "Diary initialization scheduled. Please wait for the operation to be executed.".to_owned(),
                ),
            },
        )
    }

    /// Validates a request to add an entry.
    pub fn add_entry(secret_phrase: String, title: String, content: String) -> (outcome: Result<
        Scheduled,
        DiaryError,
    >)
        ensures
            request_model(outcome) == add_entry_request(secret_phrase@, title@, content@),
    {
        if secret_phrase.as_str().is_empty() {
            return Err(DiaryError::ShapeValidationFailed(ShapeFault::EmptySecret));
        }
        if title.as_str().is_empty() {
            return Err(DiaryError::ShapeValidationFailed(ShapeFault::EmptyTitle));
        }
        if content.as_str().is_empty() {
            return Err(DiaryError::ShapeValidationFailed(ShapeFault::EmptyContent));
        }
        let mut message = "Entry '".to_owned();
        message.append(title.as_str());
        message.append("' creation scheduled. Please wait for the operation to be executed.");
        Ok(
            Scheduled {
                operation: Operation::AddEntry { secret_phrase, title, content },
                response: OperationResponse::ok(message),
            },
        )
    }

    /// Validates a request to update an entry.
    pub fn update_entry(
        secret_phrase: String,
        entry_id: u64,
        title: Option<String>,
        content: Option<String>,
    ) -> (outcome: Result<Scheduled, DiaryError>)
        ensures
            request_model(outcome) == update_entry_request(
                secret_phrase@,
                entry_id,
                text_of(title),
                text_of(content),
            ),
            title is None && content is None ==> outcome is Err,
    {
        if secret_phrase.as_str().is_empty() {
            return Err(DiaryError::ShapeValidationFailed(ShapeFault::EmptySecret));
        }
        if title.is_none() && content.is_none() {
            return Err(DiaryError::ShapeValidationFailed(ShapeFault::NothingToUpdate));
        }
        match &title {
            Some(text) => {
                if text.as_str().is_empty() {
                    return Err(DiaryError::ShapeValidationFailed(ShapeFault::EmptyTitle));
                }
            },
            None => {},
        }
        match &content {
            Some(text) => {
                if text.as_str().is_empty() {
                    return Err(DiaryError::ShapeValidationFailed(ShapeFault::EmptyContent));
                }
            },
            None => {},
        }
        let mut message = "Entry ".to_owned();
        message.append(decimal_string(entry_id).as_str());
        message.append(" update scheduled. Please wait for the operation to be executed.");
        Ok(
            Scheduled {
                operation: Operation::UpdateEntry { secret_phrase, entry_id, title, content },
                response: OperationResponse::ok(message),
            },
        )
    }

    /// Validates a request to delete an entry.
    pub fn delete_entry(secret_phrase: String, entry_id: u64) -> (outcome: Result<
        Scheduled,
        DiaryError,
    >)
        ensures
            request_model(outcome) == delete_entry_request(secret_phrase@, entry_id),
    {
        if secret_phrase.as_str().is_empty() {
            return Err(DiaryError::ShapeValidationFailed(ShapeFault::EmptySecret));
        }
        let mut message = "Entry ".to_owned();
        message.append(decimal_string(entry_id).as_str());
        message.append(" deletion scheduled. Please wait for the operation to be executed.");
        Ok(
            Scheduled {
                operation: Operation::DeleteEntry { secret_phrase, entry_id },
                response: OperationResponse::ok(message),
            },
        )
    }

    /// Validates a request to add several entries.
    pub fn add_entries(secret_phrase: String, entries: Vec<BatchEntryInput>) -> (outcome: Result<
        Batch,
        DiaryError,
    >)
        ensures
            batch_model(outcome) == add_entries_request(secret_phrase@, item_models(entries@)),
            outcome matches Ok(batch) ==> batch.responses@.len() == entries@.len(),
    {
        if secret_phrase.as_str().is_empty() {
            return Err(DiaryError::ShapeValidationFailed(ShapeFault::EmptySecret));
        }
        if entries.len() == 0 {
            return Err(DiaryError::ShapeValidationFailed(ShapeFault::NoEntries));
        }
        let ghost items = item_models(entries@);
        let ghost to_operation = as_operation(secret_phrase@);
        let mut operations: Vec<Operation> = Vec::new();
        let mut responses: Vec<OperationResponse> = Vec::new();
        let mut i: usize = 0;
        assert(items.take(0).filter(is_complete()) =~= Seq::empty()) by {
            reveal(Seq::filter);
        }
        assert(operation_models(operations@) =~= items.take(0).filter(is_complete()).map_values(
            to_operation,
        ));
        assert(response_models(responses@) =~= items.take(0).map_values(as_response()));
        while i < entries.len()
            invariant
                i <= entries.len(),
                items == item_models(entries@),
                to_operation == as_operation(secret_phrase@),
                operation_models(operations@) == items.take(i as int).filter(
                    is_complete(),
                ).map_values(to_operation),
                response_models(responses@) == items.take(i as int).map_values(as_response()),
            decreases entries.len() - i,
        {
            let entry = &entries[i];
            let ghost earlier = items.take(i as int);
            let ghost planned = operation_models(operations@);
            let ghost answered = response_models(responses@);
            proof {
                assert(items.take(i + 1) =~= earlier.push(entry@));
                earlier.lemma_filter_push(entry@, is_complete());
            }
            if entry.title.as_str().is_empty() || entry.content.as_str().is_empty() {
                responses.push(OperationResponse::err("Title and content cannot be empty".to_owned()));
            } else {
                operations.push(
                    Operation::AddEntry {
                        secret_phrase: secret_phrase.clone(),
                        title: entry.title.clone(),
                        content: entry.content.clone(),
                    },
                );
                let mut message = "Entry '".to_owned();
                message.append(entry.title.as_str());
                message.append("' scheduled");
                responses.push(OperationResponse::ok(message));
                assert(operation_models(operations@) =~= planned.push(to_operation(entry@)));
                assert(earlier.filter(is_complete()).push(entry@).map_values(to_operation)
                    =~= planned.push(to_operation(entry@)));
            }
            assert(response_models(responses@) =~= answered.push(as_response()(entry@)));
            assert(earlier.push(entry@).map_values(as_response()) =~= answered.push(
                as_response()(entry@),
            ));
            i += 1;
        }
        assert(items.take(i as int) =~= items);
        Ok(Batch { operations, responses })
    }
}

} // verus!
