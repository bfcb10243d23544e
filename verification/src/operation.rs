//! Commands, their effects, and the errors that reject them.

use vstd::prelude::*;

verus! {

/// A command that changes the journal.
#[derive(Debug, PartialEq, Eq)]
#[allow(inconsistent_fields)]
pub enum Operation {
    /// Initialize the journal with the digest of a secret phrase.
    Initialize { secret_phrase_hash: String },
    /// Add a new entry.
    AddEntry { secret_phrase: String, title: String, content: String },
    /// Update the title, the content, or both, of an entry.
    UpdateEntry {
        secret_phrase: String,
        entry_id: u64,
        title: Option<String>,
        content: Option<String>,
    },
    /// Delete an entry.
    DeleteEntry { secret_phrase: String, entry_id: u64 },
}

/// What an [`Operation`] holds, as mathematical values.
#[allow(inconsistent_fields)]
pub enum OperationModel {
    Initialize { secret_phrase_hash: Seq<char> },
    AddEntry { secret_phrase: Seq<char>, title: Seq<char>, content: Seq<char> },
    UpdateEntry {
        secret_phrase: Seq<char>,
        entry_id: u64,
        title: Option<Seq<char>>,
        content: Option<Seq<char>>,
    },
    DeleteEntry { secret_phrase: Seq<char>, entry_id: u64 },
}

/// The characters of a text that may be absent.
pub open spec fn text_of(text: Option<String>) -> Option<Seq<char>> {
    match text {
        Some(present) => Some(present@),
        None => None,
    }
}

impl View for Operation {
    type V = OperationModel;

    open spec fn view(&self) -> OperationModel {
        match *self {
            Operation::Initialize { secret_phrase_hash } => OperationModel::Initialize {
                secret_phrase_hash: secret_phrase_hash@,
            },
            Operation::AddEntry { secret_phrase, title, content } => OperationModel::AddEntry {
                secret_phrase: secret_phrase@,
                title: title@,
                content: content@,
            },
            Operation::UpdateEntry {
                secret_phrase,
                entry_id,
                title,
                content,
            } => OperationModel::UpdateEntry {
                secret_phrase: secret_phrase@,
                entry_id,
                title: text_of(title),
                content: text_of(content),
            },
            Operation::DeleteEntry { secret_phrase, entry_id } => OperationModel::DeleteEntry {
                secret_phrase: secret_phrase@,
                entry_id,
            },
        }
    }
}

/// What a command that was applied has done.
#[derive(Debug, Clone, Copy, PartialEq, Eq, Structural)]
pub enum Effect {
    /// The credentials were recorded.
    Initialized,
    /// A new entry was stored under `id`.
    EntryAdded { id: u64 },
    /// The entry under `id` was replaced.
    EntryUpdated { id: u64 },
    /// No entry is stored under `id` any more.
    EntryDeleted { id: u64 },
}

/// What is wrong with the shape of a request.
#[derive(Debug, Clone, Copy, PartialEq, Eq, Structural)]
pub enum ShapeFault {
    /// The secret phrase is empty.
    EmptySecret,
    /// The secret phrase is shorter than the minimum.
    ShortSecret,
    /// A title is empty.
    EmptyTitle,
    /// A content is empty.
    EmptyContent,
    /// An update gives neither a title nor a content.
    NothingToUpdate,
    /// A batch holds no entries.
    NoEntries,
}

/// What is wrong with the argument of a query.
#[derive(Debug, Clone, Copy, PartialEq, Eq, Structural)]
pub enum ArgumentFault {
    /// A limit is zero or negative.
    LimitNotPositive,
    /// A range starts after its end.
    RangeInverted,
}

/// Why a command, a query or a request was rejected.
#[derive(Debug, Clone, Copy, PartialEq, Eq, Structural)]
pub enum DiaryError {
    /// The journal is initialized already.
    AlreadyInitialized,
    /// The journal is not initialized yet.
    NotInitialized,
    /// The secret phrase does not have the recorded digest.
    InvalidSecret,
    /// The caller is not the owner.
    NotOwner,
    /// No entry has the identifier given.
    EntryNotFound,
    /// A query was given an argument that it does not take.
    InvalidArgument(ArgumentFault),
    /// A request lacks a field, or holds an empty one.
    ShapeValidationFailed(ShapeFault),
}

impl DiaryError {
    /// The sentence that [`DiaryError::message`] gives for this error.
    pub open spec fn message_text(self) -> Seq<char> {
        match self {
            DiaryError::AlreadyInitialized => "Diary already initialized"@,
            DiaryError::NotInitialized => "Diary not initialized"@,
            DiaryError::InvalidSecret => "Invalid secret phrase"@,
            DiaryError::NotOwner => "Only the owner can change the diary"@,
            DiaryError::EntryNotFound => "Entry not found"@,
            DiaryError::InvalidArgument(ArgumentFault::LimitNotPositive) => "Limit must be positive"@,
            DiaryError::InvalidArgument(
                ArgumentFault::RangeInverted,
            ) => "Start timestamp must be before end timestamp"@,
            DiaryError::ShapeValidationFailed(
                ShapeFault::EmptySecret,
            ) => "Secret phrase cannot be empty"@,
            DiaryError::ShapeValidationFailed(
                ShapeFault::ShortSecret,
            ) => "Secret phrase must be at least 8 characters"@,
            DiaryError::ShapeValidationFailed(ShapeFault::EmptyTitle) => "Title cannot be empty"@,
            DiaryError::ShapeValidationFailed(
                ShapeFault::EmptyContent,
            ) => "Content cannot be empty"@,
            DiaryError::ShapeValidationFailed(
                ShapeFault::NothingToUpdate,
            ) => "Must provide at least title or content to update"@,
            DiaryError::ShapeValidationFailed(ShapeFault::NoEntries) => "No entries provided"@,
        }
    }

    /// A sentence that says what went wrong.
    pub fn message(&self) -> (text: String)
        ensures
            text@ == self.message_text(),
    {
        let text = match self {
            DiaryError::AlreadyInitialized => "Diary already initialized",
            DiaryError::NotInitialized => "Diary not initialized",
            DiaryError::InvalidSecret => "Invalid secret phrase",
            DiaryError::NotOwner => "Only the owner can change the diary",
            DiaryError::EntryNotFound => "Entry not found",
            DiaryError::InvalidArgument(ArgumentFault::LimitNotPositive) => "Limit must be positive",
            DiaryError::InvalidArgument(
                ArgumentFault::RangeInverted,
            ) => "Start timestamp must be before end timestamp",
            DiaryError::ShapeValidationFailed(
                ShapeFault::EmptySecret,
            ) => "Secret phrase cannot be empty",
            DiaryError::ShapeValidationFailed(
                ShapeFault::ShortSecret,
            ) => "Secret phrase must be at least 8 characters",
            DiaryError::ShapeValidationFailed(ShapeFault::EmptyTitle) => "Title cannot be empty",
            DiaryError::ShapeValidationFailed(
                ShapeFault::EmptyContent,
            ) => "Content cannot be empty",
            DiaryError::ShapeValidationFailed(
                ShapeFault::NothingToUpdate,
            ) => "Must provide at least title or content to update",
            DiaryError::ShapeValidationFailed(ShapeFault::NoEntries) => "No entries provided",
        };
        text.to_owned()
    }
}

/// What a front end answers to a request: whether the request was scheduled,
/// and a sentence for the user. It says nothing of what the command will do
/// once it is executed.
#[derive(Debug, PartialEq, Eq)]
pub struct OperationResponse {
    pub success: bool,
    pub message: String,
}

/// What an [`OperationResponse`] holds, as mathematical values.
pub struct ResponseModel {
    pub success: bool,
    pub message: Seq<char>,
}

impl View for OperationResponse {
    type V = ResponseModel;

    open spec fn view(&self) -> ResponseModel {
        ResponseModel { success: self.success, message: self.message@ }
    }
}

impl Clone for OperationResponse {
    fn clone(&self) -> (copy: Self)
        ensures
            copy@ == self@,
    {
        OperationResponse { success: self.success, message: self.message.clone() }
    }
}

impl OperationResponse {
    /// A response that reports success, with `message` for the user.
    pub fn ok(message: String) -> (response: Self)
        ensures
            response@ == (ResponseModel { success: true, message: message@ }),
    {
        OperationResponse { success: true, message }
    }

    /// A response that reports a failure, with `message` for the user.
    pub fn err(message: String) -> (response: Self)
        ensures
            response@ == (ResponseModel { success: false, message: message@ }),
    {
        OperationResponse { success: false, message }
    }
}

} // verus!
