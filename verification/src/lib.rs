//! A single-owner journal guarded by a secret phrase.
//!
//! The crate holds the journal's state, the executor that validates and
//! applies commands to it, the read-only views over its entries, and the
//! shape validation that a front end performs before it schedules a command.

pub mod contract;
pub mod entry;
pub mod listing;
pub mod operation;
pub mod secret;
pub mod service;
pub mod state;
pub mod text;

pub use contract::DiaryContract;
pub use entry::DiaryEntry;
pub use operation::{ArgumentFault, DiaryError, Effect, Operation, OperationResponse, ShapeFault};
pub use secret::{hash_secret_phrase, verify_secret_phrase};
pub use service::{Batch, BatchEntryInput, DiaryService, Scheduled};
pub use state::DiaryState;
