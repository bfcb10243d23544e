//! Shape validation of requests, and the answers that go with them.

use diary_backend::{
    hash_secret_phrase, ArgumentFault, Batch, BatchEntryInput, DiaryError, DiaryService,
    Operation, OperationResponse, Scheduled, ShapeFault,
};

fn shape(fault: ShapeFault) -> DiaryError {
    DiaryError::ShapeValidationFailed(fault)
}

fn text(value: &str) -> String {
    value.to_string()
}

#[test]
fn response_constructors_set_the_flag() {
    assert_eq!(
        OperationResponse::ok(text("done")),
        OperationResponse { success: true, message: text("done") }
    );
    assert_eq!(
        OperationResponse::err(text("failed")),
        OperationResponse { success: false, message: text("failed") }
    );
    let response = OperationResponse::ok(text("copied"));
    assert_eq!(response.clone(), response);
}

#[test]
fn initialize_request_carries_the_digest() {
    let scheduled = DiaryService::initialize(text("correct-horse-battery")).unwrap();
    assert_eq!(
        scheduled,
        Scheduled {
            operation: Operation::Initialize {
                secret_phrase_hash: hash_secret_phrase("correct-horse-battery"),
            },
            response: OperationResponse {
                success: true,
                message: text(
                    "Diary initialization scheduled. Please wait for the operation to be executed."
                ),
            },
        }
    );
}

#[test]
fn initialize_request_needs_eight_characters() {
    assert_eq!(DiaryService::initialize(text("")), Err(shape(ShapeFault::EmptySecret)));
    assert_eq!(DiaryService::initialize(text("a")), Err(shape(ShapeFault::ShortSecret)));
    assert_eq!(DiaryService::initialize(text("1234567")), Err(shape(ShapeFault::ShortSecret)));
    assert!(DiaryService::initialize(text("12345678")).is_ok());
    assert!(DiaryService::initialize(text("123456789")).is_ok());
}

#[test]
fn initialize_request_counts_characters_not_bytes() {
    assert_eq!(DiaryService::initialize(text("éééé")), Err(shape(ShapeFault::ShortSecret)));
    assert_eq!(DiaryService::initialize(text("ééééééé")), Err(shape(ShapeFault::ShortSecret)));
    assert_eq!(DiaryService::initialize(text("日本語のパスワ")), Err(shape(ShapeFault::ShortSecret)));
    let scheduled = DiaryService::initialize(text("éééééééé")).unwrap();
    assert_eq!(
        scheduled.operation,
        Operation::Initialize { secret_phrase_hash: hash_secret_phrase("éééééééé") }
    );
    assert!(DiaryService::initialize(text("日本語のパスワード")).is_ok());
}

#[test]
fn add_entry_request_is_scheduled() {
    let scheduled =
        DiaryService::add_entry(text("phrase"), text("My First Day"), text("Today")).unwrap();
    assert_eq!(
        scheduled.operation,
        Operation::AddEntry {
            secret_phrase: text("phrase"),
            title: text("My First Day"),
            content: text("Today"),
        }
    );
    assert!(scheduled.response.success);
    assert_eq!(
        scheduled.response.message,
        "Entry 'My First Day' creation scheduled. Please wait for the operation to be executed."
    );
}

#[test]
fn add_entry_request_reports_the_first_empty_field() {
    assert_eq!(
        DiaryService::add_entry(text(""), text(""), text("")),
        Err(shape(ShapeFault::EmptySecret))
    );
    assert_eq!(
        DiaryService::add_entry(text("p"), text(""), text("")),
        Err(shape(ShapeFault::EmptyTitle))
    );
    assert_eq!(
        DiaryService::add_entry(text("p"), text("t"), text("")),
        Err(shape(ShapeFault::EmptyContent))
    );
}

#[test]
fn update_entry_request_is_scheduled() {
    let scheduled =
        DiaryService::update_entry(text("phrase"), 42, Some(text("New")), None).unwrap();
    assert_eq!(
        scheduled.operation,
        Operation::UpdateEntry {
            secret_phrase: text("phrase"),
            entry_id: 42,
            title: Some(text("New")),
            content: None,
        }
    );
    assert!(scheduled.response.success);
    assert_eq!(
        scheduled.response.message,
        "Entry 42 update scheduled. Please wait for the operation to be executed."
    );
    let both = DiaryService::update_entry(text("phrase"), 0, Some(text("T")), Some(text("C")));
    assert_eq!(
        both.unwrap().response.message,
        "Entry 0 update scheduled. Please wait for the operation to be executed."
    );
}

#[test]
fn update_entry_request_needs_a_title_or_a_content() {
    assert_eq!(
        DiaryService::update_entry(text("phrase"), 1, None, None),
        Err(shape(ShapeFault::NothingToUpdate))
    );
    assert_eq!(
        DiaryService::update_entry(text(""), 1, None, None),
        Err(shape(ShapeFault::EmptySecret))
    );
}

#[test]
fn update_entry_request_rejects_empty_fields() {
    assert_eq!(
        DiaryService::update_entry(text("phrase"), 1, Some(text("")), None),
        Err(shape(ShapeFault::EmptyTitle))
    );
    assert_eq!(
        DiaryService::update_entry(text("phrase"), 1, None, Some(text(""))),
        Err(shape(ShapeFault::EmptyContent))
    );
    assert_eq!(
        DiaryService::update_entry(text("phrase"), 1, Some(text("")), Some(text(""))),
        Err(shape(ShapeFault::EmptyTitle))
    );
    assert_eq!(
        DiaryService::update_entry(text("phrase"), 1, Some(text("t")), Some(text(""))),
        Err(shape(ShapeFault::EmptyContent))
    );
}

#[test]
fn delete_entry_request_is_scheduled() {
    let scheduled = DiaryService::delete_entry(text("phrase"), 18446744073709551615).unwrap();
    assert_eq!(
        scheduled.operation,
        Operation::DeleteEntry { secret_phrase: text("phrase"), entry_id: u64::MAX }
    );
    assert!(scheduled.response.success);
    assert_eq!(
        scheduled.response.message,
        "Entry 18446744073709551615 deletion scheduled. Please wait for the operation to be executed."
    );
    assert_eq!(DiaryService::delete_entry(text(""), 3), Err(shape(ShapeFault::EmptySecret)));
}

#[test]
fn requests_do_not_check_the_secret() {
    assert!(DiaryService::add_entry(text("any phrase at all"), text("t"), text("c")).is_ok());
    assert!(DiaryService::delete_entry(text("x"), 0).is_ok());
}

#[test]
fn batch_reports_each_entry_and_schedules_the_complete_ones() {
    let batch = DiaryService::add_entries(
        text("phrase"),
        vec![
            BatchEntryInput { title: text("One"), content: text("first") },
            BatchEntryInput { title: text(""), content: text("no title") },
            BatchEntryInput { title: text("Three"), content: text("") },
            BatchEntryInput { title: text("Four"), content: text("fourth") },
        ],
    )
    .unwrap();
    assert_eq!(
        batch,
        Batch {
            operations: vec![
                Operation::AddEntry {
                    secret_phrase: text("phrase"),
                    title: text("One"),
                    content: text("first"),
                },
                Operation::AddEntry {
                    secret_phrase: text("phrase"),
                    title: text("Four"),
                    content: text("fourth"),
                },
            ],
            responses: vec![
                OperationResponse { success: true, message: text("Entry 'One' scheduled") },
                OperationResponse {
                    success: false,
                    message: text("Title and content cannot be empty"),
                },
                OperationResponse {
                    success: false,
                    message: text("Title and content cannot be empty"),
                },
                OperationResponse { success: true, message: text("Entry 'Four' scheduled") },
            ],
        }
    );
}

#[test]
fn batch_needs_a_secret_and_an_entry() {
    assert_eq!(
        DiaryService::add_entries(text(""), vec![]),
        Err(shape(ShapeFault::EmptySecret))
    );
    assert_eq!(
        DiaryService::add_entries(
            text(""),
            vec![BatchEntryInput { title: text("t"), content: text("c") }]
        ),
        Err(shape(ShapeFault::EmptySecret))
    );
    assert_eq!(DiaryService::add_entries(text("phrase"), vec![]), Err(shape(ShapeFault::NoEntries)));
}

#[test]
fn batch_of_incomplete_entries_schedules_nothing() {
    let batch = DiaryService::add_entries(
        text("phrase"),
        vec![BatchEntryInput { title: text(""), content: text("") }],
    )
    .unwrap();
    assert!(batch.operations.is_empty());
    assert_eq!(batch.responses.len(), 1);
    assert!(!batch.responses[0].success);
}

#[test]
fn every_error_has_its_sentence() {
    let cases = [
        (DiaryError::AlreadyInitialized, "Diary already initialized"),
        (DiaryError::NotInitialized, "Diary not initialized"),
        (DiaryError::InvalidSecret, "Invalid secret phrase"),
        (DiaryError::NotOwner, "Only the owner can change the diary"),
        (DiaryError::EntryNotFound, "Entry not found"),
        (DiaryError::InvalidArgument(ArgumentFault::LimitNotPositive), "Limit must be positive"),
        (
            DiaryError::InvalidArgument(ArgumentFault::RangeInverted),
            "Start timestamp must be before end timestamp",
        ),
        (shape(ShapeFault::EmptySecret), "Secret phrase cannot be empty"),
        (shape(ShapeFault::ShortSecret), "Secret phrase must be at least 8 characters"),
        (shape(ShapeFault::EmptyTitle), "Title cannot be empty"),
        (shape(ShapeFault::EmptyContent), "Content cannot be empty"),
        (shape(ShapeFault::NothingToUpdate), "Must provide at least title or content to update"),
        (shape(ShapeFault::NoEntries), "No entries provided"),
    ];
    for (error, sentence) in cases {
        assert_eq!(error.message(), sentence);
    }
}
