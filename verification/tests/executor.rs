//! The executor: which commands it applies, which it rejects, and what each
//! leaves behind.

use diary_backend::{
    hash_secret_phrase, DiaryContract, DiaryEntry, DiaryError, DiaryService, DiaryState, Effect,
    Operation, ShapeFault,
};

const ALICE: &str = "alice";
const PHRASE: &str = "correct-horse-battery";

fn journal() -> DiaryContract {
    let mut contract = DiaryContract::load(DiaryState::new());
    let outcome = contract.execute_operation(
        Operation::Initialize { secret_phrase_hash: hash_secret_phrase(PHRASE) },
        ALICE,
        1,
    );
    assert_eq!(outcome, Ok(Effect::Initialized));
    contract
}

fn add_entry(title: &str, content: &str) -> Operation {
    Operation::AddEntry {
        secret_phrase: PHRASE.to_string(),
        title: title.to_string(),
        content: content.to_string(),
    }
}

fn titles(entries: &[DiaryEntry]) -> Vec<(String, String)> {
    entries.iter().map(|e| (e.title.clone(), e.content.clone())).collect()
}

#[test]
fn new_journal_is_empty_and_uninitialized() {
    let state = DiaryState::new();
    assert!(!state.is_initialized());
    assert_eq!(state.get_owner(), "");
    assert_eq!(state.get_secret_phrase_hash(), "");
    assert_eq!(state.get_entry_count(), 0);
    assert_eq!(state.next_id(), 0);
    assert!(state.get_all_entries().is_empty());
    assert_eq!(state.get_entry(0), None);
}

#[test]
fn initialize_records_digest_and_owner() {
    let contract = journal();
    let state = contract.state();
    assert!(state.is_initialized());
    assert_eq!(state.get_owner(), ALICE);
    assert_eq!(state.get_secret_phrase_hash(), hash_secret_phrase(PHRASE));
    assert!(state.has_digest(&hash_secret_phrase(PHRASE)));
    assert!(!state.has_digest("00"));
    assert!(state.is_owner(ALICE));
    assert!(!state.is_owner("bob"));
    assert_eq!(state.next_id(), 0);
}

#[test]
fn second_initialize_is_rejected_and_owner_stays() {
    let mut contract = journal();
    let outcome = contract.execute_operation(
        Operation::Initialize { secret_phrase_hash: hash_secret_phrase("another-phrase") },
        "bob",
        2,
    );
    assert_eq!(outcome, Err(DiaryError::AlreadyInitialized));
    assert_eq!(contract.state().get_owner(), ALICE);
    assert_eq!(contract.state().get_secret_phrase_hash(), hash_secret_phrase(PHRASE));
}

#[test]
fn initialize_with_empty_digest_is_rejected() {
    let mut contract = DiaryContract::load(DiaryState::new());
    let outcome = contract.execute_operation(
        Operation::Initialize { secret_phrase_hash: String::new() },
        ALICE,
        1,
    );
    assert_eq!(outcome, Err(DiaryError::ShapeValidationFailed(ShapeFault::EmptySecret)));
    assert!(!contract.state().is_initialized());
    assert_eq!(contract.state().get_owner(), "");
    assert_eq!(contract.state().get_secret_phrase_hash(), "");

    let first = contract.execute_operation(
        Operation::Initialize { secret_phrase_hash: hash_secret_phrase(PHRASE) },
        "bob",
        2,
    );
    assert_eq!(first, Ok(Effect::Initialized));
    assert!(contract.state().is_initialized());
    assert_eq!(contract.state().get_owner(), "bob");

    let again = contract.execute_operation(
        Operation::Initialize { secret_phrase_hash: String::new() },
        ALICE,
        3,
    );
    assert_eq!(again, Err(DiaryError::AlreadyInitialized));
    assert_eq!(contract.state().get_owner(), "bob");
}

#[test]
fn every_applied_command_leaves_the_journal_initialized() {
    let mut contract = journal();
    assert!(contract.state().is_initialized());
    contract.execute_operation(add_entry("A", "B"), ALICE, 5).unwrap();
    assert!(contract.state().is_initialized());
    contract
        .execute_operation(
            Operation::DeleteEntry { secret_phrase: PHRASE.to_string(), entry_id: 0 },
            ALICE,
            6,
        )
        .unwrap();
    assert!(contract.state().is_initialized());
    assert_eq!(contract.state().get_owner(), ALICE);
    assert_eq!(contract.state().get_secret_phrase_hash(), hash_secret_phrase(PHRASE));
}

#[test]
fn early_checks_do_not_look_at_the_caller() {
    let fresh = DiaryContract::load(DiaryState::new());
    assert_eq!(
        fresh.check_before_caller(&Operation::Initialize { secret_phrase_hash: String::new() }),
        Some(DiaryError::ShapeValidationFailed(ShapeFault::EmptySecret))
    );
    assert_eq!(
        fresh.check_before_caller(&Operation::Initialize {
            secret_phrase_hash: hash_secret_phrase(PHRASE)
        }),
        None
    );
    assert_eq!(fresh.check_before_caller(&add_entry("A", "B")), Some(DiaryError::NotInitialized));

    let contract = journal();
    assert_eq!(
        contract.check_before_caller(&Operation::Initialize {
            secret_phrase_hash: hash_secret_phrase(PHRASE)
        }),
        Some(DiaryError::AlreadyInitialized)
    );
    assert_eq!(contract.check_before_caller(&add_entry("A", "B")), None);
    assert_eq!(
        contract.check_before_caller(&Operation::UpdateEntry {
            secret_phrase: "nope".to_string(),
            entry_id: 0,
            title: None,
            content: None,
        }),
        Some(DiaryError::InvalidSecret)
    );
    assert_eq!(
        contract.check_before_caller(&Operation::DeleteEntry {
            secret_phrase: "nope".to_string(),
            entry_id: 0,
        }),
        Some(DiaryError::InvalidSecret)
    );
    assert_eq!(
        contract.check_before_caller(&Operation::DeleteEntry {
            secret_phrase: PHRASE.to_string(),
            entry_id: 0,
        }),
        None
    );
}

#[test]
fn try_execute_answers_as_execute_does() {
    let mut contract = DiaryContract::load(DiaryState::new());
    assert_eq!(
        contract.try_execute_operation(
            Operation::Initialize { secret_phrase_hash: hash_secret_phrase(PHRASE) },
            ALICE,
            1,
        ),
        Some(Ok(Effect::Initialized))
    );
    assert_eq!(
        contract.try_execute_operation(add_entry("A", "B"), ALICE, 2),
        Some(Ok(Effect::EntryAdded { id: 0 }))
    );
    assert_eq!(
        contract.try_execute_operation(add_entry("A", "B"), "mallory", 3),
        Some(Err(DiaryError::NotOwner))
    );
    assert_eq!(contract.state().get_entry_count(), 1);
}

#[test]
fn no_identifier_is_left_after_the_last() {
    let state = DiaryState::restore(
        hash_secret_phrase(PHRASE),
        ALICE.to_string(),
        u64::MAX,
        vec![DiaryEntry {
            id: u64::MAX - 1,
            title: "last".to_string(),
            content: "entry".to_string(),
            timestamp: 9,
        }],
    )
    .unwrap();
    let mut contract = DiaryContract::load(state);
    assert_eq!(contract.try_execute_operation(add_entry("A", "B"), ALICE, 10), None);
    assert_eq!(contract.state().get_entry_count(), 1);
    assert_eq!(contract.state().next_id(), u64::MAX);

    let wrong = Operation::AddEntry {
        secret_phrase: "not-the-phrase".to_string(),
        title: "X".to_string(),
        content: "Y".to_string(),
    };
    assert_eq!(contract.execute_operation(wrong, ALICE, 11), Err(DiaryError::InvalidSecret));
    assert_eq!(
        contract.try_execute_operation(add_entry("A", "B"), "mallory", 12),
        Some(Err(DiaryError::NotOwner))
    );
    assert_eq!(
        contract.try_execute_operation(
            Operation::DeleteEntry { secret_phrase: PHRASE.to_string(), entry_id: u64::MAX - 1 },
            ALICE,
            13,
        ),
        Some(Ok(Effect::EntryDeleted { id: u64::MAX - 1 }))
    );
    assert_eq!(contract.state().get_entry_count(), 0);
    assert_eq!(contract.state().next_id(), u64::MAX);
}

#[test]
fn commands_before_initialize_are_rejected() {
    let mut contract = DiaryContract::load(DiaryState::new());
    assert_eq!(
        contract.execute_operation(add_entry("A", "B"), ALICE, 5),
        Err(DiaryError::NotInitialized)
    );
    assert_eq!(
        contract.execute_operation(
            Operation::UpdateEntry {
                secret_phrase: PHRASE.to_string(),
                entry_id: 0,
                title: Some("T".to_string()),
                content: None,
            },
            ALICE,
            5,
        ),
        Err(DiaryError::NotInitialized)
    );
    assert_eq!(
        contract.execute_operation(
            Operation::DeleteEntry { secret_phrase: PHRASE.to_string(), entry_id: 0 },
            ALICE,
            5,
        ),
        Err(DiaryError::NotInitialized)
    );
    assert_eq!(contract.state().get_entry_count(), 0);
}

#[test]
fn add_entry_stores_entry_under_returned_id() {
    let mut contract = journal();
    let before = contract.state().get_entry_count();
    let outcome = contract.execute_operation(add_entry("A", "B"), ALICE, 77);
    assert_eq!(outcome, Ok(Effect::EntryAdded { id: 0 }));
    assert_eq!(contract.state().get_entry_count(), before + 1);
    assert_eq!(contract.state().next_id(), 1);
    let entry = contract.state().get_entry(0).unwrap();
    assert_eq!(
        entry,
        DiaryEntry { id: 0, title: "A".to_string(), content: "B".to_string(), timestamp: 77 }
    );
    assert!(entry.timestamp >= 77);
    let second = contract.execute_operation(add_entry("C", "D"), ALICE, 78);
    assert_eq!(second, Ok(Effect::EntryAdded { id: 1 }));
    assert_eq!(contract.state().get_entry_count(), 2);
}

#[test]
fn wrong_secret_changes_nothing() {
    let mut contract = journal();
    contract.execute_operation(add_entry("A", "B"), ALICE, 5).unwrap();
    let before = contract.state().get_entry_count();
    let outcome = contract.execute_operation(
        Operation::AddEntry {
            secret_phrase: "not-the-phrase".to_string(),
            title: "X".to_string(),
            content: "Y".to_string(),
        },
        ALICE,
        6,
    );
    assert_eq!(outcome, Err(DiaryError::InvalidSecret));
    assert_eq!(contract.state().get_entry_count(), before);
    assert_eq!(contract.state().next_id(), 1);
    assert_eq!(titles(&contract.state().get_all_entries()), vec![("A".to_string(), "B".to_string())]);
}

#[test]
fn secret_is_checked_before_owner() {
    let mut contract = journal();
    let outcome = contract.execute_operation(
        Operation::AddEntry {
            secret_phrase: "not-the-phrase".to_string(),
            title: "X".to_string(),
            content: "Y".to_string(),
        },
        "mallory",
        6,
    );
    assert_eq!(outcome, Err(DiaryError::InvalidSecret));
}

#[test]
fn stranger_with_the_secret_is_not_the_owner() {
    let mut contract = journal();
    contract.execute_operation(add_entry("A", "B"), ALICE, 5).unwrap();
    assert_eq!(
        contract.execute_operation(add_entry("X", "Y"), "mallory", 6),
        Err(DiaryError::NotOwner)
    );
    assert_eq!(
        contract.execute_operation(
            Operation::UpdateEntry {
                secret_phrase: PHRASE.to_string(),
                entry_id: 0,
                title: Some("X".to_string()),
                content: None,
            },
            "mallory",
            6,
        ),
        Err(DiaryError::NotOwner)
    );
    assert_eq!(
        contract.execute_operation(
            Operation::DeleteEntry { secret_phrase: PHRASE.to_string(), entry_id: 0 },
            "mallory",
            6,
        ),
        Err(DiaryError::NotOwner)
    );
    assert_eq!(
        contract.state().get_entry(0),
        Some(DiaryEntry { id: 0, title: "A".to_string(), content: "B".to_string(), timestamp: 5 })
    );
}

#[test]
fn authorize_reports_first_failing_check() {
    let fresh = DiaryContract::load(DiaryState::new());
    assert_eq!(fresh.authorize(PHRASE, ALICE), Err(DiaryError::NotInitialized));
    let contract = journal();
    assert_eq!(contract.authorize("nope", ALICE), Err(DiaryError::InvalidSecret));
    assert_eq!(contract.authorize(PHRASE, "bob"), Err(DiaryError::NotOwner));
    assert_eq!(contract.authorize(PHRASE, ALICE), Ok(()));
}

#[test]
fn update_with_title_only_keeps_content_and_refreshes_timestamp() {
    let mut contract = journal();
    contract.execute_operation(add_entry("A", "B"), ALICE, 5).unwrap();
    let outcome = contract.execute_operation(
        Operation::UpdateEntry {
            secret_phrase: PHRASE.to_string(),
            entry_id: 0,
            title: Some("A2".to_string()),
            content: None,
        },
        ALICE,
        9,
    );
    assert_eq!(outcome, Ok(Effect::EntryUpdated { id: 0 }));
    assert_eq!(
        contract.state().get_entry(0),
        Some(DiaryEntry { id: 0, title: "A2".to_string(), content: "B".to_string(), timestamp: 9 })
    );
    assert_eq!(contract.state().get_entry_count(), 1);
    assert_eq!(contract.state().next_id(), 1);
}

#[test]
fn update_with_content_only_keeps_title() {
    let mut contract = journal();
    contract.execute_operation(add_entry("A", "B"), ALICE, 5).unwrap();
    contract
        .execute_operation(
            Operation::UpdateEntry {
                secret_phrase: PHRASE.to_string(),
                entry_id: 0,
                title: None,
                content: Some("B2".to_string()),
            },
            ALICE,
            9,
        )
        .unwrap();
    assert_eq!(
        contract.state().get_entry(0),
        Some(DiaryEntry { id: 0, title: "A".to_string(), content: "B2".to_string(), timestamp: 9 })
    );
}

#[test]
fn update_of_missing_entry_is_rejected() {
    let mut contract = journal();
    contract.execute_operation(add_entry("A", "B"), ALICE, 5).unwrap();
    let outcome = contract.execute_operation(
        Operation::UpdateEntry {
            secret_phrase: PHRASE.to_string(),
            entry_id: 7,
            title: Some("T".to_string()),
            content: None,
        },
        ALICE,
        9,
    );
    assert_eq!(outcome, Err(DiaryError::EntryNotFound));
    assert_eq!(contract.state().get_entry_count(), 1);
    assert_eq!(contract.state().get_entry(7), None);
}

#[test]
fn delete_removes_entry_and_never_reuses_its_id() {
    let mut contract = journal();
    contract.execute_operation(add_entry("A", "B"), ALICE, 5).unwrap();
    contract.execute_operation(add_entry("C", "D"), ALICE, 6).unwrap();
    let outcome = contract.execute_operation(
        Operation::DeleteEntry { secret_phrase: PHRASE.to_string(), entry_id: 1 },
        ALICE,
        7,
    );
    assert_eq!(outcome, Ok(Effect::EntryDeleted { id: 1 }));
    assert_eq!(contract.state().get_entry_count(), 1);
    assert_eq!(contract.state().next_id(), 2);
    assert_eq!(contract.state().get_entry(1), None);

    let added = contract.execute_operation(add_entry("E", "F"), ALICE, 8);
    assert_eq!(added, Ok(Effect::EntryAdded { id: 2 }));
    assert_eq!(contract.state().get_entry(1), None);

    let service = DiaryService::new(contract.state());
    assert!(service.entries().iter().all(|e| e.id != 1));
    assert!(service.latest_entries(10).unwrap().iter().all(|e| e.id != 1));
    assert!(service.entries_in_range(0, u64::MAX).unwrap().iter().all(|e| e.id != 1));
    assert!(service.search_by_title("").iter().all(|e| e.id != 1));
    assert!(service.search_by_content("").iter().all(|e| e.id != 1));
    assert_eq!(service.entry(1), None);
}

#[test]
fn delete_of_missing_entry_changes_nothing() {
    let mut contract = journal();
    contract.execute_operation(add_entry("A", "B"), ALICE, 5).unwrap();
    let outcome = contract.execute_operation(
        Operation::DeleteEntry { secret_phrase: PHRASE.to_string(), entry_id: 40 },
        ALICE,
        7,
    );
    assert_eq!(outcome, Ok(Effect::EntryDeleted { id: 40 }));
    assert_eq!(contract.state().get_entry_count(), 1);
    assert_eq!(contract.state().next_id(), 1);
}

#[test]
fn scenario_two_entries_listed_newest_first_and_found_by_title() {
    let mut contract = journal();
    contract.execute_operation(add_entry("A", "B"), ALICE, 100).unwrap();
    contract.execute_operation(add_entry("C", "D"), ALICE, 200).unwrap();
    let service = DiaryService::new(contract.state());
    assert_eq!(
        titles(&service.entries()),
        vec![("C".to_string(), "D".to_string()), ("A".to_string(), "B".to_string())]
    );
    let found = service.search_by_title("c");
    assert_eq!(titles(&found), vec![("C".to_string(), "D".to_string())]);
}

#[test]
fn store_and_load_keep_the_state() {
    let mut contract = journal();
    contract.execute_operation(add_entry("A", "B"), ALICE, 5).unwrap();
    let state = contract.store();
    let mut again = DiaryContract::load(state);
    assert_eq!(again.state().get_entry_count(), 1);
    assert_eq!(again.execute_operation(add_entry("C", "D"), ALICE, 6), Ok(Effect::EntryAdded { id: 1 }));
}
