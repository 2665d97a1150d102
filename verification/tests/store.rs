use task_store::{Assignees, Task, TaskError, TaskStore};
use task_store::Field;

fn record(uuid: &str, id: i32, priority: &str, title: &str) -> Task {
    Task::from_parts(
        uuid.to_string(),
        id,
        priority.to_string(),
        title.to_string(),
        "about ".to_string() + title,
        "2024-05-01".to_string(),
        "Not Completed".to_string(),
        Assignees::Names(vec!["Ada".to_string(), "Bob".to_string()]),
    )
}

fn sample() -> TaskStore {
    TaskStore::from_tasks(vec![
        record("u-a", 1, "High", "first"),
        record("u-b", 2, "Low", "second"),
        record("u-c", 1, "high", "third"),
        record("u-d", 3, "HIGH", "fourth"),
        record("u-e", 1, "High", "fifth"),
    ])
}

fn uuids(tasks: &[Task]) -> Vec<String> {
    tasks.iter().map(|t| t.uuid().to_string()).collect()
}

fn add(store: &mut TaskStore, id: &str, priority: &str) -> Result<(), TaskError> {
    store.create(
        id.to_string(),
        priority.to_string(),
        "Write spec".to_string(),
        "draft".to_string(),
        "2024-05-01".to_string(),
        vec!["Ada".to_string()],
    )
}

#[test]
fn a_new_store_is_empty() {
    let store = TaskStore::new();
    assert_eq!(store.len(), 0);
    assert!(store.list().is_empty());
    assert!(store.has_distinct_uuids());
}

#[test]
fn list_returns_all_records_in_order() {
    let store = sample();
    assert_eq!(store.len(), 5);
    assert_eq!(uuids(store.list()), vec!["u-a", "u-b", "u-c", "u-d", "u-e"]);
    assert_eq!(uuids(&store.into_tasks()), vec!["u-a", "u-b", "u-c", "u-d", "u-e"]);
}

#[test]
fn insert_adds_at_the_end() {
    let mut store = sample();
    assert_eq!(store.insert(record("u-f", 9, "Low", "sixth")), Ok(()));
    assert_eq!(store.len(), 6);
    assert_eq!(store.list()[5], record("u-f", 9, "Low", "sixth"));
    assert_eq!(uuids(store.list()), vec!["u-a", "u-b", "u-c", "u-d", "u-e", "u-f"]);
}

#[test]
fn insert_refuses_a_uuid_that_is_taken() {
    let mut store = sample();
    assert_eq!(store.insert(record("u-c", 9, "Low", "again")), Err(TaskError::DuplicateUuid));
    assert_eq!(store.list(), sample().list());
}

#[test]
fn created_records_have_distinct_uuids() {
    let mut store = TaskStore::new();
    for _ in 0..200 {
        assert_eq!(add(&mut store, "1", "High"), Ok(()));
    }
    assert_eq!(store.len(), 200);
    assert!(store.has_distinct_uuids());
    let mut seen = uuids(store.list());
    seen.sort();
    seen.dedup();
    assert_eq!(seen.len(), 200);
}

#[test]
fn distinct_uuids_are_told_from_shared_ones() {
    assert!(sample().has_distinct_uuids());
    let shared = TaskStore::from_tasks(vec![
        record("u-a", 1, "High", "first"),
        record("u-b", 2, "Low", "second"),
        record("u-a", 3, "Low", "third"),
    ]);
    assert!(!shared.has_distinct_uuids());
}

#[test]
fn create_refuses_bad_input_and_changes_nothing() {
    let mut store = sample();
    assert_eq!(add(&mut store, "x", "High"), Err(TaskError::Validation(Field::Id)));
    assert_eq!(add(&mut store, "1", "Highest"), Err(TaskError::Validation(Field::Priority)));
    assert_eq!(
        store.create(
            "1".to_string(),
            "High".to_string(),
            "t".to_string(),
            "d".to_string(),
            "2024-02-30".to_string(),
            vec![],
        ),
        Err(TaskError::Validation(Field::DueDate))
    );
    assert_eq!(store.list(), sample().list());
}

#[test]
fn two_records_may_share_an_id() {
    let mut store = TaskStore::new();
    assert_eq!(add(&mut store, "7", "High"), Ok(()));
    assert_eq!(add(&mut store, "8", "Low"), Ok(()));
    assert_eq!(add(&mut store, "7", "Low"), Ok(()));
    let found = store.find_all_by_id(7);
    assert_eq!(found.len(), 2);
    assert_eq!(found[0], store.list()[0]);
    assert_eq!(found[1], store.list()[2]);
    assert_eq!(found[0].priority(), "High");
    assert_eq!(found[1].priority(), "Low");
}

#[test]
fn find_all_by_id_finds_none_one_or_many() {
    let store = sample();
    assert_eq!(uuids(&store.find_all_by_id(1)), vec!["u-a", "u-c", "u-e"]);
    assert_eq!(uuids(&store.find_all_by_id(2)), vec!["u-b"]);
    assert!(store.find_all_by_id(4).is_empty());
    assert_eq!(store.positions_by_id(1), vec![0, 2, 4]);
    assert_eq!(store.positions_by_id(3), vec![3]);
    assert_eq!(store.positions_by_id(-1), Vec::<usize>::new());
}

#[test]
fn candidates_are_the_uuids_in_scan_order() {
    let store = sample();
    assert_eq!(store.candidates(1), vec!["u-a", "u-c", "u-e"]);
    assert_eq!(store.candidates(2), vec!["u-b"]);
    assert_eq!(store.candidates(9), Vec::<String>::new());
}

#[test]
fn position_of_uuid_is_the_first() {
    let store = sample();
    assert_eq!(store.position_of_uuid("u-a"), Some(0));
    assert_eq!(store.position_of_uuid("u-e"), Some(4));
    assert_eq!(store.position_of_uuid("u-z"), None);
    assert_eq!(store.position_of_uuid("U-A"), None);
}

#[test]
fn one_match_needs_no_selection() {
    let store = sample();
    assert_eq!(store.resolve(2, ""), Ok(1));
    assert_eq!(store.resolve(2, "nonsense"), Ok(1));
    assert_eq!(store.resolve(3, "0"), Ok(3));
}

#[test]
fn no_match_is_not_found() {
    let store = sample();
    assert_eq!(store.resolve(9, "1"), Err(TaskError::NotFound));
    assert_eq!(TaskStore::new().resolve(1, "1"), Err(TaskError::NotFound));
}

#[test]
fn selection_picks_the_kth_candidate() {
    let store = sample();
    assert_eq!(store.resolve(1, "1"), Ok(0));
    assert_eq!(store.resolve(1, "2"), Ok(2));
    assert_eq!(store.resolve(1, "3"), Ok(4));
    assert_eq!(store.resolve(1, "+2"), Ok(2));
    assert_eq!(store.resolve(1, "02"), Ok(2));
}

#[test]
fn selection_out_of_range_is_an_error() {
    let store = sample();
    assert_eq!(store.resolve(1, "0"), Err(TaskError::Selection));
    assert_eq!(store.resolve(1, "4"), Err(TaskError::Selection));
    assert_eq!(store.resolve(1, "-1"), Err(TaskError::Selection));
    assert_eq!(store.resolve(1, "-0"), Err(TaskError::Selection));
    assert_eq!(store.resolve(1, "18446744073709551617"), Err(TaskError::Selection));
}

#[test]
fn selection_that_is_no_number_is_an_error() {
    let store = sample();
    assert_eq!(store.resolve(1, ""), Err(TaskError::Selection));
    assert_eq!(store.resolve(1, "two"), Err(TaskError::Selection));
    assert_eq!(store.resolve(1, "2 "), Err(TaskError::Selection));
    assert_eq!(store.resolve(1, "1.0"), Err(TaskError::Selection));
}

#[test]
fn a_refused_selection_changes_nothing() {
    let mut store = sample();
    assert_eq!(store.delete_by_id(1, "0"), Err(TaskError::Selection));
    assert_eq!(store.delete_by_id(1, "4"), Err(TaskError::Selection));
    assert_eq!(store.update(1, "0", "title", "x"), Err(TaskError::Selection));
    assert_eq!(store.update(1, "4", "title", "x"), Err(TaskError::Selection));
    assert_eq!(store.list(), sample().list());
}

#[test]
fn delete_removes_exactly_one() {
    let mut store = sample();
    assert_eq!(store.delete("u-c"), Ok(()));
    assert_eq!(store.len(), 4);
    let before = sample();
    assert_eq!(store.list()[0], before.list()[0]);
    assert_eq!(store.list()[1], before.list()[1]);
    assert_eq!(store.list()[2], before.list()[3]);
    assert_eq!(store.list()[3], before.list()[4]);
}

#[test]
fn delete_of_an_unknown_uuid_is_not_found() {
    let mut store = sample();
    assert_eq!(store.delete("u-z"), Err(TaskError::NotFound));
    assert_eq!(store.delete(""), Err(TaskError::NotFound));
    assert_eq!(store.list(), sample().list());
    assert_eq!(TaskStore::new().delete("u-a"), Err(TaskError::NotFound));
}

#[test]
fn delete_takes_the_first_of_a_shared_uuid() {
    let mut store = TaskStore::from_tasks(vec![
        record("u-a", 1, "High", "first"),
        record("u-b", 2, "Low", "second"),
        record("u-a", 3, "Low", "third"),
    ]);
    assert_eq!(store.delete("u-a"), Ok(()));
    assert_eq!(store.len(), 2);
    assert_eq!(store.list()[0].title(), "second");
    assert_eq!(store.list()[1].title(), "third");
}

#[test]
fn delete_by_id_removes_the_selected_record() {
    let mut store = sample();
    assert_eq!(store.delete_by_id(1, "2"), Ok(()));
    assert_eq!(uuids(store.list()), vec!["u-a", "u-b", "u-d", "u-e"]);
    assert_eq!(store.delete_by_id(2, ""), Ok(()));
    assert_eq!(uuids(store.list()), vec!["u-a", "u-d", "u-e"]);
    assert_eq!(store.delete_by_id(2, "1"), Err(TaskError::NotFound));
    assert_eq!(store.delete_by_id(1, "2"), Ok(()));
    assert_eq!(uuids(store.list()), vec!["u-a", "u-d"]);
    assert_eq!(store.delete_by_id(1, "anything"), Ok(()));
    assert_eq!(uuids(store.list()), vec!["u-d"]);
}

#[test]
fn update_changes_one_field_of_one_record() {
    let mut store = sample();
    assert_eq!(store.update(1, "3", "title", "renamed"), Ok(()));
    let before = sample();
    for i in 0..4 {
        assert_eq!(store.list()[i], before.list()[i]);
    }
    assert_eq!(store.list()[4].title(), "renamed");
    assert_eq!(store.list()[4].uuid(), "u-e");
    assert_eq!(store.list()[4].id(), 1);
    assert_eq!(store.list()[4].priority(), "High");
    assert_eq!(store.len(), 5);
}

#[test]
fn update_stores_the_value_as_supplied() {
    let mut store = sample();
    assert_eq!(store.update(2, "", "priority", "someday"), Ok(()));
    assert_eq!(store.update(2, "", "due_date", "soon"), Ok(()));
    assert_eq!(store.update(2, "", "status", "Completed?"), Ok(()));
    assert_eq!(store.update(2, "", "assignees", "Ada,Bob"), Ok(()));
    assert_eq!(store.update(2, "", "description", "d"), Ok(()));
    assert_eq!(store.update(2, "", "id", "-12"), Ok(()));
    let task = &store.list()[1];
    assert_eq!(task.id(), -12);
    assert_eq!(task.priority(), "someday");
    assert_eq!(task.due_date(), "soon");
    assert_eq!(task.status(), "Completed?");
    assert_eq!(task.description(), "d");
    assert_eq!(task.assignees(), &Assignees::Text("Ada,Bob".to_string()));
    assert_eq!(task.uuid(), "u-b");
}

#[test]
fn update_of_an_unknown_field_is_refused() {
    let mut store = sample();
    assert_eq!(store.update(2, "", "uuid", "u-x"), Err(TaskError::InvalidField));
    assert_eq!(store.update(2, "", "Title", "x"), Err(TaskError::InvalidField));
    assert_eq!(store.update(2, "", "", "x"), Err(TaskError::InvalidField));
    assert_eq!(store.list(), sample().list());
}

#[test]
fn update_of_an_unknown_id_is_not_found() {
    let mut store = sample();
    assert_eq!(store.update(9, "", "title", "x"), Err(TaskError::NotFound));
    assert_eq!(store.update(9, "", "nothing", "x"), Err(TaskError::NotFound));
    assert_eq!(store.list(), sample().list());
}

#[test]
fn update_of_the_id_needs_a_number() {
    let mut store = sample();
    assert_eq!(store.update(2, "", "id", "two"), Err(TaskError::Validation(Field::Id)));
    assert_eq!(store.list(), sample().list());
}

#[test]
fn complete_marks_the_first_match() {
    let mut store = sample();
    assert_eq!(store.complete(1), Ok(()));
    assert_eq!(store.list()[0].status(), "Completed");
    assert_eq!(store.list()[2].status(), "Not Completed");
    assert_eq!(store.list()[4].status(), "Not Completed");
    assert_eq!(store.list()[1], sample().list()[1]);
    assert_eq!(store.len(), 5);
}

#[test]
fn complete_twice_leaves_it_completed() {
    let mut store = sample();
    assert_eq!(store.complete(2), Ok(()));
    let once: Vec<Task> = store.list().clone();
    assert_eq!(store.complete(2), Ok(()));
    assert_eq!(store.list(), &once);
    assert!(store.list()[1].is_completed());
    assert_eq!(store.len(), 5);
}

#[test]
fn complete_of_an_unknown_id_is_not_found() {
    let mut store = sample();
    assert_eq!(store.complete(9), Err(TaskError::NotFound));
    assert_eq!(store.list(), sample().list());
}

#[test]
fn search_by_priority_is_exact() {
    let store = sample();
    let found = store.search("priority", "High").unwrap();
    assert_eq!(uuids(&found), vec!["u-a", "u-e"]);
    assert_eq!(uuids(&store.search("priority", "high").unwrap()), vec!["u-c"]);
    assert_eq!(uuids(&store.search("priority", "HIGH").unwrap()), vec!["u-d"]);
    assert!(store.search("priority", "Hig").unwrap().is_empty());
    assert!(store.search("priority", "High ").unwrap().is_empty());
}

#[test]
fn search_by_id_compares_numbers() {
    let store = sample();
    assert_eq!(uuids(&store.search("id", "1").unwrap()), vec!["u-a", "u-c", "u-e"]);
    assert_eq!(uuids(&store.search("id", "+01").unwrap()), vec!["u-a", "u-c", "u-e"]);
    assert_eq!(uuids(&store.search("id", "3").unwrap()), vec!["u-d"]);
    assert!(store.search("id", "4").unwrap().is_empty());
}

#[test]
fn search_by_id_needs_a_number() {
    let store = sample();
    assert_eq!(store.search("id", "one"), Err(TaskError::Validation(Field::Id)));
    assert_eq!(store.search("id", ""), Err(TaskError::Validation(Field::Id)));
    assert_eq!(TaskStore::new().search("id", "x"), Err(TaskError::Validation(Field::Id)));
}

#[test]
fn search_by_assignee_matches_a_listed_name() {
    let mut store = sample();
    assert_eq!(store.search("assignees", "Bob").unwrap().len(), 5);
    assert!(store.search("assignees", "bob").unwrap().is_empty());
    assert!(store.search("assignees", "Ada, Bob").unwrap().is_empty());
    assert_eq!(store.update(2, "", "assignees", "Bob"), Ok(()));
    assert_eq!(uuids(&store.search("assignees", "Bob").unwrap()), vec!["u-a", "u-c", "u-d", "u-e"]);
}

#[test]
fn search_by_the_other_fields_compares_text() {
    let store = sample();
    assert_eq!(uuids(&store.search("title", "third").unwrap()), vec!["u-c"]);
    assert_eq!(uuids(&store.search("description", "about second").unwrap()), vec!["u-b"]);
    assert_eq!(store.search("due_date", "2024-05-01").unwrap().len(), 5);
    assert!(store.search("due_date", "2024-5-1").unwrap().is_empty());
    assert_eq!(store.search("status", "Not Completed").unwrap().len(), 5);
    assert!(store.search("status", "Completed").unwrap().is_empty());
}

#[test]
fn search_by_an_unknown_field_finds_nothing() {
    let store = sample();
    assert_eq!(store.search("uuid", "u-a"), Ok(vec![]));
    assert_eq!(store.search("", ""), Ok(vec![]));
    assert_eq!(store.search("nothing", "one"), Ok(vec![]));
}

#[test]
fn create_complete_and_search() {
    let mut store = TaskStore::new();
    assert_eq!(add(&mut store, "1", "High"), Ok(()));
    assert_eq!(store.len(), 1);
    assert_eq!(store.list()[0].status(), "Not Completed");
    assert!(!store.list()[0].is_completed());
    assert_eq!(store.list()[0].title(), "Write spec");
    assert_eq!(store.list()[0].description(), "draft");
    assert_eq!(store.list()[0].due_date(), "2024-05-01");
    assert_eq!(store.list()[0].assignees(), &Assignees::Names(vec!["Ada".to_string()]));
    assert_eq!(store.complete(1), Ok(()));
    assert_eq!(store.list()[0].status(), "Completed");
    let found = store.search("status", "Completed").unwrap();
    assert_eq!(found.len(), 1);
    assert_eq!(found[0], store.list()[0]);
}
