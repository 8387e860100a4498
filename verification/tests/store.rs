use todos::store::{Store, StoreError};
use todos::todo::Todo;

fn todo(id: u128, text: &str, completed: bool) -> Todo {
    Todo { id, text: text.to_string(), completed }
}

fn sorted(mut todos: Vec<Todo>) -> Vec<Todo> {
    todos.sort_by_key(|t| t.id);
    todos
}

#[test]
fn new_store_is_empty() {
    let store = Store::new();
    assert!(store.list().is_empty());
    assert_eq!(store.get(0), None);
    assert_eq!(store.get(u128::MAX), None);
}

#[test]
fn default_store_is_empty() {
    let store = Store::default();
    assert!(store.list().is_empty());
    assert_eq!(store.get(1), None);
}

#[test]
fn insert_makes_record_visible() {
    let mut store = Store::new();
    store.insert(todo(1, "buy milk", false));
    assert_eq!(store.get(1), Some(todo(1, "buy milk", false)));
    assert_eq!(store.get(2), None);
    assert_eq!(store.list(), vec![todo(1, "buy milk", false)]);
}

#[test]
fn insert_replaces_record_with_same_id() {
    let mut store = Store::new();
    store.insert(todo(1, "buy milk", false));
    store.insert(todo(1, "buy bread", true));
    assert_eq!(store.get(1), Some(todo(1, "buy bread", true)));
    assert_eq!(store.list().len(), 1);
}

#[test]
fn list_holds_every_record_once() {
    let mut store = Store::new();
    store.insert(todo(3, "c", false));
    store.insert(todo(1, "a", true));
    store.insert(todo(2, "b", false));
    store.insert(todo(u128::MAX, "", true));
    assert_eq!(
        sorted(store.list()),
        vec![
            todo(1, "a", true),
            todo(2, "b", false),
            todo(3, "c", false),
            todo(u128::MAX, "", true)
        ]
    );
}

#[test]
fn list_is_a_snapshot() {
    let mut store = Store::new();
    store.insert(todo(1, "a", false));
    let before = store.list();
    store.insert(todo(2, "b", false));
    assert!(store.remove(1));
    assert_eq!(before, vec![todo(1, "a", false)]);
    assert_eq!(store.list(), vec![todo(2, "b", false)]);
}

#[test]
fn get_returns_a_copy() {
    let mut store = Store::new();
    store.insert(todo(1, "a", false));
    let mut copy = store.get(1).unwrap();
    copy.text = "changed".to_string();
    copy.completed = true;
    assert_eq!(store.get(1), Some(todo(1, "a", false)));
}

#[test]
fn update_text_only_keeps_completed() {
    let mut store = Store::new();
    store.insert(todo(1, "buy milk", true));
    let updated = store.update(1, Some("buy bread".to_string()), None);
    assert_eq!(updated, Ok(todo(1, "buy bread", true)));
    assert_eq!(store.get(1), Some(todo(1, "buy bread", true)));
}

#[test]
fn update_completed_only_keeps_text() {
    let mut store = Store::new();
    store.insert(todo(1, "buy milk", false));
    let updated = store.update(1, None, Some(true));
    assert_eq!(updated, Ok(todo(1, "buy milk", true)));
    assert_eq!(store.get(1), Some(todo(1, "buy milk", true)));
}

#[test]
fn update_both_changes_both() {
    let mut store = Store::new();
    store.insert(todo(1, "buy milk", false));
    let updated = store.update(1, Some("buy bread".to_string()), Some(true));
    assert_eq!(updated, Ok(todo(1, "buy bread", true)));
    assert_eq!(store.get(1), Some(todo(1, "buy bread", true)));
}

#[test]
fn update_neither_returns_record_verbatim() {
    let mut store = Store::new();
    store.insert(todo(1, "buy milk", true));
    let updated = store.update(1, None, None);
    assert_eq!(updated, Ok(todo(1, "buy milk", true)));
    assert_eq!(store.list(), vec![todo(1, "buy milk", true)]);
}

#[test]
fn update_can_reset_completed_and_empty_the_text() {
    let mut store = Store::new();
    store.insert(todo(1, "buy milk", true));
    let updated = store.update(1, Some(String::new()), Some(false));
    assert_eq!(updated, Ok(todo(1, "", false)));
}

#[test]
fn store_update_of_unknown_id_is_not_found_and_changes_nothing() {
    let mut store = Store::new();
    store.insert(todo(1, "buy milk", false));
    let outcome = store.update(2, Some("x".to_string()), Some(true));
    assert_eq!(outcome, Err(StoreError::NotFound));
    assert_eq!(store.list(), vec![todo(1, "buy milk", false)]);
    assert_eq!(store.get(2), None);
}

#[test]
fn store_update_of_empty_store_is_not_found() {
    let mut store = Store::new();
    assert_eq!(store.update(0, None, None), Err(StoreError::NotFound));
    assert!(store.list().is_empty());
}

#[test]
fn update_leaves_other_records_alone() {
    let mut store = Store::new();
    store.insert(todo(1, "a", false));
    store.insert(todo(2, "b", false));
    assert_eq!(store.update(1, Some("z".to_string()), Some(true)), Ok(todo(1, "z", true)));
    assert_eq!(store.get(2), Some(todo(2, "b", false)));
    assert_eq!(store.list().len(), 2);
}

#[test]
fn remove_reports_whether_a_record_was_deleted() {
    let mut store = Store::new();
    store.insert(todo(1, "a", false));
    store.insert(todo(2, "b", false));
    assert!(store.remove(1));
    assert!(!store.remove(1));
    assert!(!store.remove(3));
    assert_eq!(store.get(1), None);
    assert_eq!(store.list(), vec![todo(2, "b", false)]);
}

#[test]
fn removed_id_can_be_inserted_again() {
    let mut store = Store::new();
    store.insert(todo(1, "a", true));
    assert!(store.remove(1));
    store.insert(todo(1, "b", false));
    assert_eq!(store.get(1), Some(todo(1, "b", false)));
}

#[test]
fn clone_of_a_record_is_equal() {
    let record = todo(9, "text", true);
    let copy = record.clone();
    assert_eq!(copy, record);
}
