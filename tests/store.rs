use full_stack_demo::api::{add_todo, delete_todo, get_todos};
use full_stack_demo::errors::{AppError, StorageError};
use full_stack_demo::store::{TaskStore, Todo};

fn titles(v: &[Todo]) -> Vec<String> {
    v.iter().map(|t| t.title.clone()).collect()
}

#[test]
fn adds_give_one_record_each_with_fresh_ids() {
    let mut store = TaskStore::new();
    for t in ["a", "b", "c"] {
        assert_eq!(add_todo(&mut store, t.to_string()), Ok(()));
    }
    let list = get_todos(&store).unwrap();
    assert_eq!(list.len(), 3);
    assert_eq!(list.iter().map(|t| t.id).collect::<Vec<_>>(), vec![1, 2, 3]);
    assert_eq!(titles(&list), vec!["a", "b", "c"]);
    assert!(list.iter().all(|t| !t.completed));
}

#[test]
fn ids_are_never_reused() {
    let mut store = TaskStore::new();
    add_todo(&mut store, "a".to_string()).unwrap();
    add_todo(&mut store, "b".to_string()).unwrap();
    delete_todo(&mut store, 2).unwrap();
    add_todo(&mut store, "c".to_string()).unwrap();
    let list = get_todos(&store).unwrap();
    assert_eq!(list.iter().map(|t| t.id).collect::<Vec<_>>(), vec![1, 3]);
}

#[test]
fn insert_returns_the_assigned_id() {
    let mut store = TaskStore::new();
    assert_eq!(store.insert("a".to_string()), Ok(1));
    assert_eq!(store.insert("b".to_string()), Ok(2));
    assert_eq!(store.next_id(), 3);
}

#[test]
fn delete_of_absent_id_changes_nothing() {
    let mut store = TaskStore::new();
    add_todo(&mut store, "a".to_string()).unwrap();
    add_todo(&mut store, "b".to_string()).unwrap();
    let before = get_todos(&store).unwrap();
    assert_eq!(delete_todo(&mut store, 42), Ok(()));
    assert_eq!(get_todos(&store).unwrap(), before);
}

#[test]
fn delete_on_empty_store_is_no_error() {
    let mut store = TaskStore::new();
    assert_eq!(delete_todo(&mut store, 0), Ok(()));
    assert!(get_todos(&store).unwrap().is_empty());
}

#[test]
fn add_then_delete_removes_the_record() {
    let mut store = TaskStore::new();
    add_todo(&mut store, "keep".to_string()).unwrap();
    let id = store.insert("X".to_string()).unwrap();
    assert_eq!(delete_todo(&mut store, id), Ok(()));
    let list = get_todos(&store).unwrap();
    assert!(list.iter().all(|t| t.id != id));
    assert_eq!(titles(&list), vec!["keep"]);
}

#[test]
fn exhausted_ids_are_refused() {
    let mut store = TaskStore::new();
    for _ in 1..65536u32 {
        store.insert(String::new()).unwrap();
    }
    assert_eq!(store.next_id(), 65536);
    assert_eq!(store.insert("late".to_string()), Err(StorageError::ConstraintViolation));
    assert_eq!(add_todo(&mut store, "late".to_string()), Err(AppError::InternalServerError));
    assert_eq!(get_todos(&store).unwrap().len(), 65535);
}

#[test]
fn duplicate_keeps_every_field() {
    let t = Todo::new(7, "seven".to_string());
    let c = t.duplicate();
    assert_eq!(c, t);
    assert_eq!(c.id, 7);
    assert_eq!(c.title, "seven");
    assert!(!c.completed);
}
