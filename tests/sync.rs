use full_stack_demo::errors::{AppError, StorageError};
use full_stack_demo::query::TodoQuery;
use full_stack_demo::store::{TaskStore, Todo};
use full_stack_demo::sync::{AddDispatcher, DeleteAction, SubmissionState};
use full_stack_demo::todos::{Entry, Todos};

fn shown(entries: &[Entry]) -> Vec<String> {
    entries
        .iter()
        .map(|e| match e {
            Entry::Committed(t) => format!("{}:{}", t.id, t.title),
            Entry::Pending(s) => format!("pending:{}", s),
        })
        .collect()
}

#[test]
fn buy_milk_is_pending_then_committed() {
    let mut todos = Todos::new();
    let seq = todos.submit_add("Buy milk".to_string());
    assert_eq!(shown(&todos.entries()), vec!["pending:Buy milk"]);
    assert_eq!(todos.complete_add(seq), Ok(()));
    assert_eq!(shown(&todos.entries()), vec!["1:Buy milk"]);
}

#[test]
fn concurrent_adds_both_settle() {
    let mut todos = Todos::new();
    let a = todos.submit_add("A".to_string());
    let b = todos.submit_add("B".to_string());
    assert_ne!(a, b);
    assert_eq!(shown(&todos.entries()), vec!["pending:A", "pending:B"]);
    assert_eq!(todos.complete_add(b), Ok(()));
    assert_eq!(shown(&todos.entries()), vec!["1:B", "pending:A"]);
    assert_eq!(todos.complete_add(a), Ok(()));
    let list = todos.get_todos().unwrap();
    assert_eq!(list.len(), 2);
    assert_ne!(list[0].id, list[1].id);
    let mut names: Vec<String> = list.iter().map(|t| t.title.clone()).collect();
    names.sort();
    assert_eq!(names, vec!["A", "B"]);
    assert_eq!(todos.add_version(), 2);
}

#[test]
fn settling_twice_is_not_found() {
    let mut todos = Todos::new();
    let seq = todos.submit_add("once".to_string());
    assert_eq!(todos.complete_add(seq), Ok(()));
    assert_eq!(todos.complete_add(seq), Err(AppError::NotFound));
    assert_eq!(todos.complete_add(99), Err(AppError::NotFound));
    assert_eq!(todos.add_version(), 1);
    assert_eq!(todos.get_todos().unwrap().len(), 1);
}

#[test]
fn listing_twice_gives_the_same_list() {
    let mut todos = Todos::new();
    todos.add_todo("x".to_string()).unwrap();
    todos.add_todo("y".to_string()).unwrap();
    let first = todos.get_todos().unwrap();
    let second = todos.get_todos().unwrap();
    assert_eq!(first, second);
    assert_eq!(first.len(), 2);
}

#[test]
fn list_follows_every_mutation() {
    let mut todos = Todos::new();
    assert!(todos.get_todos().unwrap().is_empty());
    todos.add_todo("x".to_string()).unwrap();
    assert_eq!(todos.get_todos().unwrap().len(), 1);
    assert_eq!(todos.delete_todo(1), Ok(()));
    assert!(todos.get_todos().unwrap().is_empty());
    assert_eq!(todos.delete_version(), 1);
    assert_eq!(todos.delete_todo(1), Ok(()));
    assert_eq!(todos.delete_version(), 2);
}

#[test]
fn dispatcher_tracks_each_submission() {
    let mut adds = AddDispatcher::new();
    let a = adds.submit("a".to_string());
    let b = adds.submit("b".to_string());
    assert_eq!((a, b), (0, 1));
    assert_eq!(adds.next_seq(), 2);
    assert_eq!(adds.find_pending(b), Some(1));
    assert_eq!(adds.settle(a, Err(AppError::InternalServerError)), Err(AppError::InternalServerError));
    assert_eq!(adds.version(), 1);
    assert_eq!(adds.submissions()[0].state(), SubmissionState::Failed);
    assert_eq!(adds.submissions()[1].state(), SubmissionState::Pending);
    assert_eq!(adds.pending_titles(), vec!["b".to_string()]);
    assert_eq!(adds.find_pending(a), None);
}

#[test]
fn failed_add_leaves_the_overlay_on_refresh() {
    let mut adds = AddDispatcher::new();
    let mut query = TodoQuery::new();
    let a = adds.submit("a".to_string());
    let b = adds.submit("b".to_string());
    adds.settle(a, Err(AppError::InternalServerError)).unwrap_err();
    assert_eq!(adds.submissions().len(), 2);
    let key = (adds.version(), 0);
    let r = query.accept(&mut adds, key, Ok(Vec::new()));
    assert_eq!(r, Ok(Vec::new()));
    assert_eq!(adds.submissions().len(), 1);
    assert_eq!(adds.submissions()[0].seq(), b);
    assert_eq!(adds.submissions()[0].title(), "b");
    assert!(query.is_fresh(key));
    assert!(!query.is_fresh((9, 9)));
}

#[test]
fn failed_read_is_surfaced() {
    let mut adds = AddDispatcher::new();
    let mut query = TodoQuery::new();
    assert_eq!(query.cached(), None);
    let r = query.accept(&mut adds, (0, 0), Err(StorageError::Unavailable));
    assert_eq!(r, Err(AppError::InternalServerError));
    assert_eq!(query.cached(), Some(Err(AppError::InternalServerError)));
}

#[test]
fn query_remembers_its_read() {
    let mut adds = AddDispatcher::new();
    let mut query = TodoQuery::new();
    let listed = vec![Todo::new(3, "c".to_string())];
    query.accept(&mut adds, (1, 2), Ok(listed)).unwrap();
    assert_eq!(query.cached(), Some(Ok(vec![Todo::new(3, "c".to_string())])));
}

#[test]
fn runs_against_the_store() {
    let mut store = TaskStore::new();
    let mut adds = AddDispatcher::new();
    let mut deletes = DeleteAction::new();
    let s = adds.submit("t".to_string());
    assert_eq!(adds.run(&mut store, s), Ok(()));
    assert_eq!(adds.submissions()[0].state(), SubmissionState::Committed);
    assert_eq!(store.list().len(), 1);
    assert_eq!(deletes.run(&mut store, 1), Ok(()));
    assert_eq!(deletes.version(), 1);
    assert!(store.list().is_empty());
    deletes.settle();
    assert_eq!(deletes.version(), 2);
}
