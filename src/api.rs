use vstd::prelude::*;
use crate::errors::AppError;
use crate::store::{TaskStore, Todo, todos_view, can_insert, inserted, deleted};

verus! {

/// Every task, ordered by id ascending.
pub fn get_todos(store: &TaskStore) -> (r: Result<Vec<Todo>, AppError>)
    requires
        store.wf(),
    ensures
        r matches Ok(v) && todos_view(v@) == store@.tasks,
{
    Ok(store.list())
}

/// Adds a task titled `title`, not completed, under the next free id; once
/// the ids are exhausted the store refuses it as an internal error.
pub fn add_todo(store: &mut TaskStore, title: String) -> (r: Result<(), AppError>)
    requires
        old(store).wf(),
    ensures
        final(store).wf(),
        can_insert(old(store)@) ==> r is Ok && final(store)@ == inserted(old(store)@, title@),
        !can_insert(old(store)@) ==> r == Err::<(), AppError>(AppError::InternalServerError)
            && final(store)@ == old(store)@,
{
    match store.insert(title) {
        Ok(_) => Ok(()),
        Err(e) => Err(AppError::from_storage(e)),
    }
}

/// Deletes the task of id `id`; an absent id is no error.
pub fn delete_todo(store: &mut TaskStore, id: u16) -> (r: Result<(), AppError>)
    requires
        old(store).wf(),
    ensures
        final(store).wf(),
        r is Ok,
        final(store)@ == deleted(old(store)@, id),
{
    store.delete(id);
    Ok(())
}

/// A diagnostic operation that always fails as an internal error.
pub fn cause_internal_server_error() -> (r: Result<(), AppError>)
    ensures
        r == Err::<(), AppError>(AppError::InternalServerError),
{
    Err(AppError::InternalServerError)
}

/// A diagnostic operation that always fails as not implemented.
pub fn cause_not_implemented_error() -> (r: Result<(), AppError>)
    ensures
        r == Err::<(), AppError>(AppError::NotImplementedError),
{
    Err(AppError::NotImplementedError)
}

} // verus!
