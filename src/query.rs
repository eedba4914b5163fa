use vstd::prelude::*;
use crate::errors::{AppError, StorageError};
use crate::store::{Todo, TodoView, todos_view, duplicate_all};
use crate::sync::{AddDispatcher, AddView, only_pending};

verus! {

/// A list of tasks, or the error that the read failed with.
pub open spec fn result_view(r: Result<Vec<Todo>, AppError>) -> Result<Seq<TodoView>, AppError> {
    match r {
        Ok(v) => Ok(todos_view(v@)),
        Err(e) => Err(e),
    }
}

/// What the store's answer to a read becomes for its caller: a failure is
/// surfaced as an internal error, never as an empty list.
pub open spec fn listed_view(r: Result<Vec<Todo>, StorageError>) -> Result<Seq<TodoView>, AppError> {
    match r {
        Ok(v) => Ok(todos_view(v@)),
        Err(_) => Err(AppError::InternalServerError),
    }
}

/// The remembered result, with the versions (add stream, delete stream)
/// under which it was read.
pub ghost struct MemoView {
    pub key: (u64, u64),
    pub result: Result<Seq<TodoView>, AppError>,
}

/// The memo and the result of a read under `key` when the store holds
/// `tasks`: the memo is reused when its key is `key`, else the store is read.
pub open spec fn read_spec(memo: Option<MemoView>, key: (u64, u64), tasks: Seq<TodoView>) -> (
    Option<MemoView>,
    Result<Seq<TodoView>, AppError>,
) {
    match memo {
        Some(m) if m.key == key => (memo, m.result),
        _ => (Some(MemoView { key: key, result: Ok(tasks) }), Ok(tasks)),
    }
}

struct Memo {
    key: (u64, u64),
    result: Result<Vec<Todo>, AppError>,
}

fn duplicate_result(r: &Result<Vec<Todo>, AppError>) -> (c: Result<Vec<Todo>, AppError>)
    ensures
        result_view(c) == result_view(*r),
{
    match r {
        Ok(v) => Ok(duplicate_all(v)),
        Err(e) => Err(*e),
    }
}

/// The task list as last read, keyed by the versions of every mutation
/// stream; it is read again only when one of them has moved.
pub struct TodoQuery {
    memo: Option<Memo>,
}

impl View for TodoQuery {
    type V = Option<MemoView>;

    closed spec fn view(&self) -> Option<MemoView> {
        match self.memo {
            Some(m) => Some(MemoView { key: m.key, result: result_view(m.result) }),
            None => None,
        }
    }
}

impl TodoQuery {
    /// A query that has not been read yet.
    pub fn new() -> (r: TodoQuery)
        ensures
            r@ is None,
    {
        TodoQuery { memo: None }
    }

    /// Whether the remembered result was read under `key`.
    pub fn is_fresh(&self, key: (u64, u64)) -> (r: bool)
        ensures
            r == (self@ matches Some(m) && m.key == key),
    {
        match &self.memo {
            Some(m) => m.key.0 == key.0 && m.key.1 == key.1,
            None => false,
        }
    }

    /// The remembered result, cloned, if any.
    pub fn cached(&self) -> (r: Option<Result<Vec<Todo>, AppError>>)
        ensures
            self@ is None ==> r is None,
            self@ matches Some(m) ==> r matches Some(c) && result_view(c) == m.result,
    {
        match &self.memo {
            Some(m) => Some(duplicate_result(&m.result)),
            None => None,
        }
    }

    /// Takes the store's answer to a read issued under `key`: remembers it
    /// under that key, drops the settled submissions of the add stream, and
    /// returns it, a failure classified.
    pub fn accept(
        &mut self,
        adds: &mut AddDispatcher,
        key: (u64, u64),
        listed: Result<Vec<Todo>, StorageError>,
    ) -> (r: Result<Vec<Todo>, AppError>)
        requires
            old(adds).wf(),
        ensures
            final(adds).wf(),
            final(adds)@ == (AddView { subs: only_pending(old(adds)@.subs), ..old(adds)@ }),
            result_view(r) == listed_view(listed),
            final(self)@ == Some(MemoView { key: key, result: listed_view(listed) }),
    {
        let result = match listed {
            Ok(v) => Ok(v),
            Err(e) => Err(AppError::from_storage(e)),
        };
        adds.prune();
        let out = duplicate_result(&result);
        self.memo = Some(Memo { key, result });
        out
    }
}

/// Two reads under the same versions of a store that did not change give
/// the same result, and the second leaves the memo as the first left it.
pub proof fn lemma_read_twice(memo: Option<MemoView>, key: (u64, u64), tasks: Seq<TodoView>)
    ensures
        read_spec(read_spec(memo, key, tasks).0, key, tasks) == read_spec(memo, key, tasks),
{
}

} // verus!
