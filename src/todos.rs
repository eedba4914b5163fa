use vstd::prelude::*;
use crate::errors::AppError;
use crate::store::{TaskStore, StoreView, Todo, TodoView, todos_view, can_insert, inserted, deleted};
use crate::sync::{
    AddDispatcher, AddView, DeleteAction, SubmissionState, SubmissionView, pending_at, is_pending,
    pending_titles, settled, only_pending, strings_view,
};
use crate::query::{TodoQuery, MemoView, read_spec, result_view};

verus! {

/// One line of the displayed list: a task that the store holds, or the
/// title of an add that has not settled yet.
pub enum Entry {
    Committed(Todo),
    Pending(String),
}

pub ghost enum EntryView {
    Committed(TodoView),
    Pending(Seq<char>),
}

impl View for Entry {
    type V = EntryView;

    open spec fn view(&self) -> EntryView {
        match self {
            Entry::Committed(t) => EntryView::Committed(t@),
            Entry::Pending(s) => EntryView::Pending(s@),
        }
    }
}

pub open spec fn entries_view(v: Seq<Entry>) -> Seq<EntryView> {
    v.map_values(|e: Entry| e@)
}

/// The displayed list: the committed tasks, then the pending titles in the
/// order they were issued.
pub open spec fn displayed(tasks: Seq<TodoView>, pending: Seq<Seq<char>>) -> Seq<EntryView> {
    committed_entries(tasks) + pending_entries(pending)
}

pub open spec fn committed_entries(tasks: Seq<TodoView>) -> Seq<EntryView> {
    tasks.map_values(|t: TodoView| EntryView::Committed(t))
}

pub open spec fn pending_entries(pending: Seq<Seq<char>>) -> Seq<EntryView> {
    pending.map_values(|s: Seq<char>| EntryView::Pending(s))
}

pub ghost struct TodosView {
    pub store: StoreView,
    pub adds: AddView,
    pub delete_version: u64,
    pub memo: Option<MemoView>,
}

/// The versions of the two mutation streams, each once.
pub open spec fn current_key(v: TodosView) -> (u64, u64) {
    (v.adds.version as u64, v.delete_version)
}

/// A remembered list is never ahead of the streams, and one read under the
/// current versions is what the store holds.
pub open spec fn todos_wf(v: TodosView) -> bool {
    &&& v.memo matches Some(m) ==> {
        &&& m.key.0 <= v.adds.version
        &&& m.key.1 <= v.delete_version
        &&& m.key == current_key(v) ==> m.result == Ok::<Seq<TodoView>, AppError>(v.store.tasks)
    }
}

/// The task list as a client holds it: the store it talks to, the add and
/// delete streams, and the memoized read of the list.
pub struct Todos {
    store: TaskStore,
    adds: AddDispatcher,
    deletes: DeleteAction,
    query: TodoQuery,
}

impl View for Todos {
    type V = TodosView;

    closed spec fn view(&self) -> TodosView {
        TodosView {
            store: self.store@,
            adds: self.adds@,
            delete_version: self.deletes.version(),
            memo: self.query@,
        }
    }
}

impl Todos {
    pub closed spec fn wf(&self) -> bool {
        &&& self.store.wf()
        &&& self.adds.wf()
        &&& todos_wf(self@)
    }

    /// An empty list with nothing pending and nothing read yet.
    pub fn new() -> (r: Todos)
        ensures
            r.wf(),
            r@.store.tasks == Seq::<TodoView>::empty(),
            r@.store.next_id == 1,
            r@.adds.subs.len() == 0,
            r@.adds.version == 0,
            r@.adds.next_seq == 0,
            r@.delete_version == 0,
            r@.memo is None,
    {
        Todos {
            store: TaskStore::new(),
            adds: AddDispatcher::new(),
            deletes: DeleteAction::new(),
            query: TodoQuery::new(),
        }
    }

    /// The version of the add stream.
    pub fn add_version(&self) -> (r: u64)
        ensures
            r == self@.adds.version,
    {
        self.adds.version()
    }

    /// The version of the delete stream.
    pub fn delete_version(&self) -> (r: u64)
        ensures
            r == self@.delete_version,
    {
        self.deletes.version()
    }

    /// The sequence number that the next add will get.
    pub fn next_seq(&self) -> (r: u64)
        ensures
            r == self@.adds.next_seq,
    {
        self.adds.next_seq()
    }

    /// Issues an add of `title`; it shows as pending at once.
    pub fn submit_add(&mut self, title: String) -> (r: u64)
        requires
            old(self).wf(),
            old(self)@.adds.next_seq < u64::MAX,
        ensures
            final(self).wf(),
            r == old(self)@.adds.next_seq,
            final(self)@ == (TodosView {
                adds: AddView {
                    subs: old(self)@.adds.subs.push(
                        SubmissionView { seq: r, title: title@, state: SubmissionState::Pending },
                    ),
                    next_seq: old(self)@.adds.next_seq + 1,
                    ..old(self)@.adds
                },
                ..old(self)@
            }),
    {
        self.adds.submit(title)
    }

    /// Runs the pending add numbered `seq` against the store and settles it.
    pub fn complete_add(&mut self, seq: u64) -> (r: Result<(), AppError>)
        requires
            old(self).wf(),
            old(self)@.adds.version < u64::MAX,
        ensures
            final(self).wf(),
            final(self)@.delete_version == old(self)@.delete_version,
            final(self)@.memo == old(self)@.memo,
            is_pending(old(self)@.adds.subs, seq) ==> exists|i: int| {
                &&& pending_at(old(self)@.adds.subs, seq, i)
                &&& can_insert(old(self)@.store) ==> r is Ok
                    && final(self)@.store == inserted(old(self)@.store, old(self)@.adds.subs[i].title)
                &&& !can_insert(old(self)@.store) ==> r == Err::<(), AppError>(AppError::InternalServerError)
                    && final(self)@.store == old(self)@.store
                &&& final(self)@.adds == settled(old(self)@.adds, i, r)
            },
            !is_pending(old(self)@.adds.subs, seq) ==> r == Err::<(), AppError>(AppError::NotFound)
                && final(self)@ == old(self)@,
    {
        self.adds.run(&mut self.store, seq)
    }

    /// Issues an add of `title` and runs it at once.
    pub fn add_todo(&mut self, title: String) -> (r: Result<(), AppError>)
        requires
            old(self).wf(),
            old(self)@.adds.next_seq < u64::MAX,
            old(self)@.adds.version < u64::MAX,
        ensures
            final(self).wf(),
            final(self)@.adds.version == old(self)@.adds.version + 1,
            final(self)@.delete_version == old(self)@.delete_version,
            can_insert(old(self)@.store) ==> r is Ok && final(self)@.store == inserted(old(self)@.store, title@),
            !can_insert(old(self)@.store) ==> r == Err::<(), AppError>(AppError::InternalServerError)
                && final(self)@.store == old(self)@.store,
            !is_pending(final(self)@.adds.subs, old(self)@.adds.next_seq as u64),
    {
        let ghost t = title@;
        let seq = self.submit_add(title);
        let ghost mid = self@;
        assert(pending_at(mid.adds.subs, seq, mid.adds.subs.len() - 1));
        let r = self.complete_add(seq);
        proof {
            let i = choose|i: int| {
                &&& pending_at(mid.adds.subs, seq, i)
                &&& can_insert(mid.store) ==> r is Ok
                    && self@.store == inserted(mid.store, mid.adds.subs[i].title)
                &&& !can_insert(mid.store) ==> r == Err::<(), AppError>(AppError::InternalServerError)
                    && self@.store == mid.store
                &&& self@.adds == settled(mid.adds, i, r)
            };
            assert(i == mid.adds.subs.len() - 1);
            assert forall|k: int| !pending_at(self@.adds.subs, seq, k) by {
                if 0 <= k < self@.adds.subs.len() && k != i {
                    assert(self@.adds.subs[k] == mid.adds.subs[k]);
                }
            }
        }
        r
    }

    /// Deletes the task of id `id` (an absent id is no error).
    pub fn delete_todo(&mut self, id: u16) -> (r: Result<(), AppError>)
        requires
            old(self).wf(),
            old(self)@.delete_version < u64::MAX,
        ensures
            final(self).wf(),
            r is Ok,
            final(self)@ == (TodosView {
                store: deleted(old(self)@.store, id),
                delete_version: (old(self)@.delete_version + 1) as u64,
                ..old(self)@
            }),
    {
        self.deletes.run(&mut self.store, id)
    }

    /// The committed list, read again only when a stream has moved since the
    /// last read; it is always what the store holds.
    pub fn get_todos(&mut self) -> (r: Result<Vec<Todo>, AppError>)
        requires
            old(self).wf(),
        ensures
            final(self).wf(),
            result_view(r) == Ok::<Seq<TodoView>, AppError>(old(self)@.store.tasks),
            (final(self)@.memo, result_view(r)) == read_spec(
                old(self)@.memo,
                current_key(old(self)@),
                old(self)@.store.tasks,
            ),
            final(self)@.store == old(self)@.store,
            final(self)@.delete_version == old(self)@.delete_version,
            final(self)@.adds.version == old(self)@.adds.version,
            final(self)@.adds.next_seq == old(self)@.adds.next_seq,
            final(self)@.adds.subs == old(self)@.adds.subs || final(self)@.adds.subs == only_pending(
                old(self)@.adds.subs,
            ),
            pending_titles(final(self)@.adds.subs) == pending_titles(old(self)@.adds.subs),
    {
        let key = (self.adds.version(), self.deletes.version());
        proof {
            crate::sync::lemma_only_pending_titles(self@.adds.subs);
        }
        if self.query.is_fresh(key) {
            match self.query.cached() {
                Some(r) => {
                    return r;
                },
                None => {},
            }
        }
        let listed = self.store.list();
        self.query.accept(&mut self.adds, key, Ok(listed))
    }

    /// The displayed list: the committed tasks, then every pending add.
    pub fn entries(&mut self) -> (r: Vec<Entry>)
        requires
            old(self).wf(),
        ensures
            final(self).wf(),
            entries_view(r@) == displayed(old(self)@.store.tasks, pending_titles(old(self)@.adds.subs)),
            final(self)@.store == old(self)@.store,
            final(self)@.delete_version == old(self)@.delete_version,
            final(self)@.adds.version == old(self)@.adds.version,
            final(self)@.adds.next_seq == old(self)@.adds.next_seq,
            final(self)@.adds.subs == old(self)@.adds.subs || final(self)@.adds.subs == only_pending(
                old(self)@.adds.subs,
            ),
            pending_titles(final(self)@.adds.subs) == pending_titles(old(self)@.adds.subs),
    {
        let mut r: Vec<Entry> = Vec::new();
        let listed = self.get_todos();
        let ghost tasks = self@.store.tasks;
        let committed = match listed {
            Ok(v) => v,
            Err(_) => Vec::new(),
        };
        let mut i: usize = 0;
        while i < committed.len()
            invariant
                i <= committed.len(),
                todos_view(committed@) == tasks,
                entries_view(r@) == committed_entries(tasks.take(i as int)),
            decreases committed.len() - i,
        {
            assert(tasks[i as int] == committed@[i as int]@);
            r.push(Entry::Committed(committed[i].duplicate()));
            assert(committed_entries(tasks.take(i + 1)) =~= committed_entries(tasks.take(i as int)).push(
                EntryView::Committed(tasks[i as int]),
            ));
            assert(entries_view(r@) =~= committed_entries(tasks.take(i + 1)));
            i = i + 1;
        }
        assert(tasks.take(committed.len() as int) =~= tasks);
        assert(entries_view(r@) =~= committed_entries(tasks) + pending_entries(Seq::<Seq<char>>::empty()));
        let pending = self.adds.pending_titles();
        let ghost titles = strings_view(pending@);
        assert(titles.take(0) =~= Seq::<Seq<char>>::empty());
        let mut j: usize = 0;
        while j < pending.len()
            invariant
                j <= pending.len(),
                titles == strings_view(pending@),
                entries_view(r@) == committed_entries(tasks) + pending_entries(titles.take(j as int)),
            decreases pending.len() - j,
        {
            assert(titles[j as int] == pending@[j as int]@);
            r.push(Entry::Pending(pending[j].clone()));
            assert(pending_entries(titles.take(j + 1)) =~= pending_entries(titles.take(j as int)).push(
                EntryView::Pending(titles[j as int]),
            ));
            assert((committed_entries(tasks) + pending_entries(titles.take(j as int))).push(
                EntryView::Pending(titles[j as int]),
            ) =~= committed_entries(tasks) + pending_entries(titles.take(j + 1)));
            assert(entries_view(r@) =~= committed_entries(tasks) + pending_entries(titles.take(j + 1)));
            j = j + 1;
        }
        assert(titles.take(pending.len() as int) =~= titles);
        assert(committed_entries(tasks) + pending_entries(titles) =~= entries_view(r@));
        r
    }
}

} // verus!
