use vstd::prelude::*;
use crate::errors::StorageError;

verus! {

/// One task record. Its id is assigned by the store and never changes.
#[derive(Debug, PartialEq, Eq)]
pub struct Todo {
    pub id: u16,
    pub title: String,
    pub completed: bool,
}

/// The mathematical value of a task.
pub ghost struct TodoView {
    pub id: u16,
    pub title: Seq<char>,
    pub completed: bool,
}

impl View for Todo {
    type V = TodoView;

    open spec fn view(&self) -> TodoView {
        TodoView { id: self.id, title: self.title@, completed: self.completed }
    }
}

impl Todo {
    /// A new task, not yet completed.
    pub fn new(id: u16, title: String) -> (r: Todo)
        ensures
            r@ == (TodoView { id: id, title: title@, completed: false }),
    {
        Todo { id, title, completed: false }
    }

    /// An equal task that owns its own title.
    pub fn duplicate(&self) -> (r: Todo)
        ensures
            r@ == self@,
    {
        Todo { id: self.id, title: self.title.clone(), completed: self.completed }
    }
}

/// The views of a sequence of tasks.
pub open spec fn todos_view(v: Seq<Todo>) -> Seq<TodoView> {
    v.map_values(|t: Todo| t@)
}

/// The same tasks again, each cloned.
pub fn duplicate_all(v: &Vec<Todo>) -> (r: Vec<Todo>)
    ensures
        todos_view(r@) == todos_view(v@),
{
    let mut r: Vec<Todo> = Vec::new();
    let mut i: usize = 0;
    while i < v.len()
        invariant
            i <= v.len(),
            todos_view(r@) == todos_view(v@.take(i as int)),
        decreases v.len() - i,
    {
        r.push(v[i].duplicate());
        assert(todos_view(v@.take(i + 1)) =~= todos_view(v@.take(i as int)).push(v@[i as int]@));
        i = i + 1;
    }
    assert(v@.take(v.len() as int) =~= v@);
    r
}

/// Ids strictly ascending along the sequence (hence unique).
pub open spec fn ids_ascending(s: Seq<TodoView>) -> bool {
    forall|i: int, j: int| 0 <= i < j < s.len() ==> s[i].id < s[j].id
}

/// Whether some task of `s` has id `id`.
pub open spec fn has_id(s: Seq<TodoView>, id: u16) -> bool {
    exists|i: int| 0 <= i < s.len() && s[i].id == id
}

/// `s` without its tasks of id `id`, the others in their order.
pub open spec fn without_id(s: Seq<TodoView>, id: u16) -> Seq<TodoView>
    decreases s.len(),
{
    if s.len() == 0 {
        Seq::empty()
    } else {
        let rest = without_id(s.drop_last(), id);
        if s.last().id == id {
            rest
        } else {
            rest.push(s.last())
        }
    }
}

/// The value of the store: its tasks, ordered by id, and the next id that
/// it will assign.
pub ghost struct StoreView {
    pub tasks: Seq<TodoView>,
    pub next_id: nat,
}

/// The largest number of ids that the store can ever assign.
pub const ID_LIMIT: u32 = 65536;

/// A store is well formed when its ids ascend, are all below the next id to
/// assign, and no task has been completed.
pub open spec fn store_wf(m: StoreView) -> bool {
    &&& m.next_id <= ID_LIMIT
    &&& ids_ascending(m.tasks)
    &&& forall|i: int| 0 <= i < m.tasks.len() ==> (#[trigger] m.tasks[i]).id < m.next_id
    &&& forall|i: int| 0 <= i < m.tasks.len() ==> !(#[trigger] m.tasks[i]).completed
}

/// Whether the store still has an id to assign.
pub open spec fn can_insert(m: StoreView) -> bool {
    m.next_id < ID_LIMIT
}

/// The store after inserting `title` under the next id.
pub open spec fn inserted(m: StoreView, title: Seq<char>) -> StoreView {
    StoreView {
        tasks: m.tasks.push(TodoView { id: m.next_id as u16, title: title, completed: false }),
        next_id: m.next_id + 1,
    }
}

/// The store after deleting the tasks of id `id`.
pub open spec fn deleted(m: StoreView, id: u16) -> StoreView {
    StoreView { tasks: without_id(m.tasks, id), next_id: m.next_id }
}

/// The tasks, persisted in memory: a single table with a server-assigned
/// primary key.
pub struct TaskStore {
    tasks: Vec<Todo>,
    next_id: u32,
}

impl View for TaskStore {
    type V = StoreView;

    closed spec fn view(&self) -> StoreView {
        StoreView { tasks: todos_view(self.tasks@), next_id: self.next_id as nat }
    }
}

impl TaskStore {
    pub open spec fn wf(&self) -> bool {
        store_wf(self@)
    }

    /// An empty store whose first id is 1.
    pub fn new() -> (r: TaskStore)
        ensures
            r.wf(),
            r@.tasks == Seq::<TodoView>::empty(),
            r@.next_id == 1,
    {
        let r = TaskStore { tasks: Vec::new(), next_id: 1 };
        assert(r@.tasks =~= Seq::<TodoView>::empty());
        r
    }

    /// The next id that `insert` will assign, if any is left.
    pub fn next_id(&self) -> (r: u32)
        ensures
            r == self@.next_id,
    {
        self.next_id
    }

    /// Every task, ordered by id ascending.
    pub fn list(&self) -> (r: Vec<Todo>)
        requires
            self.wf(),
        ensures
            todos_view(r@) == self@.tasks,
            ids_ascending(self@.tasks),
    {
        duplicate_all(&self.tasks)
    }

    /// Inserts a task under the next id and returns that id; fails with a
    /// constraint violation, changing nothing, once every id is taken.
    pub fn insert(&mut self, title: String) -> (r: Result<u16, StorageError>)
        requires
            old(self).wf(),
        ensures
            final(self).wf(),
            can_insert(old(self)@) ==> r == Ok::<u16, StorageError>(old(self)@.next_id as u16)
                && final(self)@ == inserted(old(self)@, title@),
            !can_insert(old(self)@) ==> r == Err::<u16, StorageError>(StorageError::ConstraintViolation)
                && final(self)@ == old(self)@,
    {
        if self.next_id >= ID_LIMIT {
            return Err(StorageError::ConstraintViolation);
        }
        let id = self.next_id as u16;
        let ghost before = self@;
        self.tasks.push(Todo::new(id, title));
        self.next_id = self.next_id + 1;
        assert(self@.tasks =~= before.tasks.push(TodoView { id: id, title: title@, completed: false }));
        Ok(id)
    }

    /// Deletes the task of id `id`, if there is one; an absent id is no error.
    pub fn delete(&mut self, id: u16)
        requires
            old(self).wf(),
        ensures
            final(self).wf(),
            final(self)@ == deleted(old(self)@, id),
    {
        let mut kept: Vec<Todo> = Vec::new();
        let mut i: usize = 0;
        while i < self.tasks.len()
            invariant
                i <= self.tasks.len(),
                todos_view(kept@) == without_id(todos_view(self.tasks@.take(i as int)), id),
            decreases self.tasks.len() - i,
        {
            let ghost prefix = todos_view(self.tasks@.take(i as int));
            assert(todos_view(self.tasks@.take(i + 1)).drop_last() =~= prefix);
            if self.tasks[i].id != id {
                kept.push(self.tasks[i].duplicate());
                assert(todos_view(kept@) =~= without_id(prefix, id).push(self.tasks@[i as int]@));
            }
            i = i + 1;
        }
        assert(self.tasks@.take(self.tasks.len() as int) =~= self.tasks@);
        let ghost before = self@;
        proof {
            lemma_without_id_keeps_order(before.tasks, id, before.next_id);
        }
        self.tasks = kept;
    }
}

/// Every task of `without_id(s, id)` is a task of `s` other than `id`.
pub proof fn lemma_without_id_subset(s: Seq<TodoView>, id: u16)
    ensures
        forall|k: int| 0 <= k < without_id(s, id).len() ==> {
            &&& s.contains(#[trigger] without_id(s, id)[k])
            &&& without_id(s, id)[k].id != id
        },
    decreases s.len(),
{
    if s.len() > 0 {
        lemma_without_id_subset(s.drop_last(), id);
        let rest = without_id(s.drop_last(), id);
        assert forall|k: int| 0 <= k < rest.len() implies s.contains(#[trigger] rest[k]) by {
            let j = choose|j: int| 0 <= j < s.drop_last().len() && s.drop_last()[j] == rest[k];
            assert(s[j] == rest[k]);
        }
        assert(s[s.len() - 1] == s.last());
    }
}

/// Deleting keeps the store well formed.
proof fn lemma_without_id_keeps_order(s: Seq<TodoView>, id: u16, next_id: nat)
    requires
        store_wf(StoreView { tasks: s, next_id: next_id }),
    ensures
        store_wf(StoreView { tasks: without_id(s, id), next_id: next_id }),
    decreases s.len(),
{
    lemma_without_id_subset(s, id);
    if s.len() > 0 {
        let d = s.drop_last();
        assert(store_wf(StoreView { tasks: d, next_id: next_id }));
        lemma_without_id_keeps_order(d, id, next_id);
        lemma_without_id_subset(d, id);
        let rest = without_id(d, id);
        if s.last().id != id {
            let w = rest.push(s.last());
            assert forall|i: int, j: int| 0 <= i < j < w.len() implies w[i].id < w[j].id by {
                if j == w.len() - 1 {
                    assert(d.contains(rest[i]));
                    let k = choose|k: int| 0 <= k < d.len() && d[k] == rest[i];
                    assert(s[k] == d[k]);
                    assert(s[s.len() - 1] == s.last());
                } else {
                    assert(w[i] == rest[i] && w[j] == rest[j]);
                }
            }
            assert(s[s.len() - 1] == s.last());
            assert forall|i: int| 0 <= i < w.len() implies (#[trigger] w[i]).id < next_id && !w[i].completed by {
                if i < w.len() - 1 {
                    assert(w[i] == rest[i]);
                }
            }
        }
    }
}

/// The store after inserting each of `titles`, in order.
pub open spec fn inserted_all(m: StoreView, titles: Seq<Seq<char>>) -> StoreView
    decreases titles.len(),
{
    if titles.len() == 0 {
        m
    } else {
        inserted(inserted_all(m, titles.drop_last()), titles.last())
    }
}

/// Any sequence of adds, while ids remain, leaves exactly one new record per
/// add, in order after the old ones, each under an id that no record had
/// before, with all ids distinct.
pub proof fn lemma_add_sequence(m: StoreView, titles: Seq<Seq<char>>)
    requires
        store_wf(m),
        m.next_id + titles.len() <= ID_LIMIT,
    ensures
        store_wf(inserted_all(m, titles)),
        ids_ascending(inserted_all(m, titles).tasks),
        inserted_all(m, titles).tasks.len() == m.tasks.len() + titles.len(),
        inserted_all(m, titles).tasks.take(m.tasks.len() as int) == m.tasks,
        forall|k: int| 0 <= k < titles.len() ==> inserted_all(m, titles).tasks[m.tasks.len() + k]
            == (TodoView { id: (m.next_id + k) as u16, title: titles[k], completed: false }),
        forall|k: int| 0 <= k < titles.len() ==> !has_id(
            m.tasks,
            #[trigger] inserted_all(m, titles).tasks[m.tasks.len() + k].id,
        ),
    decreases titles.len(),
{
    let r = inserted_all(m, titles);
    if titles.len() == 0 {
        assert(m.tasks.take(m.tasks.len() as int) =~= m.tasks);
    } else {
        let d = titles.drop_last();
        lemma_add_sequence(m, d);
        let p = inserted_all(m, d);
        assert(r.tasks.take(m.tasks.len() as int) =~= p.tasks.take(m.tasks.len() as int));
        assert forall|k: int| 0 <= k < titles.len() implies r.tasks[m.tasks.len() + k]
            == (TodoView { id: (m.next_id + k) as u16, title: titles[k], completed: false }) by {
            if k < d.len() {
                assert(d[k] == titles[k]);
            }
        }
        assert forall|k: int| 0 <= k < titles.len() implies !has_id(
            m.tasks,
            #[trigger] r.tasks[m.tasks.len() + k].id,
        ) by {
            let id = r.tasks[m.tasks.len() + k].id;
            if k < d.len() {
                assert(d[k] == titles[k]);
            }
            assert(id == (m.next_id + k) as u16);
            assert forall|i: int| 0 <= i < m.tasks.len() implies m.tasks[i].id != id by {
                assert(m.tasks[i].id < m.next_id);
            }
        }
    }
}

/// A sequence without any task of id `id` has no task of that id.
proof fn lemma_without_id_absent(s: Seq<TodoView>, id: u16)
    ensures
        !has_id(without_id(s, id), id),
{
    lemma_without_id_subset(s, id);
}

/// Deleting an id that is not present succeeds and changes nothing.
pub proof fn lemma_delete_absent(m: StoreView, id: u16)
    requires
        !has_id(m.tasks, id),
    ensures
        deleted(m, id) == m,
    decreases m.tasks.len(),
{
    if m.tasks.len() == 0 {
        assert(without_id(m.tasks, id) =~= m.tasks);
    } else {
        let d = StoreView { tasks: m.tasks.drop_last(), next_id: m.next_id };
        assert(!has_id(d.tasks, id)) by {
            if has_id(d.tasks, id) {
                let i = choose|i: int| 0 <= i < d.tasks.len() && d.tasks[i].id == id;
                assert(m.tasks[i] == d.tasks[i]);
            }
        }
        lemma_delete_absent(d, id);
        assert(m.tasks[m.tasks.len() - 1] == m.tasks.last());
        assert(m.tasks.last().id != id);
        assert(m.tasks.drop_last().push(m.tasks.last()) =~= m.tasks);
    }
}

/// After an add and then a delete of the id that the add was given, no
/// record has that id, and the list is as it was before the add.
pub proof fn lemma_add_then_delete(m: StoreView, title: Seq<char>)
    requires
        store_wf(m),
        can_insert(m),
    ensures
        !has_id(deleted(inserted(m, title), m.next_id as u16).tasks, m.next_id as u16),
        deleted(inserted(m, title), m.next_id as u16).tasks == m.tasks,
{
    let id = m.next_id as u16;
    let s = inserted(m, title).tasks;
    lemma_without_id_absent(s, id);
    assert(s.drop_last() =~= m.tasks);
    assert(!has_id(m.tasks, id)) by {
        if has_id(m.tasks, id) {
            let i = choose|i: int| 0 <= i < m.tasks.len() && m.tasks[i].id == id;
            assert(m.tasks[i].id < m.next_id);
        }
    }
    lemma_delete_absent(m, id);
}

} // verus!
