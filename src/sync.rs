use vstd::prelude::*;
use crate::errors::AppError;
use crate::store::{TaskStore, can_insert, inserted};

verus! {

/// Where one mutation instance stands: `Pending` from the moment it is
/// issued, then `Committed` or `Failed`, both terminal.
#[derive(Debug, Clone, Copy, PartialEq, Eq, Structural)]
pub enum SubmissionState {
    Pending,
    Committed,
    Failed,
}

/// One add request, tracked by a local sequence number (its server id is
/// unknown until it commits).
pub struct Submission {
    seq: u64,
    title: String,
    state: SubmissionState,
}

pub ghost struct SubmissionView {
    pub seq: u64,
    pub title: Seq<char>,
    pub state: SubmissionState,
}

impl View for Submission {
    type V = SubmissionView;

    closed spec fn view(&self) -> SubmissionView {
        SubmissionView { seq: self.seq, title: self.title@, state: self.state }
    }
}

impl Submission {
    pub fn seq(&self) -> (r: u64)
        ensures
            r == self@.seq,
    {
        self.seq
    }

    pub fn title(&self) -> (r: &String)
        ensures
            r@ == self@.title,
    {
        &self.title
    }

    pub fn state(&self) -> (r: SubmissionState)
        ensures
            r == self@.state,
    {
        self.state
    }
}

pub open spec fn strings_view(v: Seq<String>) -> Seq<Seq<char>> {
    v.map_values(|s: String| s@)
}

pub open spec fn subs_view(v: Seq<Submission>) -> Seq<SubmissionView> {
    v.map_values(|s: Submission| s@)
}

/// Whether the submission at index `i` is the pending one numbered `seq`.
pub open spec fn pending_at(subs: Seq<SubmissionView>, seq: u64, i: int) -> bool {
    0 <= i < subs.len() && subs[i].seq == seq && subs[i].state == SubmissionState::Pending
}

/// Whether the submission numbered `seq` is pending.
pub open spec fn is_pending(subs: Seq<SubmissionView>, seq: u64) -> bool {
    exists|i: int| pending_at(subs, seq, i)
}

/// The titles of the pending submissions, in the order they were issued.
pub open spec fn pending_titles(subs: Seq<SubmissionView>) -> Seq<Seq<char>>
    decreases subs.len(),
{
    if subs.len() == 0 {
        Seq::empty()
    } else {
        let rest = pending_titles(subs.drop_last());
        if subs.last().state == SubmissionState::Pending {
            rest.push(subs.last().title)
        } else {
            rest
        }
    }
}

/// The submissions that are still pending, in order.
pub open spec fn only_pending(subs: Seq<SubmissionView>) -> Seq<SubmissionView>
    decreases subs.len(),
{
    if subs.len() == 0 {
        Seq::empty()
    } else {
        let rest = only_pending(subs.drop_last());
        if subs.last().state == SubmissionState::Pending {
            rest.push(subs.last())
        } else {
            rest
        }
    }
}

/// The state in which a mutation with this outcome settles.
pub open spec fn settled_state(outcome: Result<(), AppError>) -> SubmissionState {
    if outcome is Ok {
        SubmissionState::Committed
    } else {
        SubmissionState::Failed
    }
}

pub ghost struct AddView {
    pub subs: Seq<SubmissionView>,
    pub next_seq: nat,
    pub version: nat,
}

/// The add stream: any number of instances may be pending at once; each
/// settlement advances the stream's version exactly once.
pub struct AddDispatcher {
    submissions: Vec<Submission>,
    next_seq: u64,
    version: u64,
}

impl View for AddDispatcher {
    type V = AddView;

    closed spec fn view(&self) -> AddView {
        AddView {
            subs: subs_view(self.submissions@),
            next_seq: self.next_seq as nat,
            version: self.version as nat,
        }
    }
}

/// Sequence numbers ascend (hence are unique) and are all below the next one.
pub open spec fn add_wf(a: AddView) -> bool {
    &&& a.next_seq <= u64::MAX
    &&& a.version <= u64::MAX
    &&& forall|i: int, j: int| 0 <= i < j < a.subs.len() ==> a.subs[i].seq < a.subs[j].seq
    &&& forall|i: int| 0 <= i < a.subs.len() ==> (#[trigger] a.subs[i]).seq < a.next_seq
}

/// The add stream after the pending submission at `i` settled with `outcome`.
pub open spec fn settled(a: AddView, i: int, outcome: Result<(), AppError>) -> AddView {
    AddView {
        subs: a.subs.update(i, SubmissionView { state: settled_state(outcome), ..a.subs[i] }),
        next_seq: a.next_seq,
        version: a.version + 1,
    }
}

impl AddDispatcher {
    pub open spec fn wf(&self) -> bool {
        add_wf(self@)
    }

    pub fn new() -> (r: AddDispatcher)
        ensures
            r.wf(),
            r@.subs == Seq::<SubmissionView>::empty(),
            r@.next_seq == 0,
            r@.version == 0,
    {
        let r = AddDispatcher { submissions: Vec::new(), next_seq: 0, version: 0 };
        assert(r@.subs =~= Seq::<SubmissionView>::empty());
        r
    }

    /// The stream's version: how many of its mutations have settled.
    pub fn version(&self) -> (r: u64)
        ensures
            r == self@.version,
    {
        self.version
    }

    /// The next sequence number to hand out.
    pub fn next_seq(&self) -> (r: u64)
        ensures
            r == self@.next_seq,
    {
        self.next_seq
    }

    /// The tracked submissions, in the order they were issued.
    pub fn submissions(&self) -> (r: &Vec<Submission>)
        ensures
            subs_view(r@) == self@.subs,
    {
        &self.submissions
    }

    /// The titles of the pending submissions, in the order they were issued.
    pub fn pending_titles(&self) -> (r: Vec<String>)
        ensures
            strings_view(r@) == pending_titles(self@.subs),
    {
        let mut r: Vec<String> = Vec::new();
        let mut i: usize = 0;
        while i < self.submissions.len()
            invariant
                i <= self.submissions.len(),
                strings_view(r@) == pending_titles(subs_view(self.submissions@.take(i as int))),
            decreases self.submissions.len() - i,
        {
            let ghost prefix = subs_view(self.submissions@.take(i as int));
            assert(subs_view(self.submissions@.take(i + 1)).drop_last() =~= prefix);
            if self.submissions[i].state == SubmissionState::Pending {
                r.push(self.submissions[i].title.clone());
                assert(strings_view(r@) =~= pending_titles(prefix).push(self.submissions@[i as int]@.title));
            }
            i = i + 1;
        }
        assert(self.submissions@.take(self.submissions.len() as int) =~= self.submissions@);
        r
    }

    /// Issues an add of `title`: it is pending at once, before the store is
    /// touched. Returns its sequence number.
    pub fn submit(&mut self, title: String) -> (r: u64)
        requires
            old(self).wf(),
            old(self)@.next_seq < u64::MAX,
        ensures
            final(self).wf(),
            r == old(self)@.next_seq,
            final(self)@ == (AddView {
                subs: old(self)@.subs.push(
                    SubmissionView { seq: r, title: title@, state: SubmissionState::Pending },
                ),
                next_seq: old(self)@.next_seq + 1,
                version: old(self)@.version,
            }),
    {
        let seq = self.next_seq;
        let ghost before = self@;
        self.submissions.push(Submission { seq, title, state: SubmissionState::Pending });
        self.next_seq = seq + 1;
        assert(self@.subs =~= before.subs.push(
            SubmissionView { seq: seq, title: title@, state: SubmissionState::Pending },
        ));
        seq
    }

    /// The index of the pending submission numbered `seq`, if there is one.
    pub fn find_pending(&self, seq: u64) -> (r: Option<usize>)
        requires
            self.wf(),
        ensures
            r matches Some(i) ==> pending_at(self@.subs, seq, i as int),
            r is None ==> !is_pending(self@.subs, seq),
    {
        let mut i: usize = 0;
        while i < self.submissions.len()
            invariant
                i <= self.submissions.len(),
                forall|k: int| 0 <= k < i ==> !pending_at(self@.subs, seq, k),
            decreases self.submissions.len() - i,
        {
            if self.submissions[i].seq == seq && self.submissions[i].state == SubmissionState::Pending {
                return Some(i);
            }
            i = i + 1;
        }
        None
    }

    /// Records the outcome of the pending submission numbered `seq` and
    /// advances the version; a number that is not pending is `NotFound`,
    /// and changes nothing.
    pub fn settle(&mut self, seq: u64, outcome: Result<(), AppError>) -> (r: Result<(), AppError>)
        requires
            old(self).wf(),
            old(self)@.version < u64::MAX,
        ensures
            final(self).wf(),
            is_pending(old(self)@.subs, seq) ==> r == outcome && exists|i: int|
                pending_at(old(self)@.subs, seq, i) && final(self)@ == settled(old(self)@, i, outcome),
            !is_pending(old(self)@.subs, seq) ==> r == Err::<(), AppError>(AppError::NotFound)
                && final(self)@ == old(self)@,
    {
        match self.find_pending(seq) {
            None => Err(AppError::NotFound),
            Some(i) => {
                let ghost before = self@;
                let state = match outcome {
                    Ok(()) => SubmissionState::Committed,
                    Err(_) => SubmissionState::Failed,
                };
                let title = self.submissions[i].title.clone();
                self.submissions.set(i, Submission { seq, title, state });
                self.version = self.version + 1;
                assert(self@.subs =~= settled(before, i as int, outcome).subs);
                outcome
            },
        }
    }

    /// Runs the pending add numbered `seq` against the store and settles it:
    /// `Committed` when the store took the task, `Failed` (an internal
    /// error) when it refused it.
    pub fn run(&mut self, store: &mut TaskStore, seq: u64) -> (r: Result<(), AppError>)
        requires
            old(self).wf(),
            old(store).wf(),
            old(self)@.version < u64::MAX,
        ensures
            final(self).wf(),
            final(store).wf(),
            is_pending(old(self)@.subs, seq) ==> exists|i: int| {
                &&& pending_at(old(self)@.subs, seq, i)
                &&& can_insert(old(store)@) ==> r is Ok
                    && final(store)@ == inserted(old(store)@, old(self)@.subs[i].title)
                &&& !can_insert(old(store)@) ==> r == Err::<(), AppError>(AppError::InternalServerError)
                    && final(store)@ == old(store)@
                &&& final(self)@ == settled(old(self)@, i, r)
            },
            !is_pending(old(self)@.subs, seq) ==> r == Err::<(), AppError>(AppError::NotFound)
                && final(self)@ == old(self)@ && final(store)@ == old(store)@,
    {
        match self.find_pending(seq) {
            None => Err(AppError::NotFound),
            Some(i) => {
                let title = self.submissions[i].title.clone();
                let outcome = crate::api::add_todo(store, title);
                self.settle(seq, outcome)
            },
        }
    }

    /// Drops every submission that has settled; pending ones stay, in order.
    pub(crate) fn prune(&mut self)
        requires
            old(self).wf(),
        ensures
            final(self).wf(),
            final(self)@ == (AddView { subs: only_pending(old(self)@.subs), ..old(self)@ }),
    {
        let ghost before = self@;
        let mut kept: Vec<Submission> = Vec::new();
        let mut i: usize = 0;
        while i < self.submissions.len()
            invariant
                i <= self.submissions.len(),
                self@ == before,
                add_wf(before),
                subs_view(kept@) == only_pending(subs_view(self.submissions@.take(i as int))),
                forall|k: int| 0 <= k < kept@.len() ==> exists|j: int|
                    0 <= j < i && (#[trigger] kept@[k])@ == before.subs[j],
                forall|k: int, l: int| 0 <= k < l < kept@.len() ==> kept@[k].seq < kept@[l].seq,
                kept@.len() > 0 ==> exists|j: int| 0 <= j < i && kept@.last()@ == before.subs[j],
            decreases self.submissions.len() - i,
        {
            let ghost prefix = subs_view(self.submissions@.take(i as int));
            assert(subs_view(self.submissions@.take(i + 1)).drop_last() =~= prefix);
            if self.submissions[i].state == SubmissionState::Pending {
                let s = Submission {
                    seq: self.submissions[i].seq,
                    title: self.submissions[i].title.clone(),
                    state: self.submissions[i].state,
                };
                let ghost old_kept = kept@;
                proof {
                    if old_kept.len() > 0 {
                        let j = choose|j: int| 0 <= j < i && old_kept.last()@ == before.subs[j];
                        assert(before.subs[j].seq < before.subs[i as int].seq);
                    }
                }
                kept.push(s);
                assert(subs_view(kept@) =~= only_pending(prefix).push(self.submissions@[i as int]@));
                assert forall|k: int| 0 <= k < kept@.len() implies exists|j: int|
                    0 <= j < i + 1 && (#[trigger] kept@[k])@ == before.subs[j] by {
                    if k < old_kept.len() {
                        assert(kept@[k] == old_kept[k]);
                    } else {
                        assert(kept@[k]@ == before.subs[i as int]);
                    }
                }
                assert forall|k: int, l: int| 0 <= k < l < kept@.len() implies kept@[k].seq < kept@[l].seq by {
                    if l == kept@.len() - 1 && k < old_kept.len() {
                        assert(kept@[k] == old_kept[k]);
                        let j = choose|j: int| 0 <= j < i && old_kept[k]@ == before.subs[j];
                        assert(before.subs[j].seq < before.subs[i as int].seq);
                    } else {
                        assert(kept@[k] == old_kept[k] && kept@[l] == old_kept[l]);
                    }
                }
                assert(kept@.last()@ == before.subs[i as int]);
            }
            i = i + 1;
        }
        assert(self.submissions@.take(self.submissions.len() as int) =~= self.submissions@);
        assert forall|k: int| 0 <= k < kept@.len() implies (#[trigger] kept@[k]).seq < before.next_seq by {
            let j = choose|j: int| 0 <= j < self.submissions.len() && kept@[k]@ == before.subs[j];
        }
        self.submissions = kept;
    }
}

/// The delete stream: each settled delete advances its version once.
pub struct DeleteAction {
    version: u64,
}

impl DeleteAction {
    pub fn new() -> (r: DeleteAction)
        ensures
            r.version() == 0,
    {
        DeleteAction { version: 0 }
    }

    pub closed spec fn version_spec(&self) -> u64 {
        self.version
    }

    /// The stream's version: how many deletes have settled.
    #[verifier::when_used_as_spec(version_spec)]
    pub fn version(&self) -> (r: u64)
        ensures
            r == self.version_spec(),
    {
        self.version
    }

    /// Deletes the task of id `id` (an absent id is no error) and advances
    /// the version.
    pub fn run(&mut self, store: &mut TaskStore, id: u16) -> (r: Result<(), AppError>)
        requires
            old(store).wf(),
            old(self).version() < u64::MAX,
        ensures
            r is Ok,
            final(store).wf(),
            final(store)@ == crate::store::deleted(old(store)@, id),
            final(self).version() == old(self).version() + 1,
    {
        let r = crate::api::delete_todo(store, id);
        self.settle();
        r
    }

    /// Records that a delete settled, whatever its outcome.
    pub fn settle(&mut self)
        requires
            old(self).version() < u64::MAX,
        ensures
            final(self).version() == old(self).version() + 1,
    {
        self.version = self.version + 1;
    }
}

/// Dropping the settled submissions keeps the pending titles as they were.
pub proof fn lemma_only_pending_titles(subs: Seq<SubmissionView>)
    ensures
        pending_titles(only_pending(subs)) == pending_titles(subs),
    decreases subs.len(),
{
    if subs.len() > 0 {
        lemma_only_pending_titles(subs.drop_last());
        let rest = only_pending(subs.drop_last());
        if subs.last().state == SubmissionState::Pending {
            assert(rest.push(subs.last()).drop_last() =~= rest);
        }
    }
}

} // verus!
