//! What the lock of a scope protects.
//!
//! Every function here is one critical section: it runs with the lock held,
//! reads and changes the state at once, and hands back what is left to do when
//! the lock is released, such as the waker to wake or the handles to abort.

use crate::slots::{
    is_slot_key, lemma_key_parts, next_version, slot_index, slot_version, slots, versions,
    CancelList, MAX_SLOTS,
};
use crate::word::{
    count, flag, lemma_add_task, lemma_clear_parked, lemma_clear_waker, lemma_masked,
    lemma_set_closed, lemma_set_parked, lemma_set_waker, lemma_sub_task, lemma_zero, CLOSED, PARKED,
    SHARED, SHARED_MASK, WAKER,
};
use vstd::prelude::*;

verus! {

/// The state under the lock, as the contracts speak of it.
#[verifier::ext_equal]
pub struct LockView<W> {
    /// The live tasks by key, each with its abort handle once that is known.
    pub tasks: Map<u64, Option<u64>>,
    /// The version of each slot that a task has had, by the index of the slot.
    pub versions: Map<u32, u32>,
    /// Who is to be woken when the last task ends.
    pub waker: Option<W>,
    /// Whether the scope owner sleeps until the last task ends.
    pub parked: bool,
    /// Whether the scope takes no new tasks.
    pub closed: bool,
}

impl<W> LockView<W> {
    /// A scope that nothing has happened to.
    pub open spec fn fresh() -> Self {
        LockView {
            tasks: Map::empty(),
            versions: Map::empty(),
            waker: None,
            parked: false,
            closed: false,
        }
    }

    /// There are finitely many tasks, and each has the slot that its key tells, in
    /// the version that its key tells.
    pub open spec fn valid(self) -> bool {
        &&& self.tasks.dom().finite()
        &&& forall|key: u64| #[trigger]
            self.tasks.contains_key(key) ==> {
                &&& is_slot_key(key)
                &&& self.versions.contains_key(slot_index(key))
                &&& self.versions[slot_index(key)] == slot_version(key)
            }
    }

    /// A task that is spawned now can get this key: no task has it, and it tells the
    /// next version of its slot, or the first if no task has had the slot.
    pub open spec fn offers(self, key: u64) -> bool {
        &&& is_slot_key(key)
        &&& !self.tasks.contains_key(key)
        &&& slot_version(key) == (if self.versions.contains_key(slot_index(key)) {
            self.versions[slot_index(key)] + 1
        } else {
            1
        })
    }

    /// No task is alive.
    pub open spec fn idle(self) -> bool {
        self.tasks.dom() =~= Set::empty()
    }

    /// One task more can be counted and finds a slot.
    pub open spec fn room(self) -> bool {
        self.tasks.len() < MAX_SLOTS && self.tasks.len() < usize::MAX / 8
    }

    /// The task `key` is the only one that is left.
    pub open spec fn ends_with(self, key: u64) -> bool {
        self.tasks.remove(key).dom() =~= Set::empty()
    }

    /// One task more, whose handle is not known yet.
    pub open spec fn with_task(self, key: u64) -> Self {
        LockView {
            tasks: self.tasks.insert(key, None),
            versions: self.versions.insert(slot_index(key), slot_version(key)),
            ..self
        }
    }

    /// The handle of a task that is still alive becomes known, unless the scope
    /// is closed.
    pub open spec fn with_handle(self, key: u64, handle: u64) -> Self {
        if self.tasks.contains_key(key) && !self.closed {
            LockView { tasks: self.tasks.insert(key, Some(handle)), ..self }
        } else {
            self
        }
    }

    /// One task less. Its slot moves on to the next version, and the waker leaves
    /// with the last task.
    pub open spec fn without_task(self, key: u64) -> Self {
        LockView {
            tasks: self.tasks.remove(key),
            versions: self.versions.insert(slot_index(key), next_version(slot_version(key))),
            waker: if self.ends_with(key) {
                None
            } else {
                self.waker
            },
            ..self
        }
    }

    /// What becomes of the handle of the task `key`.
    pub open spec fn handle_use(self, key: u64) -> HandleUse {
        if !self.tasks.contains_key(key) {
            HandleUse::Ended
        } else if self.closed {
            HandleUse::Abort
        } else {
            HandleUse::Kept
        }
    }

    /// The scope takes no new tasks, and every known handle has been taken out.
    pub open spec fn shut(self) -> Self {
        LockView { tasks: unhandled(self.tasks), closed: true, ..self }
    }
}

/// The same tasks with no handle known.
pub open spec fn unhandled(tasks: Map<u64, Option<u64>>) -> Map<u64, Option<u64>> {
    Map::new(|key: u64| tasks.contains_key(key), |key: u64| None)
}

/// The handles that are known of the tasks `keys`, in that order.
pub open spec fn known_handles(keys: Seq<u64>, tasks: Map<u64, Option<u64>>) -> Seq<u64>
    decreases keys.len(),
{
    if keys.len() == 0 {
        Seq::empty()
    } else {
        let before = known_handles(keys.drop_last(), tasks);
        match tasks[keys.last()] {
            Some(handle) => before.push(handle),
            None => before,
        }
    }
}

/// `keys` lists every task once.
pub open spec fn lists(keys: Seq<u64>, tasks: Map<u64, Option<u64>>) -> bool {
    keys.no_duplicates() && keys.to_set() == tasks.dom()
}

/// What is left to do after a task has ended.
pub struct TaskEnd<W> {
    /// The parked scope owner is to be notified.
    pub notify: bool,
    /// The waker to wake, if any.
    pub waker: Option<W>,
}

/// What becomes of the abort handle of a task that has been started.
#[derive(Clone, Copy, Debug, PartialEq, Eq)]
pub enum HandleUse {
    /// It is kept until the task ends or the scope is dropped.
    Kept,
    /// The task is to be aborted, because the scope has been closed.
    Abort,
    /// Nothing: the task has ended already.
    Ended,
}

/// The state under the lock of a scope.
pub struct LockState<W> {
    /// The count of live tasks and the three flags.
    tasks: usize,
    /// Set when the `WAKER` bit of `tasks` is set.
    waker: Option<W>,
    /// The list of currently active tasks.
    cancel_list: CancelList,
}

impl<W> View for LockState<W> {
    type V = LockView<W>;

    closed spec fn view(&self) -> LockView<W> {
        LockView {
            tasks: slots(self.cancel_list),
            versions: versions(self.cancel_list),
            waker: self.waker,
            parked: flag(self.tasks, PARKED),
            closed: flag(self.tasks, CLOSED),
        }
    }
}

impl<W> LockState<W> {
    /// The packed word counts the tasks of the list, and its waker bit says
    /// whether the waker is set.
    pub closed spec fn word_ok(&self) -> bool {
        &&& count(self.tasks) == slots(self.cancel_list).len()
        &&& flag(self.tasks, WAKER) == (self.waker is Some)
    }

    /// The word agrees with the list, and the view is valid.
    pub open spec fn wf(&self) -> bool {
        self.word_ok() && self@.valid()
    }

    /// A scope without tasks.
    pub fn new() -> (state: Self)
        ensures
            state.wf(),
            state@ == LockView::<W>::fresh(),
    {
        proof {
            lemma_zero();
        }
        LockState { tasks: 0, waker: None, cancel_list: CancelList::new() }
    }

    /// Drops the waker if it is set.
    pub fn drop_waker(&mut self)
        requires
            old(self).wf(),
        ensures
            final(self).wf(),
            final(self)@ == (LockView { waker: None, ..old(self)@ }),
    {
        if self.tasks & WAKER == WAKER {
            proof {
                lemma_clear_waker(self.tasks);
            }
            self.tasks = self.tasks & !WAKER;
            self.waker = None;
        }
    }

    /// Takes the waker if it is set.
    pub fn take_waker(&mut self) -> (waker: Option<W>)
        requires
            old(self).wf(),
        ensures
            final(self).wf(),
            final(self)@ == (LockView { waker: None, ..old(self)@ }),
            waker == old(self)@.waker,
    {
        if self.tasks & WAKER == WAKER {
            proof {
                lemma_clear_waker(self.tasks);
            }
            self.tasks = self.tasks & !WAKER;
            self.waker.take()
        } else {
            None
        }
    }

    /// Sets the waker to a clone of `waker`, in place of the one that was set.
    pub fn register_waker(&mut self, waker: &W) where W: Clone
        requires
            old(self).wf(),
        ensures
            final(self).wf(),
            final(self)@ == (LockView { waker: final(self)@.waker, ..old(self)@ }),
            final(self)@.waker matches Some(registered) && cloned(*waker, registered),
    {
        if self.tasks & WAKER != WAKER {
            proof {
                lemma_set_waker(self.tasks);
            }
            self.tasks = self.tasks | WAKER;
        }
        self.waker = Some(waker.clone());
    }

    /// The number of live tasks.
    pub fn num_tasks(&self) -> (n: usize)
        requires
            self.wf(),
        ensures
            n == self@.tasks.len(),
    {
        self.cancel_list.len()
    }

    /// Whether no task is alive, as the word counts them.
    pub fn is_idle(&self) -> (idle: bool)
        requires
            self.wf(),
        ensures
            idle == self@.idle(),
    {
        proof {
            lemma_masked(self.tasks);
            lemma_idle(self@);
        }
        self.tasks & SHARED_MASK == 0
    }

    /// Whether the scope takes no new tasks.
    pub fn is_closed(&self) -> (closed: bool)
        ensures
            closed == self@.closed,
    {
        self.tasks & CLOSED == CLOSED
    }

    /// Whether one task more can be counted and finds a slot.
    pub fn has_room(&self) -> (room: bool)
        requires
            self.wf(),
        ensures
            room == self@.room(),
    {
        self.tasks.checked_add(SHARED).is_some() && self.cancel_list.len() < MAX_SLOTS
    }

    /// Counts one task more and makes an entry for it, whose handle is not known
    /// yet. The key of the entry is handed back.
    pub fn add_task(&mut self) -> (key: u64)
        requires
            old(self).wf(),
            !old(self)@.closed,
            old(self)@.room(),
        ensures
            final(self).wf(),
            old(self)@.offers(key),
            final(self)@ == old(self)@.with_task(key),
    {
        proof {
            lemma_add_task(self.tasks);
        }
        self.tasks = self.tasks + SHARED;
        let key: u64 = self.cancel_list.insert(None);
        proof {
            lemma_with_task_valid(old(self)@, key);
        }
        key
    }

    /// Whether the task with this key is alive.
    pub fn has_task(&self, key: u64) -> (alive: bool)
        requires
            is_slot_key(key),
        ensures
            alive == self@.tasks.contains_key(key),
    {
        self.cancel_list.contains_key(key)
    }

    /// Fills in the handle of a task that has been started, unless the scope has
    /// been closed or the task has ended since.
    pub fn set_handle(&mut self, key: u64, handle: u64) -> (used: HandleUse)
        requires
            old(self).wf(),
            is_slot_key(key),
        ensures
            final(self).wf(),
            final(self)@ == old(self)@.with_handle(key, handle),
            used == old(self)@.handle_use(key),
    {
        let closed = self.is_closed();
        match self.cancel_list.get_mut(key) {
            Some(slot) => {
                if closed {
                    HandleUse::Abort
                } else {
                    *slot = Some(handle);
                    HandleUse::Kept
                }
            },
            None => HandleUse::Ended,
        }
    }

    /// Takes a task that has ended off the list. The last one to end takes the
    /// waker with it and notifies a parked scope owner.
    pub fn end_task(&mut self, key: u64) -> (end: TaskEnd<W>)
        requires
            old(self).wf(),
            old(self)@.tasks.contains_key(key),
        ensures
            final(self).wf(),
            final(self)@ == old(self)@.without_task(key),
            end.notify == (old(self)@.ends_with(key) && old(self)@.parked),
            end.waker == (if old(self)@.ends_with(key) {
                old(self)@.waker
            } else {
                None
            }),
    {
        let _ = self.cancel_list.remove(key);
        proof {
            assert(count(self.tasks) >= 1);
            lemma_sub_task(self.tasks);
            lemma_without_task_valid(old(self)@, key);
        }
        self.tasks = self.tasks - SHARED;
        if self.is_idle() {
            let notify = self.tasks & PARKED == PARKED;
            let waker = self.take_waker();
            TaskEnd { notify, waker }
        } else {
            TaskEnd { notify: false, waker: None }
        }
    }

    /// Closes the scope and takes every known abort handle out of the list.
    pub fn close(&mut self) -> (handles: Vec<u64>)
        requires
            old(self).wf(),
        ensures
            final(self).wf(),
            final(self)@ == old(self)@.shut(),
            exists|keys: Seq<u64>| #[trigger]
                lists(keys, old(self)@.tasks) && handles@ == known_handles(
                    keys,
                    old(self)@.tasks,
                ),
    {
        proof {
            lemma_set_closed(self.tasks);
        }
        self.tasks = self.tasks | CLOSED;
        let keys: Vec<u64> = self.cancel_list.keys();
        let mut handles: Vec<u64> = Vec::new();
        let ghost before = slots(self.cancel_list);
        let ghost word = self.tasks;
        let ghost waker = self.waker;
        for i in 0..keys.len()
            invariant
                lists(keys@, before),
                before == old(self)@.tasks,
                forall|key: u64| #[trigger] before.contains_key(key) ==> is_slot_key(key),
                slots(self.cancel_list).dom() == before.dom(),
                versions(self.cancel_list) == old(self)@.versions,
                self.tasks == word,
                self.waker == waker,
                forall|j: int|
                    0 <= j < i ==> slots(self.cancel_list)[#[trigger] keys@[j]] == None::<u64>,
                forall|j: int|
                    i <= j < keys.len() ==> slots(self.cancel_list)[#[trigger] keys@[j]]
                        == before[keys@[j]],
                handles@ == known_handles(keys@.take(i as int), before),
        {
            let key = keys[i];
            assert(keys@.to_set().contains(key));
            assert(keys@.take(i as int + 1).drop_last() =~= keys@.take(i as int));
            if let Some(slot) = self.cancel_list.get_mut(key) {
                if let Some(handle) = slot.take() {
                    handles.push(handle);
                }
            }
            assert(slots(self.cancel_list).dom() =~= before.dom());
        }
        proof {
            assert(keys@.take(keys.len() as int) =~= keys@);
            assert forall|key: u64| before.contains_key(key) implies slots(self.cancel_list)[key]
                == None::<u64> by {
                assert(keys@.to_set().contains(key));
                assert(keys@.contains(key));
            }
            assert(slots(self.cancel_list) =~= unhandled(before));
        }
        handles
    }

    /// Marks the scope owner as parked.
    pub fn park(&mut self)
        requires
            old(self).wf(),
        ensures
            final(self).wf(),
            final(self)@ == (LockView { parked: true, ..old(self)@ }),
    {
        proof {
            lemma_set_parked(self.tasks);
        }
        self.tasks = self.tasks | PARKED;
    }

    /// Marks the scope owner as awake again.
    pub fn unpark(&mut self)
        requires
            old(self).wf(),
        ensures
            final(self).wf(),
            final(self)@ == (LockView { parked: false, ..old(self)@ }),
    {
        proof {
            lemma_clear_parked(self.tasks);
        }
        self.tasks = self.tasks & !PARKED;
    }

    /// Marks the scope as closed, when no task is left whose handle would have
    /// to be taken.
    pub fn mark_closed(&mut self)
        requires
            old(self).wf(),
        ensures
            final(self).wf(),
            final(self)@ == (LockView { closed: true, ..old(self)@ }),
    {
        proof {
            lemma_set_closed(self.tasks);
        }
        self.tasks = self.tasks | CLOSED;
    }
}

/// A task that gets a key that was offered keeps the tasks valid.
pub(crate) proof fn lemma_with_task_valid<W>(view: LockView<W>, key: u64)
    requires
        view.valid(),
        view.offers(key),
    ensures
        view.with_task(key).valid(),
{
    let after = view.with_task(key);
    assert forall|other: u64| #[trigger] after.tasks.contains_key(other) implies is_slot_key(other)
        && after.versions.contains_key(slot_index(other)) && after.versions[slot_index(other)]
        == slot_version(other) by {
        if other != key {
            assert(view.tasks.contains_key(other));
        }
    }
}

/// A task that ends keeps the other tasks valid.
pub(crate) proof fn lemma_without_task_valid<W>(view: LockView<W>, key: u64)
    requires
        view.valid(),
        view.tasks.contains_key(key),
    ensures
        view.without_task(key).valid(),
{
    let after = view.without_task(key);
    assert forall|other: u64| #[trigger] after.tasks.contains_key(other) implies is_slot_key(other)
        && after.versions.contains_key(slot_index(other)) && after.versions[slot_index(other)]
        == slot_version(other) by {
        assert(view.tasks.contains_key(other));
        lemma_key_parts(key, other);
    }
}

/// A list of tasks is empty exactly when it has no keys.
pub(crate) proof fn lemma_idle<W>(view: LockView<W>)
    requires
        view.tasks.dom().finite(),
    ensures
        view.idle() == (view.tasks.len() == 0),
{
    if view.tasks.len() == 0 {
        view.tasks.dom().lemma_len0_is_empty();
    }
}

} // verus!
