//! Scopes: a state that is shared with tasks and handed back when they end.
//!
//! A scope is used by its owner, who spawns tasks, awaits the scope or drops
//! it, and by its tasks, which may spawn more tasks and end. Each function here
//! is what one of them does while it holds the lock of the scope. Running a
//! task, waking a waker and putting the thread to sleep are left to the caller,
//! who is told by the results what to do.

use crate::lock_state::{HandleUse, LockState, LockView, TaskEnd};
use crate::poll::Poll;
use crate::sync::{GuardPtr, ManuallyDropCell};
use vstd::prelude::*;

verus! {

/// What a scope shares with its tasks, as the contracts speak of it.
#[verifier::ext_equal]
pub struct SharedView<State, W, Rt> {
    /// What the lock protects.
    pub lock: LockView<W>,
    /// The state, until it is handed back or dropped.
    pub state: Option<State>,
    /// The runtime that tasks are spawned into.
    pub runtime: Rt,
}

impl<State, W, Rt> SharedView<State, W, Rt> {
    /// The state is there for as long as a task uses it or can be spawned, and
    /// nobody waits when no task is alive.
    pub open spec fn valid(self) -> bool {
        &&& self.lock.valid()
        &&& self.lock.idle() ==> self.lock.waker is None
        &&& self.state is None ==> self.lock.closed && self.lock.idle()
    }

    /// The same with `lock` under the lock.
    pub open spec fn with_lock(self, lock: LockView<W>) -> Self {
        SharedView { lock, ..self }
    }
}

/// What a scope shares with its tasks.
pub struct SharedState<State, W, Rt> {
    group: LockState<W>,
    /// Initialised if and only if the scope has not been removed.
    state: ManuallyDropCell<State>,
    /// The runtime to spawn tasks into.
    runtime: Rt,
}

impl<State, W, Rt> View for SharedState<State, W, Rt> {
    type V = SharedView<State, W, Rt>;

    closed spec fn view(&self) -> SharedView<State, W, Rt> {
        SharedView { lock: self.group@, state: self.state@, runtime: self.runtime }
    }
}

impl<State, W, Rt> SharedState<State, W, Rt> {
    /// The lock state is well-formed.
    pub closed spec fn group_wf(&self) -> bool {
        self.group.wf()
    }

    /// The lock state is well-formed, and the state is there while it is needed.
    pub open spec fn wf(&self) -> bool {
        self.group_wf() && self@.valid()
    }

    /// Shares `state` with no task yet.
    pub fn new(state: State, runtime: Rt) -> (shared: Self)
        ensures
            shared.wf(),
            shared@ == (SharedView {
                lock: LockView::<W>::fresh(),
                state: Some(state),
                runtime,
            }),
    {
        SharedState { group: LockState::new(), state: ManuallyDropCell::new(state), runtime }
    }

    /// The runtime to spawn tasks into.
    pub fn runtime(&self) -> (runtime: &Rt)
        ensures
            *runtime == self@.runtime,
    {
        &self.runtime
    }

    /// Whether the scope takes no new tasks.
    pub fn is_closed(&self) -> (closed: bool)
        ensures
            closed == self@.lock.closed,
    {
        self.group.is_closed()
    }

    /// Whether one task more can be counted.
    pub fn has_room(&self) -> (room: bool)
        requires
            self.wf(),
        ensures
            room == self@.lock.room(),
    {
        self.group.has_room()
    }

    /// Registers a task, before it is handed to the runtime. The guard goes with
    /// the task: its borrow is released when the task no longer uses the state,
    /// and it is given up when the task has ended.
    pub(crate) fn spawn(&mut self) -> (guard: ScopeGuard<State>)
        requires
            old(self).wf(),
            !old(self)@.lock.closed,
            old(self)@.lock.room(),
        ensures
            final(self).wf(),
            old(self)@.lock.offers(guard@.key),
            final(self)@ == old(self)@.with_lock(old(self)@.lock.with_task(guard@.key)),
            guard@.borrows,
    {
        let task_key: u64 = self.group.add_task();
        let (_, ptr_guard) = self.state.borrow();
        ScopeGuard { task_key, ptr_guard }
    }

    /// Whether the task with this key is alive.
    pub fn has_task(&self, task_key: u64) -> (alive: bool)
        requires
            crate::slots::is_slot_key(task_key),
        ensures
            alive == self@.lock.tasks.contains_key(task_key),
    {
        self.group.has_task(task_key)
    }

    /// Fills in the abort handle of a task that has been handed to the runtime,
    /// unless the task has ended already. If the scope has been closed in the
    /// meantime, the task is to be aborted instead.
    pub fn set_abort_handle(&mut self, task_key: u64, handle: u64) -> (used: HandleUse)
        requires
            old(self).wf(),
            crate::slots::is_slot_key(task_key),
        ensures
            final(self).wf(),
            final(self)@ == old(self)@.with_lock(old(self)@.lock.with_handle(task_key, handle)),
            used == old(self)@.lock.handle_use(task_key),
    {
        let ghost before = self@.lock;
        let used = self.group.set_handle(task_key, handle);
        assert(before.with_handle(task_key, handle).tasks.dom() =~= before.tasks.dom());
        used
    }
}

/// What the guard of a task says, as the contracts speak of it.
pub struct GuardView {
    /// The key of the task.
    pub key: u64,
    /// The task may still use the state.
    pub borrows: bool,
}

/// Stands for one task of a scope, and for its borrow of the state. It is made
/// when the task is spawned and given up when the task has ended.
pub struct ScopeGuard<State> {
    task_key: u64,
    ptr_guard: GuardPtr<State>,
}

impl<State> View for ScopeGuard<State> {
    type V = GuardView;

    closed spec fn view(&self) -> GuardView {
        GuardView { key: self.task_key, borrows: self.ptr_guard@ }
    }
}

impl<State> ScopeGuard<State> {
    /// The key of the task.
    pub fn task_key(&self) -> (key: u64)
        ensures
            key == self@.key,
    {
        self.task_key
    }

    /// Whether the task may still use the state.
    pub fn borrows(&self) -> (borrows: bool)
        ensures
            borrows == self@.borrows,
    {
        self.ptr_guard.is_held()
    }

    /// Ends the task's borrow of the state. To be called when the future of the
    /// task has been dropped.
    pub fn release(&mut self)
        ensures
            final(self)@ == (GuardView { borrows: false, ..old(self)@ }),
    {
        self.ptr_guard.release();
    }

    /// Takes the task, which has ended and no longer uses the state, off the
    /// scope that it was spawned in. The last task to end takes the waker with it
    /// and notifies a parked owner.
    pub fn drop<W, Rt>(self, shared: &mut SharedState<State, W, Rt>) -> (end: TaskEnd<W>)
        requires
            old(shared).wf(),
            old(shared)@.lock.tasks.contains_key(self@.key),
            !self@.borrows,
        ensures
            final(shared).wf(),
            final(shared)@ == old(shared)@.with_lock(old(shared)@.lock.without_task(self@.key)),
            end.notify == (old(shared)@.lock.ends_with(self@.key) && old(shared)@.lock.parked),
            end.waker == (if old(shared)@.lock.ends_with(self@.key) {
                old(shared)@.lock.waker
            } else {
                None
            }),
    {
        shared.group.end_task(self.task_key)
    }
}

/// What a task sees of its scope: what the scope shares, and whether the owner
/// has begun to await or to drop the scope.
pub struct ScopeState<'a, State, W, Rt>(pub &'a mut SharedState<State, W, Rt>, pub bool);

impl<'a, State, W, Rt> ScopeState<'a, State, W, Rt> {
    /// Registers a task from within a task. The guard goes with the new task: its
    /// borrow is released when the task no longer uses the state, and it is given
    /// up when the task has ended.
    ///
    /// Not to be called once the scope is awaited or dropped.
    pub fn spawn(self) -> (guard: ScopeGuard<State>)
        requires
            old(self.0).wf(),
            !self.1,
            !old(self.0)@.lock.closed,
            old(self.0)@.lock.room(),
        ensures
            final(self.0).wf(),
            old(self.0)@.lock.offers(guard@.key),
            final(self.0)@ == old(self.0)@.with_lock(old(self.0)@.lock.with_task(guard@.key)),
            guard@.borrows,
    {
        self.0.spawn()
    }

    /// Makes a scope inside this one, over `state` and the way back to this
    /// scope, `parent`. Its tasks go to the same runtime.
    ///
    /// That `parent` leads back to this very scope is up to the caller; the contract
    /// says that the nested scope holds what the caller gave.
    pub fn nest<Parent, State2>(self, parent: Parent, state: State2) -> (nested: NestedScope<
        Parent,
        State2,
        W,
        Rt,
    >) where Rt: Clone
        ensures
            *final(self.0) == *old(self.0),
            nested.wf(),
            nested@ == ScopeView::<_, W, Rt>::fresh(
                NestedStack(parent, state),
                nested@.shared.runtime,
            ),
            cloned(old(self.0)@.runtime, nested@.shared.runtime),
    {
        let runtime = self.0.runtime.clone();
        NestedScope { scope: Scope::with_runtime(NestedStack(parent, state), runtime) }
    }

    /// The state of the scope.
    pub fn deref(&self) -> (state: &State)
        requires
            self.0@.state is Some,
        ensures
            old(self.0)@.state == Some(*state),
    {
        self.0.state.borrow().0
    }
}

/// The state of a nested scope, with the way back to the scope around it.
pub struct NestedStack<Parent, State>(pub Parent, pub State);

impl<Parent, State> NestedStack<Parent, State> {
    /// The way back to the scope around.
    pub fn parent_scope(&self) -> (parent: &Parent)
        ensures
            *parent == self.0,
    {
        &self.0
    }

    /// The state alone.
    pub fn into_inner(self) -> (state: State)
        ensures
            state == self.1,
    {
        self.1
    }

    /// The state.
    pub fn deref(&self) -> (state: &State)
        ensures
            *state == self.1,
    {
        &self.1
    }

    /// The state, to be changed.
    pub fn deref_mut(&mut self) -> (state: &mut State)
        ensures
            *state == old(self).1,
            *final(self) == NestedStack(old(self).0, *final(state)),
    {
        &mut self.1
    }
}

/// A scope, as the contracts speak of it.
#[verifier::ext_equal]
pub struct ScopeView<State, W, Rt> {
    /// What the scope shares with its tasks.
    pub shared: SharedView<State, W, Rt>,
    /// The owner has begun to await or to drop the scope.
    pub started_locking: bool,
    /// The state has been handed back or dropped.
    pub removed: bool,
}

impl<State, W, Rt> ScopeView<State, W, Rt> {
    /// What holds of every scope: the state is there until the scope is removed;
    /// a scope is removed only when it is closed and no task is alive; nobody
    /// waits when no task is alive; only the owner closes the scope, by awaiting
    /// or dropping it; and only the owner of a closed scope parks.
    pub open spec fn valid(self) -> bool {
        &&& self.shared.valid()
        &&& self.removed == (self.shared.state is None)
        &&& self.shared.lock.closed ==> self.started_locking
        &&& self.shared.lock.parked ==> self.shared.lock.closed
    }

    /// A scope over `state` that nothing has happened to.
    pub open spec fn fresh(state: State, runtime: Rt) -> Self {
        ScopeView {
            shared: SharedView { lock: LockView::fresh(), state: Some(state), runtime },
            started_locking: false,
            removed: false,
        }
    }

    /// The same with `lock` under the lock.
    pub open spec fn with_lock(self, lock: LockView<W>) -> Self {
        ScopeView { shared: self.shared.with_lock(lock), ..self }
    }

    /// The same with `waker` to be woken when the last task ends.
    pub open spec fn with_waker(self, waker: Option<W>) -> Self {
        self.with_lock(LockView { waker, ..self.shared.lock })
    }

    /// The same with `state` in place of the state that is there.
    pub open spec fn with_state(self, state: State) -> Self {
        ScopeView { shared: SharedView { state: Some(state), ..self.shared }, ..self }
    }

    /// The owner has begun to await or to drop the scope.
    pub open spec fn started(self) -> Self {
        ScopeView { started_locking: true, ..self }
    }

    /// The state is gone, and nothing more will happen.
    pub open spec fn finished(self) -> Self {
        ScopeView {
            shared: SharedView {
                lock: LockView { closed: true, waker: None, ..self.shared.lock },
                state: None,
                ..self.shared
            },
            started_locking: true,
            removed: true,
        }
    }

    /// The owner has begun to drop the scope, and parks if tasks are alive.
    pub open spec fn dropping(self) -> Self {
        let shut = self.with_lock(self.shared.lock.shut()).started();
        if self.removed {
            self.started()
        } else if self.shared.lock.idle() {
            shut.finished()
        } else {
            shut.with_lock(LockView { parked: true, ..shut.shared.lock })
        }
    }

    /// The owner has been unparked, and parks again if tasks are still alive.
    pub open spec fn draining(self) -> Self {
        if self.shared.lock.idle() {
            self.with_lock(LockView { parked: false, ..self.shared.lock }).finished()
        } else {
            self
        }
    }
}

/// What the owner does next while it drops a scope.
#[derive(Clone, Copy, Debug, PartialEq, Eq)]
pub enum Drain {
    /// Nothing: the scope has been dropped.
    Done,
    /// Sleep until a task notifies, then call [`Scope::resume_drop`].
    Park,
}

/// Scope represents a scope holding some values.
///
/// Tasks can be spawned in the context of this scope.
///
/// Should the scope be dropped before those tasks complete, the tasks are
/// aborted and the thread sleeps until all tasks have ended.
pub struct Scope<State, W, Rt> {
    aliased: SharedState<State, W, Rt>,
    started_locking: bool,
    removed: bool,
}

impl<State, W, Rt> View for Scope<State, W, Rt> {
    type V = ScopeView<State, W, Rt>;

    closed spec fn view(&self) -> ScopeView<State, W, Rt> {
        ScopeView {
            shared: self.aliased@,
            started_locking: self.started_locking,
            removed: self.removed,
        }
    }
}

impl<State, W, Rt> Scope<State, W, Rt> {
    /// What is shared is well-formed.
    pub closed spec fn aliased_wf(&self) -> bool {
        self.aliased.wf()
    }

    /// What is shared is well-formed, and the scope is valid.
    pub open spec fn wf(&self) -> bool {
        self.aliased_wf() && self@.valid()
    }

    /// A scope over `state`, whose tasks go to the runtime `current`, which is
    /// the one that the caller runs in.
    pub fn new(state: State, current: &Rt) -> (scope: Self) where Rt: Clone
        ensures
            scope.wf(),
            scope@ == ScopeView::<State, W, Rt>::fresh(state, scope@.shared.runtime),
            cloned(*current, scope@.shared.runtime),
    {
        Self::with_runtime(state, current.clone())
    }

    /// A scope over `state`, whose tasks go to the runtime `rt`.
    pub fn with_runtime(state: State, rt: Rt) -> (scope: Self)
        ensures
            scope.wf(),
            scope@ == ScopeView::<State, W, Rt>::fresh(state, rt),
    {
        Scope { aliased: SharedState::new(state, rt), started_locking: false, removed: false }
    }

    /// What the scope shares with its tasks, for a task to use.
    pub fn shared(&mut self) -> (shared: ScopeState<'_, State, W, Rt>)
        requires
            old(self).wf(),
        ensures
            shared.0.wf(),
            shared.0@ == old(self)@.shared,
            shared.1 == old(self)@.started_locking,
            final(self)@ == (ScopeView { shared: final(shared.0)@, ..old(self)@ }),
            final(self).wf() == (final(shared.0).wf() && final(self)@.valid()),
    {
        ScopeState(&mut self.aliased, self.started_locking)
    }

    /// Whether the owner has begun to await or to drop the scope.
    pub fn has_started_locking(&self) -> (started: bool)
        ensures
            started == self@.started_locking,
    {
        self.started_locking
    }

    /// Whether the state has been handed back or dropped.
    pub fn is_removed(&self) -> (removed: bool)
        ensures
            removed == self@.removed,
    {
        self.removed
    }

    /// Registers a task, before it is handed to the runtime. The guard goes with
    /// the task: its borrow is released when the task no longer uses the state,
    /// and it is given up when the task has ended.
    ///
    /// Not to be called once the scope is awaited or dropped.
    pub fn spawn(&mut self) -> (guard: ScopeGuard<State>)
        requires
            old(self).wf(),
            !old(self)@.started_locking,
            old(self)@.shared.lock.room(),
        ensures
            final(self).wf(),
            old(self)@.shared.lock.offers(guard@.key),
            final(self)@ == old(self)@.with_lock(old(self)@.shared.lock.with_task(guard@.key)),
            guard@.borrows,
    {
        self.aliased.spawn()
    }

    /// The number of live tasks.
    pub fn num_tasks(&self) -> (n: usize)
        requires
            self.wf(),
        ensures
            n == self@.shared.lock.tasks.len(),
    {
        self.aliased.group.num_tasks()
    }

    /// The state of the scope.
    ///
    /// Not to be called once the state has been handed back.
    pub fn get(&self) -> (state: &State)
        requires
            self.wf(),
            !self@.removed,
        ensures
            self@.shared.state == Some(*state),
    {
        self.aliased.state.borrow().0
    }

    /// The lock state is well-formed, even while the state has been taken out.
    pub closed spec fn group_wf(&self) -> bool {
        self.aliased.group_wf()
    }

    /// Takes the state out, to be put back with [`Self::put_state`].
    pub(crate) fn take_state(&mut self) -> (state: State)
        requires
            old(self).wf(),
            !old(self)@.removed,
        ensures
            old(self)@.shared.state == Some(state),
            final(self).group_wf(),
            final(self)@ == (ScopeView {
                shared: SharedView { state: None, ..old(self)@.shared },
                ..old(self)@
            }),
    {
        self.aliased.state.take()
    }

    /// Puts the state back.
    pub(crate) fn put_state(&mut self, state: State)
        requires
            old(self).group_wf(),
            old(self)@.shared.state is None,
            old(self)@.with_state(state).valid(),
        ensures
            final(self).wf(),
            final(self)@ == old(self)@.with_state(state),
    {
        self.aliased.state.put(state)
    }

    /// Waits until no task is alive. Leaves the scope open.
    pub fn poll_until_empty(&mut self, waker: &W) -> (poll: Poll<()>) where W: Clone
        requires
            old(self).wf(),
        ensures
            final(self).wf(),
            poll is Ready == (old(self)@.removed || old(self)@.shared.lock.idle()),
            poll is Ready ==> final(self)@ == old(self)@,
            poll is Pending ==> {
                &&& final(self)@ == old(self)@.with_waker(final(self)@.shared.lock.waker)
                &&& final(self)@.shared.lock.waker matches Some(registered) && cloned(
                    *waker,
                    registered,
                )
            },
    {
        if self.removed {
            return Poll::Ready(());
        }
        if !self.aliased.group.is_idle() {
            self.aliased.group.register_waker(waker);
            return Poll::Pending;
        }
        Poll::Ready(())
    }

    /// Awaits the scope: hands the state back once no task is alive, and closes
    /// the scope.
    ///
    /// Not to be called once the state has been handed back.
    pub fn poll(&mut self, waker: &W) -> (poll: Poll<State>) where W: Clone
        requires
            old(self).wf(),
            !old(self)@.removed,
        ensures
            final(self).wf(),
            match poll {
                Poll::Ready(state) => {
                    &&& old(self)@.shared.lock.idle()
                    &&& old(self)@.shared.state == Some(state)
                    &&& final(self)@ == old(self)@.finished()
                },
                Poll::Pending => {
                    &&& !old(self)@.shared.lock.idle()
                    &&& final(self)@ == old(self)@.started().with_waker(
                        final(self)@.shared.lock.waker,
                    )
                    &&& final(self)@.shared.lock.waker matches Some(registered) && cloned(
                        *waker,
                        registered,
                    )
                },
            },
    {
        self.started_locking = true;
        if !self.aliased.group.is_idle() {
            self.aliased.group.register_waker(waker);
            return Poll::Pending;
        }
        self.aliased.group.mark_closed();
        self.aliased.group.drop_waker();
        self.removed = true;
        Poll::Ready(self.aliased.state.take())
    }

    /// Begins to drop the scope: closes it, takes out the abort handles of the
    /// live tasks, which the caller then aborts, and drops the state if no task
    /// is alive. Otherwise the caller sleeps and calls [`Self::resume_drop`].
    pub fn begin_drop(&mut self) -> (step: (Vec<u64>, Drain))
        requires
            old(self).wf(),
        ensures
            final(self).wf(),
            final(self)@ == old(self)@.dropping(),
            step.1 is Done == final(self)@.removed,
            old(self)@.removed ==> step.0@ == Seq::<u64>::empty(),
            !old(self)@.removed ==> exists|keys: Seq<u64>| #[trigger]
                crate::lock_state::lists(keys, old(self)@.shared.lock.tasks) && step.0@
                    == crate::lock_state::known_handles(keys, old(self)@.shared.lock.tasks),
    {
        self.started_locking = true;
        if self.removed {
            return (Vec::new(), Drain::Done);
        }
        let handles = self.aliased.group.close();
        if !self.aliased.group.is_idle() {
            self.aliased.group.park();
            return (handles, Drain::Park);
        }
        self.finish_drop();
        (handles, Drain::Done)
    }

    /// Goes on dropping the scope after the sleep has ended: drops the state if
    /// no task is alive, and asks for more sleep otherwise.
    pub fn resume_drop(&mut self) -> (drain: Drain)
        requires
            old(self).wf(),
            !old(self)@.removed,
            old(self)@.shared.lock.parked,
        ensures
            final(self).wf(),
            final(self)@ == old(self)@.draining(),
            drain is Done == old(self)@.shared.lock.idle(),
    {
        self.aliased.group.unpark();
        if !self.aliased.group.is_idle() {
            self.aliased.group.park();
            return Drain::Park;
        }
        self.finish_drop();
        Drain::Done
    }

    /// Drops the state of a closed scope without tasks.
    fn finish_drop(&mut self)
        requires
            old(self).aliased.wf(),
            old(self)@.shared.state is Some,
            old(self)@.shared.lock.idle(),
            old(self)@.shared.lock.closed,
            old(self)@.started_locking,
        ensures
            final(self).wf(),
            final(self)@ == old(self)@.finished(),
    {
        self.aliased.group.drop_waker();
        self.removed = true;
        self.aliased.state.drop();
    }
}

/// NestedScope represents a scope inside a task of another scope.
///
/// It works as a [`Scope`] does, over a state that also leads back to the scope
/// around it.
pub struct NestedScope<Parent, State, W, Rt> {
    /// The scope over both.
    pub scope: Scope<NestedStack<Parent, State>, W, Rt>,
}

impl<Parent, State, W, Rt> View for NestedScope<Parent, State, W, Rt> {
    type V = ScopeView<NestedStack<Parent, State>, W, Rt>;

    open spec fn view(&self) -> ScopeView<NestedStack<Parent, State>, W, Rt> {
        self.scope@
    }
}

impl<Parent, State, W, Rt> NestedScope<Parent, State, W, Rt> {
    /// The scope is well-formed.
    pub open spec fn wf(&self) -> bool {
        self.scope.wf()
    }

    /// Registers a task, as [`Scope::spawn`] does.
    ///
    /// Not to be called once the scope is awaited or dropped.
    pub fn spawn(&mut self) -> (guard: ScopeGuard<NestedStack<Parent, State>>)
        requires
            old(self).wf(),
            !old(self)@.started_locking,
            old(self)@.shared.lock.room(),
        ensures
            final(self).wf(),
            old(self)@.shared.lock.offers(guard@.key),
            final(self)@ == old(self)@.with_lock(old(self)@.shared.lock.with_task(guard@.key)),
            guard@.borrows,
    {
        self.scope.spawn()
    }

    /// Awaits the scope, as [`Scope::poll`] does, and hands back the state
    /// without the way back to the scope around.
    pub fn poll(&mut self, waker: &W) -> (poll: Poll<State>) where W: Clone
        requires
            old(self).wf(),
            !old(self)@.removed,
        ensures
            final(self).wf(),
            match poll {
                Poll::Ready(state) => {
                    &&& old(self)@.shared.lock.idle()
                    &&& old(self)@.shared.state matches Some(stack) && stack.1 == state
                    &&& final(self)@ == old(self)@.finished()
                },
                Poll::Pending => {
                    &&& !old(self)@.shared.lock.idle()
                    &&& final(self)@ == old(self)@.started().with_waker(
                        final(self)@.shared.lock.waker,
                    )
                    &&& final(self)@.shared.lock.waker matches Some(registered) && cloned(
                        *waker,
                        registered,
                    )
                },
            },
    {
        match self.scope.poll(waker) {
            Poll::Ready(stack) => Poll::Ready(stack.into_inner()),
            Poll::Pending => Poll::Pending,
        }
    }
}

} // verus!
