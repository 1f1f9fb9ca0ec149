//! What the calls of a scope's functions give.
//!
//! Each law speaks of one call, or of two that follow on each other: `call_ensures`
//! says that a call with these arguments has come back with this result. What the
//! scope was before and is after is told by its tasks, its handles and its wakers.

use crate::lock_state::{HandleUse, LockState, TaskEnd};
use crate::poll::Poll;
use crate::scope::{
    Drain, NestedScope, NestedStack, Scope, ScopeGuard, ScopeState, SharedState,
};
use crate::task_laws::{
    law_drop_hands_out_the_known_handles, law_idle_means_nobody, nobody, same_handles, same_tasks,
    tasks_with,
};
use vstd::prelude::*;

verus! {

/// A new scope holds the state and the runtime that it was given, is open, and has no
/// task.
pub proof fn law_new_scope<State, W, Rt>(state: State, rt: Rt, scope: Scope<State, W, Rt>)
    requires
        call_ensures(Scope::<State, W, Rt>::with_runtime, (state, rt), scope),
    ensures
        scope.wf(),
        scope@.shared.state == Some(state),
        scope@.shared.runtime == rt,
        nobody(scope@.shared.lock),
        scope@.shared.lock.waker is None,
        !scope@.shared.lock.closed,
        !scope@.shared.lock.parked,
        !scope@.started_locking,
        !scope@.removed,
{
}

/// A new scope in the runtime of the caller is one over a clone of that runtime.
pub proof fn law_new_scope_in_current_runtime<State, W, Rt: Clone>(
    state: State,
    current: &Rt,
    scope: Scope<State, W, Rt>,
)
    requires
        call_ensures(Scope::<State, W, Rt>::new, (state, current), scope),
    ensures
        scope.wf(),
        scope@.shared.state == Some(state),
        cloned(*current, scope@.shared.runtime),
        nobody(scope@.shared.lock),
        scope@.shared.lock.waker is None,
        !scope@.shared.lock.closed,
        !scope@.shared.lock.parked,
        !scope@.started_locking,
        !scope@.removed,
{
}

/// An owner that spawns gets the guard of a task that was not alive before, is alive
/// now, has no handle yet and borrows the state. The other tasks, the waker and the
/// state are as before, and the scope stays open.
pub proof fn law_owner_spawns<State, W, Rt>(
    scope: &mut Scope<State, W, Rt>,
    guard: ScopeGuard<State>,
    other: u64,
)
    requires
        old(scope).wf(),
        call_ensures(Scope::<State, W, Rt>::spawn, (scope,), guard),
    ensures
        final(scope).wf(),
        guard@.borrows,
        ({
            let before = old(scope)@.shared.lock;
            let after = final(scope)@.shared.lock;
            &&& !before.tasks.contains_key(guard@.key)
            &&& after.tasks.contains_key(guard@.key)
            &&& after.tasks[guard@.key] is None
            &&& after.tasks.len() == before.tasks.len() + 1
            &&& other != guard@.key ==> after.tasks.contains_key(other)
                == before.tasks.contains_key(other) && after.tasks[other] == before.tasks[other]
            &&& after.waker == before.waker
            &&& after.closed == before.closed
            &&& after.parked == before.parked
        }),
        final(scope)@.shared.state == old(scope)@.shared.state,
        final(scope)@.shared.runtime == old(scope)@.shared.runtime,
        final(scope)@.started_locking == old(scope)@.started_locking,
        final(scope)@.removed == old(scope)@.removed,
{
}

/// A task that spawns does to the scope what an owner that spawns does.
pub proof fn law_task_spawns<State, W, Rt>(
    scope: ScopeState<'_, State, W, Rt>,
    guard: ScopeGuard<State>,
    other: u64,
)
    requires
        old(scope.0).wf(),
        call_ensures(ScopeState::<'_, State, W, Rt>::spawn, (scope,), guard),
    ensures
        final(scope.0).wf(),
        guard@.borrows,
        ({
            let before = old(scope.0)@.lock;
            let after = final(scope.0)@.lock;
            &&& !before.tasks.contains_key(guard@.key)
            &&& after.tasks.contains_key(guard@.key)
            &&& after.tasks[guard@.key] is None
            &&& after.tasks.len() == before.tasks.len() + 1
            &&& other != guard@.key ==> after.tasks.contains_key(other)
                == before.tasks.contains_key(other) && after.tasks[other] == before.tasks[other]
            &&& after.waker == before.waker
            &&& after.closed == before.closed
            &&& after.parked == before.parked
        }),
        final(scope.0)@.state == old(scope.0)@.state,
        final(scope.0)@.runtime == old(scope.0)@.runtime,
{
}

/// Tasks can be spawned, by the owner and by a task, until the owner begins to await or
/// to drop the scope, whoever waits for the scope to run out of tasks, and as long as
/// slots and count allow.
pub proof fn law_open_scope_takes_tasks<State, W, Rt>(
    scope: &mut Scope<State, W, Rt>,
    task: ScopeState<'_, State, W, Rt>,
)
    requires
        old(scope).wf(),
        !old(scope)@.started_locking,
        old(scope)@.shared.lock.tasks.len() < 0xffff_fffe,
        8 * (old(scope)@.shared.lock.tasks.len() + 1) <= usize::MAX,
        old(task.0).wf(),
        old(task.0)@ == old(scope)@.shared,
        !task.1,
    ensures
        call_requires(Scope::<State, W, Rt>::spawn, (scope,)),
        call_requires(ScopeState::<'_, State, W, Rt>::spawn, (task,)),
{
}

/// The handle of a task that has been started is kept with the task if that is alive
/// and the scope is open; the task is to be aborted if it is alive and the scope is
/// closed; and nothing is done for a task that has ended. Who waits makes no
/// difference, and nothing else changes.
pub proof fn law_handle_is_kept_or_aborts<State, W, Rt>(
    shared: &mut SharedState<State, W, Rt>,
    key: u64,
    handle: u64,
    used: HandleUse,
    other: u64,
)
    requires
        old(shared).wf(),
        call_ensures(SharedState::<State, W, Rt>::set_abort_handle, (shared, key, handle), used),
    ensures
        final(shared).wf(),
        ({
            let before = old(shared)@.lock;
            let after = final(shared)@.lock;
            let alive = before.tasks.contains_key(key);
            &&& used is Ended <==> !alive
            &&& used is Abort <==> alive && before.closed
            &&& used is Kept <==> alive && !before.closed
            &&& used is Kept ==> after.tasks[key] == Some(handle)
            &&& !(used is Kept) ==> after.tasks == before.tasks
            &&& same_tasks(before, after)
            &&& other != key ==> after.tasks[other] == before.tasks[other]
            &&& after.waker == before.waker
            &&& after.closed == before.closed
            &&& after.parked == before.parked
        }),
        final(shared)@.state == old(shared)@.state,
        final(shared)@.runtime == old(shared)@.runtime,
{
}

/// A task that ends, and no longer borrows the state, is taken off the scope. Exactly
/// if no other task is alive, the waker that is registered is handed back, to be woken,
/// and is no longer registered, and the owner is notified if it is parked.
pub proof fn law_task_ends<State, W, Rt>(
    guard: ScopeGuard<State>,
    shared: &mut SharedState<State, W, Rt>,
    end: TaskEnd<W>,
    other: u64,
)
    requires
        old(shared).wf(),
        old(shared)@.lock.tasks.contains_key(guard@.key),
        call_ensures(ScopeGuard::<State>::drop::<W, Rt>, (guard, shared), end),
    ensures
        final(shared).wf(),
        ({
            let before = old(shared)@.lock;
            let after = final(shared)@.lock;
            &&& !after.tasks.contains_key(guard@.key)
            &&& after.tasks.len() + 1 == before.tasks.len()
            &&& other != guard@.key ==> after.tasks.contains_key(other)
                == before.tasks.contains_key(other)
            &&& other != guard@.key && before.tasks.contains_key(other) ==> {
                &&& after.tasks[other] == before.tasks[other]
                &&& after.waker == before.waker
                &&& end.waker is None
                &&& !end.notify
            }
            &&& nobody(after) ==> {
                &&& after.waker is None
                &&& end.waker == before.waker
                &&& end.notify == before.parked
            }
            &&& after.closed == before.closed
            &&& after.parked == before.parked
        }),
        final(shared)@.state == old(shared)@.state,
        final(shared)@.runtime == old(shared)@.runtime,
{
    let before = old(shared)@.lock;
    let after = final(shared)@.lock;
    law_idle_means_nobody(before, guard@.key);
    if other != guard@.key && before.tasks.contains_key(other) {
        assert(!before.ends_with(guard@.key));
    }
    if nobody(after) {
        assert forall|task: u64| #[trigger] before.tasks.contains_key(task) implies task
            == guard@.key by {
            assert(!after.tasks.contains_key(task));
        }
    }
}

/// A task can be taken off the scope whenever it is alive and its borrow is released.
pub proof fn law_released_task_can_end<State, W, Rt>(
    guard: ScopeGuard<State>,
    shared: &mut SharedState<State, W, Rt>,
)
    requires
        old(shared).wf(),
        old(shared)@.lock.tasks.contains_key(guard@.key),
        !guard@.borrows,
    ensures
        call_requires(ScopeGuard::<State>::drop::<W, Rt>, (guard, shared)),
{
}

/// Releasing ends the borrow and leaves the key.
pub proof fn law_release_ends_the_borrow<State>(guard: &mut ScopeGuard<State>)
    requires
        call_ensures(ScopeGuard::<State>::release, (guard,), ()),
    ensures
        !final(guard)@.borrows,
        final(guard)@.key == old(guard)@.key,
{
}

/// Awaiting a scope hands the state back exactly if no task is alive, and the scope is
/// then closed and removed. Else the waker is registered, in place of any other, and
/// nothing else changes but that awaiting has begun.
pub proof fn law_await<State, W: Clone, Rt>(
    scope: &mut Scope<State, W, Rt>,
    waker: &W,
    poll: Poll<State>,
)
    requires
        old(scope).wf(),
        !old(scope)@.removed,
        call_ensures(Scope::<State, W, Rt>::poll, (scope, waker), poll),
    ensures
        final(scope).wf(),
        poll is Ready <==> nobody(old(scope)@.shared.lock),
        poll matches Poll::Ready(state) ==> {
            &&& old(scope)@.shared.state == Some(state)
            &&& final(scope)@.shared.state is None
            &&& final(scope)@.removed
            &&& final(scope)@.shared.lock.closed
            &&& final(scope)@.shared.lock.waker is None
            &&& nobody(final(scope)@.shared.lock)
        },
        poll is Pending ==> {
            &&& final(scope)@.shared.lock.waker matches Some(registered) && cloned(
                *waker,
                registered,
            )
            &&& same_handles(old(scope)@.shared.lock, final(scope)@.shared.lock)
            &&& final(scope)@.shared.lock.closed == old(scope)@.shared.lock.closed
            &&& final(scope)@.shared.lock.parked == old(scope)@.shared.lock.parked
            &&& final(scope)@.shared.state == old(scope)@.shared.state
            &&& !final(scope)@.removed
        },
        final(scope)@.started_locking,
        final(scope)@.shared.runtime == old(scope)@.shared.runtime,
{
    law_idle_means_nobody(old(scope)@.shared.lock, 0);
    law_idle_means_nobody(final(scope)@.shared.lock, 0);
}

/// Waiting for the tasks to end is done exactly if no task is alive or the scope has
/// been removed, and then nothing has changed. Else the waker is registered, in place of
/// any other, and nothing else has changed: tasks can still be spawned.
pub proof fn law_wait_until_empty<State, W: Clone, Rt>(
    scope: &mut Scope<State, W, Rt>,
    waker: &W,
    poll: Poll<()>,
)
    requires
        old(scope).wf(),
        call_ensures(Scope::<State, W, Rt>::poll_until_empty, (scope, waker), poll),
    ensures
        final(scope).wf(),
        poll is Ready <==> nobody(old(scope)@.shared.lock) || old(scope)@.removed,
        poll is Ready ==> final(scope)@ == old(scope)@,
        poll is Pending ==> {
            &&& final(scope)@.shared.lock.waker matches Some(registered) && cloned(
                *waker,
                registered,
            )
            &&& same_handles(old(scope)@.shared.lock, final(scope)@.shared.lock)
        },
        final(scope)@.shared.lock.closed == old(scope)@.shared.lock.closed,
        final(scope)@.shared.lock.parked == old(scope)@.shared.lock.parked,
        final(scope)@.shared.state == old(scope)@.shared.state,
        final(scope)@.shared.runtime == old(scope)@.shared.runtime,
        final(scope)@.started_locking == old(scope)@.started_locking,
        final(scope)@.removed == old(scope)@.removed,
{
    law_idle_means_nobody(old(scope)@.shared.lock, 0);
}

/// Whoever begins to drop a scope gets every handle that is known of a live task, as
/// often as there are tasks that have it, and no other. It is to sleep exactly if a
/// task is alive; then the state stays and the same tasks are alive. Else the scope
/// has been removed. Either way no task can be spawned any more.
pub proof fn law_drop_begins<State, W, Rt>(
    scope: &mut Scope<State, W, Rt>,
    step: (Vec<u64>, Drain),
    handle: u64,
)
    requires
        old(scope).wf(),
        call_ensures(Scope::<State, W, Rt>::begin_drop, (scope,), step),
    ensures
        final(scope).wf(),
        ({
            let before = old(scope)@.shared.lock;
            let after = final(scope)@.shared.lock;
            &&& step.0@.to_multiset().count(handle) == tasks_with(before.tasks, handle).len()
            &&& step.0@.contains(handle) <==> exists|key: u64| #[trigger]
                before.tasks.contains_key(key) && before.tasks[key] == Some(handle)
            &&& step.1 is Park <==> !nobody(before)
            &&& step.1 is Park ==> {
                &&& same_tasks(before, after)
                &&& after.parked
                &&& after.waker == before.waker
                &&& final(scope)@.shared.state == old(scope)@.shared.state
                &&& final(scope)@.shared.state is Some
                &&& !final(scope)@.removed
            }
            &&& step.1 is Done ==> {
                &&& nobody(after)
                &&& final(scope)@.shared.state is None
                &&& final(scope)@.removed
            }
            &&& after.closed
        }),
        final(scope)@.started_locking,
        final(scope)@.shared.runtime == old(scope)@.shared.runtime,
{
    let before = old(scope)@.shared.lock;
    let after = final(scope)@.shared.lock;
    law_idle_means_nobody(before, 0);
    law_idle_means_nobody(after, 0);
    if old(scope)@.removed {
        assert(before.tasks.dom() =~= Set::empty());
        assert(tasks_with(before.tasks, handle) =~= Set::empty());
        step.0@.to_multiset_ensures();
    } else {
        let keys = choose|keys: Seq<u64>| #[trigger]
            crate::lock_state::lists(keys, before.tasks) && step.0@
                == crate::lock_state::known_handles(keys, before.tasks);
        law_drop_hands_out_the_known_handles(keys, before.tasks, handle);
    }
}

/// A handle that was kept when the scope is dropped next is handed out: whoever waited
/// and however many tasks there are.
pub proof fn law_drop_hands_out_kept_handle<State, W, Rt>(
    shared: &mut SharedState<State, W, Rt>,
    key: u64,
    handle: u64,
    scope: &mut Scope<State, W, Rt>,
    step: (Vec<u64>, Drain),
)
    requires
        old(shared).wf(),
        old(scope).wf(),
        call_ensures(
            SharedState::<State, W, Rt>::set_abort_handle,
            (shared, key, handle),
            HandleUse::Kept,
        ),
        old(scope)@.shared == final(shared)@,
        call_ensures(Scope::<State, W, Rt>::begin_drop, (scope,), step),
    ensures
        step.0@.contains(handle),
        step.1 is Park,
{
    law_handle_is_kept_or_aborts(shared, key, handle, HandleUse::Kept, key);
    law_drop_begins(scope, step, handle);
    assert(old(scope)@.shared.lock.tasks.contains_key(key));
}

/// Whoever has slept while dropping a scope is done exactly if no task is alive, and the
/// state is then gone; else nothing has changed and it is to sleep again.
pub proof fn law_drop_goes_on<State, W, Rt>(scope: &mut Scope<State, W, Rt>, drain: Drain)
    requires
        old(scope).wf(),
        call_ensures(Scope::<State, W, Rt>::resume_drop, (scope,), drain),
    ensures
        final(scope).wf(),
        drain is Done <==> nobody(old(scope)@.shared.lock),
        drain is Park ==> final(scope)@ == old(scope)@,
        drain is Done ==> {
            &&& final(scope)@.removed
            &&& final(scope)@.shared.state is None
            &&& final(scope)@.shared.lock.closed
            &&& final(scope)@.shared.lock.waker is None
            &&& !final(scope)@.shared.lock.parked
            &&& nobody(final(scope)@.shared.lock)
            &&& final(scope)@.started_locking
            &&& final(scope)@.shared.runtime == old(scope)@.shared.runtime
        },
{
    law_idle_means_nobody(old(scope)@.shared.lock, 0);
    law_idle_means_nobody(final(scope)@.shared.lock, 0);
}

/// A scope that has not been removed can be awaited, waited for and dropped at any time,
/// and dropping goes on whenever the owner was told to sleep.
pub proof fn law_scope_can_be_awaited_and_dropped<State, W: Clone, Rt>(
    scope: &mut Scope<State, W, Rt>,
    waker: &W,
)
    requires
        old(scope).wf(),
    ensures
        !old(scope)@.removed ==> call_requires(Scope::<State, W, Rt>::poll, (scope, waker)),
        call_requires(Scope::<State, W, Rt>::poll_until_empty, (scope, waker)),
        call_requires(Scope::<State, W, Rt>::begin_drop, (scope,)),
        !old(scope)@.removed && old(scope)@.shared.lock.parked ==> call_requires(
            Scope::<State, W, Rt>::resume_drop,
            (scope,),
        ),
{
}

/// The number of tasks is the number of those that are alive.
pub proof fn law_num_tasks<State, W, Rt>(scope: &Scope<State, W, Rt>, n: usize)
    requires
        scope.wf(),
        call_ensures(Scope::<State, W, Rt>::num_tasks, (scope,), n),
    ensures
        n == scope@.shared.lock.tasks.dom().len(),
        n == 0 <==> nobody(scope@.shared.lock),
{
    crate::lock_state::lemma_idle(scope@.shared.lock);
    law_idle_means_nobody(scope@.shared.lock, 0);
}

/// The state that can be looked at is the one that the scope holds, and what a task sees
/// of a scope is what the scope shares.
pub proof fn law_state_is_seen<State, W, Rt>(
    scope: &Scope<State, W, Rt>,
    state: &State,
    shared: &SharedState<State, W, Rt>,
    key: u64,
    alive: bool,
    closed: bool,
    room: bool,
)
    requires
        scope.wf(),
        shared.wf(),
        call_ensures(Scope::<State, W, Rt>::get, (scope,), state),
        call_ensures(SharedState::<State, W, Rt>::has_task, (shared, key), alive),
        call_ensures(SharedState::<State, W, Rt>::is_closed, (shared,), closed),
        call_ensures(SharedState::<State, W, Rt>::has_room, (shared,), room),
    ensures
        scope@.shared.state == Some(*state),
        alive == shared@.lock.tasks.contains_key(key),
        closed == shared@.lock.closed,
        room <==> shared@.lock.tasks.len() < 0xffff_fffe && 8 * (shared@.lock.tasks.len() + 1)
            <= usize::MAX,
{
}

/// A nested scope is a new scope over the way back and the state that it was given, in a
/// clone of the runtime of the scope around, which does not change.
pub proof fn law_nest<State, Parent, Inner, W, Rt: Clone>(
    scope: ScopeState<'_, State, W, Rt>,
    parent: Parent,
    state: Inner,
    nested: NestedScope<Parent, Inner, W, Rt>,
)
    requires
        call_ensures(
            ScopeState::<'_, State, W, Rt>::nest::<Parent, Inner>,
            (scope, parent, state),
            nested,
        ),
    ensures
        *final(scope.0) == *old(scope.0),
        nested.wf(),
        nested.scope@.shared.state == Some(NestedStack(parent, state)),
        cloned(old(scope.0)@.runtime, nested.scope@.shared.runtime),
        nobody(nested.scope@.shared.lock),
        nested.scope@.shared.lock.waker is None,
        !nested.scope@.shared.lock.closed,
        !nested.scope@.shared.lock.parked,
        !nested.scope@.started_locking,
        !nested.scope@.removed,
{
}

/// Awaiting a nested scope hands its own state back exactly if none of its tasks is
/// alive, without the way back. Else the waker is registered.
pub proof fn law_await_nested<Parent, Inner, W: Clone, Rt>(
    nested: &mut NestedScope<Parent, Inner, W, Rt>,
    waker: &W,
    poll: Poll<Inner>,
)
    requires
        old(nested).wf(),
        !old(nested)@.removed,
        call_ensures(NestedScope::<Parent, Inner, W, Rt>::poll, (nested, waker), poll),
    ensures
        final(nested).wf(),
        poll is Ready <==> nobody(old(nested)@.shared.lock),
        poll matches Poll::Ready(state) ==> {
            &&& old(nested)@.shared.state matches Some(stack) && stack.1 == state
            &&& final(nested)@.shared.state is None
            &&& final(nested)@.removed
            &&& final(nested)@.shared.lock.closed
        },
        poll is Pending ==> {
            &&& final(nested)@.shared.lock.waker matches Some(registered) && cloned(
                *waker,
                registered,
            )
            &&& same_handles(old(nested)@.shared.lock, final(nested)@.shared.lock)
            &&& final(nested)@.shared.lock.closed == old(nested)@.shared.lock.closed
            &&& final(nested)@.shared.state == old(nested)@.shared.state
            &&& !final(nested)@.removed
        },
        final(nested)@.started_locking,
{
    law_idle_means_nobody(old(nested)@.shared.lock, 0);
}

/// Spawning into a nested scope adds one task to it.
pub proof fn law_nested_scope_spawns<Parent, Inner, W, Rt>(
    nested: &mut NestedScope<Parent, Inner, W, Rt>,
    guard: ScopeGuard<NestedStack<Parent, Inner>>,
    other: u64,
)
    requires
        old(nested).wf(),
        call_ensures(NestedScope::<Parent, Inner, W, Rt>::spawn, (nested,), guard),
    ensures
        final(nested).wf(),
        guard@.borrows,
        ({
            let before = old(nested)@.shared.lock;
            let after = final(nested)@.shared.lock;
            &&& !before.tasks.contains_key(guard@.key)
            &&& after.tasks.contains_key(guard@.key)
            &&& after.tasks[guard@.key] is None
            &&& after.tasks.len() == before.tasks.len() + 1
            &&& other != guard@.key ==> after.tasks.contains_key(other)
                == before.tasks.contains_key(other) && after.tasks[other] == before.tasks[other]
            &&& after.waker == before.waker
            &&& after.closed == before.closed
        }),
        final(nested)@.shared.state == old(nested)@.shared.state,
        final(nested)@.started_locking == old(nested)@.started_locking,
{
}

/// The waker of a scope is registered in place of any other, is taken once, and can be
/// dropped. Nothing else changes.
pub proof fn law_waker_is_registered_and_taken<W: Clone>(
    registering: &mut LockState<W>,
    waker: &W,
    taking: &mut LockState<W>,
    taken: Option<W>,
    dropping: &mut LockState<W>,
)
    requires
        old(registering).wf(),
        old(taking).wf(),
        old(dropping).wf(),
        call_ensures(LockState::<W>::register_waker, (registering, waker), ()),
        call_ensures(LockState::<W>::take_waker, (taking,), taken),
        call_ensures(LockState::<W>::drop_waker, (dropping,), ()),
    ensures
        final(registering)@.waker matches Some(registered) && cloned(*waker, registered),
        same_handles(old(registering)@, final(registering)@),
        final(registering)@.closed == old(registering)@.closed,
        final(registering)@.parked == old(registering)@.parked,
        taken == old(taking)@.waker,
        final(taking)@.waker is None,
        same_handles(old(taking)@, final(taking)@),
        final(taking)@.closed == old(taking)@.closed,
        final(taking)@.parked == old(taking)@.parked,
        final(dropping)@.waker is None,
        same_handles(old(dropping)@, final(dropping)@),
        final(dropping)@.closed == old(dropping)@.closed,
        final(dropping)@.parked == old(dropping)@.parked,
{
}

/// Under the lock, a task is added, told of its handle and taken off as the scope says.
pub proof fn law_tasks_under_the_lock<W>(
    adding: &mut LockState<W>,
    key: u64,
    setting: &mut LockState<W>,
    task: u64,
    handle: u64,
    used: HandleUse,
    ending: &mut LockState<W>,
    ended: u64,
    end: TaskEnd<W>,
)
    requires
        old(adding).wf(),
        old(setting).wf(),
        old(ending).wf(),
        old(ending)@.tasks.contains_key(ended),
        call_ensures(LockState::<W>::add_task, (adding,), key),
        call_ensures(LockState::<W>::set_handle, (setting, task, handle), used),
        call_ensures(LockState::<W>::end_task, (ending, ended), end),
    ensures
        !old(adding)@.tasks.contains_key(key),
        final(adding)@.tasks == old(adding)@.tasks.insert(key, None),
        final(adding)@.waker == old(adding)@.waker,
        final(adding)@.closed == old(adding)@.closed,
        final(adding)@.parked == old(adding)@.parked,
        used is Ended <==> !old(setting)@.tasks.contains_key(task),
        used is Kept <==> old(setting)@.tasks.contains_key(task) && !old(setting)@.closed,
        final(setting)@.tasks =~= (if used is Kept {
            old(setting)@.tasks.insert(task, Some(handle))
        } else {
            old(setting)@.tasks
        }),
        final(setting)@.waker == old(setting)@.waker,
        final(setting)@.closed == old(setting)@.closed,
        final(setting)@.parked == old(setting)@.parked,
        final(ending)@.tasks == old(ending)@.tasks.remove(ended),
        nobody(final(ending)@) ==> end.waker == old(ending)@.waker && end.notify == old(
            ending,
        )@.parked && final(ending)@.waker is None,
        !nobody(final(ending)@) ==> end.waker is None && !end.notify && final(ending)@.waker
            == old(ending)@.waker,
        final(ending)@.closed == old(ending)@.closed,
        final(ending)@.parked == old(ending)@.parked,
{
    let before = old(ending)@;
    let after = final(ending)@;
    law_idle_means_nobody(before, ended);
    law_idle_means_nobody(after, ended);
    assert(before.ends_with(ended) <==> after.idle());
}

/// Closing under the lock takes every known handle out, as often as there are tasks that
/// have it, and the tasks stay; parking, unparking and marking as closed set the flag
/// that they are about.
pub proof fn law_flags_under_the_lock<W>(
    closing: &mut LockState<W>,
    handles: Vec<u64>,
    handle: u64,
    parking: &mut LockState<W>,
    unparking: &mut LockState<W>,
    marking: &mut LockState<W>,
)
    requires
        old(closing).wf(),
        old(parking).wf(),
        old(unparking).wf(),
        old(marking).wf(),
        call_ensures(LockState::<W>::close, (closing,), handles),
        call_ensures(LockState::<W>::park, (parking,), ()),
        call_ensures(LockState::<W>::unpark, (unparking,), ()),
        call_ensures(LockState::<W>::mark_closed, (marking,), ()),
    ensures
        handles@.to_multiset().count(handle) == tasks_with(old(closing)@.tasks, handle).len(),
        same_tasks(old(closing)@, final(closing)@),
        forall|key: u64| #[trigger]
            final(closing)@.tasks.contains_key(key) ==> final(closing)@.tasks[key] is None,
        final(closing)@.closed,
        final(closing)@.waker == old(closing)@.waker,
        final(closing)@.parked == old(closing)@.parked,
        final(parking)@.parked,
        same_handles(old(parking)@, final(parking)@),
        final(parking)@.closed == old(parking)@.closed,
        final(parking)@.waker == old(parking)@.waker,
        !final(unparking)@.parked,
        same_handles(old(unparking)@, final(unparking)@),
        final(unparking)@.closed == old(unparking)@.closed,
        final(unparking)@.waker == old(unparking)@.waker,
        final(marking)@.closed,
        same_handles(old(marking)@, final(marking)@),
        final(marking)@.parked == old(marking)@.parked,
        final(marking)@.waker == old(marking)@.waker,
{
    let tasks = old(closing)@.tasks;
    let keys = choose|keys: Seq<u64>| #[trigger]
        crate::lock_state::lists(keys, tasks) && handles@ == crate::lock_state::known_handles(
            keys,
            tasks,
        );
    law_drop_hands_out_the_known_handles(keys, tasks, handle);
}

/// Under the lock, whether anybody is left, whether the scope is closed and whether there
/// is room is answered as it is.
pub proof fn law_answers_under_the_lock<W>(
    lock: &LockState<W>,
    n: usize,
    idle: bool,
    closed: bool,
    room: bool,
    key: u64,
    alive: bool,
)
    requires
        lock.wf(),
        call_ensures(LockState::<W>::num_tasks, (lock,), n),
        call_ensures(LockState::<W>::is_idle, (lock,), idle),
        call_ensures(LockState::<W>::is_closed, (lock,), closed),
        call_ensures(LockState::<W>::has_room, (lock,), room),
        call_ensures(LockState::<W>::has_task, (lock, key), alive),
    ensures
        n == lock@.tasks.dom().len(),
        idle <==> nobody(lock@),
        closed == lock@.closed,
        room <==> lock@.tasks.len() < 0xffff_fffe && 8 * (lock@.tasks.len() + 1) <= usize::MAX,
        alive == lock@.tasks.contains_key(key),
{
    law_idle_means_nobody(lock@, 0);
}

/// A guard tells the key of its task and whether the task borrows the state, and what a
/// scope shares with its tasks tells the runtime and the state.
pub proof fn law_guards_and_tasks_are_told<State, W, Rt>(
    guard: &ScopeGuard<State>,
    key: u64,
    borrows: bool,
    shared: &SharedState<State, W, Rt>,
    runtime: &Rt,
    task: &ScopeState<'_, State, W, Rt>,
    state: &State,
)
    requires
        call_ensures(ScopeGuard::<State>::task_key, (guard,), key),
        call_ensures(ScopeGuard::<State>::borrows, (guard,), borrows),
        call_ensures(SharedState::<State, W, Rt>::runtime, (shared,), runtime),
        call_ensures(ScopeState::<'_, State, W, Rt>::deref, (task,), state),
    ensures
        key == guard@.key,
        borrows == guard@.borrows,
        *runtime == shared@.runtime,
        old(task.0)@.state == Some(*state),
{
}

/// What a scope shares is shared as it is: what is done to it is done to the scope, and to
/// nothing else of the scope. Whether awaiting or dropping has begun, and whether the
/// scope has been removed, is answered as it is.
pub proof fn law_scope_is_shared<State, W, Rt>(
    scope: &mut Scope<State, W, Rt>,
    shared: ScopeState<'_, State, W, Rt>,
    started: bool,
    removed: bool,
)
    requires
        old(scope).wf(),
        call_ensures(Scope::<State, W, Rt>::shared, (scope,), shared),
        call_ensures(Scope::<State, W, Rt>::has_started_locking, (&*old(scope),), started),
        call_ensures(Scope::<State, W, Rt>::is_removed, (&*old(scope),), removed),
    ensures
        old(shared.0).wf(),
        old(shared.0)@ == old(scope)@.shared,
        shared.1 == old(scope)@.started_locking,
        final(scope)@.shared == final(shared.0)@,
        final(scope)@.started_locking == old(scope)@.started_locking,
        final(scope)@.removed == old(scope)@.removed,
        started == old(scope)@.started_locking,
        removed == old(scope)@.removed,
{
}

/// The state of a nested scope is told, changed and handed back without the way back, and
/// the way back is told.
pub proof fn law_stack_holds_both<Parent, State>(
    stack: &NestedStack<Parent, State>,
    parent: &Parent,
    state: &State,
    own: State,
    changing: &mut NestedStack<Parent, State>,
    changed: &mut State,
)
    requires
        call_ensures(NestedStack::<Parent, State>::parent_scope, (stack,), parent),
        call_ensures(NestedStack::<Parent, State>::deref, (stack,), state),
        call_ensures(NestedStack::<Parent, State>::into_inner, (*stack,), own),
        call_ensures(NestedStack::<Parent, State>::deref_mut, (changing,), changed),
    ensures
        *parent == stack.0,
        *state == stack.1,
        own == stack.1,
        *old(changed) == old(changing).1,
        final(changing).0 == old(changing).0,
        final(changing).1 == *final(changed),
{
}

/// The handle of a live task can be told at any time, also after the scope was closed, and
/// so can what is asked of a scope that has not been removed.
pub proof fn law_live_scope_can_be_asked<State, W, Rt>(
    scope: &Scope<State, W, Rt>,
    shared: &mut SharedState<State, W, Rt>,
    key: u64,
    handle: u64,
)
    requires
        scope.wf(),
        old(shared).wf(),
        old(shared)@.lock.tasks.contains_key(key),
    ensures
        call_requires(
            SharedState::<State, W, Rt>::set_abort_handle,
            (shared, key, handle),
        ),
        call_requires(SharedState::<State, W, Rt>::has_task, (&*old(shared), key)),
        call_requires(SharedState::<State, W, Rt>::has_room, (&*old(shared),)),
        call_requires(Scope::<State, W, Rt>::num_tasks, (scope,)),
        !scope@.removed ==> call_requires(Scope::<State, W, Rt>::get, (scope,)),
{
}

/// A nested scope can be spawned into and awaited as any other scope can.
pub proof fn law_nested_scope_can_be_used<Parent, Inner, W: Clone, Rt>(
    nested: &mut NestedScope<Parent, Inner, W, Rt>,
    waker: &W,
)
    requires
        old(nested).wf(),
        !old(nested)@.started_locking,
        old(nested)@.shared.lock.tasks.len() < 0xffff_fffe,
        8 * (old(nested)@.shared.lock.tasks.len() + 1) <= usize::MAX,
    ensures
        call_requires(NestedScope::<Parent, Inner, W, Rt>::spawn, (nested,)),
        !old(nested)@.removed ==> call_requires(
            NestedScope::<Parent, Inner, W, Rt>::poll,
            (nested, waker),
        ),
{
}

} // verus!
