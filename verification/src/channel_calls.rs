//! What the calls of the functions around the state of a scope give: the channel by which
//! tasks are handed to its owner, and the cell that holds it.

use crate::poll::Poll;
use crate::scope::Scope;
use crate::spawner::{SpawnerChannel, StateWithSpawner};
use crate::sync::{GuardPtr, ManuallyDropCell};
use crate::task_laws::{law_idle_means_nobody, nobody, same_handles};
use vstd::prelude::*;

verus! {

/// A new channel has no task on its way and nobody who waits for one.
pub proof fn law_new_channel<Task, W>(channel: SpawnerChannel<Task, W>, free: bool)
    requires
        call_ensures(SpawnerChannel::<Task, W>::new, (), channel),
        call_ensures(SpawnerChannel::<Task, W>::is_free, (&channel,), free),
    ensures
        channel@.task is None,
        channel@.waker is None,
        free,
{
}

/// A channel is free exactly if no task is on its way, and a borrow is held until it is
/// released.
pub proof fn law_channel_and_borrow_are_told<Task, W, T>(
    channel: &SpawnerChannel<Task, W>,
    free: bool,
    guard: &GuardPtr<T>,
    held: bool,
)
    requires
        call_ensures(SpawnerChannel::<Task, W>::is_free, (channel,), free),
        call_ensures(GuardPtr::<T>::is_held, (guard,), held),
    ensures
        free <==> channel@.task is None,
        held == guard@,
{
}

/// The owner can wait for a task at any time until the scope has been removed.
pub proof fn law_owner_can_wait_for_tasks<State, Task, W: Clone, Rt>(
    channel: &mut SpawnerChannel<Task, W>,
    scope: &mut Scope<StateWithSpawner<State, Task, W>, W, Rt>,
    waker: &W,
    empty_first: bool,
)
    requires
        old(scope).wf(),
    ensures
        call_requires(SpawnerChannel::<Task, W>::pop, (channel, waker)),
        call_requires(
            SpawnerChannel::<Task, W>::pop_or_empty::<StateWithSpawner<State, Task, W>, Rt>,
            (channel, scope, waker, empty_first),
        ),
        !old(scope)@.removed ==> call_requires(
            Scope::<StateWithSpawner<State, Task, W>, W, Rt>::pop_task,
            (scope, waker, empty_first),
        ),
{
}

/// A task that is handed over is on its way, and whoever waits is handed back, to be
/// woken, and is no longer registered.
pub proof fn law_hand_over<Task, W>(
    channel: &mut SpawnerChannel<Task, W>,
    task: Task,
    waker: Option<W>,
)
    requires
        call_ensures(SpawnerChannel::<Task, W>::spawn, (channel, task), waker),
    ensures
        final(channel)@.task == Some(task),
        final(channel)@.waker is None,
        waker == old(channel)@.waker,
{
}

/// A task can be handed over whenever none is on its way.
pub proof fn law_free_channel_takes_a_task<Task, W>(
    channel: &mut SpawnerChannel<Task, W>,
    task: Task,
)
    requires
        old(channel)@.task is None,
    ensures
        call_requires(SpawnerChannel::<Task, W>::spawn, (channel, task)),
{
}

/// Whoever looks gets the task that is on its way, and none is on its way any more. If
/// there was none, and only then, a clone of the waker is registered.
pub proof fn law_look<Task, W: Clone>(
    channel: &mut SpawnerChannel<Task, W>,
    waker: &W,
    task: Option<Task>,
)
    requires
        call_ensures(SpawnerChannel::<Task, W>::pop, (channel, waker), task),
    ensures
        task == old(channel)@.task,
        final(channel)@.task is None,
        task is Some ==> final(channel)@.waker == old(channel)@.waker,
        task is None ==> (final(channel)@.waker matches Some(registered) && cloned(
            *waker,
            registered,
        )),
{
}

/// What is handed over is what whoever looks next gets.
pub proof fn law_task_arrives<Task, W: Clone>(
    sending: &mut SpawnerChannel<Task, W>,
    task: Task,
    woken: Option<W>,
    receiving: &mut SpawnerChannel<Task, W>,
    waker: &W,
    received: Option<Task>,
)
    requires
        call_ensures(SpawnerChannel::<Task, W>::spawn, (sending, task), woken),
        *old(receiving) == *final(sending),
        call_ensures(SpawnerChannel::<Task, W>::pop, (receiving, waker), received),
    ensures
        received == Some(task),
        final(receiving)@.task is None,
{
}

/// Whoever waits for a task or for the scope to run out of tasks gets a task if one is on
/// its way, unless the scope has run out of tasks and that comes first; hears that there
/// is none if the scope has run out; and else is registered with both. The scope stays as
/// it is but for the waker.
pub proof fn law_pop_or_empty<State, Task, W: Clone, Rt>(
    channel: &mut SpawnerChannel<Task, W>,
    scope: &mut Scope<State, W, Rt>,
    waker: &W,
    empty_first: bool,
    poll: Poll<Option<Task>>,
)
    requires
        old(scope).wf(),
        call_ensures(
            SpawnerChannel::<Task, W>::pop_or_empty::<State, Rt>,
            (channel, scope, waker, empty_first),
            poll,
        ),
    ensures
        final(scope).wf(),
        ({
            let empty = nobody(old(scope)@.shared.lock) || old(scope)@.removed;
            let task = old(channel)@.task;
            &&& poll is Pending <==> task is None && !empty
            &&& poll == Poll::Ready(None::<Task>) <==> empty && (task is None || empty_first)
            &&& poll matches Poll::Ready(Some(got)) ==> task == Some(got)
                && final(channel)@.task is None && final(channel)@.waker == old(channel)@.waker
            &&& poll is Pending ==> {
                &&& final(channel)@.task is None
                &&& final(channel)@.waker matches Some(registered) && cloned(*waker, registered)
                &&& final(scope)@.shared.lock.waker matches Some(registered) && cloned(
                    *waker,
                    registered,
                )
            }
            &&& poll == Poll::Ready(None::<Task>) ==> final(channel)@.task == task
        }),
        same_handles(old(scope)@.shared.lock, final(scope)@.shared.lock),
        final(scope)@.shared.lock.closed == old(scope)@.shared.lock.closed,
        final(scope)@.shared.lock.parked == old(scope)@.shared.lock.parked,
        final(scope)@.shared.state == old(scope)@.shared.state,
        final(scope)@.started_locking == old(scope)@.started_locking,
        final(scope)@.removed == old(scope)@.removed,
{
    law_idle_means_nobody(old(scope)@.shared.lock, 0);
}

/// The owner of a scope whose state has a channel waits in the same way.
pub proof fn law_pop_task<State, Task, W: Clone, Rt>(
    scope: &mut Scope<StateWithSpawner<State, Task, W>, W, Rt>,
    waker: &W,
    empty_first: bool,
    poll: Poll<Option<Task>>,
)
    requires
        old(scope).wf(),
        !old(scope)@.removed,
        call_ensures(
            Scope::<StateWithSpawner<State, Task, W>, W, Rt>::pop_task,
            (scope, waker, empty_first),
            poll,
        ),
    ensures
        final(scope).wf(),
        ({
            let empty = nobody(old(scope)@.shared.lock);
            let before = old(scope)@.shared.state->0;
            let after = final(scope)@.shared.state->0;
            let task = before.spawner@.task;
            &&& final(scope)@.shared.state is Some
            &&& after.state == before.state
            &&& poll is Pending <==> task is None && !empty
            &&& poll == Poll::Ready(None::<Task>) <==> empty && (task is None || empty_first)
            &&& poll matches Poll::Ready(Some(got)) ==> task == Some(got)
                && after.spawner@.task is None
            &&& poll == Poll::Ready(None::<Task>) ==> after.spawner@.task == task
            &&& poll is Pending ==> {
                &&& after.spawner@.waker matches Some(registered) && cloned(*waker, registered)
                &&& final(scope)@.shared.lock.waker matches Some(registered) && cloned(
                    *waker,
                    registered,
                )
            }
        }),
        same_handles(old(scope)@.shared.lock, final(scope)@.shared.lock),
        final(scope)@.shared.lock.closed == old(scope)@.shared.lock.closed,
        final(scope)@.started_locking == old(scope)@.started_locking,
        !final(scope)@.removed,
{
    law_idle_means_nobody(old(scope)@.shared.lock, 0);
}

/// A state with a channel is the state that it was given, with nothing on its way, and a
/// task that is handed over leaves the state alone.
pub proof fn law_state_with_spawner<State, Task, W>(
    state: State,
    fresh: StateWithSpawner<State, Task, W>,
    spawning: &mut StateWithSpawner<State, Task, W>,
    task: Task,
    waker: Option<W>,
)
    requires
        call_ensures(StateWithSpawner::<State, Task, W>::new, (state,), fresh),
        call_ensures(StateWithSpawner::<State, Task, W>::spawn, (spawning, task), waker),
    ensures
        fresh.state == state,
        fresh.spawner@.task is None,
        fresh.spawner@.waker is None,
        final(spawning).state == old(spawning).state,
        final(spawning).spawner@.task == Some(task),
        final(spawning).spawner@.waker is None,
        waker == old(spawning).spawner@.waker,
{
}

/// A cell gives back the value that it was given, once: after that it is gone. Until then
/// the value can be borrowed, and the borrow lasts until it is released.
pub proof fn law_cell_gives_its_value_back<T>(
    t: T,
    made: ManuallyDropCell<T>,
    taking: &mut ManuallyDropCell<T>,
    taken: T,
    dropping: &mut ManuallyDropCell<T>,
    lent: (&T, GuardPtr<T>),
    releasing: &mut GuardPtr<T>,
)
    requires
        call_ensures(ManuallyDropCell::<T>::new, (t,), made),
        *old(taking) == made,
        call_ensures(ManuallyDropCell::<T>::take, (taking,), taken),
        call_ensures(ManuallyDropCell::<T>::drop, (dropping,), ()),
        call_ensures(ManuallyDropCell::<T>::borrow, (&made,), lent),
        call_ensures(GuardPtr::<T>::release, (releasing,), ()),
    ensures
        taken == t,
        final(taking)@ is None,
        final(dropping)@ is None,
        *lent.0 == t,
        lent.1@,
        !final(releasing)@,
{
}

} // verus!
