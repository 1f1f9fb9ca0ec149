//! What the calls of the small runtime's functions give.
//!
//! Each law speaks of one call, or of calls that follow on each other: `call_ensures`
//! says that a call with these arguments has come back with this result.

use crate::loom_rt::{Handle, JoinHandle, Worker};
use crate::poll::Poll;
use vstd::prelude::*;

verus! {

/// A task that is spawned goes behind those that are queued. Whoever waits is handed back,
/// to be woken, and is no longer registered.
pub proof fn law_spawn_queues<T, W, R>(
    handle: &mut Handle<T, W>,
    future: T,
    spawned: (JoinHandle<R>, Option<W>),
)
    requires
        call_ensures(Handle::<T, W>::spawn::<R>, (handle, future), spawned),
    ensures
        final(handle)@.messages.len() == old(handle)@.messages.len() + 1,
        final(handle)@.messages.last() == future,
        final(handle)@.messages.drop_last() =~= old(handle)@.messages,
        final(handle)@.closed == old(handle)@.closed,
        final(handle)@.waker is None,
        spawned.1 == old(handle)@.waker,
{
}

/// A shutdown closes the queue, whatever is queued, and leaves what is queued. Whoever
/// waits is handed back, to be woken, and is no longer registered.
pub proof fn law_shutdown_closes<T, W>(handle: &mut Handle<T, W>, waker: Option<W>)
    requires
        call_ensures(Handle::<T, W>::shutdown, (handle,), waker),
    ensures
        final(handle)@.closed,
        final(handle)@.messages == old(handle)@.messages,
        final(handle)@.waker is None,
        waker == old(handle)@.waker,
{
}

/// A new worker has no task.
pub proof fn law_new_worker<T, W>(handle: &Handle<T, W>, worker: Worker<T>)
    requires
        call_ensures(Handle::<T, W>::spawn_worker, (handle,), worker),
    ensures
        worker.wf(),
        worker@.futures.len() == 0,
        worker@.next == 0,
{
}

/// A round begins by taking every task from the queue, behind those that the worker has,
/// and registering the waker in place of any other. The first task is polled first. The
/// worker is told whether the queue has been closed.
pub proof fn law_round_begins<T, W: Clone>(
    worker: &mut Worker<T>,
    queue: &mut Handle<T, W>,
    waker: &W,
    done: bool,
)
    requires
        call_ensures(Worker::<T>::begin_round::<W>, (worker, queue, waker), done),
    ensures
        final(worker).wf(),
        final(worker)@.futures == old(worker)@.futures + old(queue)@.messages,
        final(worker)@.next == 0,
        final(queue)@.messages.len() == 0,
        final(queue)@.waker matches Some(registered) && cloned(*waker, registered),
        final(queue)@.closed == old(queue)@.closed,
        done == old(queue)@.closed,
{
}

/// A shutdown reaches the worker in the round that begins next, whatever was queued.
pub proof fn law_shutdown_reaches_the_worker<T, W: Clone>(
    handle: &mut Handle<T, W>,
    woken: Option<W>,
    worker: &mut Worker<T>,
    queue: &mut Handle<T, W>,
    waker: &W,
    done: bool,
)
    requires
        call_ensures(Handle::<T, W>::shutdown, (handle,), woken),
        *old(queue) == *final(handle),
        call_ensures(Worker::<T>::begin_round::<W>, (worker, queue, waker), done),
    ensures
        done,
        final(queue)@.closed,
        final(worker)@.futures == old(worker)@.futures + old(handle)@.messages,
{
}

/// The task that is to be polled is the next one, until none is left in the round. What
/// polling makes of it stays in its place.
pub proof fn law_current_task<T>(worker: &mut Worker<T>, future: Option<&mut T>)
    requires
        old(worker).wf(),
        call_ensures(Worker::<T>::current, (worker,), future),
    ensures
        final(worker).wf(),
        future is None <==> old(worker)@.next == old(worker)@.futures.len(),
        future is None ==> final(worker)@ == old(worker)@,
        future matches Some(task) ==> {
            &&& *task == old(worker)@.futures[old(worker)@.next]
            &&& final(worker)@.futures == old(worker)@.futures.update(
                old(worker)@.next,
                *final(task),
            )
            &&& final(worker)@.next == old(worker)@.next
        },
{
}

/// A task that has completed is let go, and the one behind it comes next; a task that has
/// not stays, and the one behind it comes next too. The others stay in order.
pub proof fn law_task_was_polled<T>(worker: &mut Worker<T>, ready: bool, i: int)
    requires
        old(worker).wf(),
        old(worker)@.next < old(worker)@.futures.len(),
        call_ensures(Worker::<T>::polled, (worker, ready), ()),
    ensures
        final(worker).wf(),
        ({
            let gone: int = if ready {
                1
            } else {
                0
            };
            let before = old(worker)@;
            let after = final(worker)@;
            &&& after.futures.len() + gone == before.futures.len()
            &&& after.next + gone == before.next + 1
            &&& 0 <= i < before.next ==> after.futures[i] == before.futures[i]
            &&& before.next < i < before.futures.len() ==> after.futures[i - gone]
                == before.futures[i]
            &&& !ready ==> after.futures[before.next] == before.futures[before.next]
        }),
{
}

/// A worker stops at the end of a round exactly if the queue was closed when the round
/// began and no task is left.
pub proof fn law_round_ends<T>(worker: &Worker<T>, done: bool, poll: Poll<()>)
    requires
        call_ensures(Worker::<T>::end_round, (worker, done), poll),
    ensures
        poll is Ready <==> done && worker@.futures.len() == 0,
{
}

/// A round can be begun and ended at any time, and each of its tasks polled.
pub proof fn law_rounds_can_be_made<T, W: Clone>(
    worker: &mut Worker<T>,
    queue: &mut Handle<T, W>,
    waker: &W,
    ready: bool,
)
    requires
        old(worker).wf(),
    ensures
        call_requires(Worker::<T>::begin_round::<W>, (worker, queue, waker)),
        call_requires(Worker::<T>::current, (worker,)),
        old(worker)@.next < old(worker)@.futures.len() ==> call_requires(
            Worker::<T>::polled,
            (worker, ready),
        ),
        call_requires(Worker::<T>::end_round, (&*old(worker), ready)),
        call_requires(Handle::<T, W>::shutdown, (queue,)),
{
}

} // verus!
