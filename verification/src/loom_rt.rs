//! A small runtime: a queue of tasks and a worker that polls them.
//!
//! Tasks and wakers are values that the runtime passes on without looking at
//! them. Polling a task and waking a waker are left to the caller.

use crate::poll::Poll;
use core::marker::PhantomData;
use vstd::prelude::*;

verus! {

/// A queue of messages, as the contracts speak of it.
#[verifier::ext_equal]
pub struct ChannelView<T, W> {
    /// The messages that have not been received, the oldest one first.
    pub messages: Seq<T>,
    /// Who is to be woken when a message comes or the queue is closed.
    pub waker: Option<W>,
    /// No more messages are to be expected.
    pub closed: bool,
}

impl<T, W> ChannelView<T, W> {
    /// A queue that nothing has been sent to.
    pub open spec fn empty() -> Self {
        ChannelView { messages: Seq::empty(), waker: None, closed: false }
    }

    /// The queue after a message has been sent.
    pub open spec fn sent(self, message: T) -> Self {
        ChannelView { messages: self.messages.push(message), waker: None, ..self }
    }

    /// The queue after it has been closed.
    pub open spec fn shut(self) -> Self {
        ChannelView { waker: None, closed: true, ..self }
    }

    /// The queue after all messages have been received.
    pub open spec fn received(self, waker: W) -> Self {
        ChannelView { messages: Seq::empty(), waker: Some(waker), ..self }
    }
}

/// A really dumb queue of messages, with a waker for the one who receives them.
pub struct AsyncChannel<T, W> {
    messages: Vec<T>,
    waker: Option<W>,
    closed: bool,
}

impl<T, W> View for AsyncChannel<T, W> {
    type V = ChannelView<T, W>;

    closed spec fn view(&self) -> ChannelView<T, W> {
        ChannelView { messages: self.messages@, waker: self.waker, closed: self.closed }
    }
}

impl<T, W> Default for AsyncChannel<T, W> {
    /// A queue that nothing has been sent to.
    fn default() -> (channel: Self)
        ensures
            channel@ == ChannelView::<T, W>::empty(),
    {
        AsyncChannel { messages: Vec::new(), waker: None, closed: false }
    }
}

/// The runtime: what tasks are spawned into.
pub struct Handle<T, W> {
    task_queue: AsyncChannel<T, W>,
}

impl<T, W> View for Handle<T, W> {
    type V = ChannelView<T, W>;

    /// The tasks that no worker has taken.
    closed spec fn view(&self) -> ChannelView<T, W> {
        self.task_queue@
    }
}

impl<T, W> Default for Handle<T, W> {
    /// A runtime without tasks.
    fn default() -> (handle: Self)
        ensures
            handle@ == ChannelView::<T, W>::empty(),
    {
        Handle { task_queue: AsyncChannel::default() }
    }
}

impl<T, W> Handle<T, W> {
    /// Hands a task to the workers. The waker that comes back is to be woken.
    pub fn spawn<R>(&mut self, future: T) -> (spawned: (JoinHandle<R>, Option<W>))
        ensures
            final(self)@ == old(self)@.sent(future),
            spawned.1 == old(self)@.waker,
    {
        self.task_queue.messages.push(future);
        let waker = self.task_queue.waker.take();
        (JoinHandle(PhantomData, AbortHandle), waker)
    }

    /// Lets the workers stop once they have no task left. The waker that comes
    /// back is to be woken.
    pub fn shutdown(&mut self) -> (waker: Option<W>)
        ensures
            final(self)@ == old(self)@.shut(),
            waker == old(self)@.waker,
    {
        self.task_queue.closed = true;
        self.task_queue.waker.take()
    }

    /// A worker that has no task yet.
    pub fn spawn_worker(&self) -> (worker: Worker<T>)
        ensures
            worker.wf(),
            worker@ == (WorkerView { futures: Seq::<T>::empty(), next: 0 }),
    {
        Worker { futures: Vec::new(), next: 0 }
    }
}

/// A worker, as the contracts speak of it.
#[verifier::ext_equal]
pub struct WorkerView<T> {
    /// The tasks that have not completed, in the order in which they are polled.
    pub futures: Seq<T>,
    /// The place of the task that is polled next.
    pub next: int,
}

impl<T> WorkerView<T> {
    /// The worker after the next task has been polled.
    pub open spec fn polled(self, ready: bool) -> Self {
        if ready {
            WorkerView { futures: self.futures.remove(self.next), ..self }
        } else {
            WorkerView { next: self.next + 1, ..self }
        }
    }
}

/// Polls tasks in rounds. In each round it first takes the tasks from the queue,
/// then polls every task once, and lets go of those that have completed.
pub struct Worker<T> {
    futures: Vec<T>,
    next: usize,
}

impl<T> View for Worker<T> {
    type V = WorkerView<T>;

    closed spec fn view(&self) -> WorkerView<T> {
        WorkerView { futures: self.futures@, next: self.next as int }
    }
}

impl<T> Worker<T> {
    /// The place is one of a task, or behind the last one.
    pub open spec fn wf(&self) -> bool {
        0 <= self@.next <= self@.futures.len()
    }

    /// Begins a round: registers the waker and takes the tasks from the queue.
    /// Says whether the queue has been closed.
    pub fn begin_round<W: Clone>(&mut self, queue: &mut Handle<T, W>, waker: &W) -> (done: bool)
        ensures
            final(self).wf(),
            final(self)@ == (WorkerView {
                futures: old(self)@.futures + old(queue)@.messages,
                next: 0,
            }),
            final(queue)@.waker matches Some(registered) && cloned(*waker, registered)
                && final(queue)@ == old(queue)@.received(registered),
            done == old(queue)@.closed,
    {
        queue.task_queue.waker = Some(waker.clone());
        self.futures.append(&mut queue.task_queue.messages);
        self.next = 0;
        queue.task_queue.closed
    }

    /// The task that is to be polled next, if the round is not over.
    pub fn current(&mut self) -> (future: Option<&mut T>)
        requires
            old(self).wf(),
        ensures
            final(self).wf(),
            match future {
                Some(task) => {
                    &&& old(self)@.next < old(self)@.futures.len()
                    &&& *task == old(self)@.futures[old(self)@.next]
                    &&& final(self)@ == (WorkerView {
                        futures: old(self)@.futures.update(old(self)@.next, *final(task)),
                        ..old(self)@
                    })
                },
                None => old(self)@.next == old(self)@.futures.len() && final(self)@ == old(self)@,
            },
    {
        if self.next < self.futures.len() {
            Some(&mut self.futures[self.next])
        } else {
            None
        }
    }

    /// Goes on after the next task has been polled: lets go of it if it has
    /// completed, and turns to the one behind it if not.
    pub fn polled(&mut self, ready: bool)
        requires
            old(self).wf(),
            old(self)@.next < old(self)@.futures.len(),
        ensures
            final(self).wf(),
            final(self)@ == old(self)@.polled(ready),
    {
        if ready {
            let _ = self.futures.remove(self.next);
        } else {
            assert(self.next < self.futures.len());
            self.next = self.next + 1;
        }
    }

    /// Ends a round: the worker stops when the queue has been closed and no task
    /// is left.
    pub fn end_round(&self, done: bool) -> (poll: Poll<()>)
        ensures
            poll is Ready == (done && self@.futures.len() == 0),
    {
        if done && self.futures.len() == 0 {
            Poll::Ready(())
        } else {
            Poll::Pending
        }
    }
}

/// Stands for a spawned task.
pub struct JoinHandle<R>(PhantomData<R>, AbortHandle);

impl<R> JoinHandle<R> {
    /// The handle by which the task can be aborted.
    pub fn abort_handle(&self) -> (handle: AbortHandle)
        ensures
            handle == AbortHandle,
    {
        self.1.clone()
    }

    /// Does nothing: tasks of this runtime run until they complete.
    pub fn abort(&self)
        no_unwind
    {
    }
}

/// The handle by which a task can be aborted.
#[derive(Clone, Copy)]
pub struct AbortHandle;

impl AbortHandle {
    /// Does nothing: tasks of this runtime run until they complete.
    pub fn abort(&self)
        no_unwind
    {
    }
}

/// Runs `f`, which may block, on the current thread.
pub fn block_in_place<F, R>(f: F) -> (result: R) where F: FnOnce() -> R
    requires
        f.requires(()),
    ensures
        f.ensures((), result),
{
    f()
}

/// The tasks of a round that have not completed, in order.
pub open spec fn kept<T>(futures: Seq<T>, ready: Seq<bool>) -> Seq<T>
    decreases futures.len(),
{
    if futures.len() == 0 {
        Seq::empty()
    } else {
        let before = kept(futures.drop_last(), ready.drop_last());
        if ready.last() {
            before
        } else {
            before.push(futures.last())
        }
    }
}

/// A worker after it has polled one task after the other.
pub open spec fn after_polls<T>(worker: WorkerView<T>, ready: Seq<bool>) -> WorkerView<T>
    decreases ready.len(),
{
    if ready.len() == 0 {
        worker
    } else {
        after_polls(worker, ready.drop_last()).polled(ready.last())
    }
}

/// In a round, each task is polled once, in order: after as many polls as `ready`
/// tells of, those tasks that have not completed are kept in order, the others
/// are gone, and the next task to be polled is the one that comes behind them.
pub proof fn law_round_polls_each_task_once<T>(futures: Seq<T>, ready: Seq<bool>)
    requires
        ready.len() <= futures.len(),
    ensures
        ({
            let n = ready.len() as int;
            let worker = after_polls(WorkerView { futures, next: 0 }, ready);
            let left = kept(futures.take(n), ready);
            &&& worker.futures == left + futures.skip(n)
            &&& worker.next == left.len()
            &&& n < futures.len() ==> worker.futures[worker.next] == futures[n]
        }),
    decreases ready.len(),
{
    let n = ready.len() as int;
    if n > 0 {
        law_round_polls_each_task_once(futures, ready.drop_last());
        let before = kept(futures.take(n - 1), ready.drop_last());
        assert(futures.take(n).drop_last() =~= futures.take(n - 1));
        let now = before + futures.skip(n - 1);
        assert(now.remove(before.len() as int) =~= before + futures.skip(n));
        assert(before.push(futures[n - 1]) + futures.skip(n) =~= now);
    } else {
        assert(futures.take(0) =~= Seq::empty());
        assert(Seq::<T>::empty() + futures.skip(0) =~= futures);
    }
}

/// One thing that happens to a queue.
pub enum ChannelEvent<T, W> {
    /// A message is sent.
    Send(T),
    /// The queue is closed.
    Shut,
    /// All messages are received, and this waker is registered.
    Receive(W),
}

impl<T, W> ChannelView<T, W> {
    /// The queue after the event.
    pub open spec fn after(self, event: ChannelEvent<T, W>) -> Self {
        match event {
            ChannelEvent::Send(message) => self.sent(message),
            ChannelEvent::Shut => self.shut(),
            ChannelEvent::Receive(waker) => self.received(waker),
        }
    }

    /// The queue after all the events.
    pub open spec fn run(self, events: Seq<ChannelEvent<T, W>>) -> Self
        decreases events.len(),
    {
        if events.len() == 0 {
            self
        } else {
            self.run(events.drop_last()).after(events.last())
        }
    }

    /// The wakers that the events wake, in order.
    pub open spec fn woken(self, events: Seq<ChannelEvent<T, W>>) -> Seq<W>
        decreases events.len(),
    {
        if events.len() == 0 {
            Seq::empty()
        } else {
            let before = self.woken(events.drop_last());
            match (events.last(), self.run(events.drop_last()).waker) {
                (ChannelEvent::Receive(_), _) => before,
                (_, Some(waker)) => before.push(waker),
                (_, None) => before,
            }
        }
    }

    /// The messages that the events receive.
    pub open spec fn deliveries(self, events: Seq<ChannelEvent<T, W>>) -> Seq<T>
        decreases events.len(),
    {
        if events.len() == 0 {
            Seq::empty()
        } else {
            let before = self.deliveries(events.drop_last());
            match events.last() {
                ChannelEvent::Receive(_) => before + self.run(events.drop_last()).messages,
                _ => before,
            }
        }
    }
}

/// The messages that the events send.
pub open spec fn sent_by<T, W>(events: Seq<ChannelEvent<T, W>>) -> Seq<T>
    decreases events.len(),
{
    if events.len() == 0 {
        Seq::empty()
    } else {
        match events.last() {
            ChannelEvent::Send(message) => sent_by(events.drop_last()).push(message),
            _ => sent_by(events.drop_last()),
        }
    }
}

/// Every message is received once, in the order in which they were sent: what
/// has been received, followed by what is still queued, is what was sent.
pub proof fn law_messages_arrive_in_order<T, W>(events: Seq<ChannelEvent<T, W>>)
    ensures
        ChannelView::<T, W>::empty().deliveries(events) + ChannelView::<T, W>::empty().run(
            events,
        ).messages == sent_by(events),
    decreases events.len(),
{
    if events.len() > 0 {
        let start = ChannelView::<T, W>::empty();
        law_messages_arrive_in_order(events.drop_last());
        assert(start.deliveries(events) + start.run(events).messages =~= sent_by(events));
    }
}

/// Closing a queue is for good, whatever is queued and whoever waits: a queue is closed
/// exactly if it has been closed at some time.
pub proof fn law_closed_for_good<T, W>(events: Seq<ChannelEvent<T, W>>)
    ensures
        ChannelView::<T, W>::empty().run(events).closed <==> exists|i: int|
            0 <= i < events.len() && #[trigger] events[i] is Shut,
    decreases events.len(),
{
    if events.len() > 0 {
        let before = events.drop_last();
        law_closed_for_good(before);
        let last = events.len() - 1;
        assert(events.last() == events[last]);
        if ChannelView::<T, W>::empty().run(before).closed {
            let i = choose|i: int| 0 <= i < before.len() && #[trigger] before[i] is Shut;
            assert(events[i] == before[i]);
        }
        if exists|i: int| 0 <= i < events.len() && #[trigger] events[i] is Shut {
            let i = choose|i: int| 0 <= i < events.len() && #[trigger] events[i] is Shut;
            if i < last {
                assert(before[i] == events[i]);
            }
        }
    }
}

/// Each thing that happens to a queue changes what it is about and nothing else: a
/// message goes behind those that are queued, closing leaves the messages alone, and
/// receiving leaves none and registers the waker in place of any other. Whoever waited
/// is no longer registered once a message has come or the queue has been closed.
pub proof fn law_queue_changes<T, W>(channel: ChannelView<T, W>, message: T, waker: W)
    ensures
        ChannelView::<T, W>::empty().messages.len() == 0,
        ChannelView::<T, W>::empty().waker is None,
        ({
            let sent = channel.sent(message);
            &&& sent.messages.len() == channel.messages.len() + 1
            &&& sent.messages.last() == message
            &&& sent.messages.drop_last() =~= channel.messages
            &&& sent.closed == channel.closed
            &&& sent.waker is None
        }),
        channel.shut().messages == channel.messages,
        channel.shut().closed,
        channel.shut().waker is None,
        channel.received(waker).messages.len() == 0,
        channel.received(waker).closed == channel.closed,
        channel.received(waker).waker == Some(waker),
{
}

/// Polling a task that completes takes that task out and leaves the others in order, so
/// that the one behind it is next; polling one that does not complete takes out none
/// and turns to the one behind it.
pub proof fn law_poll_takes_completed_task<T>(worker: WorkerView<T>, ready: bool, i: int)
    requires
        0 <= worker.next < worker.futures.len(),
    ensures
        ({
            let then = worker.polled(ready);
            &&& then.futures.len() + (if ready {
                1int
            } else {
                0
            }) == worker.futures.len()
            &&& then.next + (if ready {
                1int
            } else {
                0
            }) == worker.next + 1
            &&& 0 <= i < then.futures.len() ==> then.futures[i] == (if ready && i >= worker.next {
                worker.futures[i + 1]
            } else {
                worker.futures[i]
            })
        }),
{
}

/// A receiver that has registered its waker is woken once, by the first message
/// or by the closing of the queue, whichever comes first.
pub proof fn law_receiver_is_woken<T, W>(
    channel: ChannelView<T, W>,
    waker: W,
    events: Seq<ChannelEvent<T, W>>,
)
    requires
        forall|i: int| 0 <= i < events.len() ==> !(#[trigger] events[i] is Receive),
    ensures
        channel.received(waker).woken(events) == (if events.len() == 0 {
            Seq::empty()
        } else {
            seq![waker]
        }),
        events.len() > 0 ==> channel.received(waker).run(events).waker is None,
    decreases events.len(),
{
    if events.len() > 0 {
        let before = events.drop_last();
        assert(events.last() == events[events.len() - 1]);
        assert forall|i: int| 0 <= i < before.len() implies !(#[trigger] before[i] is Receive) by {
            assert(before[i] == events[i]);
        }
        law_receiver_is_woken(channel, waker, before);
        if before.len() == 0 {
            assert(channel.received(waker).woken(events) =~= seq![waker]);
        }
    }
}

} // verus!
