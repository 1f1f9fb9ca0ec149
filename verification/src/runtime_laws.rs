//! What holds of the small runtime and its worker over all rounds.
//!
//! The events are the calls of [`crate::loom_rt`]'s functions: their contracts say
//! when each of them can be made and what it does to the queue and to the worker. A
//! task stands for itself here, however often it has been polled.

use crate::loom_rt::{ChannelView, WorkerView};
use vstd::multiset::Multiset;
use vstd::prelude::*;

verus! {

/// A runtime with one worker, and what has happened to its tasks.
pub struct RuntimeLife<T, W> {
    /// The queue.
    pub queue: ChannelView<T, W>,
    /// The worker.
    pub worker: WorkerView<T>,
    /// While a round is under way, whether the queue was closed when it began.
    pub round: Option<bool>,
    /// The worker has stopped.
    pub stopped: bool,
    /// All tasks that have been spawned, in order.
    pub spawned: Seq<T>,
    /// All tasks that have completed, in order.
    pub completed: Seq<T>,
    /// The tasks that had been spawned when the last round began.
    pub spawned_before: Seq<T>,
    /// The tasks that had completed when the last round began.
    pub completed_before: Seq<T>,
    /// The tasks that the worker had when the last round began.
    pub due: Seq<T>,
    /// The tasks that have been polled in the last round, in order.
    pub polled: Seq<T>,
}

/// One thing that happens to a runtime.
pub enum RuntimeEvent<T, W> {
    /// A task is spawned.
    Spawn(T),
    /// The runtime is shut down.
    Shutdown,
    /// The worker begins a round, with this waker.
    BeginRound(W),
    /// The worker polls the next task, which has completed or not.
    Poll(bool),
    /// The worker ends a round.
    EndRound,
}

impl<T, W> RuntimeLife<T, W> {
    /// A runtime that nothing has happened to.
    pub open spec fn init() -> Self {
        RuntimeLife {
            queue: ChannelView::empty(),
            worker: WorkerView { futures: Seq::empty(), next: 0 },
            round: None,
            stopped: false,
            spawned: Seq::empty(),
            completed: Seq::empty(),
            spawned_before: Seq::empty(),
            completed_before: Seq::empty(),
            due: Seq::empty(),
            polled: Seq::empty(),
        }
    }

    /// The event can happen now.
    pub open spec fn admits(self, event: RuntimeEvent<T, W>) -> bool {
        match event {
            RuntimeEvent::Spawn(_) => true,
            RuntimeEvent::Shutdown => true,
            RuntimeEvent::BeginRound(_) => self.round is None && !self.stopped,
            RuntimeEvent::Poll(_) => self.round is Some && self.worker.next
                < self.worker.futures.len(),
            RuntimeEvent::EndRound => self.round is Some && self.worker.next
                == self.worker.futures.len(),
        }
    }

    /// The runtime after the event.
    pub open spec fn after(self, event: RuntimeEvent<T, W>) -> Self {
        match event {
            RuntimeEvent::Spawn(task) => RuntimeLife {
                queue: self.queue.sent(task),
                spawned: self.spawned.push(task),
                ..self
            },
            RuntimeEvent::Shutdown => RuntimeLife { queue: self.queue.shut(), ..self },
            RuntimeEvent::BeginRound(waker) => RuntimeLife {
                queue: self.queue.received(waker),
                worker: WorkerView {
                    futures: self.worker.futures + self.queue.messages,
                    next: 0,
                },
                round: Some(self.queue.closed),
                spawned_before: self.spawned,
                completed_before: self.completed,
                due: self.worker.futures + self.queue.messages,
                polled: Seq::empty(),
                ..self
            },
            RuntimeEvent::Poll(ready) => RuntimeLife {
                worker: self.worker.polled(ready),
                polled: self.polled.push(self.worker.futures[self.worker.next]),
                completed: if ready {
                    self.completed.push(self.worker.futures[self.worker.next])
                } else {
                    self.completed
                },
                ..self
            },
            RuntimeEvent::EndRound => RuntimeLife {
                round: None,
                stopped: self.round == Some(true) && self.worker.futures.len() == 0,
                ..self
            },
        }
    }

    /// The runtime after all the events.
    pub open spec fn run(self, events: Seq<RuntimeEvent<T, W>>) -> Self
        decreases events.len(),
    {
        if events.len() == 0 {
            self
        } else {
            self.run(events.drop_last()).after(events.last())
        }
    }

    /// Each of the events can happen when its turn comes.
    pub open spec fn admits_all(self, events: Seq<RuntimeEvent<T, W>>) -> bool
        decreases events.len(),
    {
        events.len() > 0 ==> self.admits_all(events.drop_last()) && self.run(
            events.drop_last(),
        ).admits(events.last())
    }

    /// Every task that has been spawned is at one place: it has completed, the
    /// worker has it, or it is queued.
    pub open spec fn tasks_ok(self) -> bool {
        self.spawned.to_multiset() =~= self.completed.to_multiset().add(
            self.worker.futures.to_multiset(),
        ).add(self.queue.messages.to_multiset())
    }

    /// The tasks that were due in the last round are those that had been spawned and
    /// had not completed when it began. Those that have been polled and those that
    /// are still to be polled are the tasks that were due.
    pub open spec fn round_ok(self) -> bool {
        &&& self.spawned_before.to_multiset() =~= self.completed_before.to_multiset().add(
            self.due.to_multiset(),
        )
        &&& 0 <= self.worker.next <= self.worker.futures.len()
        &&& self.round is Some ==> self.polled + self.worker.futures.skip(self.worker.next)
            == self.due
        &&& self.round is None ==> self.polled == self.due
    }

    /// A worker that has stopped, or is in its last round, has seen the queue closed,
    /// and a worker that has stopped has no task.
    pub open spec fn stop_ok(self) -> bool {
        &&& self.round == Some(true) ==> self.queue.closed
        &&& self.stopped ==> self.queue.closed && self.worker.futures.len() == 0 && self.round
            is None
    }
}

/// No task is spawned after the runtime has been shut down.
pub open spec fn quiet_after_shutdown<T, W>(events: Seq<RuntimeEvent<T, W>>) -> bool {
    forall|i: int, j: int|
        0 <= i < j < events.len() && #[trigger] events[i] is Shutdown ==> !(
        #[trigger] events[j] is Spawn)
}

proof fn lemma_life<T, W>(events: Seq<RuntimeEvent<T, W>>)
    requires
        RuntimeLife::<T, W>::init().admits_all(events),
    ensures
        RuntimeLife::<T, W>::init().run(events).tasks_ok(),
        RuntimeLife::<T, W>::init().run(events).round_ok(),
        RuntimeLife::<T, W>::init().run(events).stop_ok(),
    decreases events.len(),
{
    let start = RuntimeLife::<T, W>::init();
    if events.len() > 0 {
        lemma_life(events.drop_last());
        let now = start.run(events.drop_last());
        lemma_life_step(now, events.last());
    } else {
        Seq::<T>::empty().to_multiset_ensures();
        assert(start.tasks_ok());
        assert(start.round_ok());
    }
}

proof fn lemma_life_step<T, W>(now: RuntimeLife<T, W>, event: RuntimeEvent<T, W>)
    requires
        now.tasks_ok(),
        now.round_ok(),
        now.stop_ok(),
        now.admits(event),
    ensures
        now.after(event).tasks_ok(),
        now.after(event).round_ok(),
        now.after(event).stop_ok(),
{
    let then = now.after(event);
    let futures = now.worker.futures;
    match event {
        RuntimeEvent::Spawn(task) => {
            now.spawned.to_multiset_ensures();
            now.queue.messages.to_multiset_ensures();
            assert(then.spawned.to_multiset() =~= now.spawned.to_multiset().insert(task));
            assert(then.queue.messages.to_multiset() =~= now.queue.messages.to_multiset().insert(
                task,
            ));
            assert(then.tasks_ok());
        },
        RuntimeEvent::Shutdown => {},
        RuntimeEvent::BeginRound(_) => {
            vstd::seq_lib::lemma_multiset_commutative(futures, now.queue.messages);
            Seq::<T>::empty().to_multiset_ensures();
            assert(then.tasks_ok());
            assert(then.due.to_multiset() =~= futures.to_multiset().add(
                now.queue.messages.to_multiset(),
            ));
            assert(now.completed.to_multiset().add(
                futures.to_multiset().add(now.queue.messages.to_multiset()),
            ) =~= now.completed.to_multiset().add(futures.to_multiset()).add(
                now.queue.messages.to_multiset(),
            ));
            assert(then.polled + then.worker.futures.skip(0) =~= then.due);
        },
        RuntimeEvent::Poll(ready) => {
            let next = now.worker.next;
            let task = futures[next];
            if ready {
                futures.to_multiset_ensures();
                now.completed.to_multiset_ensures();
                assert(futures.contains(task));
                assert(futures.to_multiset().count(task) > 0);
                assert(then.tasks_ok());
                assert(futures.remove(next).skip(next) =~= futures.skip(next + 1));
            }
            assert(now.polled.push(task) + futures.skip(next + 1) =~= now.polled + futures.skip(
                next,
            ));
        },
        RuntimeEvent::EndRound => {
            assert(now.polled + futures.skip(now.worker.next) =~= now.polled);
        },
    }
}

/// Every task that is spawned is at one place at a time: queued, with the worker, or
/// completed. So a task completes once, and is never polled after that: if no task
/// is spawned twice, one that has completed is neither queued nor with the worker.
pub proof fn law_completed_tasks_are_gone<T, W>(events: Seq<RuntimeEvent<T, W>>, task: T)
    requires
        RuntimeLife::<T, W>::init().admits_all(events),
        RuntimeLife::<T, W>::init().run(events).spawned.no_duplicates(),
    ensures
        ({
            let life = RuntimeLife::<T, W>::init().run(events);
            &&& life.tasks_ok()
            &&& life.completed.no_duplicates()
            &&& life.completed.contains(task) ==> !life.worker.futures.contains(task)
                && !life.queue.messages.contains(task)
        }),
{
    let life = RuntimeLife::<T, W>::init().run(events);
    lemma_life(events);
    life.spawned.lemma_multiset_has_no_duplicates();
    life.spawned.to_multiset_ensures();
    life.completed.to_multiset_ensures();
    life.worker.futures.to_multiset_ensures();
    life.queue.messages.to_multiset_ensures();
    assert forall|x: T| life.completed.to_multiset().contains(x) implies (
    #[trigger] life.completed.to_multiset().count(x)) == 1 by {
        assert(life.spawned.to_multiset().contains(x));
        assert(life.spawned.to_multiset().count(x) == 1);
    }
    life.completed.lemma_multiset_has_no_duplicates_conv();
    if life.completed.contains(task) {
        assert(life.completed.to_multiset().count(task) > 0);
        assert(life.spawned.to_multiset().contains(task));
        assert(life.spawned.to_multiset().count(task) == 1);
    }
}

/// In every round, each task that had been spawned and had not completed when the
/// round began is polled once, and no other task is polled.
pub proof fn law_rounds_poll_unfinished_tasks<T, W>(events: Seq<RuntimeEvent<T, W>>)
    requires
        RuntimeLife::<T, W>::init().admits_all(events),
        RuntimeLife::<T, W>::init().run(events).admits(RuntimeEvent::EndRound),
    ensures
        ({
            let life = RuntimeLife::<T, W>::init().run(events);
            life.spawned_before.to_multiset() == life.completed_before.to_multiset().add(
                life.polled.to_multiset(),
            )
        }),
{
    let life = RuntimeLife::<T, W>::init().run(events);
    lemma_life(events);
    assert(life.polled + life.worker.futures.skip(life.worker.next) =~= life.polled);
}

/// A worker whose runtime takes no tasks after it has been shut down stops exactly
/// when the runtime has been shut down and every task has completed: it has stopped
/// only then; it ends a round by stopping exactly if the runtime had been shut down
/// when the round began and every task has completed; and once the runtime has been
/// shut down and every task has completed, the next round has nothing to poll and
/// stops the worker.
pub proof fn law_worker_stops_when_all_is_done<T, W>(events: Seq<RuntimeEvent<T, W>>, waker: W)
    requires
        RuntimeLife::<T, W>::init().admits_all(events),
        quiet_after_shutdown(events),
    ensures
        ({
            let life = RuntimeLife::<T, W>::init().run(events);
            let all_done = life.completed.to_multiset() == life.spawned.to_multiset();
            let next_round = life.after(RuntimeEvent::BeginRound(waker));
            &&& life.stopped ==> life.queue.closed && all_done
            &&& life.admits(RuntimeEvent::EndRound) ==> life.after(RuntimeEvent::EndRound).stopped
                == (life.round == Some(true) && all_done)
            &&& life.admits(RuntimeEvent::BeginRound(waker)) && life.queue.closed && all_done ==> {
                &&& next_round.admits(RuntimeEvent::EndRound)
                &&& next_round.after(RuntimeEvent::EndRound).stopped
            }
        }),
{
    let life = RuntimeLife::<T, W>::init().run(events);
    lemma_life(events);
    lemma_quiet(events);
    let completed = life.completed.to_multiset();
    let futures = life.worker.futures.to_multiset();
    let messages = life.queue.messages.to_multiset();
    life.worker.futures.to_multiset_ensures();
    life.queue.messages.to_multiset_ensures();
    if life.queue.messages.len() == 0 && life.worker.futures.len() == 0 {
        assert(futures =~= Multiset::empty());
        assert(messages =~= Multiset::empty());
        assert(completed.add(futures).add(messages) =~= completed);
    }
    if completed == life.spawned.to_multiset() {
        assert(completed.add(futures).add(messages).len() == completed.len() + futures.len()
            + messages.len());
        assert(life.worker.futures.len() == 0);
        assert(life.queue.messages.len() == 0);
        assert(life.worker.futures + life.queue.messages =~= Seq::empty());
    }
}

/// What a worker that has seen the queue closed has not taken from it is nothing.
proof fn lemma_quiet<T, W>(events: Seq<RuntimeEvent<T, W>>)
    requires
        RuntimeLife::<T, W>::init().admits_all(events),
        quiet_after_shutdown(events),
    ensures
        ({
            let life = RuntimeLife::<T, W>::init().run(events);
            &&& life.queue.closed ==> exists|i: int|
                0 <= i < events.len() && #[trigger] events[i] is Shutdown
            &&& life.round == Some(true) || life.stopped ==> life.queue.closed
                && life.queue.messages.len() == 0
        }),
    decreases events.len(),
{
    if events.len() > 0 {
        let before = events.drop_last();
        let now = RuntimeLife::<T, W>::init().run(before);
        assert(quiet_after_shutdown(before)) by {
            assert forall|i: int, j: int|
                0 <= i < j < before.len() && #[trigger] before[i] is Shutdown implies !(
            #[trigger] before[j] is Spawn) by {
                assert(before[i] == events[i] && before[j] == events[j]);
            }
        }
        lemma_quiet(before);
        let last = events.len() - 1;
        assert(events.last() == events[last]);
        if now.queue.closed {
            let i = choose|i: int| 0 <= i < before.len() && #[trigger] before[i] is Shutdown;
            assert(before[i] == events[i]);
            assert(events[i] is Shutdown);
            assert(!(events[last] is Spawn));
        }
    }
}

/// Before the runtime is shut down, the worker does not stop, even without a task.
pub proof fn law_worker_runs_until_shutdown<T, W>(events: Seq<RuntimeEvent<T, W>>)
    requires
        RuntimeLife::<T, W>::init().admits_all(events),
        forall|i: int| 0 <= i < events.len() ==> !(#[trigger] events[i] is Shutdown),
    ensures
        !RuntimeLife::<T, W>::init().run(events).stopped,
        !RuntimeLife::<T, W>::init().run(events).queue.closed,
    decreases events.len(),
{
    lemma_life(events);
    if events.len() > 0 {
        let before = events.drop_last();
        assert(events.last() == events[events.len() - 1]);
        assert forall|i: int| 0 <= i < before.len() implies !(#[trigger] before[i] is Shutdown) by {
            assert(before[i] == events[i]);
        }
        law_worker_runs_until_shutdown(before);
    }
}

/// A shutdown is not lost, whatever is queued at the time: the queue is closed from
/// then on, and was not closed before.
pub proof fn law_shutdown_is_for_good<T, W>(events: Seq<RuntimeEvent<T, W>>)
    ensures
        RuntimeLife::<T, W>::init().run(events).queue.closed <==> exists|i: int|
            0 <= i < events.len() && #[trigger] events[i] is Shutdown,
    decreases events.len(),
{
    if events.len() > 0 {
        let before = events.drop_last();
        law_shutdown_is_for_good(before);
        let last = events.len() - 1;
        assert(events.last() == events[last]);
        if RuntimeLife::<T, W>::init().run(before).queue.closed {
            let i = choose|i: int| 0 <= i < before.len() && #[trigger] before[i] is Shutdown;
            assert(events[i] == before[i]);
        }
        if exists|i: int| 0 <= i < events.len() && #[trigger] events[i] is Shutdown {
            let i = choose|i: int| 0 <= i < events.len() && #[trigger] events[i] is Shutdown;
            if i < last {
                assert(before[i] == events[i]);
            }
        }
    }
}

/// A worker stops in the first round that begins after the shutdown and completes every
/// task: once the runtime has been shut down, with any tasks queued or with the worker,
/// the next round polls these tasks and no other, and if all of them complete, the
/// worker stops.
pub proof fn law_round_after_shutdown_stops<T, W>(
    events: Seq<RuntimeEvent<T, W>>,
    shutdown: int,
    waker: W,
)
    requires
        RuntimeLife::<T, W>::init().admits_all(events),
        0 <= shutdown < events.len(),
        events[shutdown] is Shutdown,
        RuntimeLife::<T, W>::init().run(events).admits(RuntimeEvent::BeginRound(waker)),
    ensures
        ({
            let life = RuntimeLife::<T, W>::init().run(events);
            let left = life.worker.futures + life.queue.messages;
            let polls = Seq::new(left.len(), |i: int| RuntimeEvent::<T, W>::Poll(true));
            let begun = life.after(RuntimeEvent::BeginRound(waker));
            let polled = begun.run(polls);
            &&& begun.admits_all(polls)
            &&& polled.polled == left
            &&& polled.completed == life.completed + left
            &&& polled.admits(RuntimeEvent::EndRound)
            &&& polled.after(RuntimeEvent::EndRound).stopped
        }),
{
    let life = RuntimeLife::<T, W>::init().run(events);
    let begun = life.after(RuntimeEvent::BeginRound(waker));
    law_shutdown_is_for_good(events);
    let left = life.worker.futures + life.queue.messages;
    lemma_polls_complete(begun, left.len() as int);
    let polls = Seq::new(left.len(), |i: int| RuntimeEvent::<T, W>::Poll(true));
    assert(polls =~= completing(left.len() as int));
    assert(left.take(left.len() as int) =~= left);
    assert(Seq::<T>::empty() + left =~= left);
}

/// So many polls, in each of which the task completes.
spec fn completing<T, W>(n: int) -> Seq<RuntimeEvent<T, W>> {
    Seq::new(n as nat, |i: int| RuntimeEvent::<T, W>::Poll(true))
}

proof fn lemma_polls_complete<T, W>(begun: RuntimeLife<T, W>, n: int)
    requires
        begun.round is Some,
        begun.worker.next == 0,
        0 <= n <= begun.worker.futures.len(),
    ensures
        begun.admits_all(completing(n)),
        ({
            let then = begun.run(completing(n));
            &&& then.round == begun.round
            &&& then.worker.next == 0
            &&& then.worker.futures == begun.worker.futures.skip(n)
            &&& then.polled == begun.polled + begun.worker.futures.take(n)
            &&& then.completed == begun.completed + begun.worker.futures.take(n)
        }),
    decreases n,
{
    let futures = begun.worker.futures;
    if n > 0 {
        lemma_polls_complete(begun, n - 1);
        assert(completing::<T, W>(n).drop_last() =~= completing::<T, W>(n - 1));
        assert(futures.skip(n - 1).remove(0) =~= futures.skip(n));
        assert(futures.take(n) =~= futures.take(n - 1).push(futures[n - 1]));
        assert((begun.polled + futures.take(n - 1)).push(futures[n - 1]) =~= begun.polled
            + futures.take(n));
        assert((begun.completed + futures.take(n - 1)).push(futures[n - 1]) =~= begun.completed
            + futures.take(n));
    } else {
        assert(futures.skip(0) =~= futures);
        assert(begun.polled + futures.take(0) =~= begun.polled);
        assert(begun.completed + futures.take(0) =~= begun.completed);
    }
}

} // verus!
