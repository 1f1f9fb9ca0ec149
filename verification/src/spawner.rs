//! A state that tasks can be handed through to the owner of the scope, who then
//! spawns them.
//!
//! At most one task is on its way at a time. Whoever hands one over first gets a
//! permit, of which there is one, and waits for it if need be; the permit is
//! given back when the task has been received. Waiting for the permit and for a
//! task is left to the caller.

use crate::poll::Poll;
use crate::scope::Scope;
use vstd::prelude::*;

verus! {

/// A channel, as the contracts speak of it.
#[verifier::ext_equal]
pub struct SlotView<Task, W> {
    /// The task that is on its way.
    pub task: Option<Task>,
    /// Who is to be woken when a task is handed over.
    pub waker: Option<W>,
}

impl<Task, W> SlotView<Task, W> {
    /// A channel that nobody has used.
    pub open spec fn empty() -> Self {
        SlotView { task: None, waker: None }
    }

    /// The channel after a task has been handed over.
    pub open spec fn filled(self, task: Task) -> Self {
        SlotView { task: Some(task), waker: None }
    }

    /// The channel after the receiver has looked: the task that was on its way
    /// has been received, and if there was none, `waker` is registered.
    pub open spec fn looked(self, waker: Option<W>) -> Self {
        SlotView {
            task: None,
            waker: if self.task is Some {
                self.waker
            } else {
                waker
            },
        }
    }
}

/// The place through which one task at a time is handed over.
pub struct SpawnerChannel<Task, W> {
    next_task: Option<Task>,
    waker: Option<W>,
}

impl<Task, W> View for SpawnerChannel<Task, W> {
    type V = SlotView<Task, W>;

    closed spec fn view(&self) -> SlotView<Task, W> {
        SlotView { task: self.next_task, waker: self.waker }
    }
}

impl<Task, W> Default for SpawnerChannel<Task, W> {
    /// A channel that nobody has used.
    fn default() -> (channel: Self)
        ensures
            channel@ == SlotView::<Task, W>::empty(),
    {
        Self::new()
    }
}

impl<Task, W> SpawnerChannel<Task, W> {
    /// A channel that nobody has used.
    pub fn new() -> (channel: Self)
        ensures
            channel@ == SlotView::<Task, W>::empty(),
    {
        SpawnerChannel { next_task: None, waker: None }
    }

    /// Whether no task is on its way.
    pub fn is_free(&self) -> (free: bool)
        ensures
            free == (self@.task is None),
    {
        self.next_task.is_none()
    }

    /// Hands a task over. The caller has the permit, so that no other task is on
    /// its way. The waker that comes back is to be woken.
    pub fn spawn(&mut self, t: Task) -> (waker: Option<W>)
        requires
            old(self)@.task is None,
        ensures
            final(self)@ == old(self)@.filled(t),
            waker == old(self)@.waker,
    {
        self.next_task = Some(t);
        self.waker.take()
    }

    /// Gets a task out of the channel, if one is on its way; the permit is to be
    /// given back then. Otherwise registers a clone of the waker.
    pub fn pop(&mut self, waker: &W) -> (task: Option<Task>) where W: Clone
        ensures
            task == old(self)@.task,
            final(self)@ == old(self)@.looked(final(self)@.waker),
            task is None ==> (final(self)@.waker matches Some(registered) && cloned(
                *waker,
                registered,
            )),
    {
        let task = self.next_task.take();
        if task.is_none() {
            self.waker = Some(waker.clone());
        }
        task
    }
}

impl<Task, W: Clone> SpawnerChannel<Task, W> {
    /// Gets a task out of the channel or finds that `scope` has run out of tasks,
    /// whichever comes first. If both have come, `empty_first` decides. While
    /// neither has come, the waker is registered with both.
    pub fn pop_or_empty<State, Rt>(
        &mut self,
        scope: &mut Scope<State, W, Rt>,
        waker: &W,
        empty_first: bool,
    ) -> (poll: Poll<Option<Task>>)
        requires
            old(scope).wf(),
        ensures
            final(scope).wf(),
            final(scope)@ == old(scope)@.with_waker(final(scope)@.shared.lock.waker),
            ({
                let empty = old(scope)@.removed || old(scope)@.shared.lock.idle();
                let task = old(self)@.task;
                let looks_for_task = !(empty && empty_first);
                let looks_at_scope = empty_first || task is None;
                &&& poll == (if looks_for_task && task is Some {
                    Poll::Ready(task)
                } else if empty {
                    Poll::Ready(None)
                } else {
                    Poll::Pending
                })
                &&& final(self)@ == (if looks_for_task {
                    old(self)@.looked(final(self)@.waker)
                } else {
                    old(self)@
                })
                &&& looks_for_task && task is None ==> (final(self)@.waker matches Some(
                    registered,
                ) && cloned(*waker, registered))
                &&& if looks_at_scope && !empty {
                    final(scope)@.shared.lock.waker matches Some(registered) && cloned(
                        *waker,
                        registered,
                    )
                } else {
                    final(scope)@.shared.lock.waker == old(scope)@.shared.lock.waker
                }
            }),
    {
        if empty_first {
            if let Poll::Ready(()) = scope.poll_until_empty(waker) {
                return Poll::Ready(None);
            }
        }
        let task = self.pop(waker);
        if task.is_some() {
            return Poll::Ready(task);
        }
        if !empty_first {
            if let Poll::Ready(()) = scope.poll_until_empty(waker) {
                return Poll::Ready(None);
            }
        }
        Poll::Pending
    }
}

/// A state, with a place through which tasks are handed to the scope's owner.
pub struct StateWithSpawner<State, Task, W> {
    /// The state.
    pub state: State,
    /// The place through which tasks are handed over.
    pub spawner: SpawnerChannel<Task, W>,
}

impl<State, Task, W> StateWithSpawner<State, Task, W> {
    /// A state with no task on its way.
    pub fn new(state: State) -> (with_spawner: Self)
        ensures
            with_spawner.state == state,
            with_spawner.spawner@ == SlotView::<Task, W>::empty(),
    {
        StateWithSpawner { state, spawner: SpawnerChannel::new() }
    }

    /// Hands a task over, as [`SpawnerChannel::spawn`] does. The waker that comes
    /// back is to be woken.
    pub fn spawn(&mut self, t: Task) -> (waker: Option<W>)
        requires
            old(self).spawner@.task is None,
        ensures
            final(self).spawner@ == old(self).spawner@.filled(t),
            final(self).state == old(self).state,
            waker == old(self).spawner@.waker,
    {
        self.spawner.spawn(t)
    }
}

impl<State, Task, W: Clone, Rt> Scope<StateWithSpawner<State, Task, W>, W, Rt> {
    /// Waits for a task that is handed over, or for the scope to run out of
    /// tasks, whichever comes first. If both have come, `empty_first` decides.
    /// While neither has come, the waker is registered with both.
    pub fn pop_task(&mut self, waker: &W, empty_first: bool) -> (poll: Poll<Option<Task>>)
        requires
            old(self).wf(),
            !old(self)@.removed,
        ensures
            final(self).wf(),
            ({
                let idle = old(self)@.shared.lock.idle();
                let before = old(self)@.shared.state->0;
                let task = before.spawner@.task;
                let looks_for_task = !(idle && empty_first);
                let looks_at_tasks = empty_first || task is None;
                &&& poll == (if looks_for_task && task is Some {
                    Poll::Ready(task)
                } else if idle {
                    Poll::Ready(None)
                } else {
                    Poll::Pending
                })
                &&& final(self)@.shared.state matches Some(after) && {
                    &&& after.state == before.state
                    &&& after.spawner@ == (if looks_for_task {
                        before.spawner@.looked(after.spawner@.waker)
                    } else {
                        before.spawner@
                    })
                    &&& looks_for_task && task is None ==> (after.spawner@.waker matches Some(
                        registered,
                    ) && cloned(*waker, registered))
                    &&& final(self)@ == old(self)@.with_state(after).with_waker(
                        final(self)@.shared.lock.waker,
                    )
                }
                &&& if looks_at_tasks && !idle {
                    final(self)@.shared.lock.waker matches Some(registered) && cloned(
                        *waker,
                        registered,
                    )
                } else {
                    final(self)@.shared.lock.waker == old(self)@.shared.lock.waker
                }
            }),
    {
        let StateWithSpawner { state, mut spawner } = self.take_state();
        self.put_state(StateWithSpawner::new(state));
        let poll = spawner.pop_or_empty(self, waker, empty_first);
        let StateWithSpawner { state, .. } = self.take_state();
        self.put_state(StateWithSpawner { state, spawner });
        poll
    }
}

/// A channel, the permit that goes with it, and the one who receives from it.
pub struct Handover<Task, W> {
    /// The permits that nobody has.
    pub permits: nat,
    /// Those who have a permit and have not handed their task over.
    pub senders: nat,
    /// The channel.
    pub slot: SlotView<Task, W>,
    /// The permits of tasks that have been received, to be given back.
    pub owed: nat,
}

/// One thing that happens to a channel.
pub enum HandoverEvent<Task, W> {
    /// Somebody gets a permit.
    Acquire,
    /// Somebody hands a task over.
    Spawn(Task),
    /// The receiver looks for a task, with this waker.
    Look(W),
    /// The permit of a task that has been received is given back.
    Release,
}

impl<Task, W> Handover<Task, W> {
    /// A channel that nobody has used, with one permit.
    pub open spec fn init() -> Self {
        Handover { permits: 1, senders: 0, slot: SlotView::empty(), owed: 0 }
    }

    /// The event can happen now.
    pub open spec fn admits(self, event: HandoverEvent<Task, W>) -> bool {
        match event {
            HandoverEvent::Acquire => self.permits > 0,
            HandoverEvent::Spawn(_) => self.senders > 0,
            HandoverEvent::Look(_) => true,
            HandoverEvent::Release => self.owed > 0,
        }
    }

    /// The channel after the event.
    pub open spec fn after(self, event: HandoverEvent<Task, W>) -> Self {
        match event {
            HandoverEvent::Acquire => Handover {
                permits: (self.permits - 1) as nat,
                senders: self.senders + 1,
                ..self
            },
            HandoverEvent::Spawn(task) => Handover {
                senders: (self.senders - 1) as nat,
                slot: self.slot.filled(task),
                ..self
            },
            HandoverEvent::Look(waker) => Handover {
                slot: self.slot.looked(Some(waker)),
                owed: if self.slot.task is Some {
                    self.owed + 1
                } else {
                    self.owed
                },
                ..self
            },
            HandoverEvent::Release => Handover {
                owed: (self.owed - 1) as nat,
                permits: self.permits + 1,
                ..self
            },
        }
    }

    /// The channel after all the events.
    pub open spec fn run(self, events: Seq<HandoverEvent<Task, W>>) -> Self
        decreases events.len(),
    {
        if events.len() == 0 {
            self
        } else {
            self.run(events.drop_last()).after(events.last())
        }
    }

    /// Each of the events can happen when its turn comes.
    pub open spec fn admits_all(self, events: Seq<HandoverEvent<Task, W>>) -> bool
        decreases events.len(),
    {
        events.len() > 0 ==> self.admits_all(events.drop_last()) && self.run(
            events.drop_last(),
        ).admits(events.last())
    }

    /// The tasks that the events receive.
    pub open spec fn received(self, events: Seq<HandoverEvent<Task, W>>) -> Seq<Task>
        decreases events.len(),
    {
        if events.len() == 0 {
            Seq::empty()
        } else {
            match (events.last(), self.run(events.drop_last()).slot.task) {
                (HandoverEvent::Look(_), Some(task)) => self.received(events.drop_last()).push(
                    task,
                ),
                _ => self.received(events.drop_last()),
            }
        }
    }

    /// The wakers that the events wake, in order.
    pub open spec fn woken(self, events: Seq<HandoverEvent<Task, W>>) -> Seq<W>
        decreases events.len(),
    {
        if events.len() == 0 {
            Seq::empty()
        } else {
            match (events.last(), self.run(events.drop_last()).slot.waker) {
                (HandoverEvent::Spawn(_), Some(waker)) => self.woken(events.drop_last()).push(
                    waker,
                ),
                _ => self.woken(events.drop_last()),
            }
        }
    }
}

/// The tasks that the events hand over.
pub open spec fn handed_over<Task, W>(events: Seq<HandoverEvent<Task, W>>) -> Seq<Task>
    decreases events.len(),
{
    if events.len() == 0 {
        Seq::empty()
    } else {
        match events.last() {
            HandoverEvent::Spawn(task) => handed_over(events.drop_last()).push(task),
            _ => handed_over(events.drop_last()),
        }
    }
}

/// The one permit is at one place at a time: free, with somebody who is about to
/// hand a task over, with the task on its way, or about to be given back. And
/// while a task is on its way, nobody waits to be woken by one.
pub proof fn law_one_permit<Task, W>(events: Seq<HandoverEvent<Task, W>>)
    requires
        Handover::<Task, W>::init().admits_all(events),
    ensures
        ({
            let channel = Handover::<Task, W>::init().run(events);
            &&& channel.permits + channel.senders + channel.owed + (if channel.slot.task is Some {
                1nat
            } else {
                0
            }) == 1
            &&& channel.slot.task is Some ==> channel.slot.waker is None
        }),
    decreases events.len(),
{
    if events.len() > 0 {
        law_one_permit(events.drop_last());
    }
}

/// Whoever hands a task over finds no other task on its way.
pub proof fn law_spawn_finds_channel_free<Task, W>(
    events: Seq<HandoverEvent<Task, W>>,
    task: Task,
)
    requires
        Handover::<Task, W>::init().admits_all(events),
        Handover::<Task, W>::init().run(events).admits(HandoverEvent::Spawn(task)),
    ensures
        Handover::<Task, W>::init().run(events).slot.task is None,
{
    law_one_permit(events);
}

/// Every task that is handed over is received once, in order.
pub proof fn law_tasks_arrive_in_order<Task, W>(events: Seq<HandoverEvent<Task, W>>)
    requires
        Handover::<Task, W>::init().admits_all(events),
    ensures
        handed_over(events) == Handover::<Task, W>::init().received(events) + (
        match Handover::<Task, W>::init().run(events).slot.task {
            Some(task) => seq![task],
            None => Seq::empty(),
        }),
    decreases events.len(),
{
    let start = Handover::<Task, W>::init();
    if events.len() > 0 {
        let before = events.drop_last();
        law_tasks_arrive_in_order(before);
        law_one_permit(before);
        let now = start.run(before);
        match (events.last(), now.slot.task) {
            (HandoverEvent::Spawn(task), _) => {
                assert(now.slot.task is None);
                assert(start.received(before) + Seq::empty() =~= start.received(before));
                assert(start.received(before) + seq![task] =~= start.received(before).push(task));
            },
            (HandoverEvent::Look(_), Some(task)) => {
                assert(start.received(before) + seq![task] =~= start.received(before).push(task)
                    + Seq::empty());
            },
            _ => {},
        }
    } else {
        assert(Seq::<Task>::empty() + Seq::empty() =~= Seq::empty());
    }
}

/// A receiver that has looked in vain is woken once, by the first task that is
/// handed over from then on.
pub proof fn law_handover_wakes_receiver<Task, W>(
    channel: Handover<Task, W>,
    waker: W,
    events: Seq<HandoverEvent<Task, W>>,
)
    requires
        channel.slot.task is None,
        forall|i: int| 0 <= i < events.len() ==> !(#[trigger] events[i] is Look),
    ensures
        ({
            let waiting = channel.after(HandoverEvent::Look(waker));
            let arrived = handed_over(events).len() > 0;
            &&& waiting.woken(events) == (if arrived {
                seq![waker]
            } else {
                Seq::empty()
            })
            &&& waiting.run(events).slot.waker == (if arrived {
                None
            } else {
                Some(waker)
            })
            &&& waiting.run(events).slot.task is Some == arrived
        }),
    decreases events.len(),
{
    let waiting = channel.after(HandoverEvent::Look(waker));
    if events.len() > 0 {
        let before = events.drop_last();
        assert(events.last() == events[events.len() - 1]);
        assert forall|i: int| 0 <= i < before.len() implies !(#[trigger] before[i] is Look) by {
            assert(before[i] == events[i]);
        }
        law_handover_wakes_receiver(channel, waker, before);
        if handed_over(before).len() == 0 && events.last() is Spawn {
            assert(waiting.woken(events) =~= seq![waker]);
        }
    }
}

/// Looking into a channel leaves no task there. A receiver that finds a task is not
/// registered, and whoever was registered stays so; a receiver that finds none is
/// registered in place of any other. A task that is handed over is the one that is on
/// its way from then on, and nobody is registered any more.
pub proof fn law_look_registers_only_in_vain<Task, W>(
    slot: SlotView<Task, W>,
    waker: Option<W>,
    task: Task,
)
    ensures
        SlotView::<Task, W>::empty().task is None,
        SlotView::<Task, W>::empty().waker is None,
        slot.looked(waker).task is None,
        slot.task is Some ==> slot.looked(waker).waker == slot.waker,
        slot.task is None ==> slot.looked(waker).waker == waker,
        slot.filled(task).task == Some(task),
        slot.filled(task).waker is None,
        slot.filled(task).looked(waker) == SlotView::<Task, W>::empty(),
{
}

} // verus!
