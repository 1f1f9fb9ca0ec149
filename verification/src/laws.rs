//! What holds of a scope over its whole life.
//!
//! A life of a scope is a sequence of events, each of which is one call of a
//! function of [`crate::scope`] by the owner or by a task. The functions'
//! contracts say when an event is admitted and what it changes; the laws here
//! follow from these for every sequence of events.

use crate::lock_state::LockView;
use crate::scope::{NestedStack, ScopeView};
use crate::slots::{slot_index, slot_version};
use vstd::prelude::*;

verus! {

/// One thing that happens to a scope.
pub enum Event<W> {
    /// The owner spawns a task, which gets this key.
    Spawn(u64),
    /// A task spawns a task, which gets this key.
    TaskSpawn(u64),
    /// The abort handle of the task with this key becomes known.
    SetHandle(u64, u64),
    /// The task with this key ends.
    End(u64),
    /// The owner awaits the scope, with this waker.
    Poll(W),
    /// The owner waits for the tasks to end, with this waker.
    PollUntilEmpty(W),
    /// The owner begins to drop the scope.
    BeginDrop,
    /// The owner, who slept while dropping the scope, has been woken.
    ResumeDrop,
}

impl<W> Event<W> {
    /// The event begins, ends or concerns a task; the owner neither waits for the
    /// scope nor drops it.
    pub open spec fn of_task(self) -> bool {
        self.spawns() || self is SetHandle || self is End
    }

    /// The event adds a task.
    pub open spec fn spawns(self) -> bool {
        self is Spawn || self is TaskSpawn
    }
}

impl<State, W, Rt> ScopeView<State, W, Rt> {
    /// The event can happen now.
    pub open spec fn admits(self, event: Event<W>) -> bool {
        match event {
            Event::Spawn(key) => !self.started_locking && self.shared.lock.room()
                && self.shared.lock.offers(key),
            Event::TaskSpawn(key) => !self.started_locking && self.shared.lock.room()
                && self.shared.lock.offers(key),
            Event::SetHandle(_, _) => true,
            Event::End(key) => self.shared.lock.tasks.contains_key(key),
            Event::Poll(_) => !self.removed,
            Event::PollUntilEmpty(_) => true,
            Event::BeginDrop => true,
            Event::ResumeDrop => !self.removed && self.shared.lock.parked,
        }
    }

    /// The scope after the event.
    pub open spec fn after(self, event: Event<W>) -> Self {
        match event {
            Event::Spawn(key) => self.with_lock(self.shared.lock.with_task(key)),
            Event::TaskSpawn(key) => self.with_lock(self.shared.lock.with_task(key)),
            Event::SetHandle(key, handle) => self.with_lock(
                self.shared.lock.with_handle(key, handle),
            ),
            Event::End(key) => self.with_lock(self.shared.lock.without_task(key)),
            Event::Poll(waker) => if self.shared.lock.idle() {
                self.finished()
            } else {
                self.started().with_waker(Some(waker))
            },
            Event::PollUntilEmpty(waker) => if self.removed || self.shared.lock.idle() {
                self
            } else {
                self.with_waker(Some(waker))
            },
            Event::BeginDrop => self.dropping(),
            Event::ResumeDrop => self.draining(),
        }
    }

    /// The waker that the event wakes.
    pub open spec fn woken_by(self, event: Event<W>) -> Option<W> {
        match event {
            Event::End(key) if self.shared.lock.ends_with(key) => self.shared.lock.waker,
            _ => None,
        }
    }

    /// The event notifies the sleeping owner.
    pub open spec fn notified_by(self, event: Event<W>) -> bool {
        match event {
            Event::End(key) => self.shared.lock.ends_with(key) && self.shared.lock.parked,
            _ => false,
        }
    }

    /// The event finds that the task is to be aborted at once.
    pub open spec fn aborted_by(self, event: Event<W>) -> bool {
        match event {
            Event::SetHandle(key, _) => self.shared.lock.handle_use(key) is Abort,
            _ => false,
        }
    }

    /// The scope after all the events.
    pub open spec fn run(self, events: Seq<Event<W>>) -> Self
        decreases events.len(),
    {
        if events.len() == 0 {
            self
        } else {
            self.run(events.drop_last()).after(events.last())
        }
    }

    /// Each of the events can happen when its turn comes.
    pub open spec fn admits_all(self, events: Seq<Event<W>>) -> bool
        decreases events.len(),
    {
        events.len() > 0 ==> self.admits_all(events.drop_last()) && self.run(
            events.drop_last(),
        ).admits(events.last())
    }

    /// The wakers that the events wake, in order.
    pub open spec fn woken(self, events: Seq<Event<W>>) -> Seq<W>
        decreases events.len(),
    {
        if events.len() == 0 {
            Seq::empty()
        } else {
            let before = self.woken(events.drop_last());
            match self.run(events.drop_last()).woken_by(events.last()) {
                Some(waker) => before.push(waker),
                None => before,
            }
        }
    }

    /// How often the events notify the sleeping owner.
    pub open spec fn notifications(self, events: Seq<Event<W>>) -> nat
        decreases events.len(),
    {
        if events.len() == 0 {
            0
        } else {
            self.notifications(events.drop_last()) + if self.run(events.drop_last()).notified_by(
                events.last(),
            ) {
                1nat
            } else {
                0
            }
        }
    }
}

/// How many of the events add a task.
pub open spec fn spawned<W>(events: Seq<Event<W>>) -> nat
    decreases events.len(),
{
    if events.len() == 0 {
        0
    } else {
        spawned(events.drop_last()) + if events.last().spawns() {
            1nat
        } else {
            0
        }
    }
}

/// How many of the events end a task.
pub open spec fn ended<W>(events: Seq<Event<W>>) -> nat
    decreases events.len(),
{
    if events.len() == 0 {
        0
    } else {
        ended(events.drop_last()) + if events.last() is End {
            1nat
        } else {
            0
        }
    }
}

/// A valid scope stays valid, whatever happens to it.
pub proof fn law_stays_valid<State, W, Rt>(
    scope: ScopeView<State, W, Rt>,
    events: Seq<Event<W>>,
)
    requires
        scope.valid(),
        scope.admits_all(events),
    ensures
        scope.run(events).valid(),
    decreases events.len(),
{
    if events.len() > 0 {
        law_stays_valid(scope, events.drop_last());
        lemma_step_valid(scope.run(events.drop_last()), events.last());
    }
}

pub(crate) proof fn lemma_step_valid<State, W, Rt>(scope: ScopeView<State, W, Rt>, event: Event<W>)
    requires
        scope.valid(),
        scope.admits(event),
    ensures
        scope.after(event).valid(),
{
    lemma_keys_after(scope, event);
    let lock = scope.shared.lock;
    match event {
        Event::Spawn(key) => crate::lock_state::lemma_with_task_valid(lock, key),
        Event::TaskSpawn(key) => crate::lock_state::lemma_with_task_valid(lock, key),
        Event::End(key) => crate::lock_state::lemma_without_task_valid(lock, key),
        _ => {
            let after = scope.after(event).shared.lock;
            assert(after.versions == lock.versions);
            assert forall|key: u64| #[trigger] after.tasks.contains_key(key) implies
                lock.tasks.contains_key(key) by {
                assert(after.tasks.dom().contains(key));
            }
        },
    }
}

/// A scope hands back the state that it was made with: until it is removed, it
/// holds that state and no other. The runtime stays the same too.
pub proof fn law_keeps_state<State, W, Rt>(state: State, runtime: Rt, events: Seq<Event<W>>)
    requires
        ScopeView::<State, W, Rt>::fresh(state, runtime).admits_all(events),
    ensures
        ({
            let scope = ScopeView::<State, W, Rt>::fresh(state, runtime).run(events);
            &&& !scope.removed ==> scope.shared.state == Some(state)
            &&& scope.removed ==> scope.shared.state is None
            &&& scope.shared.runtime == runtime
        }),
    decreases events.len(),
{
    if events.len() > 0 {
        law_keeps_state::<State, W, Rt>(state, runtime, events.drop_last());
    }
}

/// The number of live tasks is the number of tasks that were spawned less the
/// number of those that have ended.
pub proof fn law_counts_tasks<State, W, Rt>(state: State, runtime: Rt, events: Seq<Event<W>>)
    requires
        ScopeView::<State, W, Rt>::fresh(state, runtime).admits_all(events),
    ensures
        ({
            let tasks = ScopeView::<State, W, Rt>::fresh(state, runtime).run(
                events,
            ).shared.lock.tasks;
            &&& tasks.dom().finite()
            &&& tasks.len() + ended(events) == spawned(events)
        }),
    decreases events.len(),
{
    if events.len() > 0 {
        law_counts_tasks::<State, W, Rt>(state, runtime, events.drop_last());
        lemma_keys_after(
            ScopeView::<State, W, Rt>::fresh(state, runtime).run(events.drop_last()),
            events.last(),
        );
    }
}

/// Awaiting a scope that has not been removed succeeds exactly when as many tasks
/// have ended as were spawned, and it hands back the state that the scope was made
/// with.
pub proof fn law_await_gives_state_back<State, W, Rt>(
    state: State,
    runtime: Rt,
    events: Seq<Event<W>>,
    waker: W,
)
    requires
        ScopeView::<State, W, Rt>::fresh(state, runtime).admits_all(events),
        ScopeView::<State, W, Rt>::fresh(state, runtime).run(events).admits(Event::Poll(waker)),
    ensures
        ({
            let scope = ScopeView::<State, W, Rt>::fresh(state, runtime).run(events);
            &&& scope.shared.state == Some(state)
            &&& scope.shared.lock.idle() == (ended(events) == spawned(events))
            &&& scope.after(Event::Poll(waker)).removed == scope.shared.lock.idle()
        }),
{
    law_keeps_state::<State, W, Rt>(state, runtime, events);
    law_counts_tasks::<State, W, Rt>(state, runtime, events);
    crate::lock_state::lemma_idle(
        ScopeView::<State, W, Rt>::fresh(state, runtime).run(events).shared.lock,
    );
}

/// The keys of the live tasks after one event.
pub(crate) proof fn lemma_keys_after<State, W, Rt>(scope: ScopeView<State, W, Rt>, event: Event<W>)
    ensures
        scope.after(event).shared.lock.tasks.dom() == (match event {
            Event::Spawn(key) => scope.shared.lock.tasks.dom().insert(key),
            Event::TaskSpawn(key) => scope.shared.lock.tasks.dom().insert(key),
            Event::End(key) => scope.shared.lock.tasks.dom().remove(key),
            _ => scope.shared.lock.tasks.dom(),
        }),
{
    let before = scope.shared.lock.tasks;
    let after = scope.after(event).shared.lock.tasks;
    match event {
        Event::SetHandle(_, _) => {
            assert(after.dom() =~= before.dom());
        },
        Event::BeginDrop => {
            assert(after.dom() =~= before.dom());
        },
        _ => {},
    }
}

/// A task that is spawned and ends leaves the list of tasks as it was.
pub proof fn law_end_undoes_spawn<W>(lock: LockView<W>, key: u64)
    requires
        !lock.tasks.contains_key(key),
    ensures
        lock.with_task(key).without_task(key).tasks == lock.tasks,
        lock.with_task(key).ends_with(key) == lock.idle(),
{
    assert(lock.tasks.insert(key, None).remove(key) =~= lock.tasks);
}

/// How far the slot of `key` has moved on from the version that `key` tells.
pub open spec fn moved_on<W>(lock: LockView<W>, key: u64) -> int {
    let version = lock.versions[slot_index(key)] as int;
    if version >= slot_version(key) {
        version - slot_version(key)
    } else {
        version - slot_version(key) + 0x1_0000_0000
    }
}

/// The key of a task that has ended is not given to another task until its slot has
/// gone through all of its versions, for which `0x8000_0000` tasks have to be spawned.
/// Until then, an abort handle that comes late, under the key of the task that has
/// ended, changes nothing and does not abort another task.
pub proof fn law_ended_key_stays_unused<State, W, Rt>(
    scope: ScopeView<State, W, Rt>,
    key: u64,
    events: Seq<Event<W>>,
    handle: u64,
)
    requires
        scope.valid(),
        scope.admits(Event::End(key)),
        scope.after(Event::End(key)).admits_all(events),
        spawned(events) < 0x8000_0000,
    ensures
        ({
            let then = scope.after(Event::End(key)).run(events);
            &&& !then.shared.lock.tasks.contains_key(key)
            &&& then.shared.lock.handle_use(key) is Ended
            &&& then.after(Event::SetHandle(key, handle)) == then
            &&& !then.aborted_by(Event::SetHandle(key, handle))
        }),
{
    lemma_step_valid(scope, Event::End(key));
    law_stays_valid(scope.after(Event::End(key)), events);
    lemma_moves_on(scope, key, events);
}

/// A slot moves on by two versions at most with each new task.
proof fn lemma_moves_on<State, W, Rt>(
    scope: ScopeView<State, W, Rt>,
    key: u64,
    events: Seq<Event<W>>,
)
    requires
        scope.valid(),
        scope.admits(Event::End(key)),
        scope.after(Event::End(key)).admits_all(events),
        spawned(events) < 0x8000_0000,
    ensures
        ({
            let lock = scope.after(Event::End(key)).run(events).shared.lock;
            let spawned = spawned(events);
            &&& lock.versions.contains_key(slot_index(key))
            &&& 0 < moved_on(lock, key)
            &&& moved_on(lock, key) <= (if lock.versions[slot_index(key)] % 2 == 0 {
                2 * spawned + 1
            } else {
                2 * spawned
            })
        }),
    decreases events.len(),
{
    let ended = scope.after(Event::End(key));
    if events.len() > 0 {
        let before = events.drop_last();
        lemma_step_valid(scope, Event::End(key));
        law_stays_valid(ended, before);
        lemma_moves_on(scope, key, before);
        let now = ended.run(before);
        let event = events.last();
        match event {
            Event::End(other) => {
                assert(now.shared.lock.tasks.contains_key(other));
            },
            _ => {},
        }
    } else {
        assert(scope.shared.lock.tasks.contains_key(key));
    }
}

/// A scope that is closed stays closed, and takes no new task from then on,
/// neither from its owner nor from a task.
pub proof fn law_stays_closed<State, W, Rt>(
    scope: ScopeView<State, W, Rt>,
    events: Seq<Event<W>>,
    key: u64,
)
    requires
        scope.valid(),
        scope.shared.lock.closed,
        scope.admits_all(events),
    ensures
        scope.run(events).shared.lock.closed,
        !scope.run(events).admits(Event::Spawn(key)),
        !scope.run(events).admits(Event::TaskSpawn(key)),
    decreases events.len(),
{
    law_stays_valid(scope, events);
    if events.len() > 0 {
        law_stays_closed(scope, events.drop_last(), key);
    }
}

/// Once the owner has begun to await or to drop the scope, neither the owner nor a
/// task can spawn.
pub proof fn law_no_spawn_after_await<State, W, Rt>(
    scope: ScopeView<State, W, Rt>,
    events: Seq<Event<W>>,
    key: u64,
)
    requires
        scope.started_locking,
        scope.admits_all(events),
    ensures
        scope.run(events).started_locking,
        !scope.run(events).admits(Event::Spawn(key)),
        !scope.run(events).admits(Event::TaskSpawn(key)),
    decreases events.len(),
{
    if events.len() > 0 {
        law_no_spawn_after_await(scope, events.drop_last(), key);
    }
}

/// Once the state is gone, nothing changes any more.
pub proof fn law_removed_is_final<State, W, Rt>(
    scope: ScopeView<State, W, Rt>,
    events: Seq<Event<W>>,
)
    requires
        scope.valid(),
        scope.removed,
        scope.admits_all(events),
    ensures
        scope.run(events) == scope,
    decreases events.len(),
{
    if events.len() > 0 {
        law_removed_is_final(scope, events.drop_last());
        lemma_removed_step(scope, events.last());
    }
}

proof fn lemma_removed_step<State, W, Rt>(scope: ScopeView<State, W, Rt>, event: Event<W>)
    requires
        scope.valid(),
        scope.removed,
        scope.admits(event),
    ensures
        scope.after(event) == scope,
{
    match event {
        Event::TaskSpawn(_) => {},
        Event::End(key) => {
            assert(!scope.shared.lock.tasks.dom().contains(key));
        },
        Event::SetHandle(key, _) => {
            assert(!scope.shared.lock.tasks.dom().contains(key));
        },
        _ => {},
    }
}

/// The state is there for as long as a task is alive.
pub proof fn law_state_outlives_tasks<State, W, Rt>(
    state: State,
    runtime: Rt,
    events: Seq<Event<W>>,
    key: u64,
)
    requires
        ScopeView::<State, W, Rt>::fresh(state, runtime).admits_all(events),
        ScopeView::<State, W, Rt>::fresh(state, runtime).run(
            events,
        ).shared.lock.tasks.contains_key(key),
    ensures
        ScopeView::<State, W, Rt>::fresh(state, runtime).run(events).shared.state == Some(state),
{
    let scope = ScopeView::<State, W, Rt>::fresh(state, runtime);
    law_stays_valid(scope, events);
    law_keeps_state::<State, W, Rt>(state, runtime, events);
    assert(scope.run(events).shared.lock.tasks.dom().contains(key));
}

/// An owner that waits for tasks is woken exactly once, by the last one to end: once
/// a waker is registered, and whatever tasks begin and end from then on, either some
/// task has been alive ever since, and the waker is still registered and nobody has
/// been woken, or the waker has been woken, once, and nobody else has.
pub proof fn law_last_task_wakes<State, W, Rt>(
    scope: ScopeView<State, W, Rt>,
    events: Seq<Event<W>>,
    waker: W,
)
    requires
        !scope.shared.lock.idle(),
        scope.shared.lock.waker == Some(waker),
        scope.admits_all(events),
        forall|i: int| 0 <= i < events.len() ==> (#[trigger] events[i]).of_task(),
    ensures
        ({
            let then = scope.run(events);
            &&& scope.woken(events) == (if then.shared.lock.waker is None {
                seq![waker]
            } else {
                Seq::empty()
            })
            &&& then.shared.lock.waker is Some ==> then.shared.lock.waker == Some(waker)
                && !then.shared.lock.idle()
        }),
    decreases events.len(),
{
    if events.len() > 0 {
        let before = events.drop_last();
        assert forall|i: int| 0 <= i < before.len() implies (#[trigger] before[i]).of_task() by {
            assert(before[i] == events[i]);
        }
        law_last_task_wakes(scope, before, waker);
        let event = events.last();
        assert(event == events[events.len() - 1]);
        let now = scope.run(before);
        lemma_keys_after(now, event);
        match event {
            Event::Spawn(key) => {
                assert(now.after(event).shared.lock.tasks.dom().contains(key));
            },
            Event::TaskSpawn(key) => {
                assert(now.after(event).shared.lock.tasks.dom().contains(key));
            },
            Event::End(key) => {
                if now.shared.lock.ends_with(key) && now.shared.lock.waker is Some {
                    assert(Seq::<W>::empty().push(waker) =~= seq![waker]);
                }
            },
            _ => {},
        }
    }
}

/// An owner that sleeps while it drops the scope is notified once, by the last
/// task to end.
pub proof fn law_last_task_notifies<State, W, Rt>(
    scope: ScopeView<State, W, Rt>,
    events: Seq<Event<W>>,
)
    requires
        scope.valid(),
        scope.shared.lock.parked,
        !scope.shared.lock.idle(),
        scope.admits_all(events),
        forall|i: int| 0 <= i < events.len() ==> (#[trigger] events[i]).of_task(),
    ensures
        scope.run(events).shared.lock.parked,
        scope.notifications(events) == (if scope.run(events).shared.lock.idle() {
            1nat
        } else {
            0
        }),
    decreases events.len(),
{
    if events.len() > 0 {
        let before = events.drop_last();
        assert forall|i: int| 0 <= i < before.len() implies (#[trigger] before[i]).of_task() by {
            assert(before[i] == events[i]);
        }
        law_last_task_notifies(scope, before);
        let event = events.last();
        assert(event == events[events.len() - 1]);
        let now = scope.run(before);
        lemma_keys_after(now, event);
        match event {
            Event::Spawn(key) => law_stays_closed(scope, before, key),
            Event::TaskSpawn(key) => law_stays_closed(scope, before, key),
            Event::End(key) => {
                assert(now.shared.lock.tasks.dom().contains(key));
            },
            _ => {},
        }
    }
}

/// Dropping a scope aborts every task that is alive: the abort handle of the
/// task is among those that are taken out, or it is not known yet, and then the
/// task is aborted when it becomes known, if the task is still alive by then.
pub proof fn law_drop_aborts_tasks<State, W, Rt>(
    scope: ScopeView<State, W, Rt>,
    keys: Seq<u64>,
    key: u64,
    events: Seq<Event<W>>,
    later: u64,
)
    requires
        scope.valid(),
        !scope.removed,
        crate::lock_state::lists(keys, scope.shared.lock.tasks),
        scope.shared.lock.tasks.contains_key(key),
        scope.dropping().admits_all(events),
    ensures
        match scope.shared.lock.tasks[key] {
            Some(handle) => crate::lock_state::known_handles(
                keys,
                scope.shared.lock.tasks,
            ).contains(handle),
            None => {
                let then = scope.dropping().run(events);
                then.shared.lock.tasks.contains_key(key) ==> then.aborted_by(
                    Event::SetHandle(key, later),
                )
            },
        },
{
    let tasks = scope.shared.lock.tasks;
    assert(keys.to_set().contains(key));
    let i = choose|i: int| 0 <= i < keys.len() && keys[i] == key;
    lemma_handle_is_known(keys, tasks, i);
    lemma_step_valid(scope, Event::BeginDrop);
    assert(scope.dropping() == scope.after(Event::BeginDrop));
    law_stays_closed(scope.dropping(), events, 0);
}

/// The handle of each listed task is among the known ones.
pub(crate) proof fn lemma_handle_is_known(keys: Seq<u64>, tasks: Map<u64, Option<u64>>, i: int)
    requires
        0 <= i < keys.len(),
    ensures
        tasks[keys[i]] matches Some(handle) ==> crate::lock_state::known_handles(
            keys,
            tasks,
        ).contains(handle),
    decreases keys.len(),
{
    let all = crate::lock_state::known_handles(keys, tasks);
    let before = crate::lock_state::known_handles(keys.drop_last(), tasks);
    if let Some(handle) = tasks[keys[i]] {
        if i == keys.len() - 1 {
            assert(all.last() == handle);
        } else {
            lemma_handle_is_known(keys.drop_last(), tasks, i);
            let j = choose|j: int| 0 <= j < before.len() && before[j] == handle;
            assert(all[j] == handle);
        }
    }
}

/// A handle is taken out once: from a list whose handles have been taken out,
/// there is none left to take.
pub proof fn law_handles_are_taken_once(keys: Seq<u64>, tasks: Map<u64, Option<u64>>)
    requires
        crate::lock_state::lists(keys, tasks),
    ensures
        crate::lock_state::known_handles(keys, crate::lock_state::unhandled(tasks)) == Seq::<
            u64,
        >::empty(),
{
    assert forall|i: int| 0 <= i < keys.len() implies tasks.contains_key(#[trigger] keys[i]) by {
        assert(keys.to_set().contains(keys[i]));
    }
    lemma_no_handle_left(keys, tasks);
}

proof fn lemma_no_handle_left(keys: Seq<u64>, tasks: Map<u64, Option<u64>>)
    requires
        forall|i: int| 0 <= i < keys.len() ==> tasks.contains_key(#[trigger] keys[i]),
    ensures
        crate::lock_state::known_handles(keys, crate::lock_state::unhandled(tasks)) == Seq::<
            u64,
        >::empty(),
    decreases keys.len(),
{
    if keys.len() > 0 {
        let before = keys.drop_last();
        assert forall|i: int| 0 <= i < before.len() implies tasks.contains_key(
            #[trigger] before[i],
        ) by {
            assert(before[i] == keys[i]);
        }
        lemma_no_handle_left(before, tasks);
        assert(tasks.contains_key(keys[keys.len() - 1]));
    }
}

/// Dropping a scope ends exactly when no task is alive, and then the state is
/// gone; until then the owner stays parked.
pub proof fn law_drop_waits_for_tasks<State, W, Rt>(
    scope: ScopeView<State, W, Rt>,
    events: Seq<Event<W>>,
)
    requires
        scope.valid(),
        !scope.removed,
        scope.dropping().admits_all(events),
        forall|i: int| 0 <= i < events.len() ==> (#[trigger] events[i]).of_task(),
    ensures
        ({
            let then = scope.dropping().run(events);
            &&& !then.removed ==> then.shared.lock.parked && then.draining().removed
                == then.shared.lock.idle()
            &&& then.removed ==> then.shared.lock.idle() && then.shared.state is None
        }),
{
    lemma_step_valid(scope, Event::BeginDrop);
    assert(scope.dropping() == scope.after(Event::BeginDrop));
    let begun = scope.dropping();
    lemma_keys_after(scope, Event::<W>::BeginDrop);
    law_stays_valid(begun, events);
    if begun.removed {
        law_removed_is_final(begun, events);
    } else {
        law_last_task_notifies(begun, events);
    }
}

/// A scope, with the tasks whose futures have not been dropped: these may still use
/// the state.
pub struct Life<State, W, Rt> {
    /// The scope.
    pub scope: ScopeView<State, W, Rt>,
    /// The keys of the tasks whose guards say that they borrow the state.
    pub borrowers: Set<u64>,
}

/// One thing that happens to a scope or to the future of a task.
pub enum LifeEvent<W> {
    /// Something happens to the scope.
    Scope(Event<W>),
    /// The future of the task with this key has been dropped, and its borrow of the
    /// state is released.
    Release(u64),
}

impl<State, W, Rt> Life<State, W, Rt> {
    /// A scope over `state` that nothing has happened to.
    pub open spec fn fresh(state: State, runtime: Rt) -> Self {
        Life { scope: ScopeView::fresh(state, runtime), borrowers: Set::empty() }
    }

    /// The event can happen now. A task ends only when it no longer borrows the
    /// state.
    pub open spec fn admits(self, event: LifeEvent<W>) -> bool {
        match event {
            LifeEvent::Scope(inner) => self.scope.admits(inner) && (inner matches Event::End(key)
                ==> !self.borrowers.contains(key)),
            LifeEvent::Release(key) => self.borrowers.contains(key),
        }
    }

    /// The scope and the borrows after the event. A task that is spawned borrows
    /// the state.
    pub open spec fn after(self, event: LifeEvent<W>) -> Self {
        match event {
            LifeEvent::Scope(inner) => Life {
                scope: self.scope.after(inner),
                borrowers: match inner {
                    Event::Spawn(key) => self.borrowers.insert(key),
                    Event::TaskSpawn(key) => self.borrowers.insert(key),
                    _ => self.borrowers,
                },
            },
            LifeEvent::Release(key) => Life { borrowers: self.borrowers.remove(key), ..self },
        }
    }

    /// The scope and the borrows after all the events.
    pub open spec fn run(self, events: Seq<LifeEvent<W>>) -> Self
        decreases events.len(),
    {
        if events.len() == 0 {
            self
        } else {
            self.run(events.drop_last()).after(events.last())
        }
    }

    /// Each of the events can happen when its turn comes.
    pub open spec fn admits_all(self, events: Seq<LifeEvent<W>>) -> bool
        decreases events.len(),
    {
        events.len() > 0 ==> self.admits_all(events.drop_last()) && self.run(
            events.drop_last(),
        ).admits(events.last())
    }

    /// The scope is valid and holds `state` until it is removed, and every task
    /// that borrows the state is alive.
    pub open spec fn valid(self, state: State) -> bool {
        &&& self.scope.valid()
        &&& !self.scope.removed ==> self.scope.shared.state == Some(state)
        &&& self.borrowers.subset_of(self.scope.shared.lock.tasks.dom())
    }
}

/// The borrow of a task ends before the task is taken off the scope, so the state
/// is neither handed back nor dropped while the future of a task may use it: as
/// long as a task borrows the state, the task is alive, the scope holds the state
/// that it was made with, awaiting it is not ready, and dropping it is not done.
pub proof fn law_state_outlives_borrows<State, W, Rt>(
    state: State,
    runtime: Rt,
    events: Seq<LifeEvent<W>>,
    key: u64,
    waker: W,
)
    requires
        Life::<State, W, Rt>::fresh(state, runtime).admits_all(events),
        Life::<State, W, Rt>::fresh(state, runtime).run(events).borrowers.contains(key),
    ensures
        ({
            let life = Life::<State, W, Rt>::fresh(state, runtime).run(events);
            &&& life.scope.shared.lock.tasks.contains_key(key)
            &&& !life.admits(LifeEvent::Scope(Event::End(key)))
            &&& life.scope.shared.state == Some(state)
            &&& !life.scope.after(Event::Poll(waker)).removed
            &&& !life.scope.after(Event::BeginDrop).removed
            &&& !life.scope.after(Event::ResumeDrop).removed
        }),
{
    let life = Life::<State, W, Rt>::fresh(state, runtime).run(events);
    lemma_life_valid::<State, W, Rt>(state, runtime, events);
    assert(life.scope.shared.lock.tasks.dom().contains(key));
}

/// A scope and a scope that was nested inside one of its tasks.
pub struct NestedLife<State, Parent, Inner, W, Rt> {
    /// The scope around.
    pub outer: Life<State, W, Rt>,
    /// The key of the task that the nested scope is part of.
    pub owner: u64,
    /// The nested scope.
    pub inner: Life<NestedStack<Parent, Inner>, W, Rt>,
}

/// One thing that happens to one of the two scopes.
pub enum NestedEvent<W> {
    /// Something happens to the scope around, or to the future of one of its tasks.
    Outer(LifeEvent<W>),
    /// Something happens to the nested scope, or to the future of one of its tasks.
    Inner(LifeEvent<W>),
}

impl<State, Parent, Inner, W, Rt> NestedLife<State, Parent, Inner, W, Rt> {
    /// The task `owner` of the scope `outer` has just made a nested scope.
    pub open spec fn nest(
        outer: Life<State, W, Rt>,
        owner: u64,
        stack: NestedStack<Parent, Inner>,
        runtime: Rt,
    ) -> Self {
        NestedLife { outer, owner, inner: Life::fresh(stack, runtime) }
    }

    /// The event can happen now. The nested scope is part of the future of its
    /// owner: the future has been dropped only when the nested scope has been awaited
    /// or dropped to the end.
    pub open spec fn admits(self, event: NestedEvent<W>) -> bool {
        match event {
            NestedEvent::Outer(inner) => self.outer.admits(inner) && (
            inner matches LifeEvent::Release(key) && key == self.owner
                ==> self.inner.scope.removed),
            NestedEvent::Inner(inner) => self.inner.admits(inner),
        }
    }

    /// The two scopes after the event.
    pub open spec fn after(self, event: NestedEvent<W>) -> Self {
        match event {
            NestedEvent::Outer(inner) => NestedLife { outer: self.outer.after(inner), ..self },
            NestedEvent::Inner(inner) => NestedLife { inner: self.inner.after(inner), ..self },
        }
    }

    /// The two scopes after all the events.
    pub open spec fn run(self, events: Seq<NestedEvent<W>>) -> Self
        decreases events.len(),
    {
        if events.len() == 0 {
            self
        } else {
            self.run(events.drop_last()).after(events.last())
        }
    }

    /// Each of the events can happen when its turn comes.
    pub open spec fn admits_all(self, events: Seq<NestedEvent<W>>) -> bool
        decreases events.len(),
    {
        events.len() > 0 ==> self.admits_all(events.drop_last()) && self.run(
            events.drop_last(),
        ).admits(events.last())
    }

    /// Both scopes are valid, over `state` and `stack`, and the task that the nested
    /// scope is part of borrows the outer state until the nested scope is removed.
    pub open spec fn valid(self, state: State, stack: NestedStack<Parent, Inner>) -> bool {
        &&& self.outer.valid(state)
        &&& self.inner.valid(stack)
        &&& !self.inner.scope.removed ==> self.outer.borrowers.contains(self.owner)
    }
}

/// The state of a scope outlives the scopes that are nested inside its tasks: until
/// a nested scope has been removed, and so as long as one of its tasks may use its
/// state and the way back that is part of it, the scope around holds the state that
/// it was made with, awaiting it is not ready, and dropping it is not done.
pub proof fn law_state_outlives_nested_scopes<State, Parent, Inner, W, Rt>(
    state: State,
    runtime: Rt,
    before: Seq<LifeEvent<W>>,
    owner: u64,
    stack: NestedStack<Parent, Inner>,
    inner_runtime: Rt,
    events: Seq<NestedEvent<W>>,
    key: u64,
    waker: W,
)
    requires
        Life::<State, W, Rt>::fresh(state, runtime).admits_all(before),
        Life::<State, W, Rt>::fresh(state, runtime).run(before).borrowers.contains(owner),
        NestedLife::nest(
            Life::<State, W, Rt>::fresh(state, runtime).run(before),
            owner,
            stack,
            inner_runtime,
        ).admits_all(events),
    ensures
        ({
            let life = NestedLife::nest(
                Life::<State, W, Rt>::fresh(state, runtime).run(before),
                owner,
                stack,
                inner_runtime,
            ).run(events);
            let outer = life.outer.scope;
            let inner = life.inner.scope;
            &&& life.inner.borrowers.contains(key) ==> !inner.removed
            &&& !inner.removed ==> {
                &&& inner.shared.state == Some(stack)
                &&& outer.shared.state == Some(state)
                &&& outer.shared.lock.tasks.contains_key(owner)
                &&& !outer.after(Event::Poll(waker)).removed
                &&& !outer.after(Event::BeginDrop).removed
                &&& !outer.after(Event::ResumeDrop).removed
            }
        }),
{
    let start = NestedLife::nest(
        Life::<State, W, Rt>::fresh(state, runtime).run(before),
        owner,
        stack,
        inner_runtime,
    );
    lemma_life_valid::<State, W, Rt>(state, runtime, before);
    lemma_nested_valid(start, state, stack, events);
    let life = start.run(events);
    if life.inner.borrowers.contains(key) {
        assert(life.inner.scope.shared.lock.tasks.dom().contains(key));
    }
    if !life.inner.scope.removed {
        assert(life.outer.scope.shared.lock.tasks.dom().contains(owner));
    }
}

proof fn lemma_nested_valid<State, Parent, Inner, W, Rt>(
    start: NestedLife<State, Parent, Inner, W, Rt>,
    state: State,
    stack: NestedStack<Parent, Inner>,
    events: Seq<NestedEvent<W>>,
)
    requires
        start.valid(state, stack),
        start.admits_all(events),
    ensures
        start.run(events).valid(state, stack),
        start.run(events).owner == start.owner,
    decreases events.len(),
{
    if events.len() > 0 {
        lemma_nested_valid(start, state, stack, events.drop_last());
        let now = start.run(events.drop_last());
        match events.last() {
            NestedEvent::Outer(event) => lemma_life_step(now.outer, state, event),
            NestedEvent::Inner(event) => lemma_life_step(now.inner, stack, event),
        }
    }
}

proof fn lemma_life_step<State, W, Rt>(
    now: Life<State, W, Rt>,
    state: State,
    event: LifeEvent<W>,
)
    requires
        now.valid(state),
        now.admits(event),
    ensures
        now.after(event).valid(state),
{
    match event {
        LifeEvent::Scope(inner) => {
            lemma_step_valid(now.scope, inner);
            lemma_keys_after(now.scope, inner);
        },
        LifeEvent::Release(_) => {},
    }
}

proof fn lemma_life_valid<State, W, Rt>(state: State, runtime: Rt, events: Seq<LifeEvent<W>>)
    requires
        Life::<State, W, Rt>::fresh(state, runtime).admits_all(events),
    ensures
        Life::<State, W, Rt>::fresh(state, runtime).run(events).valid(state),
    decreases events.len(),
{
    if events.len() > 0 {
        let before = events.drop_last();
        lemma_life_valid::<State, W, Rt>(state, runtime, before);
        let now = Life::<State, W, Rt>::fresh(state, runtime).run(before);
        lemma_life_step(now, state, events.last());
    }
}

} // verus!
