//! What each operation of a scope does, told by the tasks, the handles and the
//! wakers that there are before and after it.
//!
//! A task is alive if its key is listed. The laws go through what can happen to a
//! scope and say of each part of the scope whether it changes, and to what.

use crate::laws::Event;
use crate::lock_state::{known_handles, lists, HandleUse, LockView};
use crate::scope::ScopeView;
use crate::slots::{slot_index, slot_version};
use vstd::prelude::*;

verus! {

/// No task is alive.
pub open spec fn nobody<W>(lock: LockView<W>) -> bool {
    forall|key: u64| !(#[trigger] lock.tasks.contains_key(key))
}

/// A scope that nothing has happened to is open, has no task, waits for nobody and
/// holds the state that it was made with.
pub proof fn law_fresh_scope_is_open<State, W, Rt>(state: State, runtime: Rt)
    ensures
        ({
            let scope = ScopeView::<State, W, Rt>::fresh(state, runtime);
            &&& nobody(scope.shared.lock)
            &&& scope.shared.lock.tasks.len() == 0
            &&& scope.shared.lock.versions =~= Map::empty()
            &&& scope.shared.lock.waker is None
            &&& !scope.shared.lock.parked
            &&& !scope.shared.lock.closed
            &&& scope.shared.state == Some(state)
            &&& scope.shared.runtime == runtime
            &&& !scope.started_locking
            &&& !scope.removed
        }),
{
}

/// A scope is idle exactly if no task is alive, and the last task is the one that
/// leaves no other behind.
pub proof fn law_idle_means_nobody<W>(lock: LockView<W>, key: u64)
    ensures
        lock.idle() <==> nobody(lock),
        lock.ends_with(key) <==> (forall|other: u64| #[trigger]
            lock.tasks.contains_key(other) ==> other == key),
{
    if nobody(lock) {
        assert(lock.tasks.dom() =~= Set::empty());
    }
    if lock.idle() {
        assert forall|other: u64| !(#[trigger] lock.tasks.contains_key(other)) by {
            assert(!lock.tasks.dom().contains(other));
        }
    }
    if lock.ends_with(key) {
        assert forall|other: u64| #[trigger] lock.tasks.contains_key(other) implies other == key by {
            assert(!lock.tasks.remove(key).dom().contains(other));
        }
    }
    if forall|other: u64| #[trigger] lock.tasks.contains_key(other) ==> other == key {
        assert forall|other: u64| !lock.tasks.remove(key).dom().contains(other) by {
            assert(lock.tasks.contains_key(other) ==> other == key);
        }
        assert(lock.tasks.remove(key).dom() =~= Set::empty());
    }
}

/// A scope has room for one task more until the slots or the bits that count the
/// tasks are used up.
pub proof fn law_room_ends_at_the_limits<W>(lock: LockView<W>)
    ensures
        lock.room() <==> lock.tasks.len() < 0xffff_fffe && 8 * (lock.tasks.len() + 1)
            <= usize::MAX,
{
}

/// What an owner and a task spawn is the same: one task more is alive, under its key
/// and without a handle, and nothing else changes.
pub proof fn law_spawn_adds_one_task<State, W, Rt>(
    scope: ScopeView<State, W, Rt>,
    event: Event<W>,
    key: u64,
    other: u64,
    index: u32,
)
    requires
        scope.valid(),
        scope.admits(event),
        event == Event::<W>::Spawn(key) || event == Event::<W>::TaskSpawn(key),
    ensures
        ({
            let then = scope.after(event);
            let before = scope.shared.lock;
            let lock = then.shared.lock;
            &&& !before.tasks.contains_key(key)
            &&& lock.tasks.contains_key(key)
            &&& lock.tasks[key] is None
            &&& lock.tasks.len() == before.tasks.len() + 1
            &&& other != key ==> lock.tasks.contains_key(other) == before.tasks.contains_key(other)
            &&& other != key && before.tasks.contains_key(other) ==> lock.tasks[other]
                == before.tasks[other]
            &&& lock.versions.contains_key(slot_index(key))
            &&& lock.versions[slot_index(key)] == slot_version(key)
            &&& index != slot_index(key) ==> lock.versions.contains_key(index)
                == before.versions.contains_key(index) && lock.versions[index]
                == before.versions[index]
            &&& lock.waker == before.waker
            &&& lock.parked == before.parked
            &&& lock.closed == before.closed
            &&& same_but_lock(scope, then)
        }),
{
}

/// Nothing but what the lock protects has changed.
pub open spec fn same_but_lock<State, W, Rt>(
    before: ScopeView<State, W, Rt>,
    after: ScopeView<State, W, Rt>,
) -> bool {
    &&& after.shared.state == before.shared.state
    &&& after.shared.runtime == before.shared.runtime
    &&& after.started_locking == before.started_locking
    &&& after.removed == before.removed
}

/// The same tasks are alive, and their slots have the same versions.
pub open spec fn same_tasks<W>(before: LockView<W>, after: LockView<W>) -> bool {
    &&& forall|key: u64| #[trigger]
        after.tasks.contains_key(key) == before.tasks.contains_key(key)
    &&& after.versions == before.versions
}

/// Both are told the same handles of the same tasks.
pub open spec fn same_handles<W>(before: LockView<W>, after: LockView<W>) -> bool {
    &&& same_tasks(before, after)
    &&& forall|key: u64| #[trigger]
        before.tasks.contains_key(key) ==> after.tasks[key] == before.tasks[key]
}

/// What becomes of a handle depends on two things alone: it is of no use if the task
/// has ended; the task is aborted if it is alive and the scope is closed; and the
/// handle is kept if the task is alive and the scope is open.
pub proof fn law_open_scope_aborts_nobody<State, W, Rt>(
    scope: ScopeView<State, W, Rt>,
    key: u64,
    event: Event<W>,
)
    ensures
        ({
            let lock = scope.shared.lock;
            &&& lock.handle_use(key) == HandleUse::Ended <==> !lock.tasks.contains_key(key)
            &&& lock.handle_use(key) == HandleUse::Abort <==> lock.tasks.contains_key(key)
                && lock.closed
            &&& lock.handle_use(key) == HandleUse::Kept <==> lock.tasks.contains_key(key)
                && !lock.closed
            &&& !lock.closed ==> !scope.aborted_by(event)
            &&& scope.aborted_by(event) ==> lock.closed && (event matches Event::SetHandle(
                task,
                _,
            ) && lock.tasks.contains_key(task))
        }),
{
}

/// A handle that becomes known is stored with its task, if that is alive and the
/// scope is open; whatever else the scope does at the time, nothing else changes.
pub proof fn law_handle_is_stored<State, W, Rt>(
    scope: ScopeView<State, W, Rt>,
    key: u64,
    handle: u64,
    other: u64,
)
    ensures
        ({
            let then = scope.after(Event::SetHandle(key, handle));
            let before = scope.shared.lock;
            let lock = then.shared.lock;
            &&& same_tasks(before, lock)
            &&& before.tasks.contains_key(key) && !before.closed ==> lock.tasks[key] == Some(handle)
            &&& other != key || before.closed ==> lock.tasks[other] == before.tasks[other]
            &&& !before.tasks.contains_key(key) ==> lock.tasks == before.tasks
            &&& lock.waker == before.waker
            &&& lock.parked == before.parked
            &&& lock.closed == before.closed
            &&& same_but_lock(scope, then)
        }),
{
}

/// The events leave the handle of the task alone: the task does not end, no other
/// handle becomes known for it, and the scope is not dropped.
pub open spec fn spares_handle<W>(events: Seq<Event<W>>, key: u64) -> bool {
    forall|i: int|
        0 <= i < events.len() ==> match #[trigger] events[i] {
            Event::End(task) => task != key,
            Event::SetHandle(task, _) => task != key,
            Event::BeginDrop => false,
            _ => true,
        }
}

/// A handle that was kept is handed out when the scope is dropped: from when the
/// handle of a live task of an open scope becomes known, and as long as the task is
/// alive, no other handle becomes known for it and the scope is not dropped, the scope
/// holds that very handle for the task, whoever waits for the scope; and whoever drops
/// the scope then gets that very handle.
pub proof fn law_kept_handle_is_handed_out<State, W, Rt>(
    scope: ScopeView<State, W, Rt>,
    key: u64,
    handle: u64,
    events: Seq<Event<W>>,
    keys: Seq<u64>,
)
    requires
        scope.valid(),
        scope.shared.lock.tasks.contains_key(key),
        !scope.shared.lock.closed,
        scope.after(Event::SetHandle(key, handle)).admits_all(events),
        spares_handle(events, key),
    ensures
        ({
            let then = scope.after(Event::SetHandle(key, handle)).run(events);
            &&& then.shared.lock.tasks.contains_key(key)
            &&& then.shared.lock.tasks[key] == Some(handle)
            &&& !then.shared.lock.closed
            &&& !then.removed
            &&& lists(keys, then.shared.lock.tasks) ==> known_handles(
                keys,
                then.shared.lock.tasks,
            ).contains(handle)
        }),
    decreases events.len(),
{
    let start = scope.after(Event::SetHandle(key, handle));
    crate::laws::lemma_step_valid(scope, Event::SetHandle(key, handle));
    crate::laws::law_stays_valid(start, events);
    if events.len() > 0 {
        let before = events.drop_last();
        assert forall|i: int| 0 <= i < before.len() implies match #[trigger] before[i] {
            Event::End(task) => task != key,
            Event::SetHandle(task, _) => task != key,
            Event::BeginDrop => false,
            _ => true,
        } by {
            assert(before[i] == events[i]);
        }
        law_kept_handle_is_handed_out(scope, key, handle, before, keys);
        crate::laws::law_stays_valid(start, before);
        let now = start.run(before);
        let event = events.last();
        assert(event == events[events.len() - 1]);
        law_idle_means_nobody(now.shared.lock, key);
        assert(now.shared.lock.tasks.contains_key(key));
    }
    let then = start.run(events);
    if lists(keys, then.shared.lock.tasks) {
        assert(keys.to_set().contains(key));
        let i = choose|i: int| 0 <= i < keys.len() && keys[i] == key;
        crate::laws::lemma_handle_is_known(keys, then.shared.lock.tasks, i);
    }
}

/// The live tasks whose handle is known to be `handle`.
pub open spec fn tasks_with(tasks: Map<u64, Option<u64>>, handle: u64) -> Set<u64> {
    tasks.dom().filter(|key: u64| tasks[key] == Some(handle))
}

/// Dropping a scope hands out exactly the handles that are known: each as often as
/// there are live tasks that have it, and no other.
pub proof fn law_drop_hands_out_the_known_handles(
    keys: Seq<u64>,
    tasks: Map<u64, Option<u64>>,
    handle: u64,
)
    requires
        lists(keys, tasks),
    ensures
        known_handles(keys, tasks).to_multiset().count(handle) == tasks_with(tasks, handle).len(),
        known_handles(keys, tasks).contains(handle) <==> exists|key: u64| #[trigger]
            tasks.contains_key(key) && tasks[key] == Some(handle),
{
    lemma_counts_handles(keys, tasks, handle);
    let listed = keys.to_set().filter(|key: u64| tasks[key] == Some(handle));
    assert(listed =~= tasks_with(tasks, handle));
    keys.unique_seq_to_set();
    vstd::seq_lib::seq_to_set_is_finite(keys);
    known_handles(keys, tasks).to_multiset_ensures();
    if exists|key: u64| #[trigger] tasks.contains_key(key) && tasks[key] == Some(handle) {
        let key = choose|key: u64| #[trigger] tasks.contains_key(key) && tasks[key] == Some(handle);
        assert(listed.contains(key));
    }
    if listed.len() > 0 {
        let key = listed.choose();
        assert(listed.contains(key));
        assert(tasks.contains_key(key));
    }
}

proof fn lemma_counts_handles(keys: Seq<u64>, tasks: Map<u64, Option<u64>>, handle: u64)
    requires
        keys.no_duplicates(),
    ensures
        known_handles(keys, tasks).to_multiset().count(handle) == keys.to_set().filter(
            |key: u64| tasks[key] == Some(handle),
        ).len(),
        keys.to_set().filter(|key: u64| tasks[key] == Some(handle)).finite(),
    decreases keys.len(),
{
    let has = |key: u64| tasks[key] == Some(handle);
    vstd::seq_lib::seq_to_set_is_finite(keys);
    keys.to_set().lemma_len_filter(has);
    known_handles(keys, tasks).to_multiset_ensures();
    if keys.len() > 0 {
        let before = keys.drop_last();
        let last = keys.last();
        lemma_counts_handles(before, tasks, handle);
        known_handles(before, tasks).to_multiset_ensures();
        assert(!before.to_set().contains(last)) by {
            if before.to_set().contains(last) {
                let i = choose|i: int| 0 <= i < before.len() && before[i] == last;
                assert(keys[i] == keys[keys.len() - 1]);
            }
        }
        assert(keys.to_set() =~= before.to_set().insert(last)) by {
            assert forall|key: u64| keys.to_set().contains(key) == before.to_set().insert(
                last,
            ).contains(key) by {
                if keys.contains(key) && key != last {
                    let i = choose|i: int| 0 <= i < keys.len() && keys[i] == key;
                    assert(before[i] == key);
                }
                if before.contains(key) {
                    let i = choose|i: int| 0 <= i < before.len() && before[i] == key;
                    assert(keys[i] == key);
                }
                assert(keys[keys.len() - 1] == last);
            }
        }
        if has(last) {
            assert(keys.to_set().filter(has) =~= before.to_set().filter(has).insert(last));
        } else {
            assert(keys.to_set().filter(has) =~= before.to_set().filter(has));
        }
    } else {
        assert(keys.to_set().filter(has) =~= Set::empty());
    }
}

/// A task that ends is no longer alive. The other tasks keep their handles. If it was
/// the last one, nobody waits from then on; else whoever waits goes on waiting.
pub proof fn law_end_takes_one_task<State, W, Rt>(
    scope: ScopeView<State, W, Rt>,
    key: u64,
    other: u64,
    index: u32,
)
    requires
        scope.valid(),
        scope.admits(Event::End(key)),
    ensures
        ({
            let then = scope.after(Event::End(key));
            let before = scope.shared.lock;
            let lock = then.shared.lock;
            &&& before.tasks.contains_key(key)
            &&& !lock.tasks.contains_key(key)
            &&& lock.tasks.len() + 1 == before.tasks.len()
            &&& other != key ==> lock.tasks.contains_key(other) == before.tasks.contains_key(other)
            &&& other != key && before.tasks.contains_key(other) ==> {
                &&& lock.tasks[other] == before.tasks[other]
                &&& lock.waker == before.waker
            }
            &&& nobody(lock) ==> lock.waker is None
            &&& lock.versions[slot_index(key)] == (slot_version(key) + 1) % 0x1_0000_0000
            &&& index != slot_index(key) ==> lock.versions.contains_key(index)
                == before.versions.contains_key(index) && lock.versions[index]
                == before.versions[index]
            &&& lock.parked == before.parked
            &&& lock.closed == before.closed
            &&& same_but_lock(scope, then)
        }),
{
    law_idle_means_nobody(scope.shared.lock, key);
    law_idle_means_nobody(scope.after(Event::End(key)).shared.lock, key);
    if other != key && scope.shared.lock.tasks.contains_key(other) {
        assert(!scope.shared.lock.ends_with(key));
    }
    if nobody(scope.after(Event::End(key)).shared.lock) {
        assert forall|task: u64| #[trigger]
            scope.shared.lock.tasks.contains_key(task) implies task == key by {
            assert(!scope.after(Event::End(key)).shared.lock.tasks.contains_key(task));
        }
    }
}

/// The end of a task wakes the waker that is registered, and notifies the owner that
/// is parked, exactly if no other task is alive.
pub proof fn law_only_the_last_task_wakes<State, W, Rt>(
    scope: ScopeView<State, W, Rt>,
    event: Event<W>,
)
    requires
        scope.valid(),
        scope.admits(event),
    ensures
        ({
            let leaves_nobody = event is End && nobody(scope.after(event).shared.lock);
            &&& scope.woken_by(event) == (if leaves_nobody {
                scope.shared.lock.waker
            } else {
                None
            })
            &&& scope.notified_by(event) == (leaves_nobody && scope.shared.lock.parked)
        }),
{
    if let Event::End(key) = event {
        let lock = scope.shared.lock;
        let then = scope.after(event).shared.lock;
        law_idle_means_nobody(lock, key);
        if nobody(then) {
            assert forall|task: u64| #[trigger] lock.tasks.contains_key(task) implies task
                == key by {
                assert(!then.tasks.contains_key(task));
            }
        }
        if lock.ends_with(key) {
            assert forall|task: u64| !(#[trigger] then.tasks.contains_key(task)) by {
                assert(lock.tasks.contains_key(task) ==> task == key);
            }
        }
    }
}

/// Awaiting a scope while a task is alive registers the waker in place of any other
/// and notes that awaiting has begun. Nothing else changes.
pub proof fn law_await_registers<State, W, Rt>(
    scope: ScopeView<State, W, Rt>,
    waker: W,
    key: u64,
)
    requires
        scope.shared.lock.tasks.contains_key(key),
    ensures
        ({
            let then = scope.after(Event::Poll(waker));
            &&& then.shared.lock.waker == Some(waker)
            &&& then.started_locking
            &&& same_handles(scope.shared.lock, then.shared.lock)
            &&& then.shared.lock.parked == scope.shared.lock.parked
            &&& then.shared.lock.closed == scope.shared.lock.closed
            &&& then.shared.state == scope.shared.state
            &&& then.shared.runtime == scope.shared.runtime
            &&& then.removed == scope.removed
        }),
{
    law_idle_means_nobody(scope.shared.lock, key);
}

/// The scope has been removed: it is closed, the state is gone, and nobody waits.
pub open spec fn gone<State, W, Rt>(
    before: ScopeView<State, W, Rt>,
    after: ScopeView<State, W, Rt>,
) -> bool {
    &&& after.removed
    &&& after.started_locking
    &&& after.shared.state is None
    &&& after.shared.lock.closed
    &&& after.shared.lock.waker is None
    &&& nobody(after.shared.lock)
    &&& after.shared.lock.versions == before.shared.lock.versions
    &&& after.shared.runtime == before.shared.runtime
}

/// Awaiting a scope while no task is alive removes the scope, and not before: the
/// state that it held is what the owner gets.
pub proof fn law_await_removes<State, W, Rt>(scope: ScopeView<State, W, Rt>, waker: W)
    requires
        scope.valid(),
        scope.admits(Event::Poll(waker)),
        nobody(scope.shared.lock),
    ensures
        scope.shared.state is Some,
        gone(scope, scope.after(Event::Poll(waker))),
        scope.after(Event::Poll(waker)).shared.lock.parked == scope.shared.lock.parked,
{
    law_idle_means_nobody(scope.shared.lock, 0);
}

/// Waiting until no task is alive changes nothing if none is or if the scope has been
/// removed. Else it registers the waker in place of any other, and nothing else
/// changes: the scope stays open for new tasks.
pub proof fn law_waiting_leaves_the_scope_open<State, W, Rt>(
    scope: ScopeView<State, W, Rt>,
    waker: W,
    key: u64,
)
    ensures
        ({
            let then = scope.after(Event::PollUntilEmpty(waker));
            &&& nobody(scope.shared.lock) || scope.removed ==> then == scope
            &&& scope.shared.lock.tasks.contains_key(key) && !scope.removed ==> {
                &&& then.shared.lock.waker == Some(waker)
                &&& same_handles(scope.shared.lock, then.shared.lock)
                &&& then.shared.lock.parked == scope.shared.lock.parked
                &&& then.shared.lock.closed == scope.shared.lock.closed
                &&& same_but_lock(scope, then)
            }
        }),
{
    law_idle_means_nobody(scope.shared.lock, key);
}

/// Beginning to drop a scope closes it. While a task is alive, the owner parks, the
/// state stays, the same tasks are alive and no handle is left in the list. With no
/// task alive the scope is removed at once. A scope that has been removed before stays
/// as it is.
pub proof fn law_drop_parks_or_removes<State, W, Rt>(
    scope: ScopeView<State, W, Rt>,
    key: u64,
)
    requires
        scope.valid(),
    ensures
        ({
            let then = scope.after(Event::BeginDrop);
            let lock = then.shared.lock;
            &&& then.started_locking
            &&& scope.removed ==> then == scope
            &&& !scope.removed && scope.shared.lock.tasks.contains_key(key) ==> {
                &&& lock.closed
                &&& lock.parked
                &&& same_tasks(scope.shared.lock, lock)
                &&& lock.tasks[key] is None
                &&& lock.waker == scope.shared.lock.waker
                &&& then.shared.state == scope.shared.state
                &&& then.shared.runtime == scope.shared.runtime
                &&& !then.removed
            }
            &&& !scope.removed && nobody(scope.shared.lock) ==> gone(scope, then) && lock.parked
                == scope.shared.lock.parked
        }),
{
    law_idle_means_nobody(scope.shared.lock, key);
    crate::laws::lemma_keys_after(scope, Event::<W>::BeginDrop);
    let then = scope.after(Event::BeginDrop).shared.lock;
    assert forall|task: u64| #[trigger]
        then.tasks.contains_key(task) == scope.shared.lock.tasks.contains_key(task) by {
        assert(then.tasks.dom().contains(task) == scope.shared.lock.tasks.dom().contains(task));
    }
}

/// An owner that has been woken while it drops a scope parks again if a task is still
/// alive, and nothing changes; with no task alive the scope is removed.
pub proof fn law_drop_goes_on_until_nobody_is_left<State, W, Rt>(
    scope: ScopeView<State, W, Rt>,
    key: u64,
)
    requires
        scope.valid(),
        scope.admits(Event::ResumeDrop),
    ensures
        scope.shared.lock.tasks.contains_key(key) ==> scope.after(Event::ResumeDrop) == scope,
        nobody(scope.shared.lock) ==> gone(scope, scope.after(Event::ResumeDrop))
            && !scope.after(Event::ResumeDrop).shared.lock.parked,
{
    law_idle_means_nobody(scope.shared.lock, key);
}

/// Each part of a scope can change alone: another waker, another state and the note
/// that the owner has begun to await or to drop leave the rest as it is.
pub proof fn law_parts_change_alone<State, W, Rt>(
    scope: ScopeView<State, W, Rt>,
    waker: Option<W>,
    state: State,
)
    ensures
        scope.with_waker(waker).shared.lock.waker == waker,
        scope.with_waker(waker).with_waker(scope.shared.lock.waker) == scope,
        scope.with_state(state).shared.state == Some(state),
        scope.shared.state matches Some(held) ==> scope.with_state(state).with_state(held) == scope,
        scope.started().started_locking,
        scope.started_locking ==> scope.started() == scope,
        scope.started().shared == scope.shared,
        scope.started().removed == scope.removed,
        scope.with_waker(waker).with_state(state).started() == scope.started().with_state(
            state,
        ).with_waker(waker),
{
}

/// What holds of a scope is what the parts say: nobody is listed without a slot in
/// the version of its key, nobody waits for a scope without tasks, the state is gone
/// exactly if the scope has been removed, which it can be only when it is closed and
/// has no task, and only an owner that has begun to await or to drop closes a scope or
/// parks.
pub proof fn law_valid_scope<State, W, Rt>(scope: ScopeView<State, W, Rt>)
    ensures
        scope.valid() <==> {
            let lock = scope.shared.lock;
            &&& lock.tasks.dom().finite()
            &&& forall|key: u64| #[trigger]
                lock.tasks.contains_key(key) ==> {
                    &&& slot_version(key) % 2 == 1
                    &&& lock.versions.contains_key(slot_index(key))
                    &&& lock.versions[slot_index(key)] == slot_version(key)
                }
            &&& nobody(lock) ==> lock.waker is None
            &&& scope.removed == (scope.shared.state is None)
            &&& scope.removed ==> lock.closed && nobody(lock)
            &&& lock.closed ==> scope.started_locking
            &&& lock.parked ==> lock.closed
        },
{
    law_idle_means_nobody(scope.shared.lock, 0);
}

} // verus!
