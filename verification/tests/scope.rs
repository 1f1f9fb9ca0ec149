//! Scopes, step by step.

use std::rc::Rc;

use pin_scoped::lock_state::{HandleUse, LockState, TaskEnd};
use pin_scoped::sync::ManuallyDropCell;
use pin_scoped::{Drain, NestedScope, Poll, Scope, ScopeGuard, SharedState};

fn scope(state: u64) -> Scope<u64, u32, &'static str> {
    Scope::new(state, &"runtime")
}

/// Ends a task whose future has been dropped.
fn end<S, W, Rt>(mut guard: ScopeGuard<S>, shared: &mut SharedState<S, W, Rt>) -> TaskEnd<W> {
    guard.release();
    guard.drop(shared)
}

#[test]
fn a_scope_without_tasks_hands_its_state_back_at_once() {
    let mut scope = scope(7);
    assert!(!scope.has_started_locking());
    assert!(!scope.is_removed());
    assert_eq!(*scope.get(), 7);
    assert_eq!(scope.poll(&1), Poll::Ready(7));
    assert!(scope.has_started_locking());
    assert!(scope.is_removed());
}

#[test]
fn with_runtime_and_new_keep_the_runtime() {
    let mut given: Scope<(), u32, u8> = Scope::with_runtime((), 3);
    assert_eq!(*given.shared().0.runtime(), 3);
    assert_eq!(*scope(0).shared().0.runtime(), "runtime");
}

#[test]
fn tasks_are_counted() {
    let mut scope = scope(0);
    assert_eq!(scope.num_tasks(), 0);
    let mut one = scope.spawn();
    assert!(one.borrows());
    let two = scope.shared().spawn();
    assert_ne!(one.task_key(), two.task_key());
    assert_eq!(scope.num_tasks(), 2);
    one.release();
    assert!(!one.borrows());
    let key = one.task_key();
    assert!(scope.shared().0.has_task(key));
    end(one, scope.shared().0);
    assert!(!scope.shared().0.has_task(key));
    assert!(scope.shared().0.has_task(two.task_key()));
    assert_eq!(scope.num_tasks(), 1);
    end(two, scope.shared().0);
    assert_eq!(scope.num_tasks(), 0);
}

#[test]
fn the_last_task_wakes_the_waker_that_was_registered_last() {
    let mut scope = scope(5);
    let one = scope.spawn();
    let two = scope.spawn();
    assert_eq!(scope.poll(&10), Poll::Pending);
    assert_eq!(scope.poll(&11), Poll::Pending);
    let first = end(one, scope.shared().0);
    assert_eq!(first.waker, None);
    assert!(!first.notify);
    let last = end(two, scope.shared().0);
    assert_eq!(last.waker, Some(11));
    assert!(!last.notify);
    assert_eq!(scope.poll(&12), Poll::Ready(5));
}

#[test]
fn a_task_can_spawn_until_the_scope_is_awaited() {
    let mut scope = scope(5);
    let one = scope.spawn();
    assert_eq!(scope.poll_until_empty(&10), Poll::Pending);
    assert!(!scope.shared().1);
    assert!(scope.shared().0.has_room());
    let two = scope.shared().spawn();
    assert_eq!(scope.num_tasks(), 2);
    assert_eq!(scope.poll(&11), Poll::Pending);
    assert!(scope.shared().1);
    assert!(scope.has_started_locking());
    assert!(!scope.shared().0.is_closed());
    assert_eq!(end(one, scope.shared().0).waker, None);
    assert_eq!(end(two, scope.shared().0).waker, Some(11));
}

#[test]
fn waiting_until_empty_leaves_the_scope_open() {
    let mut scope = scope(5);
    assert_eq!(scope.poll_until_empty(&1), Poll::Ready(()));
    let one = scope.spawn();
    assert_eq!(scope.poll_until_empty(&2), Poll::Pending);
    assert!(!scope.has_started_locking());
    assert_eq!(end(one, scope.shared().0).waker, Some(2));
    assert_eq!(scope.poll_until_empty(&3), Poll::Ready(()));
    assert!(!scope.shared().0.is_closed());
    let two = scope.spawn();
    assert_eq!(end(two, scope.shared().0).waker, None);
    assert_eq!(scope.poll(&4), Poll::Ready(5));
    assert!(scope.shared().0.is_closed());
    assert_eq!(scope.poll_until_empty(&5), Poll::Ready(()));
}

#[test]
fn dropping_an_idle_scope_is_done_at_once() {
    let mut scope = scope(5);
    let (handles, drain) = scope.begin_drop();
    assert!(handles.is_empty());
    assert_eq!(drain, Drain::Done);
    assert!(scope.is_removed());
    assert!(scope.shared().0.is_closed());
}

#[test]
fn dropping_an_awaited_scope_does_nothing() {
    let mut scope = scope(5);
    assert_eq!(scope.poll(&1), Poll::Ready(5));
    let (handles, drain) = scope.begin_drop();
    assert!(handles.is_empty());
    assert_eq!(drain, Drain::Done);
}

#[test]
fn dropping_a_scope_aborts_its_tasks_and_waits_for_them() {
    let mut scope = scope(5);
    let one = scope.spawn();
    let two = scope.spawn();
    let three = scope.spawn();
    let late = three.task_key();
    assert_eq!(scope.shared().0.set_abort_handle(one.task_key(), 100), HandleUse::Kept);
    assert_eq!(scope.shared().0.set_abort_handle(two.task_key(), 200), HandleUse::Kept);

    let (mut handles, drain) = scope.begin_drop();
    handles.sort();
    assert_eq!(handles, vec![100, 200]);
    assert_eq!(drain, Drain::Park);
    assert!(scope.shared().0.is_closed());
    assert!(!scope.is_removed());

    // The third task was being started when the scope was dropped.
    assert_eq!(scope.shared().0.set_abort_handle(late, 300), HandleUse::Abort);

    assert!(!end(one, scope.shared().0).notify);
    assert_eq!(scope.resume_drop(), Drain::Park);
    assert!(!end(two, scope.shared().0).notify);
    let last = end(three, scope.shared().0);
    assert!(last.notify);
    assert_eq!(last.waker, None);
    assert_eq!(scope.shared().0.set_abort_handle(late, 300), HandleUse::Ended);
    assert_eq!(scope.resume_drop(), Drain::Done);
    assert!(scope.is_removed());
}

#[test]
fn handles_are_taken_out_once() {
    let mut state: LockState<u32> = LockState::new();
    let one = state.add_task();
    let two = state.add_task();
    assert_eq!(state.set_handle(one, 8), HandleUse::Kept);
    assert_eq!(state.close(), vec![8]);
    assert_eq!(state.close(), Vec::<u64>::new());
    assert_eq!(state.set_handle(two, 9), HandleUse::Abort);
    assert_eq!(state.close(), Vec::<u64>::new());
    assert_eq!(state.num_tasks(), 2);
}

#[test]
fn a_handle_replaces_the_one_before() {
    let mut state: LockState<u32> = LockState::new();
    let key = state.add_task();
    assert_eq!(state.set_handle(key, 8), HandleUse::Kept);
    assert_eq!(state.set_handle(key, 9), HandleUse::Kept);
    assert_eq!(state.close(), vec![9]);
}

#[test]
fn a_key_of_a_task_that_has_ended_is_not_taken_for_another() {
    let mut state: LockState<u32> = LockState::new();
    let one = state.add_task();
    state.end_task(one);
    let two = state.add_task();
    assert_ne!(one, two);
    // The same slot, two versions on.
    assert_eq!(two, one + (2 << 32));
    assert!(!state.has_task(one));
    assert!(state.has_task(two));
    assert_eq!(state.set_handle(one, 5), HandleUse::Ended);
    assert_eq!(state.set_handle(two, 6), HandleUse::Kept);
    assert_eq!(state.close(), vec![6]);
}

#[test]
fn the_waker_is_set_taken_and_dropped() {
    let mut state: LockState<String> = LockState::new();
    assert_eq!(state.take_waker(), None);
    state.drop_waker();
    state.register_waker(&"one".to_string());
    state.register_waker(&"two".to_string());
    assert_eq!(state.take_waker(), Some("two".to_string()));
    assert_eq!(state.take_waker(), None);
    state.register_waker(&"three".to_string());
    state.drop_waker();
    assert_eq!(state.take_waker(), None);
}

#[test]
fn flags_and_counts_share_the_word() {
    let mut state: LockState<u32> = LockState::new();
    assert!(state.is_idle());
    let key = state.add_task();
    state.register_waker(&1);
    state.park();
    state.mark_closed();
    assert!(!state.is_idle());
    assert!(state.is_closed());
    assert!(state.has_room());
    let end = state.end_task(key);
    assert!(end.notify);
    assert_eq!(end.waker, Some(1));
    assert!(state.is_idle());
    assert!(state.is_closed());
    state.unpark();
    assert_eq!(state.num_tasks(), 0);
}

#[test]
fn a_nested_scope_hands_back_its_own_state() {
    let mut outer = scope(1);
    let mut nested: NestedScope<&str, u8, u32, &str> = outer.shared().nest("parent", 9);
    assert_eq!(*nested.scope.get().parent_scope(), "parent");
    assert_eq!(*nested.scope.get().deref(), 9);
    assert_eq!(*nested.scope.shared().0.runtime(), "runtime");
    let guard = nested.spawn();
    assert_eq!(nested.poll(&3), Poll::Pending);
    assert_eq!(end(guard, nested.scope.shared().0).waker, Some(3));
    assert_eq!(nested.poll(&3), Poll::Ready(9));
    assert_eq!(outer.poll(&3), Poll::Ready(1));
}

#[test]
fn a_task_sees_the_state_of_its_scope() {
    let mut outer = scope(4);
    assert_eq!(*outer.shared().deref(), 4);
    let nested: NestedScope<u8, Vec<u8>, u32, &str> = outer.shared().nest(2, vec![1]);
    let mut scope = nested.scope;
    let mut stack = match scope.poll(&0) {
        Poll::Ready(stack) => stack,
        Poll::Pending => panic!("no task is alive"),
    };
    stack.deref_mut().push(2);
    assert_eq!(stack.into_inner(), vec![1, 2]);
}

#[test]
fn a_cell_gives_its_value_up_once() {
    let mut cell = ManuallyDropCell::new(String::from("state"));
    let (value, mut guard) = cell.borrow();
    assert_eq!(value, "state");
    assert!(guard.is_held());
    guard.release();
    assert!(!guard.is_held());
    assert_eq!(cell.take(), "state");
}

#[test]
fn a_cell_drops_its_value_by_hand_only() {
    let value = Rc::new(());
    drop(ManuallyDropCell::new(value.clone()));
    assert_eq!(Rc::strong_count(&value), 2);
    ManuallyDropCell::new(value.clone()).drop();
    assert_eq!(Rc::strong_count(&value), 2);
    let mut cell = ManuallyDropCell::new(value.clone());
    drop(cell.take());
    drop(cell);
    assert_eq!(Rc::strong_count(&value), 2);
}

#[test]
fn an_idle_scope_has_no_waker() {
    let mut scope = scope(1);
    assert_eq!(scope.poll_until_empty(&1), Poll::Ready(()));
    let task = scope.spawn();
    assert_eq!(end(task, scope.shared().0).waker, None);
    let task = scope.spawn();
    assert_eq!(scope.poll_until_empty(&2), Poll::Pending);
    assert_eq!(end(task, scope.shared().0).waker, Some(2));
    let task = scope.spawn();
    assert_eq!(end(task, scope.shared().0).waker, None);
}

#[test]
fn dropping_a_scope_drops_its_state() {
    let value = Rc::new(());
    let mut scope: Scope<Rc<()>, u32, ()> = Scope::with_runtime(value.clone(), ());
    let task = scope.spawn();
    assert_eq!(scope.begin_drop().1, Drain::Park);
    assert_eq!(Rc::strong_count(&value), 2);
    end(task, scope.shared().0);
    assert_eq!(Rc::strong_count(&value), 2);
    assert_eq!(scope.resume_drop(), Drain::Done);
    assert_eq!(Rc::strong_count(&value), 1);
}

#[test]
fn a_late_handle_does_not_reach_a_newer_task() {
    let mut scope = scope(5);
    let one = scope.spawn();
    let late = one.task_key();
    end(one, scope.shared().0);
    for _ in 0..100 {
        let task = scope.spawn();
        assert_ne!(task.task_key(), late);
        assert_eq!(scope.shared().0.set_abort_handle(late, 1), HandleUse::Ended);
        end(task, scope.shared().0);
    }
    let newer = scope.spawn();
    assert_eq!(scope.shared().0.set_abort_handle(late, 1), HandleUse::Ended);
    assert!(scope.begin_drop().0.is_empty());
    assert_eq!(scope.shared().0.set_abort_handle(late, 1), HandleUse::Ended);
    end(newer, scope.shared().0);
    assert_eq!(scope.resume_drop(), Drain::Done);
}

#[test]
fn a_waiting_owner_is_woken_once() {
    let mut scope = scope(5);
    let one = scope.spawn();
    assert_eq!(scope.poll_until_empty(&7), Poll::Pending);
    let two = scope.spawn();
    assert_eq!(end(one, scope.shared().0).waker, None);
    assert_eq!(end(two, scope.shared().0).waker, Some(7));
    let three = scope.spawn();
    assert_eq!(end(three, scope.shared().0).waker, None);
}

#[test]
fn the_outer_state_outlives_a_nested_scope() {
    let value = Rc::new(());
    let mut outer: Scope<Rc<()>, u32, ()> = Scope::with_runtime(value.clone(), ());
    let owner = outer.spawn();
    let parent = Rc::downgrade(outer.get());
    let mut nested: NestedScope<_, u8, u32, ()> = outer.shared().nest(parent, 3);
    let task = nested.spawn();
    assert_eq!(outer.begin_drop().1, Drain::Park);
    drop(value);

    // The owner of the nested scope is aborted, and drops the nested scope first.
    assert_eq!(nested.scope.begin_drop().1, Drain::Park);
    assert_eq!(outer.resume_drop(), Drain::Park);
    assert!(nested.scope.get().parent_scope().upgrade().is_some());
    assert!(end(task, nested.scope.shared().0).notify);
    assert_eq!(nested.scope.resume_drop(), Drain::Done);

    assert!(end(owner, outer.shared().0).notify);
    assert_eq!(outer.resume_drop(), Drain::Done);
}
