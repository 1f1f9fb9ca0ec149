//! Tasks that are handed to the owner of a scope.

use pin_scoped::spawner::{SpawnerChannel, StateWithSpawner};
use pin_scoped::{Poll, Scope};

#[test]
fn a_channel_carries_one_task_at_a_time() {
    let mut channel: SpawnerChannel<&str, u32> = SpawnerChannel::default();
    assert!(channel.is_free());
    assert_eq!(channel.pop(&1), None);
    assert_eq!(channel.spawn("one"), Some(1));
    assert!(!channel.is_free());
    assert_eq!(channel.pop(&2), Some("one"));
    assert!(channel.is_free());
    assert_eq!(channel.spawn("two"), None);
    assert_eq!(channel.pop(&3), Some("two"));
    assert_eq!(channel.pop(&4), None);
    assert_eq!(channel.pop(&5), None);
    assert_eq!(channel.spawn("three"), Some(5));
}

fn scope(task: Option<&'static str>) -> Scope<StateWithSpawner<u64, &'static str, u32>, u32, ()> {
    let mut state = StateWithSpawner::new(6);
    if let Some(task) = task {
        assert_eq!(state.spawn(task), None);
    }
    Scope::with_runtime(state, ())
}

#[test]
fn without_tasks_there_is_nothing_to_wait_for() {
    let mut scope = scope(None);
    assert_eq!(scope.pop_task(&1, false), Poll::Ready(None));
    assert_eq!(scope.pop_task(&1, true), Poll::Ready(None));
    assert_eq!(scope.get().state, 6);
}

#[test]
fn a_task_that_is_handed_over_is_popped_once() {
    let mut scope = scope(Some("task"));
    let mut guard = scope.spawn();
    assert_eq!(scope.pop_task(&1, true), Poll::Ready(Some("task")));
    assert_eq!(scope.pop_task(&2, false), Poll::Pending);
    guard.release();
    assert_eq!(guard.drop(scope.shared().0).waker, Some(2));
    assert_eq!(scope.pop_task(&3, false), Poll::Ready(None));
}

#[test]
fn the_choice_decides_when_both_have_come() {
    let mut scope = scope(Some("task"));
    assert_eq!(scope.pop_task(&1, true), Poll::Ready(None));
    assert_eq!(scope.pop_task(&1, false), Poll::Ready(Some("task")));
    assert_eq!(scope.pop_task(&1, false), Poll::Ready(None));
}

#[test]
fn a_task_that_comes_first_registers_no_waker() {
    let mut scope = scope(Some("task"));
    let mut guard = scope.spawn();
    assert_eq!(scope.pop_task(&1, false), Poll::Ready(Some("task")));
    guard.release();
    assert_eq!(guard.drop(scope.shared().0).waker, None);
}

#[test]
fn an_owner_that_waits_is_known_to_both() {
    let mut scope = scope(None);
    let mut guard = scope.spawn();
    assert_eq!(scope.pop_task(&4, true), Poll::Pending);
    guard.release();
    assert_eq!(guard.drop(scope.shared().0).waker, Some(4));
    let mut state = match scope.poll(&5) {
        Poll::Ready(state) => state,
        Poll::Pending => panic!("no task is alive"),
    };
    assert_eq!(state.spawn("task"), Some(4));
}

#[test]
fn a_channel_and_a_scope_can_stand_apart() {
    let mut scope: Scope<u8, u32, ()> = Scope::with_runtime(9, ());
    let mut channel: SpawnerChannel<&str, u32> = SpawnerChannel::new();
    let mut guard = scope.spawn();
    assert_eq!(channel.pop_or_empty(&mut scope, &3, false), Poll::Pending);
    assert_eq!(channel.spawn("one"), Some(3));
    assert_eq!(channel.pop_or_empty(&mut scope, &4, true), Poll::Ready(Some("one")));
    assert_eq!(channel.spawn("two"), None);
    guard.release();
    assert_eq!(guard.drop(scope.shared().0).waker, Some(4));
    assert_eq!(channel.pop_or_empty(&mut scope, &5, true), Poll::Ready(None));
    assert_eq!(channel.pop_or_empty(&mut scope, &5, false), Poll::Ready(Some("two")));
    assert_eq!(scope.poll(&6), Poll::Ready(9));
    assert_eq!(channel.pop_or_empty(&mut scope, &7, false), Poll::Ready(None));
    assert_eq!(channel.spawn("three"), Some(7));
}
