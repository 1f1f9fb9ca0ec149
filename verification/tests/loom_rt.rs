//! The small runtime, step by step.

use pin_scoped::loom_rt::{block_in_place, Handle, JoinHandle, Worker};
use pin_scoped::Poll;

/// Polls every task of a round; a task has completed when it reaches zero.
fn poll_all(worker: &mut Worker<u32>) -> Vec<u32> {
    let mut seen = Vec::new();
    while let Some(task) = worker.current() {
        *task -= 1;
        seen.push(*task);
        let ready = *task == 0;
        worker.polled(ready);
    }
    seen
}

#[test]
fn tasks_are_polled_in_order_until_they_complete() {
    let mut handle: Handle<u32, u8> = Handle::default();
    let mut worker = handle.spawn_worker();
    for task in [2, 1, 3, 1] {
        let (_, waker): (JoinHandle<()>, _) = handle.spawn(task);
        assert_eq!(waker, None);
    }
    assert!(!worker.begin_round(&mut handle, &7));
    assert_eq!(poll_all(&mut worker), vec![1, 0, 2, 0]);
    assert_eq!(worker.end_round(false), Poll::Pending);

    let (_, waker): (JoinHandle<()>, _) = handle.spawn(1);
    assert_eq!(waker, Some(7));
    let (_, waker): (JoinHandle<()>, _) = handle.spawn(2);
    assert_eq!(waker, None);
    assert!(!worker.begin_round(&mut handle, &8));
    assert_eq!(poll_all(&mut worker), vec![0, 1, 0, 1]);

    assert_eq!(handle.shutdown(), Some(8));
    assert_eq!(handle.shutdown(), None);
    assert!(worker.begin_round(&mut handle, &9));
    assert_eq!(poll_all(&mut worker), vec![0, 0]);
    assert_eq!(worker.end_round(true), Poll::Ready(()));
}

#[test]
fn a_worker_with_tasks_left_goes_on() {
    let mut handle: Handle<u32, u8> = Handle::default();
    let mut worker = handle.spawn_worker();
    let (join, _): (JoinHandle<u64>, _) = handle.spawn(2);
    join.abort();
    join.abort_handle().abort();
    handle.shutdown();
    assert!(worker.begin_round(&mut handle, &1));
    poll_all(&mut worker);
    assert_eq!(worker.end_round(true), Poll::Pending);
    assert!(worker.begin_round(&mut handle, &1));
    poll_all(&mut worker);
    assert_eq!(worker.end_round(true), Poll::Ready(()));
}

#[test]
fn a_worker_without_tasks_waits_for_the_shutdown() {
    let mut handle: Handle<u32, u8> = Handle::default();
    let mut worker = handle.spawn_worker();
    let (_, waker): (JoinHandle<()>, _) = handle.spawn(1);
    assert_eq!(waker, None);
    for round in 0..3 {
        let done = worker.begin_round(&mut handle, &round);
        assert!(!done);
        poll_all(&mut worker);
        assert_eq!(worker.end_round(done), Poll::Pending);
    }
    assert_eq!(handle.shutdown(), Some(2));
    let done = worker.begin_round(&mut handle, &3);
    assert!(done);
    assert_eq!(poll_all(&mut worker), Vec::<u32>::new());
    assert_eq!(worker.end_round(done), Poll::Ready(()));
}

#[test]
fn blocking_runs_in_place() {
    let words = vec!["a", "b"];
    assert_eq!(block_in_place(move || words.len()), 2);
}
