//! Scopes whose tasks run on the small runtime, in every order that loom finds.

use std::future::{poll_fn, Future};
use std::pin::Pin;
use std::task::{Context, Poll, Waker};
use std::time::Duration;

use futures_util::task::noop_waker_ref;
use loom::sync::{Arc, Condvar, Mutex};
use pin_scoped::lock_state::HandleUse;
use pin_scoped::loom_rt::{Handle, JoinHandle, Worker};
use pin_scoped::{Drain, Scope, ScopeGuard};

type Task = Pin<Box<dyn Future<Output = ()> + Send>>;
type Queue = Arc<Mutex<Handle<Task, Waker>>>;
type State = Arc<Mutex<u64>>;

struct Shared {
    lock: Mutex<Scope<State, Waker, Queue>>,
    condvar: Condvar,
}

/// Ends a task when it is dropped.
struct EndOnDrop {
    shared: Arc<Shared>,
    guard: Option<ScopeGuard<State>>,
}

impl Drop for EndOnDrop {
    fn drop(&mut self) {
        let mut guard = self.guard.take().unwrap();
        guard.release();
        let waker = {
            let mut lock = self.shared.lock.lock().unwrap();
            let end = guard.drop(lock.shared().0);
            if end.notify {
                self.shared.condvar.notify_one();
            }
            end.waker
        };
        if let Some(waker) = waker {
            waker.wake();
        }
    }
}

/// A task of a scope: its future is dropped before the task ends.
struct ScopedFuture {
    future: Task,
    _end: EndOnDrop,
}

impl Future for ScopedFuture {
    type Output = ();

    fn poll(mut self: Pin<&mut Self>, cx: &mut Context<'_>) -> Poll<()> {
        self.future.as_mut().poll(cx)
    }
}

struct LoomScope(Arc<Shared>);

impl LoomScope {
    fn with_runtime(state: u64, rt: Queue) -> Self {
        LoomScope(Arc::new(Shared {
            lock: Mutex::new(Scope::with_runtime(Arc::new(Mutex::new(state)), rt)),
            condvar: Condvar::new(),
        }))
    }

    fn spawn(&self) {
        let (guard, state, queue) = {
            let mut lock = self.0.lock.lock().unwrap();
            assert!(!lock.has_started_locking());
            let guard = lock.spawn();
            let state = lock.get().clone();
            let queue = lock.shared().0.runtime().clone();
            (guard, state, queue)
        };
        let key = guard.task_key();
        let task: Task = Box::pin(ScopedFuture {
            future: Box::pin(async move {
                yield_now().await;
                *state.lock().unwrap() += 1;
                yield_now().await;
            }),
            _end: EndOnDrop {
                shared: self.0.clone(),
                guard: Some(guard),
            },
        });
        let (handle, waker): (JoinHandle<()>, _) = queue.lock().unwrap().spawn(task);
        if let Some(waker) = waker {
            waker.wake();
        }

        // fill in abort handle
        let mut lock = self.0.lock.lock().unwrap();
        match lock.shared().0.set_abort_handle(key, key) {
            HandleUse::Kept | HandleUse::Ended => {}
            HandleUse::Abort => handle.abort(),
        }
    }

    async fn finish(&self) -> u64 {
        let state = poll_fn(|cx| {
            let mut lock = self.0.lock.lock().unwrap();
            match lock.poll(cx.waker()) {
                pin_scoped::Poll::Ready(state) => Poll::Ready(state),
                pin_scoped::Poll::Pending => Poll::Pending,
            }
        })
        .await;
        let value = *state.lock().unwrap();
        value
    }
}

impl Drop for LoomScope {
    fn drop(&mut self) {
        let mut lock = self.0.lock.lock().unwrap();
        let alive = lock.num_tasks();
        let (handles, mut drain) = lock.begin_drop();
        assert_eq!(handles.len(), alive);
        while drain == Drain::Park {
            lock = self.0.condvar.wait(lock).unwrap();
            drain = lock.resume_drop();
        }
    }
}

async fn yield_now() {
    poll_fn(|cx| {
        cx.waker().wake_by_ref();
        Poll::Ready(())
    })
    .await
}

fn spawn_worker(queue: &Queue) -> loom::thread::JoinHandle<()> {
    let queue = queue.clone();
    let mut worker: Worker<Task> = queue.lock().unwrap().spawn_worker();
    loom::thread::spawn(move || {
        loom::future::block_on(poll_fn(|cx| {
            let done = worker.begin_round(&mut queue.lock().unwrap(), cx.waker());
            while let Some(task) = worker.current() {
                let ready = task.as_mut().poll(cx).is_ready();
                worker.polled(ready);
            }
            match worker.end_round(done) {
                pin_scoped::Poll::Ready(()) => Poll::Ready(()),
                pin_scoped::Poll::Pending => Poll::Pending,
            }
        }))
    })
}

fn shutdown(queue: &Queue) {
    let waker = queue.lock().unwrap().shutdown();
    if let Some(waker) = waker {
        waker.wake();
    }
}

async fn run(n: u32, rt: Queue) -> u64 {
    let scoped = LoomScope::with_runtime(0, rt);
    for _ in 0..n {
        scoped.spawn();
    }
    scoped.finish().await
}

/// Runs `f` in every order of its threads with at most so many preemptions.
fn with_preemptions(bound: usize, f: fn()) {
    let mut builder = loom::model::Builder::new();
    builder.preemption_bound = Some(bound);
    builder.check(f);
}

/// Runs `f` in every order of its threads with few preemptions, and then in as many
/// of all orders as there is time for.
fn model(f: fn()) {
    with_preemptions(3, f);

    let mut builder = loom::model::Builder::new();
    builder.preemption_bound = None;
    builder.checkpoint_interval = 100;
    builder.max_duration = Some(Duration::from_secs(8));
    builder.check(f);
}

fn scoped(n: u32) {
    let rt: Queue = Arc::new(Mutex::new(Handle::default()));

    let worker_thread = spawn_worker(&rt);

    let val = loom::future::block_on(run(n, rt.clone()));
    assert_eq!(val, u64::from(n));

    shutdown(&rt);
    worker_thread.join().unwrap();
}

fn dropped(n: u32) {
    let rt: Queue = Arc::new(Mutex::new(Handle::default()));

    let worker_thread = spawn_worker(&rt);

    {
        let mut task = Box::pin(run(n, rt.clone()));
        let _ = task
            .as_mut()
            .poll(&mut Context::from_waker(noop_waker_ref()));
    }

    shutdown(&rt);
    worker_thread.join().unwrap();
}

#[test]
fn loom_scoped() {
    model(|| scoped(2));
}

#[test]
fn loom_dropped() {
    model(|| dropped(2));
}

#[test]
fn one_task_is_awaited_in_every_order() {
    loom::model(|| scoped(1));
}

#[test]
fn one_task_is_waited_for_in_every_order() {
    loom::model(|| dropped(1));
}

#[test]
fn two_tasks_are_awaited_with_more_preemptions() {
    with_preemptions(4, || scoped(2));
}

#[test]
fn two_tasks_are_waited_for_with_more_preemptions() {
    with_preemptions(4, || dropped(2));
}
