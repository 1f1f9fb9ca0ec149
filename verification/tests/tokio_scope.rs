//! Scopes whose tasks run on tokio.

use std::collections::HashMap;
use std::future::{poll_fn, Future};
use std::pin::Pin;
use std::sync::atomic::{AtomicU64, Ordering};
use std::sync::{Arc, Condvar, Mutex};
use std::task::{Context, Poll, Waker};
use std::time::Duration;

use futures_util::task::noop_waker_ref;
use pin_scoped::lock_state::HandleUse;
use pin_scoped::{Drain, NestedScope, NestedStack, Scope, ScopeGuard};
use tokio::runtime::{Handle, Runtime};
use tokio::task::AbortHandle;

/// A scope or a nested scope.
trait Scoped: Send + 'static {
    type Stored: Send + 'static;
    type Output;

    fn register(&mut self) -> ScopeGuard<Self::Stored>;
    fn poll_state(&mut self, waker: &Waker) -> pin_scoped::Poll<Self::Output>;
    fn scope(&mut self) -> &mut Scope<Self::Stored, Waker, Handle>;
}

impl<S: Send + 'static> Scoped for Scope<S, Waker, Handle> {
    type Stored = S;
    type Output = S;

    fn register(&mut self) -> ScopeGuard<S> {
        self.spawn()
    }

    fn poll_state(&mut self, waker: &Waker) -> pin_scoped::Poll<S> {
        self.poll(waker)
    }

    fn scope(&mut self) -> &mut Scope<S, Waker, Handle> {
        self
    }
}

impl<P: Send + 'static, S: Send + 'static> Scoped for NestedScope<P, S, Waker, Handle> {
    type Stored = NestedStack<P, S>;
    type Output = S;

    fn register(&mut self) -> ScopeGuard<NestedStack<P, S>> {
        self.spawn()
    }

    fn poll_state(&mut self, waker: &Waker) -> pin_scoped::Poll<S> {
        self.poll(waker)
    }

    fn scope(&mut self) -> &mut Scope<NestedStack<P, S>, Waker, Handle> {
        &mut self.scope
    }
}

struct Locked<Sc> {
    scoped: Sc,
    handles: HashMap<u64, AbortHandle>,
}

struct Shared<Sc> {
    lock: Mutex<Locked<Sc>>,
    condvar: Condvar,
}

/// Ends a task when it is dropped.
struct EndOnDrop<Sc: Scoped> {
    shared: Arc<Shared<Sc>>,
    guard: Option<ScopeGuard<Sc::Stored>>,
}

impl<Sc: Scoped> Drop for EndOnDrop<Sc> {
    fn drop(&mut self) {
        let mut guard = self.guard.take().unwrap();
        guard.release();
        let waker = {
            let mut lock = self.shared.lock.lock().unwrap();
            lock.handles.remove(&guard.task_key());
            let end = guard.drop(lock.scoped.scope().shared().0);
            if end.notify {
                self.shared.condvar.notify_one();
            }
            end.waker
        };
        if let Some(waker) = waker {
            waker.wake();
        }
    }
}

/// A task of a scope: its future is dropped before the task ends.
struct ScopedFuture<Sc: Scoped> {
    future: Pin<Box<dyn Future<Output = ()> + Send>>,
    _end: EndOnDrop<Sc>,
}

impl<Sc: Scoped> Unpin for ScopedFuture<Sc> {}

impl<Sc: Scoped> Future for ScopedFuture<Sc> {
    type Output = ();

    fn poll(mut self: Pin<&mut Self>, cx: &mut Context<'_>) -> Poll<()> {
        self.future.as_mut().poll(cx)
    }
}

struct TokioScope<Sc: Scoped>(Arc<Shared<Sc>>);

type Outer<S> = Scope<Arc<S>, Waker, Handle>;

/// A scope over `state` in the runtime of the caller.
fn new_scope<S: Send + Sync + 'static>(state: S) -> TokioScope<Outer<S>> {
    TokioScope::around(Scope::new(Arc::new(state), &Handle::current()))
}

impl<Sc: Scoped> TokioScope<Sc> {
    fn around(scoped: Sc) -> Self {
        TokioScope(Arc::new(Shared {
            lock: Mutex::new(Locked {
                scoped,
                handles: HashMap::new(),
            }),
            condvar: Condvar::new(),
        }))
    }

    fn spawn<F, Fut>(&self, f: F)
    where
        F: FnOnce(&Sc::Stored) -> Fut,
        Fut: Future<Output = ()> + Send + 'static,
    {
        let (guard, future, runtime) = {
            let mut lock = self.0.lock.lock().unwrap();
            assert!(!lock.scoped.scope().has_started_locking());
            let guard = lock.scoped.register();
            let future = f(lock.scoped.scope().get());
            let runtime = lock.scoped.scope().shared().0.runtime().clone();
            (guard, future, runtime)
        };
        let key = guard.task_key();
        let handle = runtime.spawn(ScopedFuture {
            future: Box::pin(future),
            _end: EndOnDrop {
                shared: self.0.clone(),
                guard: Some(guard),
            },
        });
        let mut lock = self.0.lock.lock().unwrap();
        match lock.scoped.scope().shared().0.set_abort_handle(key, key) {
            HandleUse::Kept => {
                lock.handles.insert(key, handle.abort_handle());
            }
            HandleUse::Abort => handle.abort(),
            HandleUse::Ended => {}
        }
    }

    async fn finish(self) -> Sc::Output {
        poll_fn(|cx| {
            let mut lock = self.0.lock.lock().unwrap();
            match lock.scoped.poll_state(cx.waker()) {
                pin_scoped::Poll::Ready(state) => Poll::Ready(state),
                pin_scoped::Poll::Pending => Poll::Pending,
            }
        })
        .await
    }
}

impl<Sc: Scoped> Drop for TokioScope<Sc> {
    fn drop(&mut self) {
        let shared = &*self.0;
        let mut lock = shared.lock.lock().unwrap();
        let (handles, mut drain) = lock.scoped.scope().begin_drop();
        for key in handles {
            lock.handles.remove(&key).unwrap().abort();
        }
        if drain == Drain::Park {
            lock = tokio::task::block_in_place(move || {
                while drain == Drain::Park {
                    lock = shared.condvar.wait(lock).unwrap();
                    drain = lock.scoped.scope().resume_drop();
                }
                lock
            });
        }
        assert!(lock.scoped.scope().is_removed());
        assert_eq!(lock.scoped.scope().num_tasks(), 0);
    }
}

fn rt() -> Runtime {
    tokio::runtime::Builder::new_multi_thread()
        .enable_time()
        .worker_threads(1)
        .build()
        .unwrap()
}

async fn work(state: Arc<Mutex<u64>>, i: u32) {
    tokio::time::sleep(Duration::from_millis(10) * i).await;
    *state.lock().unwrap() += 1;
    tokio::time::sleep(Duration::from_millis(10) * i).await;
}

async fn run(n: u32) -> u64 {
    let scoped = new_scope(Mutex::new(0));
    for i in 0..n {
        scoped.spawn(|state: &Arc<Mutex<u64>>| work(state.clone(), i));
    }
    let state = scoped.finish().await;
    Arc::into_inner(state).unwrap().into_inner().unwrap()
}

async fn run_closures(n: u64) -> u64 {
    let scoped = new_scope(Mutex::new(0));
    for i in 0..n {
        scoped.spawn(|state: &Arc<Mutex<u64>>| {
            let state = state.clone();
            async move {
                tokio::time::sleep(Duration::from_millis(10 * i)).await;
                *state.lock().unwrap() += 1;
                tokio::time::sleep(Duration::from_millis(10 * i)).await;
            }
        });
    }
    let state = scoped.finish().await;
    Arc::into_inner(state).unwrap().into_inner().unwrap()
}

#[test]
fn lib_scoped() {
    let res = rt().block_on(run(64));
    assert_eq!(res, 64);
}

#[test]
fn lib_dropped() {
    let rt = rt();
    let _guard = rt.enter();

    let mut task = Box::pin(run(64));
    assert!(task
        .as_mut()
        .poll(&mut Context::from_waker(noop_waker_ref()))
        .is_pending());
}

#[test]
fn closure_scoped() {
    let res = rt().block_on(run_closures(64));
    assert_eq!(res, 64);
}

#[test]
fn closure_dropped() {
    let rt = rt();
    let _guard = rt.enter();

    let mut task = Box::pin(run_closures(64));
    assert!(task
        .as_mut()
        .poll(&mut Context::from_waker(noop_waker_ref()))
        .is_pending());
}

type Nested<P, S> = NestedScope<P, S, Waker, Handle>;

/// A scope inside a task of the scope `outer`.
fn nest<S, P, S2>(outer: &Shared<Outer<S>>, parent: P, state: S2) -> TokioScope<Nested<P, S2>>
where
    S: Send + Sync + 'static,
    P: Send + 'static,
    S2: Send + 'static,
{
    let mut lock = outer.lock.lock().unwrap();
    TokioScope::around(lock.scoped.shared().nest(parent, state))
}

async fn run_nested(n: u64) -> u64 {
    let scoped = new_scope(Mutex::new(0));
    for i in 0..n {
        let outer = scoped.0.clone();
        scoped.spawn(|state: &Arc<Mutex<u64>>| {
            let state = state.clone();
            async move {
                let nested = nest(&outer, state.clone(), Arc::new(AtomicU64::new(0)));

                // we can spawn new scopes internally
                nested.spawn(|stack: &NestedStack<Arc<Mutex<u64>>, Arc<AtomicU64>>| {
                    let parent = stack.parent_scope().clone();
                    let state = stack.deref().clone();
                    async move {
                        *parent.lock().unwrap() += 1;

                        tokio::time::sleep(Duration::from_millis(20 * i)).await;
                        state.fetch_add(1, Ordering::Relaxed);
                    }
                });

                tokio::time::sleep(Duration::from_millis(10 * i)).await;

                let inner = nested.finish().await;
                *state.lock().unwrap() += Arc::into_inner(inner).unwrap().into_inner();
            }
        });
    }
    let state = scoped.finish().await;
    Arc::into_inner(state).unwrap().into_inner().unwrap()
}

#[test]
fn spawn_nested_scoped() {
    let res = rt().block_on(run_nested(32));
    assert_eq!(res, 64);
}

#[test]
fn spawn_nested_dropped() {
    let rt = rt();
    let _guard = rt.enter();

    let mut task = Box::pin(run_nested(32));
    assert!(task
        .as_mut()
        .poll(&mut Context::from_waker(noop_waker_ref()))
        .is_pending());
}
