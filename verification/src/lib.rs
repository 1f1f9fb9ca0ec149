//! Scoped asynchronous tasks.
//!
//! A [`Scope`] holds a state and lends it to tasks. Awaiting the scope hands the
//! state back once every task has ended; dropping the scope aborts the tasks and
//! waits for them. This crate holds the decisions: which tasks are alive, who is
//! woken when the last one ends, when the state may be taken back. Running tasks,
//! locking, parking threads and waking are left to the code around it.

pub mod channel_calls;
pub mod laws;
pub mod lock_calls;
pub mod lock_state;
pub mod loom_rt;
pub mod poll;
pub mod runtime_calls;
pub mod runtime_laws;
pub mod rwlock_laws;
pub mod scope;
pub mod scope_calls;
pub mod send_rwlock;
pub mod slots;
pub mod spawner;
pub mod sync;
pub mod task_laws;
pub mod waiter_laws;
pub mod word;

pub use poll::Poll;
pub use scope::{Drain, NestedScope, NestedStack, Scope, ScopeGuard, ScopeState, SharedState};
