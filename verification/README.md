# pin-scoped

A safe, minimally compromised API for scoped asynchronous tasks, whose
decisions are verified with Verus.

A scope holds a state and lends it to the tasks that are spawned in it. Awaiting
the scope hands the state back once every task has ended. Dropping the scope
aborts the tasks that are still alive and waits until they have ended.

- `src/` is the verified library. `scope` and `lock_state` decide which tasks are
  alive, who is woken when the last one ends, which tasks are aborted, and when
  the state may be taken back; `laws` states what holds over the whole life of a
  scope. `send_rwlock` is a reader-writer lock on one word, with `rwlock_laws` on
  the threads that share it. `spawner` hands tasks to the owner of a scope, and
  `loom_rt` is a small runtime, with `runtime_laws` on all the rounds of its worker.
- `app/` runs the library on tokio, loom, atomics and the parking lot. With
  `--cfg pin_scoped_loom` its scopes run on the small runtime under loom.
- `tests/` drives the library step by step, and on tokio and loom.
