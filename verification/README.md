# breadx_blocking

Asynchronous displays over blocking `breadx` displays: the blocking operations
(waiting for input, sending a request) run on the `blocking` thread pool.

- `src/` is the library, verified with Verus. It keeps the bookkeeping: where the
  display is (in hand, inside the running wait task, inside the running send
  task, or detached while `get_mut` awaits a task), which operation of a shared
  display is running, and which wakers are queued. It is generic over the display,
  the task and the waker types, and takes the spawning and polling of tasks as
  closures, so every contract holds whatever those tasks do. `blocking_runs` and
  `immutable_runs` state and prove laws over whole runs of calls: a run of polls
  is one blocking operation, and refused callers' wakers are all handed back.
- `app/` holds `BlockingDisplay<T>` and `BlockingDisplayImmut<T>`, which implement
  `breadx`'s `DisplayBase` and `AsyncDisplay` on top of that bookkeeping, with real
  tasks, futures and wakers.
- `tests/` runs the library with plain values in place of displays and tasks.
