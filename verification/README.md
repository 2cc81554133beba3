# hyper-scheduler

A coroutine runtime with earliest-deadline-first admission control, and an HTTP
service that runs WebAssembly functions on it with deadlines.

The scheduling logic is a library verified with Verus (`src/`):

- `task`: scheduling records (`SchedulerStatus`), coroutines and their bookkeeping
  as they are resumed, suspended and completed; deadline order; stack sizes.
- `scheduler`: the shared scheduler (preemption slot, EDF realtime queue, FIFO
  global queue, live and completed records, spare-time table) and the per-thread
  worker queues.
- `runtime`: admission control (the EDF schedulability test on integer
  microseconds) and what spawning does with its verdict.
- `runwasm`, `axum`, `result`, `parse`: call requests, parameter conversion,
  name registry, request counters and call outcomes.

`app/` holds what cannot be verified: the demo program, threads, signals and
timers, machine contexts, cgroups, wasmtime, and the axum/reqwest service.

Times inside the library are nanoseconds on the runtime's monotonic clock.
