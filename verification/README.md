# os3

Task management and process-information system calls of a small
time-sharing kernel, verified with Verus.

- `src/config.rs`: kernel limits.
- `src/task/`: task control blocks and the task manager (round-robin choice of
  the next task, suspend / exit transitions, time accounting).
- `src/syscall/`: system-call numbers, the per-call counters and the
  `exit`, `yield`, `get_time` and `task_info` calls.
- `app/main.rs`: a host-side driver that plays the trap handler, the clock and
  the context switch around the library.
