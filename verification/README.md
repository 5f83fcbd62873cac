# botrunner

A master process publishes what its workers should run; workers poll it,
download update archives and supervise the bot process.

- `src/` — the verified library: the master's versioned state and
  its launch configurations, the operator console, the worker's reaction to
  a published state and to each command, the master's worker registry,
  archive naming, and the laws that tie them together (`src/laws.rs`).
- `app/` — the program around it: HTTP server and client, actors, file
  system, zip archives, JSON (de)serialization. Run `botrunner master` or
  `botrunner worker`.
- `tests/` — tests of the library's behaviour on concrete values.
