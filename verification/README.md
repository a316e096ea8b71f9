# nvw

The coordinating rules of a distributed optimisation task queue, verified
with Verus.

- `src/` is the verified library: the server's task, lease and result tables
  (`store`), tasks and results as handed out (`task_repo`, `result_repo`), the
  lease protocol of claiming a task and submitting its result (`service`),
  the properties that span those operations (`laws`), the status vocabulary
  shared by server, worker and command line (`proto`), identifiers and clock
  readings from `uuid` and `chrono` (`ids`), the command-line client's server
  address, request paths and credential (`client`), and the integer parts of
  the optimisation worker (`swarm`).
- `app/` holds the programs around it: the HTTP server with its SQLite
  persistence and background jobs, the command-line client, and the
  optimisation worker's floating-point problems and solvers.
- `tests/` exercises the library on concrete values.

Instants are microseconds since the UNIX epoch; UUIDs are carried as their
128-bit values and stored as their hyphenated text.
