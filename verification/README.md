# rimaia-core

The rules of an unattended coding-agent runner: which task on the board is
started next and how many may run at once, when an attempt is retried or given
up, what a task runs with, and what an edit of the board may do. They are
executable Rust over plain values, each with a contract that Verus proves.

- `src/scheduler` picks, leases, claims and retries runs, and steers the queue.
- `src/tasks` keeps the board: tasks, links, dependencies and their order.
- `src/strategy` resolves the model and effort a task runs with.
- `src/startup.rs` finds what a crash left behind.
- `src/testing` scripts a stand-in agent, its recordings and its repository.
- `src/json.rs` and `src/instant.rs` hold the calls into `serde_json` and
  `chrono`, whose contracts are believed; everything else is proved.
- Functions named `law_…` state what holds across several calls.
- `app` is the shell: the database, the clock, the disk and the processes. It
  reads what a decision needs and carries out what comes back.
