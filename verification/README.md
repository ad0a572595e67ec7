# autocoder

The rules of a daemon that runs coding agents on repositories, as a library whose
behaviour is stated in contracts and proved with Verus.

- `src/control_socket` answers operators: it defers and resumes work, rolls back,
  clears markers, wipes workspaces, reports status, queues requests, reloads the
  configuration and relays what sessions hand over. An operation that takes several
  steps is a state machine: `start` gives the first step, `advance` takes what came of
  a step and gives the next.
- `src/forge` reads repository URLs, decides who may give commands, and composes the
  requests to GitLab and the messages about their answers.
- `src/executor` reads the events of an agent, composes the two log files of a run and
  finds the tasks that are still open.
- `src/gate_ledger.rs`, `src/gate_pass_record.rs`, `src/failure_state.rs`,
  `src/discussion_state.rs`, `src/ignore_for_queue.rs` and `src/daemon.rs` hold the
  state that is kept between passes.
- `src/dependency_preflight.rs` reports what the host lacks, and `src/e2e_replay.rs`
  replays new end-to-end tests against the old tree.
- `src/json.rs`, `src/clock.rs`, `src/path.rs` and `src/text.rs` are what these are
  built on.

Properties of several functions at once stand beside them as public proof functions.

`app/` is ordinary Rust around the library: files, processes, HTTP and async plumbing.
`tests/` runs the library.
