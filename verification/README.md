# toks_core

Zero-disconnect reloads of the Toks router, with every decision proved
against its contract by Verus.

A coordinator process owns the router's client listener and hands each
client to a worker process of the active generation. A new build is
deployed as a new generation: it is staged, its worker reports ready, the
previous worker stops admitting clients, and the new one starts accepting.
Every step is recorded durably before the next one is taken, so a crash at
any point resumes where it left off.

## Layout

- `src/state.rs`, `src/state/`: the durable deployment state machine. Given
  the recorded state and the outcomes reported to it, it plans the single
  next action. `state/laws.rs` proves the properties that hold across its
  operations (replayed reports change nothing, refused requests change
  nothing, accepted ones keep the state valid, retries bind once).
- `src/process/`: the coordinator's and the workers' decisions. It covers
  client handoffs in flight (`pending`), the worker's side of the handoff
  protocol (`handoffs`, `worker_session`), acknowledgement waits (`wait`),
  the worker registry (`workers`), the coordinator itself (`coordinator`),
  the unit inventory (`worker_unit`), socket activation (`activated`), and
  process identity checks (`identity`).
- `src/retry.rs`, `src/lifecycle.rs`: retry requests and the order of the
  enable, disable and reinstall steps.
- `src/text.rs`, `src/search.rs`, `src/assoc.rs`: text reading, searches
  over sequences, and association lists with their lemmas.
- `app/`: the I/O around the library: state files, unit commands, the
  activated listener, and the asynchronous coordinator and worker loops.
- `tests/`: scenarios run against the compiled library.
