# Saffrodex

Saffrodex keeps a long-running goal of a conversation going: a hidden helper
checks in on it, a scheduler takes it up again after a restart, and a few tools
let the model edit or resume it and wait for a process.  This crate holds what
all of that decides, with contracts that Verus proves.

- `src/` is the library.  Types that hold text or collections have a
  mathematical view, and every public function says in its contract what it
  returns or changes.  The public proof functions state what holds between
  functions.
  - `goals`, `goal_store`, `storage`: goals, their revisions, wakes and the
    last action taken for them.
  - `goal_scheduler`: which goals are due, and what is in flight for them.
  - `goal_supervisor`: check-ins, their helpers, and what a helper may do.
  - `goal_edit`, `goal_resume`, `registration`, `registry`, `tool_spec`: the
    tools offered to a model.
  - `interaction`, `await_exec`: waiting for a process without losing output.
  - `retention`, `recovery`, `followup`: which threads stay loaded, and how
    they are reached.
  - `daemon_mounts`: whether a directory can be hidden by masking mounts.
- `app/` reads, waits, writes and sends: the SQLite databases, the tasks, JSON,
  and the interfaces to the application that embeds it.
- `tests/` runs the library on concrete values.

What is taken on trust is marked `#[verifier::external_body]`: calls into
`chrono`, `libc`, `serde_json` and the standard library, each with a comment
that says what its contract claims.
