# workflow_engine

The deciding parts of a workflow engine, written in Verus: what a run takes up
and in which order, when conditions hold, which evidence a failure leaves, which
Git bundles are accepted as artifacts, and how an app server is launched, driven,
stopped and cleaned up after.

## Layout

- `src/` is the verified library. Every function states what it returns; the
  proof functions named `law_...` state what holds across functions.
  - `git_artifact` validates Git bundles: header, pack, deltas, objects.
  - `condition`, `pointer`, `json`, `number`, `decimal` evaluate conditions over
    text and JSON of any precision.
  - `coordinator`, `runtime`, `execution`, `force_abort_evidence` order what
    happens in a run and say what it hands back.
  - `evidence`, `failure`, `agent`, `finalization_context`, `document`,
    `command_contract` describe what is kept and told of a run.
  - `diagnostic` keeps the output of processes within bounds.
  - `codex` runs the Codex app server as an agent.
  - `execution_root`, `path` decide where a run may work.
  - `named` holds values by name, in the order of their names.
- `app/` performs what the library decides: files, processes, tasks, timers and
  wire formats.
- `tests/` runs the library on concrete values.

Functions marked `#[verifier::external_body]` and declarations of outside types
are believed without proof; their doc comments say what is believed. There are
few: SHA-1 (`ring`), zlib (`flate2`), quoting and reading JSON (`serde_json`), and
two functions on strings of the standard library.
