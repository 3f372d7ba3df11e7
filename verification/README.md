# petool_core

The decision logic of the PETool desktop agent, written in Verus and
proved against its contracts: the scheduler (schedules, back-off, the job
store), tool permissions, the patch format of `apply_patch`, the workspace
tools (paths, reads, edits, searches), the tool catalog, the agent turn and
its repeat guard, the streaming answer accumulators, the web tools' plans
and result parsers, the desktop and browser planners, and the text helpers
they share.

## Layout

- `src/` — the verified library. Calls into outside crates (chrono, cron,
  chrono-tz, regex, serde_json, base64, url, globset) stand behind small
  trusted wrappers whose contracts are documented where they are declared.
- `tests/` — tests of the library on concrete values.
- `app/` — a command-line host that runs the local workspace tools on JSON
  requests read from standard input, doing the file and process I/O around
  the library.

Verification: run Verus on `src/lib.rs`; every function in `src/` is checked
against its `requires` and `ensures`.
