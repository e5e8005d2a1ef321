# freactor

A small engine for asynchronous flows: a task is a graph of named steps, each
step reports a code (success, failure with an edge index, retry, cancel), and
the engine follows the step's edges, retries it under its retry policy, or
ends the run.

- `src/` is the verified library: the flow configuration (`config`), the run
  state and its metadata (`state`), the transition function of a run
  (`flow`), properties across transitions (`laws`), the version line
  (`about`) and text helpers (`text`).
- `app/` is the asynchronous runtime around it: it parses the JSON
  configuration, holds the step functions, runs them on tokio, sleeps before
  retries and asks the library what comes next; plus two demo programs.
- `tests/` runs the library on concrete flows.
