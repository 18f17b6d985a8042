# orchestration

Procedures are YAML state machines that drive coding-agent sessions: each
state runs an action (create a session, follow up, start a review, merge),
checks the result with a gate (an exit code, a JSON judgement, a human's
approval), and moves on along `on_success` / `on_failure`, retrying up to
`max_attempts` times.

`src/` is the verified library (Verus):

- `procedure` — procedure definitions, validation, trigger parameters.
- `state_machine` — the run machine: what a run does next for every reply.
- `gates` — what exit codes, judge responses and approvals mean.
- `template` — `{{path}}` interpolation over the run context.
- `json`, `text`, `uuids` — JSON values, text utilities, UUID text.
- `run_log`, `registry` — per-run records and registries.
- `catalog`, `records`, `runtime`, `workspaces`, `lead_agent` — the server
  side: catalog and graph views, stored rows, runtime configuration and
  backend replies, workspace params and session roles, the planner.
- `laws` — properties of the library as a whole.

`app/` holds the asynchronous and I/O side: YAML parsing, gate evaluators
that run commands, the run loop, the HTTP backend and the registries' locks.
