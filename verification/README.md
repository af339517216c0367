# ai-task

The decision core of an AI execution control plane: runs as event logs,
cron scheduling, DAG orchestration, policy gates, approvals, remote
execution and drift detection. The library in `src/` is verified with
Verus. `app/` is a thin program around it: configuration, the health,
readiness and static-asset endpoints, and the client side of the
`PreToolUse` policy hook. The event store, the model executor and the
remote agent are separate components outside this crate, so the routes
and loops that need them (tasks, runs, the event stream, policy
decisions, the scheduler and the engine) are not wired here; their
decisions are the step functions of `src/`, each taking what the
component returned and saying what to do next.

## Layout

- `src/text.rs` — the string model every other module states its
  contracts in (trimming, splitting, decimal rendering and parsing,
  lexicographic order), with the executable helpers proved against it.
- `src/cron.rs`, `src/scheduler.rs`, `src/schedules.rs` — cron rules in
  IANA zones, due-point enumeration with a bounded catch-up, the misfire
  policies and the cursor of a claimed schedule.
- `src/dag.rs`, `src/engine.rs`, `src/approval.rs`, `src/host_exec.rs`,
  `src/sink.rs` — readiness and skipping of DAG nodes, retries, fan-out,
  the engine's decisions per node kind, approval verdicts, reading a
  command's outcome, and batching of run events.
- `src/policy.rs`, `src/remote.rs`, `src/hook.rs` — the policy layer's
  verdicts, the remote tool proxy (quoting, here-documents, answers) and
  the hook's steps.
- `src/access.rs`, `src/error.rs`, `src/extract.rs`, `src/idempotency.rs` —
  roles and routes, the error envelope, request ids, sessions, request
  bodies and idempotency keys.
- The remaining modules hold the rules of the individual HTTP resources
  (tasks, runs, audit, users, hosts, rules, approvals, overview, drift,
  health, configuration).

Laws that span several functions are public proof functions next to the
functions they speak of (`lemma_*`).
