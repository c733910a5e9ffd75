# nodeget

The decision logic of the NodeGet monitoring server and agent, verified with
Verus.

- `src/` is the verified library: credential parsing, the permission model
  and its checks (tokens, key-value namespaces, agent listing, cron jobs),
  query conditions of monitoring data, the cron scheduler's choice of due
  jobs and wake-up delay, the agent's connection state machine, input
  normalisation, and the text of the server's JSON replies. Each public
  function states its result in its `ensures`; the `lemma_*` proof functions
  state properties that relate several calls.
- Calls into `uuid`, `rand`, `base64`, `cron` and `chrono` stand behind small
  trusted wrappers whose contracts are documented next to them.
- `tests/` runs the library on concrete values.
- `app/` is the process around it: configuration loading, the serde forms of
  the data types, the scheduler task, the task registry, the latest-record
  cache and the agent's websocket links.
