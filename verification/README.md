# oxipulse

A lightweight server-monitoring agent. The library under `src/` holds the
agent's logic with Verus contracts and proofs:

- `backoff`: exponential backoff between connectivity checks, with laws on
  how waits double up to the ceiling and count down.
- `buffer`: the offline ring buffer, which keeps the newest snapshots in order.
- `agent`: the decisions of the collection loop (when to probe, what to
  export, what to buffer), with the no-loss law for outages that fit in the
  buffer.
- `connectivity`: `host:port` extraction from endpoint URLs and status changes.
- `config`: defaults, environment overrides and validation.
- `config_file`: recording the running version in `config.toml`.
- `text`: string helpers (splitting, trimming, decimal parsing).
- `metrics`, `phone_home`, `cli`, `updater`: the computing parts of collection,
  telemetry pings, the command line and self-update.

`app/` is the program around it: async runtime, sysinfo, OpenTelemetry export,
HTTP, self-update and file/environment reading.
