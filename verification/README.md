# nats-cli-monitor

A terminal dashboard for NATS servers: it polls the HTTP monitoring
endpoints `/varz` and `/jsz?streams=true&consumers=true` and shows server
statistics, JetStream statistics, a consumer table and two charts over the
last 60 polls (60 seconds at the default interval of one second): open
connections, and messages received per second.

- `src/` is the verified library (Verus):
  - `format.rs`: `format_number` (thousands separators) and `format_bytes`
    (KB/MB/GB/TB with one decimal, rounded exactly as an `f64` quotient
    printed with `{:.1}` would be), with their laws.
  - `url.rs`: `normalize_url` and its laws.
  - `model.rs`: the statistics the endpoints report.
  - `monitor.rs`: the dashboard state (`App`), its sliding histories (the
    message rate in messages per second of the polling interval), what a
    fetch result does to it, which keys quit and when a poll is due.
  - `view.rs`: the text and colours of every part of the screen.
  - `text.rs`: string helpers.
- `app/` is the program around it: command line, HTTP, JSON, terminal
  drawing.
- `tests/` exercises the library on concrete values.
