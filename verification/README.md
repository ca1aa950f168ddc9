# qdrant_toolkit

Operational building blocks of a vector database, written in Verus with
their behaviour stated in contracts and proved.

`src/` is the verified library:

- `latency` — search latency histograms kept apart for optimization periods
  and normal operation, with 99th percentile and target checks.
- `rebalance` — grouping shards by node and planning shard moves from
  overloaded nodes to the least loaded one.
- `chunking` — chunked reading, writing and copying through one buffer.
- `snapshot` — resumable upload bookkeeping and snapshot metadata.
- `enhanced_error` — error messages with context, hints and documentation
  links.
- `explain` — the integer side of query plans.
- `yaml`, `config_validator` — a YAML document model and the configuration
  checks made on it (conflicting settings, port conflicts, risky values).
- `telemetry` — tracing configuration and the exporter it selects.
- `optimizer_cycle` — the order of the steps of a background optimization,
  with the backup moved back when the swap fails halfway.
- `text` — decimal and hexadecimal renderings.

`app/` holds what the library leaves to ordinary Rust: shared state behind
locks, timing guards, file and async I/O, floating-point scoring and costs,
serialization, and installing trace exporters.
