# Observability

A multi-tenant observability service with its core verified by
[Verus](https://github.com/verus-lang/verus). Tenants send observations, one by one, in batches or
as OpenTelemetry traces; the service queues and stores them, diagnoses failures, plans
investigations on selected evidence, accounts usage and quotes a monthly price.

- `src/` is the library. Every function states what it returns, and Verus proves it. What outside
  crates do (UUIDs, JSON, protobuf, header values) stands behind small trusted functions whose
  contracts say what is taken for granted.
- `tests/` runs the library on concrete values, with the outside crates linked.
- `app/` is ordinary Rust around the library: the HTTP service, the files and the SQLite database,
  and the command-line agent, which runs where the first argument is `agent`.

## Modules

| Module | What it holds |
| --- | --- |
| `observation`, `table`, `query` | observations, the table of them, and lists of them |
| `durable`, `worker`, `storage` | the ingestion queue, its worker, and both together with the table |
| `bounded` | a queue of limited length |
| `attribute`, `trace`, `otlp`, `wire` | OpenTelemetry traces: values, requests, mapping, encoding |
| `investigation`, `provider`, `completion` | diagnosis, plans, safe tools, model providers and their calls |
| `runtime` | the steps of the service over the stores that it is given |
| `usage`, `billing` | the usage ledger and monthly quotes |
| `access`, `service`, `reply`, `metrics` | who may ask, what is let in, how it is answered |
| `jsonl`, `repository`, `cli` | line files, what a store has to offer, command-line arguments |
| `identity`, `json`, `number`, `text`, `ordered`, `sorting`, `select` | the ground the rest stands on |
