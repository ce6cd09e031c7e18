# Titan Engine

The deterministic core of a SQL materialization engine, written in Verus.
The functions under `src/` are verified against their contracts; calls into
`std` and the outside crates (`blake3`, `lasso`, `sqlparser`, `minijinja`) go
through small wrappers whose contracts are trusted and documented.

- `titan_core/` — SQL dialects and identifier quoting, column lineage
  (extraction from parsed SELECTs and diffing), schema drift, column maps,
  masking, shadow targets, CI impact analysis, audit records.
- `filler/` — the DAG scheduler (launch order, stall detection), model-task
  decisions (parent resolution, contracts, masking, table registration) and
  grace periods for dropped columns.
- `materialize/` — choice of materialization strategy and the statements of
  views, tables, incremental merges and SCD-2 snapshots.
- `fingerprint/` — template rendering (`minijinja`, with the model
  functions `ref`, `source`, `var`, `env_var`, `config`, `is_incremental`),
  config block removal, SQL canonicalisation and logic hashes (BLAKE3).
  Canonicalisation is textual only (comments and whitespace): parsing and
  regenerating the SQL in the PostgreSQL dialect needs `polyglot_sql`,
  which this build does not have, so hashes differ from those of a
  regenerating build wherever regeneration would rewrite the text, and SQL
  that does not parse is hashed instead of refused. Project macros
  (`macros/`, `.titan_packages/`) are not loaded: that needs the file
  system and `minijinja`'s loader.
- `optimize/` — partition deduplication statistics.
- `circuit_breaker.rs`, `intern.rs`, `macros.rs`, `pipeline.rs`, and smaller
  modules for connectors, packages, artifacts and configuration.

`app/` is the command-line program around the library (file and process
work, the metrics endpoint, the asynchronous run loop); `tests/` exercises
the library on concrete values.
