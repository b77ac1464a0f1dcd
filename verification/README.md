# stateql

Declarative SQL schema management: the desired schema is written as SQL, and the
library computes the DDL that migrates a database to it. This crate holds the dialect
logic for PostgreSQL, MySQL and SQLite, and the YAML-driven test runner, verified with
Verus.

## Layout

- `src/` — the verified library.
  - `ir.rs`, `schema.rs`, `ops.rs`, `error.rs`: the schema model, identifiers and names,
    the names of changes, and the errors.
  - `text.rs`, `strset.rs`, `common.rs`, `version.rs`: text, ordered string sets, byte
    offsets and lines, server versions.
  - `normalize.rs`: expression normalization shared by the dialects.
  - `annotations.rs`: `-- @renamed from=NAME` comments: taking them out of the SQL text
    and giving the table or view whose statement starts on their line its former name.
  - `config.rs`: connection settings.
  - `postgres/`, `mysql/`, `sqlite/`: per dialect, the statement splitter and converters,
    the DDL generator, `to_sql`, normalization and the adapters' pure parts (version
    gates, export assembly, search paths).
  - `testkit/`: manifests, the YAML case checks, and the runner's flow as a state
    machine.
- `tests/`: tests of the library on concrete values.
- `app/`: what the library leaves to its caller: database connections and queries,
  reading YAML files, the PostgreSQL parser, the coverage rate and the loop that runs a
  runner's flow.

Each public proof function whose name starts with `law_` states a property of the
library over all inputs; its doc comment says it in words.
