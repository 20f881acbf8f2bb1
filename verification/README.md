# data_connector

The verified core of a model gateway's data connector. It decides which storages
keep the gateway's history, sets up the Oracle database that may hold it, applies
migrations, and refreshes the database password when connections can no longer be
had.

- `src/` is the core, in Verus. It does no I/O: each part is a state that asks for
  something (`request`) and moves on with what came of it (`step`), or a function
  on plain values. The contracts say what is asked for and what comes of every
  reply; the public proof functions say what follows for whole runs.
- `app/` is ordinary Rust around it: the Oracle client, the pool, files, the
  environment and the async traits that the gateway's handlers see.
- `tests/` runs the core on concrete values.

The core trusts five declarations: `String::push` and `str::to_uppercase` (in
`text`), the clock of `chrono` (in `clock`), and parsing and masking of URLs by the
`url` crate (in `redact`).
