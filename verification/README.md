# limedl-core

The decision core of a multi-connection HTTP download engine, written in
Verus. Verus verifies every function in `src/`; the public ones carry
`requires`/`ensures` contracts, and the few calls into outside crates go
through small trusted wrappers whose contracts say what is assumed of them.

- `src/` — the verified library: settings normalization, the chunk plan of a
  file, the thread scheduler (traditional task slots, automatic thread budget,
  per-host connection cap, adaptive targets), chunk claiming and the tail
  sprint, the steps of a chunked run (`round_start`, `tail_sprint_step`,
  `after_worker`, `chunk_piece_written`), response checks, file naming,
  SQLite row conversion, speed tracking, device classification, the state
  transitions of a download and the incremental BLAKE3 checksum. Outside
  crates called: `url` via `reqwest`, `sanitize-filename`,
  `percent-encoding`, `serde_json`, `xxhash-rust`, `blake3`.
- `app/` — the runtime around it: files, SQLite, HTTP requests and body
  streaming, logging, the rate limiter's floating-point bucket, the upload
  ratio limit and the settings file. It performs I/O and hands the library
  plain values. `app/run.rs` drives a chunked download round by round with
  the library's step functions and `app/schedule.rs` applies the
  scheduler's allocation; the single-stream, probe, finalize and
  resume paths (request retries, progress resets) are not driven here.
- `tests/` — tests of the library on concrete values.
