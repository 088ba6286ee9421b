# oxide_batch

Building blocks for batch jobs, written in Verus: every function of the library
carries a contract, and the contracts are proved, except those of the few items
that call outside crates.

- `src/plan` compiles flow graphs into execution plans: glob patterns and their
  specificity, routing without ambiguity, reachability, cycles, canonical
  manifests and fingerprints.
- `src/item_components` holds the decisions of readers, processors and writers
  over lines, fixed-width and delimited records, JSON Lines, JSON arrays,
  multi-resource sets, object stores and PostgreSQL. Each is a state machine: it
  says what is to be read, written or opened next, and takes what came of it.
- `src/item_listener.rs`, `src/listener.rs` and `src/item_stream.rs` hold listener
  passes and stream life cycles; `src/nested_job_runtime.rs` resolves the
  parameters of nested jobs; `src/partition.rs` holds partition rows.
- `src/json.rs`, `src/digest.rs` and a few items in `delimited.rs`,
  `postgres_keyset.rs`, `text.rs` and `plan/node.rs` call outside crates. Their
  contracts are trusted; the comment above each says what it claims.

`app/` drives the machines: files, sources, sockets, locks and asynchronous calls.
`tests/` runs the library on concrete values.
