# mnemara

A local-first memory engine for AI applications: typed memory records with
scopes, trust and quality states, episodes and lineage; explainable recall
with continuity-aware planning; and a file-backed store with idempotent
writes, lifecycle controls, retention, compaction, integrity checks, repair,
statistics and portable export and import.

The engine's decisions are written in Verus and proved against their
specifications; the daemon around them is ordinary Rust.

## Layout

- `src/` — the verified library.
  - `model`, `query`, `config`, `error`: the domain model, requests and
    reports, engine configuration and errors.
  - `text`, `wire`, `keys`: text helpers, wire names of enumerations, and
    the hexadecimal naming of files and idempotency keys.
  - `store`, `retention`, `compaction`, `maintenance`, `stats`, `portable`,
    `file_store`: what the store decides before it touches storage.
  - `scorer`, `signals`, `embedding`, `recall`, `explain`, `graph`,
    `evaluation`: recall planning, the cues scores are built from, ranking,
    selection, explanations, graph inspection and the judging of
    evaluation cases.
  - `admission`, `observability`, `server`, `settings`, `launch`: admission
    control, the trace registry, request limits and authorization, and the
    server's settings.
- `app/` — the daemon: reading settings from the environment, the files of
  the store, the HTTP routes, and the floating-point scores.
- `tests/` — tests of the library.
