# dokp

The verified core of DOKP (Dormitory Observation & Knowledge Platform),
written in Verus.

Layout:

- `src/` — the library. Every item is verified. Domain algebras (`domain`),
  the schema registry (`registry`), the observation lake (`lake`), the
  projection catalog and DAG (`projection`), propagation scheduling
  (`propagation`), governance decisions (`governance`), identity resolution
  (`identity`), person pages (`person_page`), API helpers (`api`), the
  runtime decisions (`runtime`) and the source and write-back adapters'
  mapping logic (`adapter`). Calls into chrono, sha2, hex, uuid and a few
  std functions go through the trusted items in `src/trusted.rs`, each with
  a doc comment that says what its contract claims.
- `tests/` — plain Rust tests against the compiled library.
- `app/` — unverified glue: command-line parsing, serde copies of library
  types, and the HTTP clients (reqwest) that carry out what the library
  decides.
