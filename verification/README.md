# cortex_rmvm

A verified library for the Cortex RMVM (v3.1): the kernel that checks and
runs retrieval plans against a public manifest and proves what it asserted,
the planner guard that builds and checks plans, the executor service's
state, the proxy's decisions, the brain store's records and operations, and
the conformance vectors' conventions and comparisons. Every function in
`src/` is verified with Verus; the few calls into outside crates (SHA-256,
base64, Argon2, XChaCha20-Poly1305, Ed25519, `String` pushes, and the
`Debug` text of a list of strings) stand
behind small wrappers whose contracts say what those crates promise.

Layout:

- `src/kernel/` — validation, the register machine, assertions and their
  trust gates, citations, narrative templates, rendering, the Merkle proof,
  and the laws of a run.
- `src/planner/` — plan JSON, plan-only prompts, plan checks, the
  deterministic fallback plan, and the laws relating key spellings and step
  shapes.
- `src/service.rs` — events, the manifest, and forgetting preferences.
- `src/proxy.rs`, `src/adapter.rs`, `src/cli.rs` — the proxy's answers and
  headers, the executor endpoint, argument lists.
- `src/brain/` — brain records, slugs, branch/merge/forget/attach/detach,
  API keys, signatures and sealing, creation and import.
- `src/conformance/` — vector conventions, conversion and comparison.
- `src/proto.rs`, `src/wire.rs`, `src/json.rs`, `src/smap.rs`, `src/text.rs`
  — the protocol types, canonical encoding, JSON model, ordered string maps
  and text helpers.
- `app/` — the `cortex` program: command line, file system store, HTTP
  proxy, gRPC client and server, and the floating-point cost sum.
- `tests/` — tests of the library on concrete values.
