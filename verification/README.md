# coordinator_server

The verified core of an agent coordination service: projects, tasks and the attempts
that own them, review and autonomy rules, idempotent mutation receipts, artifact uploads,
imports, history, backups, and the closed catalog of tools that an MCP client may call.

## Layout

- `src/` is the library. Every function in it carries a `requires` / `ensures` contract
  that Verus proves, and the public `law_*` proof functions state properties that span
  several functions (what a replay returns, what a refusal answers, what a claim fences,
  what a second redaction leaves unchanged, and so on).
- Calls into outside crates (hashing, password hashing, random bytes, URL and time
  parsing, form encoding) stand behind small trusted wrappers whose doc comments say what
  their contracts claim of the outside code.
- `tests/` runs the library on concrete values, with the outside crates linked.
- `app/` is the unverified shell: file reading, serde conversions of the library's types,
  and the HTTP-facing error mapping.

## Checking

Run Verus on `src/lib.rs` to check the proofs; `cargo test` runs the tests in `tests/`.
