# rust-lints

Architecture-policy lints for Rust code bases: the mechanical enforcement of rules that
Clippy cannot express.

- **SQL seam**: SQLx and database adapters stay in the database crates.
- **Inline-SQL markers**: every inline SQL literal starts with `--sql`
  (`RUST_LINTS_REQUIRE_SQL_MARKER=1`).
- **Dynamic and static SQL**: dynamic SQL crosses a documented safety boundary; static
  queries use the macros that are checked at compile time (`RUST_LINTS_STRICT_SQLX=1`).
- **Outbound-HTTP wrapper**: HTTP goes through the wrapper crates
  (`RUST_LINTS_HTTP_WRAPPER=1`).
- **Blocking in async**: no blocking calls on async worker threads
  (`RUST_LINTS_BLOCKING_TOKIO=1`).
- **Silent saturation**: `saturating_*` arithmetic needs a documented business rule, and no
  numeric conversion has its error swallowed by the `unwrap_or` family
  (`RUST_LINTS_SILENT_SATURATION=1`).
- **Unbounded channels**: `RUST_LINTS_UNBOUNDED_CHANNEL=1`.
- **Boolean parameters**: `RUST_LINTS_BOOL_PARAMS=1`.
- **File-length ratchet**: `RUST_LINTS_MAX_FILE_LINES=<n>`, with an inline
  `rust-lints-file-length-exception` marker or a row of a TSV inventory as the way out.
- **Wildcard imports**: none.

`src/` is the library: the passes as functions from plain values to findings, specified and
proved in Verus. `app/` is the Dylint library around it, which reads the compiler's syntax
tree, the environment and the files, and emits the findings. It needs a `rustc_private`
nightly toolchain. `tests/` exercises the library.

Suppress a finding in code with `#[allow(rust_lints_policy_checks)]` and a reason.
