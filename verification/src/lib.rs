//! Architecture-policy lints for Rust code bases, as verified functions on plain values.
//!
//! The passes:
//!
//! 1. SQL seam: SQLx and database-adapter APIs stay behind the database crates.
//! 2. SQL in the seam: dynamic SQL crosses a documented safety boundary, static queries use
//!    the macros that are checked at compile time, and inline SQL starts with `--sql`.
//! 3. HTTP wrapper: outbound HTTP goes through the wrapper crates.
//! 4. Blocking in async: no blocking calls on Tokio's async worker threads.
//! 5. File-length ratchet: source files stay under a line cap unless a documented exception,
//!    an inline marker or a row of the inventory, covers them.
//! 6. Silent numeric saturation: `saturating_*` arithmetic needs a documented business rule,
//!    and no numeric conversion has its error swallowed by the `unwrap_or` family.
//! 7. Unbounded channels: every channel has a backpressure bound.
//! 8. Boolean parameters: no `bool` on a public function, where it is blind at call sites.
//! 9. Wildcard imports: none.
//!
//! [`config`] holds the knobs, all of them `RUST_LINTS_*` environment variables. [`hir`]
//! holds what the passes read of a crate under compilation, and [`passes`] and
//! [`file_length`] the passes themselves, over the recognisers in [`tokens`] and the places
//! in [`sites`]. [`fixtures`] is a corpus on which they can be tried.
//!
//! What the library promises is proved in modules of its own: of the verdicts in
//! [`verdict_laws`], [`ratchet_laws`] and [`pass_laws`], of the recognisers in
//! [`recogniser_laws`], of blanking in [`blank_laws`], of the configuration in
//! [`config_laws`], and of paths and texts in [`path_laws`] and [`text_laws`].

pub mod blank;
pub mod blank_laws;
pub mod config;
pub mod config_laws;
pub mod diag;
pub mod file_length;
pub mod fixtures;
pub mod hir;
pub mod pass_laws;
pub mod passes;
pub mod path_laws;
pub mod paths;
pub mod ratchet_laws;
pub mod recogniser_laws;
pub mod sites;
pub mod text;
pub mod text_laws;
pub mod tokens;
pub mod verdict_laws;
