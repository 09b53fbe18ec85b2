//! A stand-in for the SQL library.

use vstd::prelude::*;

verus! {

/// A pool of connections.
pub struct PgPool;

pub fn query(_sql: &str) {
}

} // verus!
