//! A product crate that names a database pool.

pub mod sqlx;

use self::sqlx::PgPool;
use vstd::prelude::*;

verus! {

/// Reported by the SQL-seam pass.
pub fn query_from_core() {
    let _pool_type: Option<PgPool> = None;
    sqlx::query("SELECT id FROM workers");
}

} // verus!
