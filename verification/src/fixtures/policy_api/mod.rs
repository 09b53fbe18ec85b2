//! An application that talks SQL itself.

pub mod sqlx;

use vstd::prelude::*;

verus! {

/// Reported by the SQL-seam pass.
pub fn app_level_sql() {
    sqlx::query("SELECT id FROM workers");
}

} // verus!
