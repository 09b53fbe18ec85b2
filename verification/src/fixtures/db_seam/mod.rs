//! A database crate, in whose path SQL is at home.

pub mod sqlx;

use vstd::prelude::*;
use vstd::string::*;

verus! {

/// Marks SQL text as safe.
pub struct AssertSqlSafe<T>(pub T);

/// Reported by the compile-time-SQLx pass.
pub fn static_query_without_macro() {
    sqlx::query("SELECT id FROM workers");
}

/// A scalar query through the run-time constructor, with its type argument written out.
pub fn static_scalar_without_macro() {
    sqlx::query_scalar::<&str>("SELECT COUNT(*) FROM elections");
}

/// Reported by the dynamic-SQLx pass.
pub fn dynamic_query_without_safety_note(table: &str) {
    let mut sql = "select * from ".to_owned();
    sql.append(table);
    sqlx::query(sql.as_str());
}

/// Reported by the inline-SQL-marker pass.
pub fn inline_sql_without_marker() -> (r: &'static str)
    ensures
        r@ == "SELECT id FROM deductions"@,
{
    "SELECT id FROM deductions"
}

} // verus!
