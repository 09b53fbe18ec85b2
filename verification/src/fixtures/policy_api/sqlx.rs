//! A stand-in for the SQL library.

use vstd::prelude::*;

verus! {

pub fn query(_sql: &str) {
}

} // verus!
