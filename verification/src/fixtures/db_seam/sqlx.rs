//! A stand-in for the SQL library.

use vstd::prelude::*;

verus! {

pub fn query<T>(_sql: T) {
}

pub fn query_scalar<T>(_sql: T) {
}

} // verus!
