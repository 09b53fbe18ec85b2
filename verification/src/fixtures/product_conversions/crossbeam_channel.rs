//! A stand-in for the channel library.

use vstd::prelude::*;

verus! {

pub fn unbounded() {
}

pub fn bounded(_capacity: usize) {
}

} // verus!
