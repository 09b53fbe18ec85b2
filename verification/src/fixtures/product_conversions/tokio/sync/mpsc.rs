//! Channels between tasks.

use vstd::prelude::*;

verus! {

pub fn unbounded_channel() {
}

pub fn channel(_capacity: usize) {
}

} // verus!
