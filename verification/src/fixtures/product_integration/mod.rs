//! A product crate that reaches out by itself.

pub mod reqwest;

use vstd::prelude::*;

verus! {

/// Reported by the outbound-HTTP-wrapper pass.
pub fn direct_http_client() {
    let _client = reqwest::Client::builder();
}

} // verus!
