//! A stand-in for the HTTP library.

use vstd::prelude::*;

verus! {

/// A client.
pub struct Client;

/// What a client is made with.
pub struct Builder;

impl Client {
    pub fn builder() -> (r: Builder)
        ensures
            r == Builder,
    {
        Builder
    }
}

} // verus!
