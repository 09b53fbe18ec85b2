//! A stand-in for the async runtime.

pub mod sync;
