//! A corpus of small crates on which the passes can be tried: each pass has a case that it
//! reports and a case that it does not.

pub mod db_seam;
pub mod laws;
pub mod policy_api;
pub mod product_conversions;
pub mod product_core;
pub mod product_integration;
