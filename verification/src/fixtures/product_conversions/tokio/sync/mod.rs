//! Synchronisation between tasks.

pub mod mpsc;
