//! From engine updates to subjects and snapshots.

pub mod coalescer;
pub mod publisher;
pub mod types;
