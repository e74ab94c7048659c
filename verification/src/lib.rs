//! Verified core of a market-data feed handler.

pub mod api;
pub mod client;
pub mod decimal;
pub mod double;
pub mod fanout;
pub mod ingest;
pub mod market;
pub mod observability;
pub mod protocol;
pub mod tables;
pub mod text;
pub mod time;
pub mod wire;
