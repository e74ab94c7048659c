//! The ingest daemon's decisions: what each message does to the engines, what
//! to subscribe to, and how it is configured.

pub mod bootstrap;
pub mod catalog;
pub mod dispatch;
pub mod runtime_config;
