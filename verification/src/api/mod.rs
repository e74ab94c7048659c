//! The HTTP and WebSocket interface: who may ask, what is answered, and in
//! which form. Serving is not part of it.

pub mod auth;
pub mod config;
pub mod content_neg;
pub mod error;
pub mod handlers;
pub mod headers;
pub mod json;
pub mod snapshot_store;
pub mod ws;
