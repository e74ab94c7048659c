//! The client's side of a feed session: configuration, handshake, commands,
//! and what to do with what the socket delivers. The socket itself is not part
//! of it.

pub mod commands;
pub mod config;
pub mod error;
pub mod handshake;
pub mod reader;
pub mod subscription;
