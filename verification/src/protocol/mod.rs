//! The feed's wire protocol: framing, tokens, typed messages.

pub mod enums;
pub mod frame;
pub mod parser;
pub mod types;
