//! In-memory state of the market: order books, quotes, recent trades.

pub mod engine;
pub mod order_book;
pub mod order_index;
pub mod quote;
pub mod shard;
pub mod trade;
