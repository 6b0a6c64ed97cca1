//! A single two-token constant-product liquidity pool: initialization,
//! swaps in both directions and inspection, over one persisted record.

pub mod engine;
pub mod pool;
