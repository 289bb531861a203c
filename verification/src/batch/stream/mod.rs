//! Batches of streams.

pub mod batcher;
pub mod independent;
pub mod job;
pub mod member;
pub mod mode;
pub mod multiplexed;
pub mod traits;
