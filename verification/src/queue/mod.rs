//! Queues of executable items.

pub mod error;
pub mod fifo;
pub mod lifo;
pub mod priority;
pub mod room;
pub mod traits;
