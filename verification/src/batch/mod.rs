//! Batches: inputs that are gathered in windows and run together.

pub mod job;
pub mod stream;
pub mod task;
pub mod window;
