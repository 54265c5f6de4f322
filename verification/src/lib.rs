//! Media buffers and a size-bucketed pool of reusable byte buffers.
pub mod buffer;
pub mod bytes_ext;
pub mod error;
pub mod types;

pub use buffer::{acquire_guard, shared_pool, BufferPool, PoolGuard, PoolStats, SharedPool};
