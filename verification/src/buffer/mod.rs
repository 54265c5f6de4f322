//! Zero-copy media buffers with frame metadata.
pub mod flags;
pub mod frame;
pub mod pool;
pub mod pool_laws;
pub mod shared;

pub use flags::FrameFlags;
pub use frame::{
    AudioMeta, FrameMeta, FrameView, MediaBuffer, MediaBufferBuilder, MediaBufferMut, VideoMeta,
    MAX_BUFFER_SIZE,
};
pub use pool::{BufferPool, PoolStats};
pub use shared::{acquire_guard, shared_pool, PoolGuard, SharedPool};
