# kc_core

Media buffers and a size-bucketed pool of reusable byte buffers, verified with Verus.

- `src/buffer/pool.rs`: `BufferPool` and `PoolStats`. Buckets of 4 KiB to 4 MiB,
  a per-bucket cap, and direct allocation above the largest bucket. Every method
  states its effect as a relation (`acquire_post`, `recycle_post`, `reserve_post`)
  and keeps `is_consistent`.
- `src/buffer/pool_laws.rs`: properties that span several calls (reuse after
  recycle, pre-warming, counting, a zero cap over any run of calls, retained
  count against the counters, bounds on the memory retained).
- `src/buffer/frame.rs`: `MediaBuffer`, its builder, and the growable
  `MediaBufferMut`.
- `src/buffer/shared.rs`: `SharedPool` (`Rc<RefCell<BufferPool>>`) and the
  self-returning `PoolGuard`.
- `src/buffer/flags.rs`: the `FrameFlags` bit set.
- `src/bytes_ext.rs`: the trusted contracts of the `bytes` crate calls.
- `app/`: the floating-point hit rate and a `bitflags` copy of `FrameFlags`.
