use bytes::BytesMut;
use kc_core::{BufferPool, PoolStats};

/// Fraction of acquires served from the pool; 0.0 before any acquire.
trait HitRate {
    fn hit_rate(&self) -> f64;
}

impl HitRate for PoolStats {
    fn hit_rate(&self) -> f64 {
        let total = self.hits + self.misses;
        if total == 0 {
            0.0
        } else {
            self.hits as f64 / total as f64
        }
    }
}

#[test]
fn acquire_gives_sufficient_capacity() {
    let mut pool = BufferPool::new();
    let buf = pool.acquire(50 * 1024);
    assert!(buf.capacity() >= 50 * 1024);
    assert_eq!(buf.len(), 0);
}

#[test]
fn recycle_then_acquire_reuses_same_allocation() {
    let mut pool = BufferPool::new();
    let mut buf = pool.acquire(4 * 1024);
    buf.extend_from_slice(&[1, 2, 3]);
    let ptr = buf.as_ptr();
    pool.recycle(buf);

    let reused = pool.acquire(4 * 1024);
    assert_eq!(reused.as_ptr(), ptr);
    assert_eq!(reused.len(), 0);
    assert_eq!(pool.stats().hits, 1);
}

#[test]
fn size_bucketing_routes_to_correct_bucket() {
    let mut pool = BufferPool::new();
    let buf = pool.acquire(60 * 1024);
    assert!(buf.capacity() >= 64 * 1024);
    pool.recycle(buf);
    let reused = pool.acquire(50 * 1024);
    assert_eq!(pool.stats().hits, 1);
    assert!(reused.capacity() >= 50 * 1024);
}

#[test]
fn oversized_request_is_direct_and_not_pooled() {
    let mut pool = BufferPool::new();
    let big = 8 * 1024 * 1024;
    let buf = pool.acquire(big);
    assert!(buf.capacity() >= big);
    assert_eq!(pool.stats().misses, 1);
    pool.recycle(buf);
    assert_eq!(pool.pooled_count(), 0);
    assert_eq!(pool.stats().dropped, 1);
}

#[test]
fn per_bucket_cap_bounds_retention() {
    let mut pool = BufferPool::with_max_per_bucket(2);
    let a = pool.acquire(4 * 1024);
    let b = pool.acquire(4 * 1024);
    let c = pool.acquire(4 * 1024);
    pool.recycle(a);
    pool.recycle(b);
    pool.recycle(c);
    assert_eq!(pool.pooled_count(), 2);
    assert_eq!(pool.stats().dropped, 1);
}

#[test]
fn max_per_bucket_zero_disables_pooling() {
    let mut pool = BufferPool::with_max_per_bucket(0);
    let buf = pool.acquire(4 * 1024);
    pool.recycle(buf);
    assert_eq!(pool.pooled_count(), 0);
    let _ = pool.acquire(4 * 1024);
    assert_eq!(pool.stats().hits, 0);
    assert_eq!(pool.stats().misses, 2);
}

#[test]
fn hit_rate_reflects_reuse() {
    let mut pool = BufferPool::new();
    let b = pool.acquire(4 * 1024);
    pool.recycle(b);
    let _ = pool.acquire(4 * 1024);
    let stats = pool.stats();
    assert_eq!(stats.hits, 1);
    assert_eq!(stats.misses, 1);
    assert!((stats.hit_rate() - 0.5).abs() < f64::EPSILON);
}

#[test]
fn tiny_buffer_below_smallest_bucket_is_dropped_on_recycle() {
    let mut pool = BufferPool::new();
    let small = BytesMut::with_capacity(1024);
    pool.recycle(small);
    assert_eq!(pool.pooled_count(), 0);
    assert_eq!(pool.stats().dropped, 1);
}

#[test]
fn clear_releases_retained_buffers() {
    let mut pool = BufferPool::new();
    let a = pool.acquire(4 * 1024);
    let b = pool.acquire(4 * 1024);
    let c = pool.acquire(4 * 1024);
    pool.recycle(a);
    pool.recycle(b);
    pool.recycle(c);
    assert_eq!(pool.pooled_count(), 3);
    pool.clear();
    assert_eq!(pool.pooled_count(), 0);
}

#[test]
fn reserve_prewarms_and_turns_first_acquires_into_hits() {
    let mut pool = BufferPool::new();
    pool.reserve(64 * 1024, 4);
    assert_eq!(pool.pooled_count(), 4);
    assert_eq!(pool.stats().recycled, 4);
    let _ = pool.acquire(60 * 1024);
    assert_eq!(pool.stats().hits, 1);
    assert_eq!(pool.stats().misses, 0);
}

#[test]
fn reserve_respects_bucket_cap() {
    let mut pool = BufferPool::with_max_per_bucket(2);
    pool.reserve(4 * 1024, 10);
    assert_eq!(pool.pooled_count(), 2);
}

#[test]
fn reserve_ignores_oversized() {
    let mut pool = BufferPool::new();
    pool.reserve(8 * 1024 * 1024, 3);
    assert_eq!(pool.pooled_count(), 0);
}

#[test]
fn memory_used_reports_retained_bytes() {
    let mut pool = BufferPool::new();
    assert_eq!(pool.memory_used(), 0);
    pool.reserve(64 * 1024, 3);
    assert_eq!(pool.memory_used(), 3 * 64 * 1024);
    pool.reserve(1024 * 1024, 1);
    assert_eq!(pool.memory_used(), 3 * 64 * 1024 + 1024 * 1024);
    pool.clear();
    assert_eq!(pool.memory_used(), 0);
}

// ── Further cases ───────────────────────────────────────────────────────────

#[test]
fn each_acquire_and_recycle_counts_once() {
    let mut pool = BufferPool::new();
    let a = pool.acquire(100);
    let b = pool.acquire(9 * 1024 * 1024);
    pool.recycle(a);
    pool.recycle(b);
    let c = pool.acquire(4096);
    let s = pool.stats();
    assert_eq!(s.hits + s.misses, 3);
    assert_eq!(s.recycled + s.dropped, 2);
    assert_eq!(s, PoolStats { hits: 1, misses: 2, recycled: 1, dropped: 1 });
    assert_eq!(pool.pooled_count(), 0);
    drop(c);
}

#[test]
fn acquire_from_each_bucket_edge() {
    let mut pool = BufferPool::new();
    // Exactly a bucket size is served by that bucket; one byte more by the next.
    let exact = pool.acquire(8192);
    assert!(exact.capacity() >= 8192);
    let above = pool.acquire(8193);
    assert!(above.capacity() >= 16384);
    let zero = pool.acquire(0);
    assert!(zero.capacity() >= 4096);
    let top = pool.acquire(4 * 1024 * 1024);
    assert!(top.capacity() >= 4 * 1024 * 1024);
    assert_eq!(pool.stats().misses, 4);
}

#[test]
fn recycle_files_by_largest_bucket_within_capacity() {
    let mut pool = BufferPool::new();
    // 100 KiB lies between the 64 KiB and 128 KiB buckets: filed as 64 KiB.
    pool.recycle(BytesMut::with_capacity(100 * 1024));
    assert_eq!(pool.memory_used(), 64 * 1024);
    let _ = pool.acquire(128 * 1024); // served by the 128 KiB bucket: a miss
    assert_eq!(pool.stats().misses, 1);
    let b = pool.acquire(64 * 1024); // the filed buffer: a hit
    assert_eq!(pool.stats().hits, 1);
    assert!(b.capacity() >= 100 * 1024);
}

#[test]
fn default_pool_matches_new() {
    let pool = BufferPool::default();
    assert_eq!(pool.max_per_bucket(), 32);
    assert_eq!(pool.pooled_count(), 0);
    assert_eq!(pool.stats(), PoolStats::default());
    assert_eq!(PoolStats::default().hit_rate(), 0.0);
}

#[test]
fn reserve_fills_to_the_cap_and_no_further() {
    let mut pool = BufferPool::with_max_per_bucket(3);
    pool.reserve(4096, 2);
    pool.reserve(4096, 5);
    assert_eq!(pool.pooled_count(), 3);
    assert_eq!(pool.stats().recycled, 3);
    let buf = BytesMut::with_capacity(4096);
    pool.recycle(buf);
    assert_eq!(pool.stats().dropped, 1);
}

#[test]
fn zero_cap_pool_is_a_plain_allocator_over_many_calls() {
    let mut pool = BufferPool::with_max_per_bucket(0);
    for round in 0..5u64 {
        let a = pool.acquire(4096);
        let b = pool.acquire(70_000);
        pool.reserve(4096, 3);
        pool.recycle(a);
        pool.recycle(b);
        if round == 2 {
            pool.clear();
        }
        assert_eq!(pool.pooled_count(), 0);
        assert_eq!(pool.memory_used(), 0);
        let s = pool.stats();
        assert_eq!((s.hits, s.recycled), (0, 0));
        assert_eq!((s.misses, s.dropped), (2 * (round + 1), 2 * (round + 1)));
    }
}

#[test]
fn retained_count_is_recycled_less_hits() {
    let mut pool = BufferPool::new();
    pool.reserve(4096, 2);
    let a = pool.acquire(4096);
    let b = pool.acquire(100_000);
    let c = pool.acquire(4096);
    let d = pool.acquire(4096);
    pool.recycle(a);
    pool.recycle(b);
    pool.recycle(c);
    drop(d);
    let s = pool.stats();
    assert_eq!(pool.pooled_count() as u64, s.recycled - s.hits);
    pool.clear();
    let s = pool.stats();
    assert!((pool.pooled_count() as u64) <= s.recycled - s.hits);
}

#[test]
fn memory_used_lies_within_bucket_bounds() {
    let mut pool = BufferPool::new();
    pool.recycle(BytesMut::with_capacity(5000));
    pool.recycle(BytesMut::with_capacity(3 * 1024 * 1024));
    let n = pool.pooled_count();
    let used = pool.memory_used();
    assert_eq!(used, 4096 + 2 * 1024 * 1024);
    assert!(4096 * n <= used && used <= 4 * 1024 * 1024 * n);
    assert!(used <= 5000 + 3 * 1024 * 1024);
}
