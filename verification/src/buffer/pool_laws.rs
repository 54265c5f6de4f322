//! What holds of the pool across calls.
//!
//! Each law is stated over the relations that the pool's methods ensure
//! (`acquire_post`, `recycle_post`, `reserve_post`), so it speaks of any run of
//! those methods.
use vstd::prelude::*;
use bytes::BytesMut;
use crate::buffer::pool::{
    bucket_size, filing_bucket, lemma_filing_bucket, lemma_serving_bucket, serving_bucket,
    BufferPool, PoolStats, BUCKET_COUNT, MAX_BUCKET_SIZE,
};
use crate::bytes_ext::{bm_capacity, bm_contents};

verus! {

/// A buffer accepted by `recycle` is what the next `acquire` served by the same
/// bucket hands back (same capacity, emptied), and the two calls leave the
/// buckets as they were, counting one buffer recycled and one hit.
pub proof fn lemma_recycle_then_acquire(
    before: BufferPool,
    buf: BytesMut,
    mid: BufferPool,
    size: int,
    out: BytesMut,
    after: BufferPool,
)
    requires
        BufferPool::recycle_post(before, buf, mid),
        BufferPool::acquire_post(mid, size, out, after),
        filing_bucket(bm_capacity(buf) as int) matches Some(i) && before.bucket(i).len()
            < before.max_spec(),
        serving_bucket(size) == filing_bucket(bm_capacity(buf) as int),
    ensures
        bm_capacity(out) == bm_capacity(buf),
        bm_contents(out) == Seq::<u8>::empty(),
        after.same_buckets(before),
        after.max_spec() == before.max_spec(),
        after.stats_spec() == before.stats_spec().count_recycled(1).count_hit(),
{
    let i = filing_bucket(bm_capacity(buf) as int)->0;
    assert(mid.bucket(i).len() > 0);
    assert(after.bucket(i) =~= before.bucket(i));
}

/// After `reserve(size, count)` added at least one buffer, the next
/// `acquire(size)` is a hit.
pub proof fn lemma_reserve_then_acquire_hits(
    before: BufferPool,
    size: int,
    count: int,
    mid: BufferPool,
    out: BytesMut,
    after: BufferPool,
)
    requires
        BufferPool::reserve_post(before, size, count, mid),
        BufferPool::acquire_post(mid, size, out, after),
        before.reserve_amount(size, count) > 0,
    ensures
        after.stats_spec() == mid.stats_spec().count_hit(),
        mid.stats_spec() == before.stats_spec().count_recycled(before.reserve_amount(size, count)),
        bm_contents(out) == Seq::<u8>::empty(),
        bm_capacity(out) >= size,
{
    let i = serving_bucket(size)->0;
    assert(mid.bucket(i).len() > 0);
}

proof fn lemma_acquires_from_stocked_bucket(pools: Seq<BufferPool>, outs: Seq<BytesMut>, size: int, k: int)
    requires
        serving_bucket(size) is Some,
        pools.len() == outs.len() + 1,
        0 <= k <= outs.len(),
        pools[0].bucket(serving_bucket(size)->0).len() >= outs.len(),
        pools[0].stats_spec().hits + outs.len() <= u64::MAX,
        forall|j: int|
            0 <= j < outs.len() ==> BufferPool::acquire_post(pools[j], size, #[trigger] outs[j], pools[j + 1]),
    ensures
        pools[k].bucket(serving_bucket(size)->0).len() == pools[0].bucket(serving_bucket(size)->0).len() - k,
        pools[k].stats_spec().hits == pools[0].stats_spec().hits + k,
        pools[k].stats_spec().misses == pools[0].stats_spec().misses,
        pools[k].stats_spec().recycled == pools[0].stats_spec().recycled,
        pools[k].stats_spec().dropped == pools[0].stats_spec().dropped,
    decreases k,
{
    if k > 0 {
        lemma_acquires_from_stocked_bucket(pools, outs, size, k - 1);
        assert(BufferPool::acquire_post(pools[k - 1], size, outs[k - 1], pools[k]));
    }
}

/// Pre-warming pays off: after `reserve(size, count)` added `n` buffers, each of
/// the next `n` acquires of `size` (with nothing recycled in between) is a hit,
/// and none of them is a miss.
pub proof fn lemma_reserved_buffers_serve_hits(
    before: BufferPool,
    size: int,
    count: int,
    pools: Seq<BufferPool>,
    outs: Seq<BytesMut>,
)
    requires
        BufferPool::reserve_post(before, size, count, pools[0]),
        pools.len() == outs.len() + 1,
        outs.len() <= before.reserve_amount(size, count),
        pools[0].stats_spec().hits + outs.len() <= u64::MAX,
        forall|j: int|
            0 <= j < outs.len() ==> BufferPool::acquire_post(pools[j], size, #[trigger] outs[j], pools[j + 1]),
    ensures
        pools.last().stats_spec().hits == pools[0].stats_spec().hits + outs.len(),
        pools.last().stats_spec().misses == pools[0].stats_spec().misses,
        pools[0].stats_spec() == before.stats_spec().count_recycled(before.reserve_amount(size, count)),
{
    if outs.len() > 0 {
        lemma_acquires_from_stocked_bucket(pools, outs, size, outs.len() as int);
    }
}

/// A request above the largest bucket is allocated directly: it is a miss and
/// leaves every bucket as it was.
pub proof fn lemma_oversized_acquire_is_direct(before: BufferPool, size: int, out: BytesMut, after: BufferPool)
    requires
        BufferPool::acquire_post(before, size, out, after),
        size > MAX_BUCKET_SIZE,
    ensures
        after.same_buckets(before),
        after.stats_spec() == before.stats_spec().count_miss(),
        bm_capacity(out) >= size,
{
    lemma_serving_bucket(size);
}

/// A recycled buffer whose capacity is above the largest bucket, or below the
/// smallest, is never retained: it is dropped and every bucket stays as it was.
pub proof fn lemma_out_of_range_recycle_is_dropped(before: BufferPool, buf: BytesMut, after: BufferPool)
    requires
        BufferPool::recycle_post(before, buf, after),
        bm_capacity(buf) > MAX_BUCKET_SIZE || bm_capacity(buf) < bucket_size(0),
    ensures
        after.same_buckets(before),
        after.stats_spec() == before.stats_spec().count_dropped(),
{
    lemma_filing_bucket(bm_capacity(buf) as int);
}

/// A pool whose cap is 0 retains nothing: every recycle is dropped and every
/// acquire is a miss.
pub proof fn lemma_zero_cap_disables_pooling(
    before: BufferPool,
    buf: BytesMut,
    mid: BufferPool,
    size: int,
    out: BytesMut,
    after: BufferPool,
)
    requires
        before.is_consistent(),
        before.max_spec() == 0,
        BufferPool::recycle_post(before, buf, mid),
        BufferPool::acquire_post(mid, size, out, after),
    ensures
        mid.same_buckets(before),
        mid.stats_spec() == before.stats_spec().count_dropped(),
        after.same_buckets(before),
        after.stats_spec() == mid.stats_spec().count_miss(),
{
    if let Some(i) = filing_bucket(bm_capacity(buf) as int) {
        lemma_filing_bucket(bm_capacity(buf) as int);
        assert(before.bucket(i).len() <= 0);
    }
    if let Some(i) = serving_bucket(size) {
        lemma_serving_bucket(size);
        assert(before.bucket(i).len() <= 0);
        assert(mid.bucket(i) == before.bucket(i));
    }
}

/// Changing one bucket changes the total number of retained buffers by exactly
/// the change in that bucket.
proof fn lemma_pooled_upto_one_bucket(a: BufferPool, b: BufferPool, i: int, n: int)
    requires
        0 <= i < BUCKET_COUNT,
        0 <= n <= BUCKET_COUNT,
        a.same_buckets_except(b, i),
    ensures
        a.pooled_upto(n) - b.pooled_upto(n) == if n > i {
            a.bucket(i).len() - b.bucket(i).len()
        } else {
            0
        },
    decreases n,
{
    if n > 0 {
        lemma_pooled_upto_one_bucket(a, b, i, n - 1);
        if n - 1 != i {
            assert(a.bucket(n - 1) == b.bucket(n - 1));
        }
    }
}

proof fn lemma_pooled_upto_same(a: BufferPool, b: BufferPool, n: int)
    requires
        0 <= n <= BUCKET_COUNT,
        a.same_buckets(b),
    ensures
        a.pooled_upto(n) == b.pooled_upto(n),
    decreases n,
{
    if n > 0 {
        lemma_pooled_upto_same(a, b, n - 1);
        assert(a.bucket(n - 1) == b.bucket(n - 1));
    }
}

/// Every `acquire` counts exactly once, as a hit or as a miss; a hit takes one
/// buffer out of the pool and a miss takes none.
pub proof fn lemma_acquire_counts_once(before: BufferPool, size: int, out: BytesMut, after: BufferPool)
    requires
        BufferPool::acquire_post(before, size, out, after),
        before.stats_spec().hits < u64::MAX,
        before.stats_spec().misses < u64::MAX,
    ensures
        after.stats_spec().hits + after.stats_spec().misses == before.stats_spec().hits
            + before.stats_spec().misses + 1,
        after.stats_spec().recycled == before.stats_spec().recycled,
        after.stats_spec().dropped == before.stats_spec().dropped,
        after.pooled_total() == before.pooled_total() - (after.stats_spec().hits
            - before.stats_spec().hits),
{
    match serving_bucket(size) {
        Some(i) => {
            lemma_serving_bucket(size);
            if before.bucket(i).len() > 0 {
                lemma_pooled_upto_one_bucket(after, before, i, BUCKET_COUNT as int);
            } else {
                lemma_pooled_upto_same(after, before, BUCKET_COUNT as int);
            }
        },
        None => {
            lemma_pooled_upto_same(after, before, BUCKET_COUNT as int);
        },
    }
}

/// Every `recycle` counts exactly once, as recycled or as dropped; a buffer
/// counted as recycled is one more buffer in the pool, a dropped one is not.
pub proof fn lemma_recycle_counts_once(before: BufferPool, buf: BytesMut, after: BufferPool)
    requires
        BufferPool::recycle_post(before, buf, after),
        before.stats_spec().recycled < u64::MAX,
        before.stats_spec().dropped < u64::MAX,
    ensures
        after.stats_spec().recycled + after.stats_spec().dropped == before.stats_spec().recycled
            + before.stats_spec().dropped + 1,
        after.stats_spec().hits == before.stats_spec().hits,
        after.stats_spec().misses == before.stats_spec().misses,
        after.pooled_total() == before.pooled_total() + (after.stats_spec().recycled
            - before.stats_spec().recycled),
{
    match filing_bucket(bm_capacity(buf) as int) {
        Some(i) => {
            lemma_filing_bucket(bm_capacity(buf) as int);
            if before.bucket(i).len() < before.max_spec() {
                lemma_pooled_upto_one_bucket(after, before, i, BUCKET_COUNT as int);
            } else {
                lemma_pooled_upto_same(after, before, BUCKET_COUNT as int);
            }
        },
        None => {
            lemma_pooled_upto_same(after, before, BUCKET_COUNT as int);
        },
    }
}

proof fn lemma_empty_upto(p: BufferPool, n: int)
    requires
        0 <= n <= BUCKET_COUNT,
        p.all_empty(),
    ensures
        p.pooled_upto(n) == 0,
        p.retained_upto(n) == 0,
    decreases n,
{
    if n > 0 {
        lemma_empty_upto(p, n - 1);
        assert(p.bucket(n - 1).len() == 0);
    }
}

/// A pool with every bucket empty (a new one, or one just cleared) retains no
/// buffer and no memory.
pub proof fn lemma_empty_pool_retains_nothing(p: BufferPool)
    requires
        p.all_empty(),
    ensures
        p.pooled_total() == 0,
        p.retained_bytes() == 0,
{
    lemma_empty_upto(p, BUCKET_COUNT as int);
}


// ── Runs of calls ───────────────────────────────────────────────────────────

/// One call on a pool, with its arguments.
pub enum PoolCall {
    Acquire(usize),
    Recycle(BytesMut),
    Reserve(usize, usize),
    Clear,
}

/// The `requires` of the method `call` names, on a pool `p`.
pub open spec fn call_allowed(p: BufferPool, call: PoolCall) -> bool {
    match call {
        PoolCall::Acquire(size) => size <= isize::MAX && p.stats_spec().hits < u64::MAX
            && p.stats_spec().misses < u64::MAX,
        PoolCall::Recycle(_) => p.stats_spec().recycled < u64::MAX && p.stats_spec().dropped
            < u64::MAX,
        PoolCall::Reserve(size, count) => p.stats_spec().recycled + p.reserve_amount(
            size as int,
            count as int,
        ) <= u64::MAX,
        PoolCall::Clear => true,
    }
}

/// How the method `call` names takes `before` to `after` (for `acquire`, with
/// whatever buffer it handed out).
pub open spec fn call_post(before: BufferPool, call: PoolCall, after: BufferPool) -> bool {
    match call {
        PoolCall::Acquire(size) => exists|out: BytesMut|
            BufferPool::acquire_post(before, size as int, out, after),
        PoolCall::Recycle(buf) => BufferPool::recycle_post(before, buf, after),
        PoolCall::Reserve(size, count) => BufferPool::reserve_post(
            before,
            size as int,
            count as int,
            after,
        ),
        PoolCall::Clear => BufferPool::clear_post(before, after),
    }
}

/// `pools` are the states of one pool as `calls` run on it in turn: each call
/// was allowed and took the pool to the next state, and every state keeps the
/// pool's invariant (as every method ensures).
pub open spec fn is_run(pools: Seq<BufferPool>, calls: Seq<PoolCall>) -> bool {
    &&& pools.len() == calls.len() + 1
    &&& forall|k: int| 0 <= k < pools.len() ==> (#[trigger] pools[k]).is_consistent()
    &&& forall|k: int|
        0 <= k < calls.len() ==> call_allowed(pools[k], #[trigger] calls[k]) && call_post(
            pools[k],
            calls[k],
            pools[k + 1],
        )
}

/// Whether none of the first `n` calls is `clear`.
pub open spec fn no_clear_before(calls: Seq<PoolCall>, n: int) -> bool {
    forall|k: int| 0 <= k < n ==> !(#[trigger] calls[k] is Clear)
}

proof fn lemma_zero_cap_step(before: BufferPool, call: PoolCall, after: BufferPool)
    requires
        before.is_consistent(),
        before.max_spec() == 0,
        call_allowed(before, call),
        call_post(before, call, after),
    ensures
        after.max_spec() == 0,
        after.same_buckets(before),
        after.stats_spec().hits == before.stats_spec().hits,
        after.stats_spec().recycled == before.stats_spec().recycled,
        after.stats_spec().misses == before.stats_spec().misses + if call is Acquire {
            1int
        } else {
            0
        },
        after.stats_spec().dropped == before.stats_spec().dropped + if call is Recycle {
            1int
        } else {
            0
        },
{
    match call {
        PoolCall::Acquire(size) => {
            let out = choose|out: BytesMut| BufferPool::acquire_post(before, size as int, out, after);
            if let Some(i) = serving_bucket(size as int) {
                lemma_serving_bucket(size as int);
                assert(before.bucket(i).len() <= 0);
            }
        },
        PoolCall::Recycle(buf) => {
            if let Some(i) = filing_bucket(bm_capacity(buf) as int) {
                lemma_filing_bucket(bm_capacity(buf) as int);
            }
        },
        PoolCall::Reserve(size, count) => {
            if let Some(i) = serving_bucket(size as int) {
                lemma_serving_bucket(size as int);
                assert(before.bucket(i).len() <= 0);
                assert(after.bucket(i) =~= before.bucket(i));
            }
        },
        PoolCall::Clear => {
            assert forall|j: int| 0 <= j < BUCKET_COUNT implies #[trigger] after.bucket(j)
                == before.bucket(j) by {
                assert(before.bucket(j).len() <= 0);
                assert(after.bucket(j) =~= before.bucket(j));
            }
        },
    }
}

proof fn lemma_zero_cap_prefix(pools: Seq<BufferPool>, calls: Seq<PoolCall>, k: int)
    requires
        is_run(pools, calls),
        pools[0].max_spec() == 0,
        0 <= k < pools.len(),
    ensures
        pools[k].max_spec() == 0,
        pools[k].all_empty(),
        pools[k].stats_spec().hits == pools[0].stats_spec().hits,
        pools[k].stats_spec().recycled == pools[0].stats_spec().recycled,
    decreases k,
{
    if k > 0 {
        lemma_zero_cap_prefix(pools, calls, k - 1);
        assert(call_allowed(pools[k - 1], calls[k - 1]));
        lemma_zero_cap_step(pools[k - 1], calls[k - 1], pools[k]);
    }
    assert(pools[k].is_consistent());
}

/// A pool whose cap is 0 is a plain allocator over any run of calls: it never
/// retains a buffer or any memory, never counts a hit or a recycled buffer,
/// every `acquire` counts one miss and every `recycle` one drop.
pub proof fn lemma_zero_cap_run(pools: Seq<BufferPool>, calls: Seq<PoolCall>)
    requires
        is_run(pools, calls),
        pools[0].max_spec() == 0,
    ensures
        forall|k: int|
            0 <= k < pools.len() ==> {
                &&& (#[trigger] pools[k]).all_empty()
                &&& pools[k].pooled_total() == 0
                &&& pools[k].retained_bytes() == 0
                &&& pools[k].stats_spec().hits == pools[0].stats_spec().hits
                &&& pools[k].stats_spec().recycled == pools[0].stats_spec().recycled
            },
        forall|k: int|
            0 <= k < calls.len() ==> {
                &&& pools[k + 1].stats_spec().misses == pools[k].stats_spec().misses + if #[trigger] calls[k] is Acquire {
                    1int
                } else {
                    0
                }
                &&& pools[k + 1].stats_spec().dropped == pools[k].stats_spec().dropped + if calls[k] is Recycle {
                    1int
                } else {
                    0
                }
            },
{
    assert forall|k: int| 0 <= k < pools.len() implies {
        &&& (#[trigger] pools[k]).all_empty()
        &&& pools[k].pooled_total() == 0
        &&& pools[k].retained_bytes() == 0
        &&& pools[k].stats_spec().hits == pools[0].stats_spec().hits
        &&& pools[k].stats_spec().recycled == pools[0].stats_spec().recycled
    } by {
        lemma_zero_cap_prefix(pools, calls, k);
        lemma_empty_pool_retains_nothing(pools[k]);
    }
    assert forall|k: int| 0 <= k < calls.len() implies {
        &&& pools[k + 1].stats_spec().misses == pools[k].stats_spec().misses + if #[trigger] calls[k] is Acquire {
            1int
        } else {
            0
        }
        &&& pools[k + 1].stats_spec().dropped == pools[k].stats_spec().dropped + if calls[k] is Recycle {
            1int
        } else {
            0
        }
    } by {
        lemma_zero_cap_prefix(pools, calls, k);
        assert(call_allowed(pools[k], calls[k]));
        lemma_zero_cap_step(pools[k], calls[k], pools[k + 1]);
    }
}

/// `reserve` counts each buffer it adds as recycled, and adds nothing else.
pub proof fn lemma_reserve_counts(before: BufferPool, size: int, count: int, after: BufferPool)
    requires
        count >= 0,
        BufferPool::reserve_post(before, size, count, after),
        before.stats_spec().recycled + before.reserve_amount(size, count) <= u64::MAX,
    ensures
        after.pooled_total() == before.pooled_total() + (after.stats_spec().recycled
            - before.stats_spec().recycled),
        after.stats_spec().hits == before.stats_spec().hits,
        after.stats_spec().recycled >= before.stats_spec().recycled,
{
    match serving_bucket(size) {
        Some(i) => {
            lemma_serving_bucket(size);
            lemma_pooled_upto_one_bucket(after, before, i, BUCKET_COUNT as int);
        },
        None => {
            lemma_pooled_upto_same(after, before, BUCKET_COUNT as int);
        },
    }
}

proof fn lemma_retained_upto_one_bucket(a: BufferPool, b: BufferPool, i: int, n: int)
    requires
        0 <= i < BUCKET_COUNT,
        0 <= n <= BUCKET_COUNT,
        a.same_buckets_except(b, i),
    ensures
        a.retained_upto(n) - b.retained_upto(n) == if n > i {
            (a.bucket(i).len() - b.bucket(i).len()) * bucket_size(i)
        } else {
            0
        },
    decreases n,
{
    if n > 0 {
        lemma_retained_upto_one_bucket(a, b, i, n - 1);
        if n - 1 != i {
            assert(a.bucket(n - 1) == b.bucket(n - 1));
        } else {
            let x = a.bucket(i).len() as int;
            let y = b.bucket(i).len() as int;
            let z = bucket_size(i);
            assert(x * z - y * z == (x - y) * z) by (nonlinear_arith);
        }
    }
}

proof fn lemma_retained_upto_same(a: BufferPool, b: BufferPool, n: int)
    requires
        0 <= n <= BUCKET_COUNT,
        a.same_buckets(b),
    ensures
        a.retained_upto(n) == b.retained_upto(n),
    decreases n,
{
    if n > 0 {
        lemma_retained_upto_same(a, b, n - 1);
        assert(a.bucket(n - 1) == b.bucket(n - 1));
    }
}

/// `reserve(size, count)` grows the memory `memory_used` reports by the size
/// of the serving bucket for each buffer it adds, and by nothing when no bucket
/// serves `size`.
pub proof fn lemma_reserve_memory(before: BufferPool, size: int, count: int, after: BufferPool)
    requires
        count >= 0,
        BufferPool::reserve_post(before, size, count, after),
    ensures
        after.retained_bytes() == before.retained_bytes() + match serving_bucket(size) {
            Some(i) => before.reserve_amount(size, count) * bucket_size(i),
            None => 0,
        },
{
    match serving_bucket(size) {
        Some(i) => {
            lemma_serving_bucket(size);
            lemma_retained_upto_one_bucket(after, before, i, BUCKET_COUNT as int);
        },
        None => {
            lemma_retained_upto_same(after, before, BUCKET_COUNT as int);
        },
    }
}

proof fn lemma_retained_count_step(before: BufferPool, call: PoolCall, after: BufferPool)
    requires
        call_allowed(before, call),
        call_post(before, call, after),
        before.pooled_total() <= before.stats_spec().recycled - before.stats_spec().hits,
        before.pooled_total() >= 0,
    ensures
        after.pooled_total() <= after.stats_spec().recycled - after.stats_spec().hits,
        !(call is Clear) && before.pooled_total() == before.stats_spec().recycled
            - before.stats_spec().hits ==> after.pooled_total() == after.stats_spec().recycled
            - after.stats_spec().hits,
{
    match call {
        PoolCall::Acquire(size) => {
            let out = choose|out: BytesMut| BufferPool::acquire_post(before, size as int, out, after);
            lemma_acquire_counts_once(before, size as int, out, after);
        },
        PoolCall::Recycle(buf) => {
            lemma_recycle_counts_once(before, buf, after);
        },
        PoolCall::Reserve(size, count) => {
            lemma_reserve_counts(before, size as int, count as int, after);
        },
        PoolCall::Clear => {
            lemma_empty_pool_retains_nothing(after);
        },
    }
}

proof fn lemma_pooled_total_nonnegative(p: BufferPool, n: int)
    requires
        0 <= n,
    ensures
        p.pooled_upto(n) >= 0,
    decreases n,
{
    if n > 0 {
        lemma_pooled_total_nonnegative(p, n - 1);
    }
}

proof fn lemma_retained_count_prefix(pools: Seq<BufferPool>, calls: Seq<PoolCall>, k: int)
    requires
        is_run(pools, calls),
        pools[0].all_empty(),
        pools[0].stats_spec() == PoolStats::zero(),
        0 <= k < pools.len(),
    ensures
        pools[k].pooled_total() <= pools[k].stats_spec().recycled - pools[k].stats_spec().hits,
        no_clear_before(calls, k) ==> pools[k].pooled_total() == pools[k].stats_spec().recycled
            - pools[k].stats_spec().hits,
    decreases k,
{
    if k == 0 {
        lemma_empty_pool_retains_nothing(pools[0]);
    } else {
        lemma_retained_count_prefix(pools, calls, k - 1);
        lemma_pooled_total_nonnegative(pools[k - 1], BUCKET_COUNT as int);
        assert(call_allowed(pools[k - 1], calls[k - 1]));
        lemma_retained_count_step(pools[k - 1], calls[k - 1], pools[k]);
        if no_clear_before(calls, k) {
            assert(!(calls[k - 1] is Clear));
            assert(no_clear_before(calls, k - 1));
        }
    }
}

/// Starting from a new pool, the buffers retained are those recycled (or
/// reserved) less those handed out again: `pooled_count == recycled - hits` at
/// every point before the first `clear`, and `pooled_count <= recycled - hits`
/// at every point.
pub proof fn lemma_retained_count_run(pools: Seq<BufferPool>, calls: Seq<PoolCall>)
    requires
        is_run(pools, calls),
        pools[0].all_empty(),
        pools[0].stats_spec() == PoolStats::zero(),
    ensures
        forall|k: int|
            0 <= k < pools.len() ==> (#[trigger] pools[k]).pooled_total() <= pools[k].stats_spec().recycled
                - pools[k].stats_spec().hits,
        forall|k: int|
            0 <= k < pools.len() && no_clear_before(calls, k) ==> (#[trigger] pools[k]).pooled_total()
                == pools[k].stats_spec().recycled - pools[k].stats_spec().hits,
{
    assert forall|k: int| 0 <= k < pools.len() implies (#[trigger] pools[k]).pooled_total()
        <= pools[k].stats_spec().recycled - pools[k].stats_spec().hits by {
        lemma_retained_count_prefix(pools, calls, k);
    }
    assert forall|k: int| 0 <= k < pools.len() && no_clear_before(calls, k) implies (
    #[trigger] pools[k]).pooled_total() == pools[k].stats_spec().recycled
        - pools[k].stats_spec().hits by {
        lemma_retained_count_prefix(pools, calls, k);
    }
}

// ── Memory held ─────────────────────────────────────────────────────────────

/// The real capacity of the buffers in `s`, summed.
pub open spec fn seq_capacity(s: Seq<BytesMut>) -> int
    decreases s.len(),
{
    if s.len() == 0 {
        0
    } else {
        seq_capacity(s.drop_last()) + bm_capacity(s.last())
    }
}

/// The real capacity of the buffers retained in the buckets below `n`.
pub open spec fn capacity_upto(p: BufferPool, n: int) -> int
    decreases n,
{
    if n <= 0 {
        0
    } else {
        capacity_upto(p, n - 1) + seq_capacity(p.bucket(n - 1))
    }
}

proof fn lemma_seq_capacity_at_least(s: Seq<BytesMut>, size: int)
    requires
        size >= 0,
        forall|j: int| 0 <= j < s.len() ==> bm_capacity(#[trigger] s[j]) >= size,
    ensures
        s.len() * size <= seq_capacity(s),
    decreases s.len(),
{
    if s.len() > 0 {
        let t = s.drop_last();
        assert forall|j: int| 0 <= j < t.len() implies bm_capacity(#[trigger] t[j]) >= size by {
            assert(t[j] == s[j]);
        }
        lemma_seq_capacity_at_least(t, size);
        assert(bm_capacity(s.last()) >= size);
        let n = s.len();
        assert(n * size == (n - 1) * size + size) by (nonlinear_arith);
    }
}

proof fn lemma_memory_bounds_upto(p: BufferPool, n: int)
    requires
        p.is_consistent(),
        0 <= n <= BUCKET_COUNT,
    ensures
        4096 * p.pooled_upto(n) <= p.retained_upto(n),
        p.retained_upto(n) <= MAX_BUCKET_SIZE * p.pooled_upto(n),
        p.retained_upto(n) <= capacity_upto(p, n),
        p.pooled_upto(n) <= n * p.max_spec(),
    decreases n,
{
    if n > 0 {
        lemma_memory_bounds_upto(p, n - 1);
        let i = n - 1;
        let len = p.bucket(i).len() as int;
        let bs = bucket_size(i);
        assert(4096 <= bs <= MAX_BUCKET_SIZE);
        assert(4096 * len <= len * bs && len * bs <= MAX_BUCKET_SIZE * len) by (nonlinear_arith)
            requires
                4096 <= bs <= 4194304,
                len >= 0,
                MAX_BUCKET_SIZE == 4194304,
        ;
        assert forall|j: int| 0 <= j < p.bucket(i).len() implies bm_capacity(
            #[trigger] p.bucket(i)[j],
        ) >= bs by {}
        lemma_seq_capacity_at_least(p.bucket(i), bs);
        assert(p.bucket(i).len() <= p.max_spec());
        assert(n * p.max_spec() == (n - 1) * p.max_spec() + p.max_spec()) by (nonlinear_arith);
    }
}

/// The memory `memory_used` reports lies between 4 KiB and 4 MiB per retained
/// buffer, never exceeds what the retained buffers really hold, and the pool
/// retains at most `BUCKET_COUNT` times its cap.
pub proof fn lemma_memory_used_bounds(p: BufferPool)
    requires
        p.is_consistent(),
    ensures
        4096 * p.pooled_total() <= p.retained_bytes(),
        p.retained_bytes() <= MAX_BUCKET_SIZE * p.pooled_total(),
        p.retained_bytes() <= capacity_upto(p, BUCKET_COUNT as int),
        p.pooled_total() <= BUCKET_COUNT * p.max_spec(),
{
    lemma_memory_bounds_upto(p, BUCKET_COUNT as int);
}


// ── Which bucket a call touches ─────────────────────────────────────────────

/// Bucket sizes strictly grow with the index.
pub proof fn lemma_bucket_size_increasing(a: int, b: int)
    requires
        0 <= a < b < BUCKET_COUNT,
    ensures
        bucket_size(a) < bucket_size(b),
{
}

/// `acquire(size)` works on one bucket only: the smallest whose size is at
/// least `size` (bucket `i`). Every other bucket stays as it was. If bucket `i`
/// holds buffers, its last one is handed out, emptied, and one hit is counted;
/// if it is empty, no bucket changes and one miss is counted.
pub proof fn lemma_acquire_touches_only_its_bucket(
    before: BufferPool,
    size: int,
    buf: BytesMut,
    after: BufferPool,
    i: int,
)
    requires
        BufferPool::acquire_post(before, size, buf, after),
        0 <= i < BUCKET_COUNT,
        size <= bucket_size(i),
        i == 0 || bucket_size(i - 1) < size,
        before.stats_spec().hits < u64::MAX,
        before.stats_spec().misses < u64::MAX,
    ensures
        forall|j: int| 0 <= j < BUCKET_COUNT && j != i ==> #[trigger] after.bucket(j) == before.bucket(j),
        after.max_spec() == before.max_spec(),
        after.stats_spec().recycled == before.stats_spec().recycled,
        after.stats_spec().dropped == before.stats_spec().dropped,
        before.bucket(i).len() == 0 ==> {
            &&& after.bucket(i) == before.bucket(i)
            &&& after.stats_spec().misses == before.stats_spec().misses + 1
            &&& after.stats_spec().hits == before.stats_spec().hits
        },
        before.bucket(i).len() > 0 ==> {
            &&& after.bucket(i) == before.bucket(i).subrange(0, before.bucket(i).len() - 1)
            &&& bm_capacity(buf) == bm_capacity(before.bucket(i)[before.bucket(i).len() - 1])
            &&& bm_contents(buf) == Seq::<u8>::empty()
            &&& after.stats_spec().hits == before.stats_spec().hits + 1
            &&& after.stats_spec().misses == before.stats_spec().misses
        },
{
    lemma_serving_bucket(size);
    let k = serving_bucket(size)->0;
    if k < i {
        lemma_bucket_size_increasing(k, i - 1);
    } else if k > i {
        lemma_bucket_size_increasing(i, k - 1);
    }
    assert(k == i);
}

/// `recycle(buf)` works on one bucket only: the largest whose size is at most
/// the buffer's capacity (bucket `i`). Every other bucket stays as it was. If
/// bucket `i` has room under the cap, `buf` joins it and one recycled buffer is
/// counted; if it is full, no bucket changes and one drop is counted.
pub proof fn lemma_recycle_touches_only_its_bucket(
    before: BufferPool,
    buf: BytesMut,
    after: BufferPool,
    i: int,
)
    requires
        BufferPool::recycle_post(before, buf, after),
        0 <= i < BUCKET_COUNT,
        bucket_size(i) <= bm_capacity(buf) <= MAX_BUCKET_SIZE,
        i == BUCKET_COUNT - 1 || bm_capacity(buf) < bucket_size(i + 1),
        before.stats_spec().recycled < u64::MAX,
        before.stats_spec().dropped < u64::MAX,
    ensures
        forall|j: int| 0 <= j < BUCKET_COUNT && j != i ==> #[trigger] after.bucket(j) == before.bucket(j),
        after.max_spec() == before.max_spec(),
        after.stats_spec().hits == before.stats_spec().hits,
        after.stats_spec().misses == before.stats_spec().misses,
        before.bucket(i).len() >= before.max_spec() ==> {
            &&& after.bucket(i) == before.bucket(i)
            &&& after.stats_spec().dropped == before.stats_spec().dropped + 1
            &&& after.stats_spec().recycled == before.stats_spec().recycled
        },
        before.bucket(i).len() < before.max_spec() ==> {
            &&& after.bucket(i).len() == before.bucket(i).len() + 1
            &&& after.bucket(i).subrange(0, before.bucket(i).len() as int) == before.bucket(i)
            &&& after.bucket(i)[before.bucket(i).len() as int] == buf
            &&& after.stats_spec().recycled == before.stats_spec().recycled + 1
            &&& after.stats_spec().dropped == before.stats_spec().dropped
        },
{
    let cap = bm_capacity(buf) as int;
    lemma_filing_bucket(cap);
    let k = filing_bucket(cap)->0;
    if k < i {
        lemma_bucket_size_increasing(k + 1, i);
    } else if k > i {
        lemma_bucket_size_increasing(i + 1, k);
    }
    assert(k == i);
    if before.bucket(i).len() < before.max_spec() {
        assert(after.bucket(i).subrange(0, before.bucket(i).len() as int) =~= before.bucket(i));
    }
}

/// `reserve(size, count)` adds, to the smallest bucket whose size is at least
/// `size` (bucket `i`), exactly `count` buffers when that many fit under the
/// cap, and otherwise as many as fit; every one is empty, can hold the bucket's
/// size, and is counted as recycled. Every other bucket stays as it was.
pub proof fn lemma_reserve_adds_what_fits(
    before: BufferPool,
    size: int,
    count: int,
    after: BufferPool,
    i: int,
)
    requires
        BufferPool::reserve_post(before, size, count, after),
        count >= 0,
        0 <= i < BUCKET_COUNT,
        size <= bucket_size(i),
        i == 0 || bucket_size(i - 1) < size,
        before.stats_spec().recycled + count <= u64::MAX,
    ensures
        forall|j: int| 0 <= j < BUCKET_COUNT && j != i ==> #[trigger] after.bucket(j) == before.bucket(j),
        before.bucket(i).len() + count <= before.max_spec() ==> after.bucket(i).len()
            == before.bucket(i).len() + count,
        before.bucket(i).len() + count > before.max_spec() ==> after.bucket(i).len() == if before.max_spec()
            > before.bucket(i).len() {
            before.max_spec() as int
        } else {
            before.bucket(i).len() as int
        },
        after.bucket(i).subrange(0, before.bucket(i).len() as int) == before.bucket(i),
        forall|k: int|
            before.bucket(i).len() <= k < after.bucket(i).len() ==> {
                &&& bm_contents(#[trigger] after.bucket(i)[k]) == Seq::<u8>::empty()
                &&& bm_capacity(after.bucket(i)[k]) >= bucket_size(i)
            },
        after.stats_spec().recycled == before.stats_spec().recycled + (after.bucket(i).len()
            - before.bucket(i).len()),
        after.stats_spec().hits == before.stats_spec().hits,
        after.stats_spec().misses == before.stats_spec().misses,
        after.stats_spec().dropped == before.stats_spec().dropped,
{
    lemma_serving_bucket(size);
    let k = serving_bucket(size)->0;
    if k < i {
        lemma_bucket_size_increasing(k, i - 1);
    } else if k > i {
        lemma_bucket_size_increasing(i, k - 1);
    }
    assert(k == i);
}

} // verus!
