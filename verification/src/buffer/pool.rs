//! A size-bucketed buffer pool for reusing allocations under pressure.
//!
//! [`BufferPool::acquire`] hands back a cleared buffer of at least the requested
//! size, reused from the pool when one fits and freshly allocated otherwise;
//! [`BufferPool::recycle`] returns a buffer for the next caller.
//!
//! Buffers are grouped into power-of-two buckets from 4 KiB to 4 MiB. A request
//! is served from the smallest bucket that fits it; a recycled buffer is filed
//! into the largest bucket its capacity covers. Each bucket retains at most
//! `max_per_bucket` buffers, and requests above the largest bucket are allocated
//! directly and never retained.
use vstd::prelude::*;
use bytes::BytesMut;
use crate::bytes_ext::{bm_capacity, bm_capacity_of, bm_clear, bm_contents, bm_with_capacity};

verus! {

/// How many buckets the pool has.
pub const BUCKET_COUNT: usize = 11;

/// The largest size served from a bucket. Requests above it are allocated
/// directly and dropped on recycle.
pub const MAX_BUCKET_SIZE: usize = 4 * 1024 * 1024;

/// Default cap on retained buffers per bucket.
pub const DEFAULT_MAX_PER_BUCKET: usize = 32;

/// The size, in bytes, of bucket `i`: 4 KiB, 8 KiB, ..., 4 MiB.
pub open spec fn bucket_size(i: int) -> int {
    if i == 0 {
        4096
    } else if i == 1 {
        8192
    } else if i == 2 {
        16384
    } else if i == 3 {
        32768
    } else if i == 4 {
        65536
    } else if i == 5 {
        131072
    } else if i == 6 {
        262144
    } else if i == 7 {
        524288
    } else if i == 8 {
        1048576
    } else if i == 9 {
        2097152
    } else if i == 10 {
        4194304
    } else {
        0
    }
}

/// The first bucket, from `i` on, whose size is at least `size`.
pub open spec fn first_fit_from(size: int, i: int) -> Option<int>
    decreases BUCKET_COUNT - i,
{
    if i < 0 || i >= BUCKET_COUNT {
        None
    } else if size <= bucket_size(i) {
        Some(i)
    } else {
        first_fit_from(size, i + 1)
    }
}

/// The bucket that serves a request of `size` bytes: the smallest whose size is
/// at least `size`, or none when `size` is above the largest bucket.
pub open spec fn serving_bucket(size: int) -> Option<int> {
    first_fit_from(size, 0)
}

/// The last bucket, from `i` down, whose size is at most `cap`.
pub open spec fn last_fit_from(cap: int, i: int) -> Option<int>
    decreases i + 1,
{
    if i < 0 || i >= BUCKET_COUNT {
        None
    } else if bucket_size(i) <= cap {
        Some(i)
    } else {
        last_fit_from(cap, i - 1)
    }
}

/// The bucket a recycled buffer of capacity `cap` is filed into: the largest
/// whose size is at most `cap`, or none when `cap` is below the smallest bucket
/// or above the largest.
pub open spec fn filing_bucket(cap: int) -> Option<int> {
    if cap > MAX_BUCKET_SIZE {
        None
    } else {
        last_fit_from(cap, BUCKET_COUNT - 1)
    }
}

proof fn lemma_first_fit_from(size: int, j: int)
    requires
        0 <= j <= BUCKET_COUNT,
    ensures
        match first_fit_from(size, j) {
            Some(i) => j <= i < BUCKET_COUNT && size <= bucket_size(i) && forall|k: int|
                j <= k < i ==> #[trigger] bucket_size(k) < size,
            None => forall|k: int| j <= k < BUCKET_COUNT ==> #[trigger] bucket_size(k) < size,
        },
    decreases BUCKET_COUNT - j,
{
    if j < BUCKET_COUNT {
        lemma_first_fit_from(size, j + 1);
    }
}

proof fn lemma_last_fit_from(cap: int, j: int)
    requires
        -1 <= j < BUCKET_COUNT,
    ensures
        match last_fit_from(cap, j) {
            Some(i) => 0 <= i <= j && bucket_size(i) <= cap && forall|k: int|
                i < k <= j ==> cap < #[trigger] bucket_size(k),
            None => forall|k: int| 0 <= k <= j ==> cap < #[trigger] bucket_size(k),
        },
    decreases j + 1,
{
    if j >= 0 {
        lemma_last_fit_from(cap, j - 1);
    }
}

/// The buckets are the powers of two from 4 KiB to 4 MiB: the first is 4096
/// bytes, each is twice the one before, and the last is `MAX_BUCKET_SIZE`.
pub proof fn lemma_bucket_sizes()
    ensures
        bucket_size(0) == 4096,
        bucket_size(BUCKET_COUNT - 1) == MAX_BUCKET_SIZE,
        forall|i: int| 0 < i < BUCKET_COUNT ==> #[trigger] bucket_size(i) == 2 * bucket_size(i - 1),
{
}

/// A request is served by the first bucket whose size is at least the request;
/// exactly the requests above the largest bucket have no bucket.
pub proof fn lemma_serving_bucket(size: int)
    ensures
        serving_bucket(size) is None <==> size > MAX_BUCKET_SIZE,
        serving_bucket(size) matches Some(i) ==> {
            &&& 0 <= i < BUCKET_COUNT
            &&& size <= bucket_size(i)
            &&& (i == 0 || bucket_size(i - 1) < size)
        },
{
    lemma_first_fit_from(size, 0);
    if let Some(i) = serving_bucket(size) {
        if i > 0 {
            assert(bucket_size(i - 1) < size);
        }
    } else {
        assert(bucket_size(BUCKET_COUNT - 1) < size);
    }
}

/// A recycled buffer is filed into the largest bucket its capacity covers;
/// exactly the capacities below the smallest bucket or above the largest have
/// no bucket.
pub proof fn lemma_filing_bucket(cap: int)
    ensures
        filing_bucket(cap) is None <==> (cap < bucket_size(0) || cap > MAX_BUCKET_SIZE),
        filing_bucket(cap) matches Some(i) ==> {
            &&& 0 <= i < BUCKET_COUNT
            &&& bucket_size(i) <= cap
            &&& (i == BUCKET_COUNT - 1 || cap < bucket_size(i + 1))
        },
{
    lemma_last_fit_from(cap, BUCKET_COUNT - 1);
    if let Some(i) = filing_bucket(cap) {
        if i < BUCKET_COUNT - 1 {
            assert(cap < bucket_size(i + 1));
        }
    } else if cap <= MAX_BUCKET_SIZE {
        assert(cap < bucket_size(0));
    }
}

/// A buffer filed into a bucket can serve every request that bucket serves.
pub proof fn lemma_filed_buffer_serves_its_bucket(cap: int, size: int)
    requires
        filing_bucket(cap) is Some,
        serving_bucket(size) == filing_bucket(cap),
    ensures
        size <= cap,
{
    lemma_filing_bucket(cap);
    lemma_serving_bucket(size);
}

/// Calls `Vec::new`, which makes an empty vector and does not allocate, so it
/// cannot panic.
#[verifier::external_body]
fn new_bucket() -> (r: Vec<BytesMut>)
    ensures
        r@ == Seq::<BytesMut>::empty(),
    opens_invariants none
    no_unwind
{
    Vec::new()
}

/// Calls `Vec::push`, which appends `buf`. It panics only when the vector's
/// capacity would pass `isize::MAX` bytes, which a vector of buffer handles
/// cannot reach in memory; an allocation failure aborts rather than unwinds.
#[verifier::external_body]
fn push_to_bucket(bucket: &mut Vec<BytesMut>, buf: BytesMut)
    ensures
        final(bucket)@ == old(bucket)@.push(buf),
    opens_invariants none
    no_unwind
{
    bucket.push(buf)
}

/// Calls `Vec::len`, which only reads a field, so it cannot panic.
#[verifier::external_body]
fn bucket_len(bucket: &Vec<BytesMut>) -> (r: usize)
    ensures
        r == bucket@.len(),
    opens_invariants none
    no_unwind
{
    bucket.len()
}

/// Size of bucket `idx`, in bytes.
fn bucket_size_of(idx: usize) -> (r: usize)
    requires
        idx < BUCKET_COUNT,
    ensures
        r == bucket_size(idx as int),
    opens_invariants none
    no_unwind
{
    match idx {
        0 => 4096,
        1 => 8192,
        2 => 16384,
        3 => 32768,
        4 => 65536,
        5 => 131072,
        6 => 262144,
        7 => 524288,
        8 => 1048576,
        9 => 2097152,
        _ => 4194304,
    }
}

/// A bucket `i` holding `b` keeps to a cap of `max`: it retains at most `max`
/// buffers, and each can hold at least the bucket's size.
pub open spec fn bucket_within_limits(b: Seq<BytesMut>, max: usize, i: int) -> bool {
    &&& b.len() <= max
    &&& forall|j: int| 0 <= j < b.len() ==> bm_capacity(#[trigger] b[j]) >= bucket_size(i)
}

/// Counters describing pool behavior: how often the pool saved an allocation.
#[derive(Debug, Clone, Copy, Default, PartialEq, Eq, Structural)]
pub struct PoolStats {
    /// Acquires served by reusing a pooled buffer.
    pub hits: u64,
    /// Acquires that had to allocate (empty bucket or oversized request).
    pub misses: u64,
    /// Recycled buffers accepted back into a bucket.
    pub recycled: u64,
    /// Recycled buffers dropped (bucket full, or capacity outside the buckets).
    pub dropped: u64,
}

impl PoolStats {
    /// The counters before anything happened.
    pub open spec fn zero() -> PoolStats {
        PoolStats { hits: 0, misses: 0, recycled: 0, dropped: 0 }
    }

    /// These counters after one more hit.
    pub open spec fn count_hit(self) -> PoolStats {
        PoolStats { hits: (self.hits + 1) as u64, ..self }
    }

    /// These counters after one more miss.
    pub open spec fn count_miss(self) -> PoolStats {
        PoolStats { misses: (self.misses + 1) as u64, ..self }
    }

    /// These counters after `n` more buffers were accepted into a bucket.
    pub open spec fn count_recycled(self, n: int) -> PoolStats {
        PoolStats { recycled: (self.recycled + n) as u64, ..self }
    }

    /// These counters after one more buffer was dropped.
    pub open spec fn count_dropped(self) -> PoolStats {
        PoolStats { dropped: (self.dropped + 1) as u64, ..self }
    }
}

/// A size-bucketed pool of reusable byte buffers.
///
/// Not thread-safe by itself: give each worker its own pool.
#[derive(Debug)]
pub struct BufferPool {
    /// One free-list per bucket.
    buckets: [Vec<BytesMut>; BUCKET_COUNT],
    /// Max buffers retained per bucket.
    max_per_bucket: usize,
    /// Cumulative stats.
    stats: PoolStats,
}

impl BufferPool {
    /// The buffers retained in bucket `i`, in the order they were filed.
    pub closed spec fn bucket(self, i: int) -> Seq<BytesMut> {
        self.buckets@[i]@
    }

    /// The cap on retained buffers per bucket.
    pub closed spec fn max_spec(self) -> usize {
        self.max_per_bucket
    }

    /// The cumulative counters.
    pub closed spec fn stats_spec(self) -> PoolStats {
        self.stats
    }

    /// What holds of every pool at all times: every bucket keeps to the cap
    /// and to its size (`bucket_within_limits`).
    pub open spec fn is_consistent(self) -> bool {
        forall|i: int|
            0 <= i < BUCKET_COUNT ==> bucket_within_limits(#[trigger] self.bucket(i), self.max_spec(), i)
    }

    /// `is_consistent`, read off the fields.
    #[verifier::type_invariant]
    closed spec fn type_inv(self) -> bool {
        forall|i: int|
            0 <= i < BUCKET_COUNT ==> bucket_within_limits(
                (#[trigger] self.buckets@[i])@,
                self.max_per_bucket,
                i,
            )
    }

    proof fn lemma_consistent(self)
        requires
            self.type_inv(),
        ensures
            self.is_consistent(),
    {
        assert forall|i: int| 0 <= i < BUCKET_COUNT implies bucket_within_limits(
            #[trigger] self.bucket(i),
            self.max_spec(),
            i,
        ) by {
            assert(bucket_within_limits(self.buckets@[i]@, self.max_per_bucket, i));
        }
    }

    /// Every bucket of `self` equals that of `other`, but maybe bucket `i`.
    pub open spec fn same_buckets_except(self, other: BufferPool, i: int) -> bool {
        forall|j: int| 0 <= j < BUCKET_COUNT && j != i ==> #[trigger] self.bucket(j) == other.bucket(j)
    }

    /// Every bucket of `self` equals that of `other`.
    pub open spec fn same_buckets(self, other: BufferPool) -> bool {
        forall|j: int| 0 <= j < BUCKET_COUNT ==> #[trigger] self.bucket(j) == other.bucket(j)
    }

    /// Every bucket is empty.
    pub open spec fn all_empty(self) -> bool {
        forall|j: int| 0 <= j < BUCKET_COUNT ==> #[trigger] self.bucket(j).len() == 0
    }

    /// Number of buffers retained in the buckets below `n`.
    pub open spec fn pooled_upto(self, n: int) -> int
        decreases n,
    {
        if n <= 0 {
            0
        } else {
            self.pooled_upto(n - 1) + self.bucket(n - 1).len()
        }
    }

    /// Total buffers retained across all buckets.
    pub open spec fn pooled_total(self) -> int {
        self.pooled_upto(BUCKET_COUNT as int)
    }

    /// Bytes of bucket size held by the buckets below `n`.
    pub open spec fn retained_upto(self, n: int) -> int
        decreases n,
    {
        if n <= 0 {
            0
        } else {
            self.retained_upto(n - 1) + self.bucket(n - 1).len() * bucket_size(n - 1)
        }
    }

    /// Total bucket-size bytes retained: each bucket's size times how many
    /// buffers it holds, summed over the buckets.
    pub open spec fn retained_bytes(self) -> int {
        self.retained_upto(BUCKET_COUNT as int)
    }

    /// How `acquire(size)` takes `before` to `after`, handing out `buf`.
    pub open spec fn acquire_post(before: BufferPool, size: int, buf: BytesMut, after: BufferPool) -> bool {
        &&& bm_contents(buf) == Seq::<u8>::empty()
        &&& bm_capacity(buf) >= size
        &&& after.max_spec() == before.max_spec()
        &&& match serving_bucket(size) {
            Some(i) => if before.bucket(i).len() > 0 {
                &&& after.bucket(i) == before.bucket(i).drop_last()
                &&& after.same_buckets_except(before, i)
                &&& bm_capacity(buf) == bm_capacity(before.bucket(i).last())
                &&& after.stats_spec() == before.stats_spec().count_hit()
            } else {
                &&& after.same_buckets(before)
                &&& bm_capacity(buf) >= bucket_size(i)
                &&& after.stats_spec() == before.stats_spec().count_miss()
            },
            None => {
                &&& after.same_buckets(before)
                &&& after.stats_spec() == before.stats_spec().count_miss()
            },
        }
    }

    /// How `recycle(buf)` takes `before` to `after`.
    pub open spec fn recycle_post(before: BufferPool, buf: BytesMut, after: BufferPool) -> bool {
        &&& after.max_spec() == before.max_spec()
        &&& match filing_bucket(bm_capacity(buf) as int) {
            Some(i) => if before.bucket(i).len() < before.max_spec() {
                &&& after.bucket(i) == before.bucket(i).push(buf)
                &&& after.same_buckets_except(before, i)
                &&& after.stats_spec() == before.stats_spec().count_recycled(1)
            } else {
                &&& after.same_buckets(before)
                &&& after.stats_spec() == before.stats_spec().count_dropped()
            },
            None => {
                &&& after.same_buckets(before)
                &&& after.stats_spec() == before.stats_spec().count_dropped()
            },
        }
    }

    /// How `clear()` takes `before` to `after`: every bucket emptied, the cap
    /// and the counters kept.
    pub open spec fn clear_post(before: BufferPool, after: BufferPool) -> bool {
        &&& after.all_empty()
        &&& after.max_spec() == before.max_spec()
        &&& after.stats_spec() == before.stats_spec()
    }

    /// How many buffers `reserve(size, count)` adds to the pool: `count`, but no
    /// more than the room left under the cap in the bucket serving `size`, and
    /// none when no bucket serves `size`.
    pub open spec fn reserve_amount(self, size: int, count: int) -> int {
        match serving_bucket(size) {
            Some(i) => {
                let room = if self.max_spec() > self.bucket(i).len() {
                    self.max_spec() - self.bucket(i).len()
                } else {
                    0
                };
                if count < room {
                    count
                } else {
                    room
                }
            },
            None => 0,
        }
    }

    /// How `reserve(size, count)` takes `before` to `after`.
    pub open spec fn reserve_post(before: BufferPool, size: int, count: int, after: BufferPool) -> bool {
        let n = before.reserve_amount(size, count);
        &&& after.max_spec() == before.max_spec()
        &&& after.stats_spec() == before.stats_spec().count_recycled(n)
        &&& match serving_bucket(size) {
            Some(i) => {
                &&& after.same_buckets_except(before, i)
                &&& after.bucket(i).len() == before.bucket(i).len() + n
                &&& after.bucket(i).subrange(0, before.bucket(i).len() as int) == before.bucket(i)
                &&& forall|k: int|
                    before.bucket(i).len() <= k < after.bucket(i).len() ==> {
                        &&& bm_contents(#[trigger] after.bucket(i)[k]) == Seq::<u8>::empty()
                        &&& bm_capacity(after.bucket(i)[k]) >= bucket_size(i)
                    }
            },
            None => after.same_buckets(before),
        }
    }

    /// Create a pool with the default per-bucket cap (32).
    pub fn new() -> (r: BufferPool)
        ensures
            r.max_spec() == DEFAULT_MAX_PER_BUCKET,
            r.all_empty(),
            r.stats_spec() == PoolStats::zero(),
            r.is_consistent(),
    {
        Self::with_max_per_bucket(DEFAULT_MAX_PER_BUCKET)
    }

    /// Create a pool retaining at most `max_per_bucket` buffers per bucket.
    ///
    /// A cap of 0 disables retention: every recycle is dropped.
    pub fn with_max_per_bucket(max_per_bucket: usize) -> (r: BufferPool)
        ensures
            r.max_spec() == max_per_bucket,
            r.all_empty(),
            r.stats_spec() == PoolStats::zero(),
            r.is_consistent(),
        opens_invariants none
        no_unwind
    {
        let r = BufferPool {
            buckets: [
                new_bucket(),
                new_bucket(),
                new_bucket(),
                new_bucket(),
                new_bucket(),
                new_bucket(),
                new_bucket(),
                new_bucket(),
                new_bucket(),
                new_bucket(),
                new_bucket(),
            ],
            max_per_bucket,
            stats: PoolStats { hits: 0, misses: 0, recycled: 0, dropped: 0 },
        };
        r
    }

    /// Index of the smallest bucket that can serve `size`, or `None` if `size`
    /// exceeds the largest bucket.
    fn bucket_index(size: usize) -> (r: Option<usize>)
        ensures
            match r {
                Some(i) => serving_bucket(size as int) == Some(i as int),
                None => serving_bucket(size as int) is None,
            },
    {
        proof {
            lemma_first_fit_from(size as int, 0);
        }
        if size > MAX_BUCKET_SIZE {
            return None;
        }
        let mut i: usize = 0;
        while i < BUCKET_COUNT
            invariant
                i <= BUCKET_COUNT,
                size <= MAX_BUCKET_SIZE,
                forall|k: int| 0 <= k < i ==> #[trigger] bucket_size(k) < size,
                match first_fit_from(size as int, 0) {
                    Some(j) => 0 <= j < BUCKET_COUNT && size <= bucket_size(j) && forall|k: int|
                        0 <= k < j ==> #[trigger] bucket_size(k) < size,
                    None => forall|k: int| 0 <= k < BUCKET_COUNT ==> #[trigger] bucket_size(k) < size,
                },
            decreases BUCKET_COUNT - i,
        {
            if bucket_size_of(i) >= size {
                proof {
                    if let Some(j) = first_fit_from(size as int, 0) {
                        if j < i {
                            assert(bucket_size(j) < size);
                        } else if j > i {
                            assert(bucket_size(i as int) < size);
                        }
                    }
                }
                return Some(i);
            }
            i += 1;
        }
        assert(bucket_size(BUCKET_COUNT - 1) < size);
        None
    }

    /// Bucket a buffer of capacity `cap` is filed into when recycled: the
    /// largest bucket whose size is at most `cap`. `None` if `cap` is smaller
    /// than the smallest bucket or larger than the largest.
    fn recycle_bucket_index(cap: usize) -> (r: Option<usize>)
        ensures
            match r {
                Some(i) => filing_bucket(cap as int) == Some(i as int),
                None => filing_bucket(cap as int) is None,
            },
        opens_invariants none
        no_unwind
    {
        proof {
            lemma_last_fit_from(cap as int, BUCKET_COUNT - 1);
        }
        if cap > MAX_BUCKET_SIZE || cap < bucket_size_of(0) {
            return None;
        }
        let mut i: usize = BUCKET_COUNT;
        while i > 0
            invariant
                i <= BUCKET_COUNT,
                cap <= MAX_BUCKET_SIZE,
                bucket_size(0) <= cap,
                forall|k: int| i <= k < BUCKET_COUNT ==> cap < #[trigger] bucket_size(k),
                match last_fit_from(cap as int, BUCKET_COUNT - 1) {
                    Some(j) => 0 <= j < BUCKET_COUNT && bucket_size(j) <= cap && forall|k: int|
                        j < k < BUCKET_COUNT ==> cap < #[trigger] bucket_size(k),
                    None => forall|k: int| 0 <= k < BUCKET_COUNT ==> cap < #[trigger] bucket_size(k),
                },
            decreases i,
        {
            if bucket_size_of(i - 1) <= cap {
                proof {
                    if let Some(j) = last_fit_from(cap as int, BUCKET_COUNT - 1) {
                        if j < i - 1 {
                            assert(cap < bucket_size(i - 1));
                        } else if j > i - 1 {
                            assert(cap < bucket_size(j));
                        }
                    }
                }
                return Some(i - 1);
            }
            i -= 1;
        }
        assert(cap < bucket_size(0));
        None
    }

    /// Acquire a buffer with capacity for at least `size` bytes.
    ///
    /// The returned buffer is empty but has sufficient capacity: the most
    /// recently filed buffer of the serving bucket when it holds one (a hit),
    /// freshly allocated with the bucket's size otherwise, and allocated with
    /// exactly `size` for requests above the largest bucket (both misses).
    pub fn acquire(&mut self, size: usize) -> (buf: BytesMut)
        requires
            size <= isize::MAX,
            old(self).stats_spec().hits < u64::MAX,
            old(self).stats_spec().misses < u64::MAX,
        ensures
            Self::acquire_post(*old(self), size as int, buf, *final(self)),
            final(self).is_consistent(),
    {
        proof {
            use_type_invariant(&*self);
            lemma_serving_bucket(size as int);
        }
        let buf = match Self::bucket_index(size) {
            Some(idx) => {
                let mut bucket: Vec<BytesMut> = new_bucket();
                std::mem::swap(&mut bucket, &mut self.buckets[idx]);
                let ghost taken = bucket@;
                let popped = bucket.pop();
                std::mem::swap(&mut bucket, &mut self.buckets[idx]);
                match popped {
                    Some(mut buf) => {
                        proof {
                            assert(bm_capacity(taken[taken.len() - 1]) >= bucket_size(idx as int));
                        }
                        bm_clear(&mut buf);
                        self.stats.hits = self.stats.hits + 1;
                        buf
                    },
                    None => {
                        self.stats.misses = self.stats.misses + 1;
                        bm_with_capacity(bucket_size_of(idx))
                    },
                }
            },
            None => {
                self.stats.misses = self.stats.misses + 1;
                bm_with_capacity(size)
            },
        };
        proof {
            use_type_invariant(&*self);
            self.lemma_consistent();
        }
        buf
    }

    /// Return a buffer to the pool for reuse.
    ///
    /// The buffer is filed into the bucket matching its capacity. It is dropped
    /// instead of retained when that bucket is full, or when its capacity is
    /// below the smallest bucket or above the largest.
    pub fn recycle(&mut self, buf: BytesMut)
        requires
            old(self).stats_spec().recycled < u64::MAX,
            old(self).stats_spec().dropped < u64::MAX,
        ensures
            Self::recycle_post(*old(self), buf, *final(self)),
            final(self).is_consistent(),
        opens_invariants none
        no_unwind
    {
        proof {
            use_type_invariant(&*self);
        }
        let cap = bm_capacity_of(&buf);
        proof {
            lemma_filing_bucket(cap as int);
        }
        match Self::recycle_bucket_index(cap) {
            Some(idx) => {
                if bucket_len(&self.buckets[idx]) < self.max_per_bucket {
                    let mut bucket: Vec<BytesMut> = new_bucket();
                    std::mem::swap(&mut bucket, &mut self.buckets[idx]);
                    push_to_bucket(&mut bucket, buf);
                    std::mem::swap(&mut bucket, &mut self.buckets[idx]);
                    self.stats.recycled = self.stats.recycled + 1;
                } else {
                    self.stats.dropped = self.stats.dropped + 1;
                }
            },
            None => {
                self.stats.dropped = self.stats.dropped + 1;
            },
        }
        proof {
            use_type_invariant(&*self);
            self.lemma_consistent();
        }
    }

    /// `acquire(size)` while the hit and miss counters have room; once either
    /// is at its maximum, a buffer allocated directly with no change to the pool.
    pub(crate) fn acquire_or_allocate(&mut self, size: usize) -> (buf: BytesMut)
        requires
            size <= isize::MAX,
        ensures
            bm_contents(buf) == Seq::<u8>::empty(),
            bm_capacity(buf) >= size,
            if old(self).stats_spec().hits < u64::MAX && old(self).stats_spec().misses < u64::MAX {
                Self::acquire_post(*old(self), size as int, buf, *final(self))
            } else {
                *final(self) == *old(self)
            },
            final(self).is_consistent(),
    {
        proof {
            use_type_invariant(&*self);
            self.lemma_consistent();
        }
        if self.stats.hits < u64::MAX && self.stats.misses < u64::MAX {
            self.acquire(size)
        } else {
            bm_with_capacity(size)
        }
    }

    /// `recycle(buf)` while the recycled and dropped counters have room; once
    /// either is at its maximum, `buf` is dropped with no change to the pool.
    pub(crate) fn recycle_or_drop(&mut self, buf: BytesMut)
        ensures
            if old(self).stats_spec().recycled < u64::MAX && old(self).stats_spec().dropped < u64::MAX {
                Self::recycle_post(*old(self), buf, *final(self))
            } else {
                *final(self) == *old(self)
            },
            final(self).is_consistent(),
        opens_invariants none
        no_unwind
    {
        proof {
            use_type_invariant(&*self);
            self.lemma_consistent();
        }
        if self.stats.recycled < u64::MAX && self.stats.dropped < u64::MAX {
            self.recycle(buf);
        }
    }

    /// A snapshot of the pool's cumulative statistics.
    pub fn stats(&self) -> (r: PoolStats)
        ensures
            r == self.stats_spec(),
    {
        self.stats
    }

    /// The cap on retained buffers per bucket.
    pub fn max_per_bucket(&self) -> (r: usize)
        ensures
            r == self.max_spec(),
    {
        self.max_per_bucket
    }

    /// Pre-warm the pool: allocate up to `count` buffers sized for `size` and file
    /// them into the bucket serving `size`, so that many acquires of that size
    /// are hits instead of misses.
    ///
    /// Respects the per-bucket cap: requests beyond the cap are not allocated.
    /// Sizes above the largest bucket are ignored. Prewarmed buffers count as
    /// `recycled` in the stats.
    pub fn reserve(&mut self, size: usize, count: usize)
        requires
            old(self).stats_spec().recycled + old(self).reserve_amount(size as int, count as int)
                <= u64::MAX,
        ensures
            Self::reserve_post(*old(self), size as int, count as int, *final(self)),
            final(self).is_consistent(),
    {
        proof {
            use_type_invariant(&*self);
            lemma_serving_bucket(size as int);
        }
        match Self::bucket_index(size) {
            Some(idx) => {
                let capacity = bucket_size_of(idx);
                let held = bucket_len(&self.buckets[idx]);
                let room = if self.max_per_bucket > held {
                    self.max_per_bucket - held
                } else {
                    0
                };
                let n = if count < room {
                    count
                } else {
                    room
                };
                let mut bucket: Vec<BytesMut> = new_bucket();
                std::mem::swap(&mut bucket, &mut self.buckets[idx]);
                let ghost start = bucket@;
                let mut k: usize = 0;
                while k < n
                    invariant
                        k <= n,
                        start.len() == held,
                        capacity == bucket_size(idx as int),
                        bucket@.len() == held + k,
                        bucket@.subrange(0, held as int) == start,
                        forall|m: int|
                            held <= m < held + k ==> {
                                &&& bm_contents(#[trigger] bucket@[m]) == Seq::<u8>::empty()
                                &&& bm_capacity(bucket@[m]) >= capacity
                            },
                    decreases n - k,
                {
                    let fresh = bm_with_capacity(capacity);
                    push_to_bucket(&mut bucket, fresh);
                    k += 1;
                    proof {
                        assert(bucket@.subrange(0, held as int) =~= start);
                    }
                }
                proof {
                    assert forall|m: int| 0 <= m < bucket@.len() implies bm_capacity(
                        #[trigger] bucket@[m],
                    ) >= bucket_size(idx as int) by {
                        if m < held {
                            assert(bucket@[m] == bucket@.subrange(0, held as int)[m]);
                        }
                    }
                }
                std::mem::swap(&mut bucket, &mut self.buckets[idx]);
                self.stats.recycled = self.stats.recycled + n as u64;
            },
            None => {},
        }
        proof {
            use_type_invariant(&*self);
            self.lemma_consistent();
        }
    }

    /// Total buffers currently retained across all buckets.
    pub fn pooled_count(&self) -> (r: usize)
        requires
            self.pooled_total() <= usize::MAX,
        ensures
            r == self.pooled_total(),
    {
        let mut total: usize = 0;
        let mut i: usize = 0;
        while i < BUCKET_COUNT
            invariant
                i <= BUCKET_COUNT,
                self.pooled_total() <= usize::MAX,
                total == self.pooled_upto(i as int),
            decreases BUCKET_COUNT - i,
        {
            proof {
                self.lemma_pooled_upto_monotone(i as int + 1, BUCKET_COUNT as int);
            }
            total = total + bucket_len(&self.buckets[i]);
            i += 1;
        }
        total
    }

    proof fn lemma_pooled_upto_monotone(self, a: int, b: int)
        requires
            0 <= a <= b,
        ensures
            self.pooled_upto(a) <= self.pooled_upto(b),
        decreases b - a,
    {
        if a < b {
            self.lemma_pooled_upto_monotone(a, b - 1);
        }
    }

    proof fn lemma_retained_upto_monotone(self, a: int, b: int)
        requires
            0 <= a <= b,
        ensures
            self.retained_upto(a) <= self.retained_upto(b),
        decreases b - a,
    {
        if a < b {
            self.lemma_retained_upto_monotone(a, b - 1);
            let n = self.bucket(b - 1).len();
            let s = bucket_size(b - 1);
            assert(n * s >= 0) by (nonlinear_arith)
                requires
                    n >= 0,
                    s >= 0,
            ;
        }
    }

    /// Total capacity, in bytes, currently retained by pooled buffers, counted
    /// as each bucket's size times how many buffers it holds.
    pub fn memory_used(&self) -> (r: usize)
        requires
            self.retained_bytes() <= usize::MAX,
        ensures
            r == self.retained_bytes(),
    {
        let mut total: usize = 0;
        let mut i: usize = 0;
        while i < BUCKET_COUNT
            invariant
                i <= BUCKET_COUNT,
                self.retained_bytes() <= usize::MAX,
                total == self.retained_upto(i as int),
            decreases BUCKET_COUNT - i,
        {
            proof {
                self.lemma_retained_upto_monotone(i as int + 1, BUCKET_COUNT as int);
                let n = self.bucket(i as int).len();
                let s = bucket_size(i as int);
                assert(n * s >= 0) by (nonlinear_arith)
                    requires
                        n >= 0,
                        s >= 0,
                ;
            }
            let held = bucket_len(&self.buckets[i]);
            let size = bucket_size_of(i);
            proof {
                assert(held * size <= usize::MAX) by (nonlinear_arith)
                    requires
                        total + held * size <= usize::MAX,
                        total >= 0,
                ;
            }
            total = total + held * size;
            i += 1;
        }
        total
    }

    /// Drop every retained buffer, releasing their memory. Stats and the cap are
    /// kept.
    pub fn clear(&mut self)
        ensures
            Self::clear_post(*old(self), *final(self)),
            final(self).is_consistent(),
    {
        let mut i: usize = 0;
        while i < BUCKET_COUNT
            invariant
                i <= BUCKET_COUNT,
                self.max_spec() == old(self).max_spec(),
                self.stats_spec() == old(self).stats_spec(),
                forall|j: int| 0 <= j < i ==> #[trigger] self.bucket(j).len() == 0,
            decreases BUCKET_COUNT - i,
        {
            let mut emptied: Vec<BytesMut> = new_bucket();
            proof {
                use_type_invariant(&*self);
            }
            let ghost pre = *self;
            std::mem::swap(&mut emptied, &mut self.buckets[i]);
            proof {
                assert forall|j: int| 0 <= j <= i implies #[trigger] self.bucket(j).len() == 0 by {
                    if j < i {
                        assert(self.buckets@[j] == pre.buckets@[j]);
                        assert(pre.bucket(j).len() == 0);
                    }
                }
            }
            i += 1;
        }
        proof {
            use_type_invariant(&*self);
            self.lemma_consistent();
        }
    }
}

impl Default for BufferPool {
    fn default() -> (r: BufferPool)
        ensures
            r.max_spec() == DEFAULT_MAX_PER_BUCKET,
            r.all_empty(),
            r.stats_spec() == PoolStats::zero(),
            r.is_consistent(),
    {
        BufferPool::new()
    }
}

} // verus!
