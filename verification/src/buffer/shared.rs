//! A pool shared within one thread, and a guard that returns its buffer there.
//!
//! [`SharedPool`] wraps a [`BufferPool`] in `Rc<RefCell<_>>` so that buffers can
//! hold onto the pool they came from. The library reaches the pool inside the
//! cell by swapping it out (only when the cell can be borrowed, so it never
//! panics), working on it with the verified pool methods, and swapping it back.
//! When the cell is borrowed elsewhere, a buffer is allocated directly, or
//! dropped, and the pool is left alone.
use vstd::prelude::*;
use bytes::BytesMut;
use std::cell::RefCell;
use std::rc::Rc;
use crate::buffer::pool::{BufferPool, PoolStats, DEFAULT_MAX_PER_BUCKET};
use crate::bytes_ext::{
    bm_capacity, bm_capacity_of, bm_clear, bm_contents, bm_extend_from_slice, bm_len, bm_with_capacity,
};

verus! {

#[verifier::external_type_specification]
#[verifier::external_body]
#[verifier::reject_recursive_types(T)]
pub struct ExRefCell<T: ?Sized>(RefCell<T>);

/// The pool a pool cell was created holding. A cell keeps its identity for its
/// whole life, so this is fixed once the cell exists; it says nothing of what
/// the cell holds after the pool in it is swapped out.
pub uninterp spec fn pool_cell_initial(cell: RefCell<BufferPool>) -> BufferPool;

/// Calls `RefCell::new`, which, as std documents, creates a new cell containing
/// `pool`: the cell was created holding `pool`.
#[verifier::external_body]
fn new_pool_cell(pool: BufferPool) -> (r: RefCell<BufferPool>)
    ensures
        pool_cell_initial(r) == pool,
{
    RefCell::new(pool)
}

/// Swaps `pool` into the cell if the cell can be borrowed mutably, through
/// `RefCell::try_borrow_mut`, which never panics, and `std::mem::replace` on the
/// borrowed place. When the borrow succeeds, `pool` stays in the cell and what
/// the cell held comes back as `Ok`; when the cell is borrowed at that moment,
/// the cell is untouched and `pool` comes back as `Err`. What a cell holds is
/// no value the contracts here can speak of, so nothing is stated of what `Ok`
/// carries, nor of when the borrow succeeds.
#[verifier::external_body]
fn try_swap_pool(cell: &RefCell<BufferPool>, pool: BufferPool) -> (r: Result<BufferPool, BufferPool>)
    ensures
        r matches Err(p) ==> p == pool,
    opens_invariants none
    no_unwind
{
    match cell.try_borrow_mut() {
        Ok(mut held) => Ok(std::mem::replace(&mut *held, pool)),
        Err(_) => Err(pool),
    }
}

/// A shared, single-threaded handle to a [`BufferPool`].
///
/// The pool is not thread-safe by design: each pipeline stage owns its pool.
/// Across threads, give each worker its own pool.
pub type SharedPool = Rc<RefCell<BufferPool>>;

/// Create a new shared pool with default settings: the cell starts out
/// holding an empty pool with the default per-bucket cap and zero counters.
pub fn shared_pool() -> (r: SharedPool)
    ensures
        pool_cell_initial(*r).max_spec() == DEFAULT_MAX_PER_BUCKET,
        pool_cell_initial(*r).all_empty(),
        pool_cell_initial(*r).stats_spec() == PoolStats::zero(),
        pool_cell_initial(*r).is_consistent(),
{
    Rc::new(new_pool_cell(BufferPool::new()))
}

/// Take a buffer of at least `size` bytes from the pool inside `pool`.
///
/// The pool is swapped out of the cell, served by
/// `BufferPool::acquire_or_allocate` for exactly `size`, and swapped back; the
/// second part of the result is the pool as found in the cell and as left
/// there, related by `acquire_post` for `size` and the buffer handed out. When the cell is
/// borrowed elsewhere at the time, the buffer is allocated directly and the
/// pool is left alone. Nothing runs between the two swaps but the verified
/// pool method, so the second swap finds the cell free.
pub(crate) fn acquire_from_shared(pool: &SharedPool, size: usize) -> (r: (
    BytesMut,
    Ghost<Option<(BufferPool, BufferPool)>>,
))
    requires
        size <= isize::MAX,
    ensures
        bm_contents(r.0) == Seq::<u8>::empty(),
        bm_capacity(r.0) >= size,
        r.1@ matches Some(states) ==> {
            let (found, left) = states;
            if found.stats_spec().hits < u64::MAX && found.stats_spec().misses < u64::MAX {
                BufferPool::acquire_post(found, size as int, r.0, left)
            } else {
                left == found
            }
        },
{
    match try_swap_pool(pool, BufferPool::with_max_per_bucket(0)) {
        Ok(mut taken) => {
            let ghost found = taken;
            let buf = taken.acquire_or_allocate(size);
            let ghost left = taken;
            // The first swap succeeded and nothing between the two touches the
            // cell, so this one finds it free too and `Ok` carries the
            // placeholder. Were it `Err`, `taken` would be dropped here and the
            // cell would keep the empty placeholder pool; no clause proves the
            // cell free, since its borrow state is no value a contract sees.
            let _placeholder = try_swap_pool(pool, taken);
            (buf, Ghost(Some((found, left))))
        },
        Err(_placeholder) => (bm_with_capacity(size), Ghost(None)),
    }
}

/// Return `buf` to the pool inside `pool`, through `BufferPool::recycle_or_drop`;
/// the result is the pool as found in the cell and as left there, related by
/// `recycle_post` for `buf`.
///
/// When the cell is borrowed elsewhere at the time, `buf` is dropped and the
/// pool is left alone.
pub(crate) fn recycle_into_shared(pool: &SharedPool, buf: BytesMut) -> (states: Ghost<
    Option<(BufferPool, BufferPool)>,
>)
    ensures
        states@ matches Some(states) ==> {
            let (found, left) = states;
            if found.stats_spec().recycled < u64::MAX && found.stats_spec().dropped < u64::MAX {
                BufferPool::recycle_post(found, buf, left)
            } else {
                left == found
            }
        },
    opens_invariants none
    no_unwind
{
    match try_swap_pool(pool, BufferPool::with_max_per_bucket(0)) {
        Ok(mut taken) => {
            let ghost found = taken;
            taken.recycle_or_drop(buf);
            let ghost left = taken;
            // The first swap succeeded and nothing between the two touches the
            // cell, so this one finds it free too and `Ok` carries the
            // placeholder. Were it `Err`, `taken` would be dropped here and the
            // cell would keep the empty placeholder pool; no clause proves the
            // cell free, since its borrow state is no value a contract sees.
            let _placeholder = try_swap_pool(pool, taken);
            Ghost(Some((found, left)))
        },
        Err(_placeholder) => Ghost(None),
    }
}

/// A pooled buffer that returns itself to its pool, cleared, when dropped.
///
/// [`acquire_guard`] hands one out; [`PoolGuard::into_inner`] takes the buffer
/// out and gives up the automatic return.
#[derive(Debug)]
pub struct PoolGuard {
    /// Present until the guard is dropped or unwrapped.
    buf: Option<BytesMut>,
    pool: SharedPool,
}

/// Acquire a buffer of at least `size` bytes from `pool`, wrapped in a
/// [`PoolGuard`] that returns it to `pool` when dropped.
pub fn acquire_guard(pool: &SharedPool, size: usize) -> (g: PoolGuard)
    requires
        size <= isize::MAX,
    ensures
        g.holds_buffer(),
        g.contents() == Seq::<u8>::empty(),
        g.capacity_spec() >= size,
        g.pool_spec() == *pool,
{
    let (buf, _states) = acquire_from_shared(pool, size);
    PoolGuard { buf: Some(buf), pool: pool.clone() }
}

impl PoolGuard {
    /// Whether the guard still holds its buffer.
    pub closed spec fn holds_buffer(self) -> bool {
        self.buf is Some
    }

    /// The bytes the held buffer holds.
    pub closed spec fn contents(self) -> Seq<u8> {
        bm_contents(self.buf->0)
    }

    /// The capacity of the held buffer.
    pub closed spec fn capacity_spec(self) -> nat {
        bm_capacity(self.buf->0)
    }

    /// The held buffer.
    pub closed spec fn held(self) -> BytesMut {
        self.buf->0
    }

    /// The pool the buffer returns to.
    pub closed spec fn pool_spec(self) -> SharedPool {
        self.pool
    }

    /// Take the buffer out of the guard, giving up the automatic return: the
    /// caller owns it and nothing goes back to the pool.
    pub fn into_inner(self) -> (r: BytesMut)
        requires
            self.holds_buffer(),
        ensures
            bm_contents(r) == self.contents(),
            bm_capacity(r) == self.capacity_spec(),
    {
        let mut guard = self;
        guard.buf.take().unwrap()
    }

    /// Number of bytes written into the held buffer.
    pub fn len(&self) -> (r: usize)
        requires
            self.holds_buffer(),
        ensures
            r == self.contents().len(),
    {
        bm_len(self.buf.as_ref().unwrap())
    }

    /// Whether nothing has been written into the held buffer.
    pub fn is_empty(&self) -> (r: bool)
        requires
            self.holds_buffer(),
        ensures
            r == (self.contents().len() == 0),
    {
        self.len() == 0
    }

    /// Capacity of the held buffer.
    pub fn capacity(&self) -> (r: usize)
        requires
            self.holds_buffer(),
        ensures
            r == self.capacity_spec(),
    {
        bm_capacity_of(self.buf.as_ref().unwrap())
    }

    /// The held buffer itself.
    pub fn buffer(&self) -> (r: &BytesMut)
        requires
            self.holds_buffer(),
        ensures
            *r == self.held(),
    {
        match &self.buf {
            Some(b) => b,
            None => vstd::pervasive::unreached(),
        }
    }

    /// The held buffer itself, to write into; the guard keeps holding it.
    pub fn buffer_mut(&mut self) -> (r: &mut BytesMut)
        requires
            old(self).holds_buffer(),
        ensures
            *r == old(self).held(),
            final(self).holds_buffer(),
            final(self).held() == *final(r),
            final(self).pool_spec() == old(self).pool_spec(),
    {
        match &mut self.buf {
            Some(b) => b,
            None => vstd::pervasive::unreached(),
        }
    }

    /// Append `data` to the held buffer.
    pub fn extend_from_slice(&mut self, data: &[u8])
        requires
            old(self).holds_buffer(),
            old(self).contents().len() + data@.len() <= isize::MAX,
        ensures
            final(self).holds_buffer(),
            final(self).contents() == old(self).contents() + data@,
            final(self).pool_spec() == old(self).pool_spec(),
    {
        let mut buf = self.buf.take().unwrap();
        bm_extend_from_slice(&mut buf, data);
        self.buf = Some(buf);
    }

    /// Clear the held buffer and return it to the pool; afterwards the guard
    /// holds nothing.
    fn release(&mut self)
        ensures
            !final(self).holds_buffer(),
        opens_invariants none
        no_unwind
    {
        let mut taken: Option<BytesMut> = None;
        std::mem::swap(&mut taken, &mut self.buf);
        if let Some(mut buf) = taken {
            bm_clear(&mut buf);
            let _states = recycle_into_shared(&self.pool, buf);
        }
    }
}

impl Drop for PoolGuard {
    /// Returns the held buffer to the pool, cleared.
    fn drop(&mut self)
        opens_invariants none
        no_unwind
    {
        self.release()
    }
}

} // verus!
