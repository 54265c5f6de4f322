//! The byte containers of the `bytes` crate, as the rest of the library sees them.
//!
//! `BytesMut` and `Bytes` are declared here without their fields. What the
//! library reads of them is named here: the bytes a value holds, and, for `BytesMut`, how many bytes it can
//! hold without reallocating. Each method the library calls has one wrapper whose
//! contract says, over those names, what the crate's source does.
use vstd::prelude::*;
use bytes::{Bytes, BytesMut};

verus! {

#[verifier::external_type_specification]
#[verifier::external_body]
pub struct ExBytesMut(BytesMut);

#[verifier::external_type_specification]
#[verifier::external_body]
pub struct ExBytes(Bytes);

/// The bytes a `BytesMut` holds, in order (its `len()` of them).
pub uninterp spec fn bm_contents(b: BytesMut) -> Seq<u8>;

/// How many bytes a `BytesMut` can hold without reallocating (its `capacity()`).
pub uninterp spec fn bm_capacity(b: BytesMut) -> nat;

/// The bytes a `Bytes` handle refers to, in order.
pub uninterp spec fn bytes_contents(b: Bytes) -> Seq<u8>;

/// Calls `BytesMut::with_capacity`. The crate documents that the result holds no
/// data and can hold at least `capacity` bytes without reallocating. It builds
/// a `Vec::with_capacity`, which panics above `isize::MAX`.
#[verifier::external_body]
pub(crate) fn bm_with_capacity(capacity: usize) -> (r: BytesMut)
    requires
        capacity <= isize::MAX,
    ensures
        bm_contents(r) == Seq::<u8>::empty(),
        bm_capacity(r) >= capacity,
{
    BytesMut::with_capacity(capacity)
}

/// Calls `BytesMut::len`, which returns the number of bytes held.
#[verifier::external_body]
pub(crate) fn bm_len(b: &BytesMut) -> (r: usize)
    ensures
        r == bm_contents(*b).len(),
{
    b.len()
}

/// Calls `BytesMut::capacity`, which returns the capacity the value records;
/// it only reads a field, so it cannot panic.
#[verifier::external_body]
pub(crate) fn bm_capacity_of(b: &BytesMut) -> (r: usize)
    ensures
        r == bm_capacity(*b),
    opens_invariants none
    no_unwind
{
    b.capacity()
}

/// Calls `BytesMut::clear`: the length becomes 0 and, as the crate documents,
/// the existing capacity is preserved. It only sets the length, so it cannot
/// panic.
#[verifier::external_body]
pub(crate) fn bm_clear(b: &mut BytesMut)
    ensures
        bm_contents(*final(b)) == Seq::<u8>::empty(),
        bm_capacity(*final(b)) == bm_capacity(*old(b)),
    opens_invariants none
    no_unwind
{
    b.clear()
}

/// Calls `BytesMut::extend_from_slice`, which appends `data` after the bytes held,
/// growing the allocation when it must. Growth past `isize::MAX` bytes panics in
/// the `Vec` underneath, so the total is bounded here.
#[verifier::external_body]
pub(crate) fn bm_extend_from_slice(b: &mut BytesMut, data: &[u8])
    requires
        bm_contents(*old(b)).len() + data@.len() <= isize::MAX,
    ensures
        bm_contents(*final(b)) == bm_contents(*old(b)) + data@,
        bm_capacity(*final(b)) >= bm_contents(*final(b)).len(),
{
    b.extend_from_slice(data)
}

/// Copies the held bytes out through `BytesMut`'s `Deref<Target = [u8]>` and
/// `<[u8]>::to_vec`.
#[verifier::external_body]
pub(crate) fn bm_to_vec(b: &BytesMut) -> (r: Vec<u8>)
    ensures
        r@ == bm_contents(*b),
{
    b.to_vec()
}

/// Calls `BytesMut::freeze`, which turns the buffer into a `Bytes` over the same
/// bytes without copying them.
#[verifier::external_body]
pub(crate) fn bm_freeze(b: BytesMut) -> (r: Bytes)
    ensures
        bytes_contents(r) == bm_contents(b),
{
    b.freeze()
}

/// Calls `<Bytes as From<Vec<u8>>>::from`, which takes over the vector's bytes.
#[verifier::external_body]
pub(crate) fn bytes_from_vec(v: Vec<u8>) -> (r: Bytes)
    ensures
        bytes_contents(r) == v@,
{
    Bytes::from(v)
}

/// Calls `Bytes::len`, which returns the number of bytes referred to.
#[verifier::external_body]
pub(crate) fn bytes_len(b: &Bytes) -> (r: usize)
    ensures
        r == bytes_contents(*b).len(),
{
    b.len()
}

/// Reads the bytes through `Bytes`'s `Deref<Target = [u8]>`.
#[verifier::external_body]
pub(crate) fn bytes_as_slice(b: &Bytes) -> (r: &[u8])
    ensures
        r@ == bytes_contents(*b),
{
    b
}

/// Calls `Bytes::slice` on `start..end`: a handle on that part of the same bytes,
/// with no copy. The crate panics unless `start <= end <= len`.
#[verifier::external_body]
pub(crate) fn bytes_slice(b: &Bytes, start: usize, end: usize) -> (r: Bytes)
    requires
        start <= end,
        end <= bytes_contents(*b).len(),
    ensures
        bytes_contents(r) == bytes_contents(*b).subrange(start as int, end as int),
{
    b.slice(start..end)
}

/// Calls `<Bytes as Clone>::clone`, which gives a second handle on the same bytes.
#[verifier::external_body]
pub(crate) fn bytes_clone(b: &Bytes) -> (r: Bytes)
    ensures
        bytes_contents(r) == bytes_contents(*b),
{
    b.clone()
}

} // verus!
