//! Per-frame flag set.
use vstd::prelude::*;

verus! {

/// The bits that name a flag; any other bit is not a flag.
pub const FRAME_FLAGS_ALL_BITS: u32 = 0b0011_1111;

/// A set of per-frame flags, held as bits of a `u32`:
/// keyframe `1`, corrupt `2`, discard `4`, end of stream `8`, decoded `16`,
/// encoded `32`.
#[derive(Debug, Clone, Copy, PartialEq, Eq, Hash, Structural)]
pub struct FrameFlags {
    bits: u32,
}

impl FrameFlags {
    /// The bits of this set.
    pub closed spec fn bits_spec(self) -> u32 {
        self.bits
    }

    /// The set whose bits are `bits`.
    pub closed spec fn from_bits_spec(bits: u32) -> FrameFlags {
        FrameFlags { bits }
    }

    /// Whether every flag of `other` is in this set.
    pub open spec fn contains_spec(self, other: FrameFlags) -> bool {
        self.bits_spec() & other.bits_spec() == other.bits_spec()
    }

    /// The set with no flag.
    pub fn empty() -> (r: FrameFlags)
        ensures
            r == FrameFlags::from_bits_spec(0),
            r.bits_spec() == 0,
    {
        FrameFlags { bits: 0 }
    }

    /// The set of every flag.
    pub fn all() -> (r: FrameFlags)
        ensures
            r.bits_spec() == FRAME_FLAGS_ALL_BITS,
    {
        FrameFlags { bits: FRAME_FLAGS_ALL_BITS }
    }

    /// The frame can be decoded without any other frame.
    pub fn keyframe() -> (r: FrameFlags)
        ensures
            r.bits_spec() == 1,
    {
        FrameFlags { bits: 1 }
    }

    /// The frame's data is known to be damaged.
    pub fn corrupt() -> (r: FrameFlags)
        ensures
            r.bits_spec() == 2,
    {
        FrameFlags { bits: 2 }
    }

    /// The frame is to be decoded but not presented.
    pub fn discard() -> (r: FrameFlags)
        ensures
            r.bits_spec() == 4,
    {
        FrameFlags { bits: 4 }
    }

    /// The frame marks the end of its stream.
    pub fn end_of_stream() -> (r: FrameFlags)
        ensures
            r.bits_spec() == 8,
    {
        FrameFlags { bits: 8 }
    }

    /// The frame holds decoded samples.
    pub fn decoded() -> (r: FrameFlags)
        ensures
            r.bits_spec() == 16,
    {
        FrameFlags { bits: 16 }
    }

    /// The frame holds coded data.
    pub fn encoded() -> (r: FrameFlags)
        ensures
            r.bits_spec() == 32,
    {
        FrameFlags { bits: 32 }
    }

    /// The set whose bits are those of `bits` that name a flag.
    pub fn from_bits_truncate(bits: u32) -> (r: FrameFlags)
        ensures
            r.bits_spec() == bits & FRAME_FLAGS_ALL_BITS,
    {
        FrameFlags { bits: bits & FRAME_FLAGS_ALL_BITS }
    }

    /// The bits of this set.
    pub fn bits(&self) -> (r: u32)
        ensures
            r == self.bits_spec(),
    {
        self.bits
    }

    /// Whether the set has no flag.
    pub fn is_empty(&self) -> (r: bool)
        ensures
            r == (self.bits_spec() == 0),
    {
        self.bits == 0
    }

    /// Whether every flag of `other` is in this set.
    pub fn contains(&self, other: FrameFlags) -> (r: bool)
        ensures
            r == self.contains_spec(other),
    {
        self.bits & other.bits == other.bits
    }

    /// The flags of either set.
    pub fn union(self, other: FrameFlags) -> (r: FrameFlags)
        ensures
            r == FrameFlags::from_bits_spec(self.bits_spec() | other.bits_spec()),
            r.bits_spec() == self.bits_spec() | other.bits_spec(),
    {
        FrameFlags { bits: self.bits | other.bits }
    }

    /// Adds the flags of `other` to this set.
    pub fn insert(&mut self, other: FrameFlags)
        ensures
            *final(self) == FrameFlags::from_bits_spec(old(self).bits_spec() | other.bits_spec()),
            final(self).bits_spec() == old(self).bits_spec() | other.bits_spec(),
    {
        self.bits = self.bits | other.bits;
    }

    /// Takes the flags of `other` out of this set.
    pub fn remove(&mut self, other: FrameFlags)
        ensures
            final(self).bits_spec() == old(self).bits_spec() & !other.bits_spec(),
    {
        self.bits = self.bits & !other.bits;
    }
}

/// A set built from bits holds exactly those bits.
pub proof fn lemma_from_bits(bits: u32)
    ensures
        FrameFlags::from_bits_spec(bits).bits_spec() == bits,
{
}

/// A set holds the flags it was given together with those it held: a set
/// whose bits are those of `before` joined with those of `f` contains `f`, and
/// every set `g` that `before` contains.
pub proof fn lemma_union_contains(before: FrameFlags, f: FrameFlags, g: FrameFlags, after: FrameFlags)
    requires
        after.bits_spec() == before.bits_spec() | f.bits_spec(),
        before.contains_spec(g),
    ensures
        after.contains_spec(f),
        after.contains_spec(g),
{
    let b = before.bits_spec();
    let x = f.bits_spec();
    let y = g.bits_spec();
    assert((b | x) & x == x) by (bit_vector);
    assert(b & y == y ==> (b | x) & y == y) by (bit_vector);
}

} // verus!
