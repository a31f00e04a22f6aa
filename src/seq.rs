//! Sequence numbers over the cyclic group of 32-bit integers.
use vstd::prelude::*;
use vstd::arithmetic::div_mod::{lemma_add_mod_noop, lemma_small_mod};

verus! {

/// The size of the sequence number space.
pub const SEQ_SPACE: u64 = 0x1_0000_0000;

/// Half of the sequence number space: the largest distance that still orders.
pub const SEQ_HALF: u32 = 0x8000_0000;

/// How far `b` lies ahead of `a`, going forward around the circle.
pub open spec fn dist(a: u32, b: u32) -> int {
    if b >= a {
        b - a
    } else {
        b - a + SEQ_SPACE
    }
}

/// `a` comes strictly before `b`: the signed difference `a - b` is negative.
pub open spec fn seq_lt(a: u32, b: u32) -> bool {
    0 < dist(a, b) <= SEQ_HALF
}

/// `a` comes before `b` or equals it.
pub open spec fn seq_le(a: u32, b: u32) -> bool {
    dist(a, b) <= SEQ_HALF
}

/// The point `n` steps ahead of `a`.
pub open spec fn seq_add(a: u32, n: int) -> u32 {
    ((a + n) % (SEQ_SPACE as int)) as u32
}

/// Going from `x` to `z` by way of `y`, when `y` is not past `z`.
pub proof fn lemma_dist_split(x: u32, y: u32, z: u32)
    requires
        dist(x, y) <= dist(x, z),
    ensures
        dist(y, z) == dist(x, z) - dist(x, y),
{
}

/// Of three points in order around less than a full circle, the middle one
/// is no further from the first than the last one is.
pub proof fn lemma_dist_between(x: u32, y: u32, z: u32)
    requires
        seq_le(x, y),
        seq_le(y, z),
        0 < dist(x, z),
    ensures
        dist(x, y) <= dist(x, z),
        dist(y, z) == dist(x, z) - dist(x, y),
{
}

/// Stepping `n` further from `y` adds `n` to the distance from `x`, as long
/// as the circle is not rounded.
pub proof fn lemma_dist_add(x: u32, y: u32, n: int)
    requires
        0 <= n,
        dist(x, y) + n < SEQ_SPACE,
    ensures
        dist(x, seq_add(y, n)) == dist(x, y) + n,
{
}

/// A TCP sequence number.
#[derive(Clone, Copy, Debug, PartialEq, Eq, Structural)]
pub struct SeqNumber(pub u32);

impl SeqNumber {
    /// The number `n` steps ahead of this one, around the circle.
    pub fn add_len(self, n: usize) -> (r: SeqNumber)
        ensures
            r.0 == seq_add(self.0, n as int),
            n < SEQ_SPACE ==> dist(self.0, r.0) == n,
    {
        let m = (n as u64 % SEQ_SPACE) as u32;
        proof {
            lemma_add_mod_noop(self.0 as int, n as int, SEQ_SPACE as int);
            lemma_small_mod(m as nat, SEQ_SPACE as nat);
        }
        SeqNumber(self.0.wrapping_add(m))
    }

    /// How far this number lies ahead of `earlier`.
    pub fn distance_from(self, earlier: SeqNumber) -> (r: usize)
        requires
            dist(earlier.0, self.0) < SEQ_HALF,
        ensures
            r == dist(earlier.0, self.0),
    {
        self.0.wrapping_sub(earlier.0) as usize
    }

    /// This number comes strictly before `other`.
    pub fn lt(self, other: SeqNumber) -> (r: bool)
        ensures
            r == seq_lt(self.0, other.0),
    {
        let d = other.0.wrapping_sub(self.0);
        0 < d && d <= SEQ_HALF
    }

    /// This number comes before `other` or equals it.
    pub fn le(self, other: SeqNumber) -> (r: bool)
        ensures
            r == seq_le(self.0, other.0),
    {
        other.0.wrapping_sub(self.0) <= SEQ_HALF
    }
}

} // verus!
