use vstd::prelude::*;

verus! {

/// A 32-bit TCP sequence number with wrapping arithmetic.
#[derive(Debug, Clone, Copy, PartialEq, Eq, Structural)]
pub struct SeqNumber {
    pub value: u32,
}

/// `(a - b) mod 2^32`.
pub open spec fn wrapping_diff(a: u32, b: u32) -> int {
    (a as int - b as int) % 0x1_0000_0000
}

/// `a` comes strictly before `b` in the modulo-2^32 order: `a - b` has its
/// high bit set.
pub open spec fn seq_lt(a: u32, b: u32) -> bool {
    wrapping_diff(a, b) >= 0x8000_0000
}

/// `a` comes before `b` or is `b`.
pub open spec fn seq_le(a: u32, b: u32) -> bool {
    a == b || seq_lt(a, b)
}

/// `(a + n) mod 2^32`.
pub open spec fn wrapping_add(a: u32, n: u32) -> u32 {
    ((a as int + n as int) % 0x1_0000_0000) as u32
}

impl SeqNumber {
    pub fn from_u32(value: u32) -> (r: SeqNumber)
        ensures
            r.value == value,
    {
        SeqNumber { value }
    }

    /// The sequence number `n` places after this one.
    pub fn add(self, n: u32) -> (r: SeqNumber)
        ensures
            r.value == wrapping_add(self.value, n),
    {
        SeqNumber { value: self.value.wrapping_add(n) }
    }

    /// Whether this sequence number comes strictly before `other`.
    pub fn lt(self, other: SeqNumber) -> (r: bool)
        ensures
            r == seq_lt(self.value, other.value),
    {
        let d: u32 = self.value.wrapping_sub(other.value);
        d >= 0x8000_0000
    }

    /// Whether this sequence number comes before `other` or equals it.
    pub fn le(self, other: SeqNumber) -> (r: bool)
        ensures
            r == seq_le(self.value, other.value),
    {
        self.value == other.value || self.lt(other)
    }
}

} // verus!
