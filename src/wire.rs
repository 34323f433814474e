use vstd::prelude::*;
use vstd::arithmetic::div_mod::lemma_div_denominator;
use byteorder::{ByteOrder, NetworkEndian};

verus! {

/// The big-endian value of the two bytes of `b` from `i`.
pub open spec fn be16(b: Seq<u8>, i: int) -> int {
    b[i] as int * 256 + b[i + 1] as int
}

/// The big-endian value of the four bytes of `b` from `i`.
pub open spec fn be32(b: Seq<u8>, i: int) -> int {
    be16(b, i) * 0x1_0000 + be16(b, i + 2)
}

/// Byte `k` of `x`, counted from the least significant.
pub open spec fn byte_of(x: int, k: nat) -> u8 {
    ((x / pow256(k)) % 256) as u8
}

pub open spec fn pow256(k: nat) -> int
    decreases k,
{
    if k == 0 {
        1
    } else {
        256 * pow256((k - 1) as nat)
    }
}

/// Relies on byteorder's `NetworkEndian::read_u16`: the first two bytes of
/// its argument, most significant first.
#[verifier::external_body]
pub(crate) fn read_u16_at(buf: &[u8], at: usize) -> (r: u16)
    requires
        at + 2 <= buf@.len(),
    ensures
        r as int == be16(buf@, at as int),
{
    NetworkEndian::read_u16(&buf[at..])
}

/// Relies on byteorder's `NetworkEndian::read_u32`: the first four bytes of
/// its argument, most significant first.
#[verifier::external_body]
pub(crate) fn read_u32_at(buf: &[u8], at: usize) -> (r: u32)
    requires
        at + 4 <= buf@.len(),
    ensures
        r as int == be32(buf@, at as int),
{
    NetworkEndian::read_u32(&buf[at..])
}

/// Relies on byteorder's `NetworkEndian::write_u16`: writes `v` into the
/// first two bytes of its argument, most significant first, and leaves the
/// rest alone.
#[verifier::external_body]
pub(crate) fn write_u16_at(buf: &mut Vec<u8>, at: usize, v: u16)
    requires
        at + 2 <= old(buf)@.len(),
    ensures
        final(buf)@ == old(buf)@.update(at as int, byte_of(v as int, 1)).update(
            at + 1,
            byte_of(v as int, 0),
        ),
{
    NetworkEndian::write_u16(&mut buf[at..], v)
}

/// Relies on byteorder's `NetworkEndian::write_u32`: writes `v` into the
/// first four bytes of its argument, most significant first, and leaves the
/// rest alone.
#[verifier::external_body]
pub(crate) fn write_u32_at(buf: &mut Vec<u8>, at: usize, v: u32)
    requires
        at + 4 <= old(buf)@.len(),
    ensures
        final(buf)@ == old(buf)@.update(at as int, byte_of(v as int, 3)).update(
            at + 1,
            byte_of(v as int, 2),
        ).update(at + 2, byte_of(v as int, 1)).update(at + 3, byte_of(v as int, 0)),
{
    NetworkEndian::write_u32(&mut buf[at..], v)
}

pub proof fn lemma_be16_of_bytes(x: int)
    requires
        0 <= x < 0x1_0000,
    ensures
        byte_of(x, 1) as int * 256 + byte_of(x, 0) as int == x,
{
    reveal_with_fuel(pow256, 2);
}

pub proof fn lemma_be32_of_bytes(x: int)
    requires
        0 <= x < 0x1_0000_0000,
    ensures
        (byte_of(x, 3) as int * 256 + byte_of(x, 2) as int) * 0x1_0000 + (byte_of(x, 1) as int
            * 256 + byte_of(x, 0) as int) == x,
{
    reveal_with_fuel(pow256, 4);
    let q1 = x / 256;
    let q2 = q1 / 256;
    let q3 = q2 / 256;
    lemma_div_denominator(x, 256, 256);
    lemma_div_denominator(q1, 256, 256);
    lemma_div_denominator(x, 0x1_0000, 256);
    assert(x / 0x1_0000 == q2);
    assert(x / 0x100_0000 == q3);
    assert(x == q1 * 256 + x % 256);
    assert(q1 == q2 * 256 + q1 % 256);
    assert(q2 == q3 * 256 + q2 % 256);
}

} // verus!
