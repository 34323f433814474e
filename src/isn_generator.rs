use vstd::prelude::*;
use crate::ipv4::Ipv4Endpoint;
use crate::seq_number::{wrapping_add, SeqNumber};
use crate::wire::{byte_of, pow256};

verus! {

/// The CRC-32 (IEEE polynomial) of a sequence of bytes.
pub uninterp spec fn crc32_ieee_of(bytes: Seq<u8>) -> u32;

/// Relies on crc's `crc32::checksum_ieee`: the CRC-32 of the bytes with the
/// IEEE polynomial, which depends on the bytes alone.
#[verifier::external_body]
fn crc32_ieee(bytes: &[u8]) -> (r: u32)
    ensures
        r == crc32_ieee_of(bytes@),
{
    crc::crc32::checksum_ieee(bytes)
}

/// The four bytes of `x`, least significant first.
pub open spec fn le32(x: u32) -> Seq<u8> {
    seq![byte_of(x as int, 0), byte_of(x as int, 1), byte_of(x as int, 2), byte_of(x as int, 3)]
}

/// The two bytes of `x`, least significant first.
pub open spec fn le16(x: u16) -> Seq<u8> {
    seq![byte_of(x as int, 0), byte_of(x as int, 1)]
}

/// What is hashed for a connection: the remote address and port, the local
/// address and port, and the generator's secret.
pub open spec fn isn_hash_input(local: Ipv4Endpoint, remote: Ipv4Endpoint, nonce: u32) -> Seq<
    u8,
> {
    le32(remote.addr) + le16(remote.port) + le32(local.addr) + le16(local.port) + le32(nonce)
}

/// The initial sequence number for a connection whose hash is `hash`, made
/// with counter value `counter`.
pub open spec fn isn_of(hash: u32, counter: u16) -> u32 {
    wrapping_add(hash, counter as u32)
}

/// Generator of initial sequence numbers: a hash of the connection's
/// endpoints and a per-stack secret, plus a 16-bit counter that moves on
/// with each number handed out.
pub struct IsnGenerator {
    pub nonce: u32,
    pub counter: u16,
}

fn push_le32(out: &mut Vec<u8>, x: u32)
    ensures
        final(out)@ == old(out)@ + le32(x),
{
    proof {
        reveal_with_fuel(pow256, 4);
    }
    out.push((x % 256) as u8);
    out.push(((x / 256) % 256) as u8);
    out.push(((x / 0x1_0000) % 256) as u8);
    out.push(((x / 0x100_0000) % 256) as u8);
    assert(final(out)@ =~= old(out)@ + le32(x));
}

fn push_le16(out: &mut Vec<u8>, x: u16)
    ensures
        final(out)@ == old(out)@ + le16(x),
{
    proof {
        reveal_with_fuel(pow256, 2);
    }
    out.push((x % 256) as u8);
    out.push(((x / 256) % 256) as u8);
    assert(final(out)@ =~= old(out)@ + le16(x));
}

impl IsnGenerator {
    pub fn new(nonce: u32) -> (r: IsnGenerator)
        ensures
            r.nonce == nonce,
            r.counter == 0,
    {
        IsnGenerator { nonce, counter: 0 }
    }

    /// Hands out the number for a connection whose hash is `hash`: the hash
    /// plus the counter, modulo 2^32; the counter then moves on by one,
    /// modulo 2^16.
    pub fn next_from_hash(&mut self, hash: u32) -> (r: SeqNumber)
        ensures
            r.value == isn_of(hash, old(self).counter),
            final(self).nonce == old(self).nonce,
            final(self).counter == (old(self).counter + 1) % 0x1_0000,
    {
        let isn = SeqNumber::from_u32(hash).add(self.counter as u32);
        self.counter = self.counter.wrapping_add(1);
        isn
    }

    /// The initial sequence number for a new connection between `local` and
    /// `remote`.
    pub fn generate(&mut self, local: &Ipv4Endpoint, remote: &Ipv4Endpoint) -> (r: SeqNumber)
        ensures
            r.value == isn_of(
                crc32_ieee_of(isn_hash_input(*local, *remote, old(self).nonce)),
                old(self).counter,
            ),
            final(self).nonce == old(self).nonce,
            final(self).counter == (old(self).counter + 1) % 0x1_0000,
    {
        let mut input: Vec<u8> = Vec::new();
        push_le32(&mut input, remote.get_address());
        push_le16(&mut input, remote.get_port());
        push_le32(&mut input, local.get_address());
        push_le16(&mut input, local.get_port());
        push_le32(&mut input, self.nonce);
        assert(input@ =~= isn_hash_input(*local, *remote, self.nonce));
        let hash: u32 = crc32_ieee(input.as_slice());
        self.next_from_hash(hash)
    }
}

} // verus!
