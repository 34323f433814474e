use vstd::prelude::*;
use crate::arp::MacAddress;
use crate::wire::{
    be16, be32, byte_of, lemma_be16_of_bytes, lemma_be32_of_bytes, read_u16_at, read_u32_at,
    write_u16_at, write_u32_at,
};

verus! {

/// Length of an Ethernet II header.
pub const ETHERNET2_HEADER_SIZE: usize = 14;

/// The EtherTypes that the stack recognises.
#[derive(Debug, Clone, Copy, PartialEq, Eq, Structural)]
pub enum EtherType2 {
    Ipv4,
    Arp,
}

pub open spec fn ether_type_number(t: EtherType2) -> u16 {
    match t {
        EtherType2::Ipv4 => 0x0800,
        EtherType2::Arp => 0x0806,
    }
}

/// Why a frame is refused.
#[derive(Debug, Clone, Copy, PartialEq, Eq, Structural)]
pub enum EthernetError {
    FrameTooSmall,
    UnsupportedEtherType,
}

/// An Ethernet II header.
#[derive(Debug, Clone, Copy, PartialEq, Eq, Structural)]
pub struct Ethernet2Header {
    pub dst_addr: MacAddress,
    pub src_addr: MacAddress,
    pub ether_type: EtherType2,
}

/// The link address held in the six bytes of `b` from `i`.
pub open spec fn mac_at(b: Seq<u8>, i: int) -> int {
    be16(b, i) * 0x1_0000_0000 + be32(b, i + 2)
}

/// Why the bytes `b` are refused as a frame, or `None`.
pub open spec fn frame_error(b: Seq<u8>) -> Option<EthernetError> {
    if b.len() < 14 {
        Some(EthernetError::FrameTooSmall)
    } else if be16(b, 12) != 0x0800 && be16(b, 12) != 0x0806 {
        Some(EthernetError::UnsupportedEtherType)
    } else {
        None
    }
}

/// The six bytes of a link address, most significant first.
pub open spec fn mac_bytes(m: MacAddress) -> Seq<u8> {
    let hi = m.value as int / 0x1_0000_0000;
    let lo = m.value as int % 0x1_0000_0000;
    seq![byte_of(hi, 1), byte_of(hi, 0), byte_of(lo, 3), byte_of(lo, 2), byte_of(lo, 1), byte_of(lo, 0)]
}

/// The bytes that `serialize` writes.
pub open spec fn frame_header_bytes(h: Ethernet2Header) -> Seq<u8> {
    let t = ether_type_number(h.ether_type) as int;
    mac_bytes(h.dst_addr) + mac_bytes(h.src_addr) + seq![byte_of(t, 1), byte_of(t, 0)]
}

fn read_mac(buf: &[u8], at: usize) -> (r: MacAddress)
    requires
        at <= 6,
        at + 6 <= buf@.len(),
    ensures
        r.value == mac_at(buf@, at as int),
{
    let hi: u16 = read_u16_at(buf, at);
    let lo: u32 = read_u32_at(buf, at + 2);
    MacAddress { value: hi as u64 * 0x1_0000_0000 + lo as u64 }
}

fn write_mac(buf: &mut Vec<u8>, at: usize, m: MacAddress)
    requires
        at <= 6,
        at + 6 <= old(buf)@.len(),
        m.value < 0x1_0000_0000_0000,
    ensures
        final(buf)@.len() == old(buf)@.len(),
        final(buf)@.subrange(at as int, at + 6) == mac_bytes(m),
        forall|i: int|
            0 <= i < old(buf)@.len() && !(at <= i < at + 6) ==> final(buf)@[i] == old(buf)@[i],
{
    write_u16_at(buf, at, (m.value / 0x1_0000_0000) as u16);
    write_u32_at(buf, at + 2, (m.value % 0x1_0000_0000) as u32);
    assert(buf@.subrange(at as int, at + 6) =~= mac_bytes(m));
}

impl Ethernet2Header {
    pub open spec fn wf(&self) -> bool {
        &&& self.dst_addr.value < 0x1_0000_0000_0000
        &&& self.src_addr.value < 0x1_0000_0000_0000
    }

    pub fn new(dst_addr: MacAddress, src_addr: MacAddress, ether_type: EtherType2) -> (r: Ethernet2Header)
        ensures
            r == (Ethernet2Header { dst_addr, src_addr, ether_type }),
    {
        Ethernet2Header { dst_addr, src_addr, ether_type }
    }

    /// Parses a frame into its header and its payload.
    pub fn parse(buf: &[u8]) -> (r: Result<(Ethernet2Header, Vec<u8>), EthernetError>)
        ensures
            match r {
                Ok((h, payload)) => {
                    &&& frame_error(buf@) is None
                    &&& h.dst_addr.value == mac_at(buf@, 0)
                    &&& h.src_addr.value == mac_at(buf@, 6)
                    &&& ether_type_number(h.ether_type) == be16(buf@, 12)
                    &&& payload@ == buf@.subrange(14, buf@.len() as int)
                },
                Err(e) => frame_error(buf@) == Some(e),
            },
    {
        if buf.len() < ETHERNET2_HEADER_SIZE {
            return Err(EthernetError::FrameTooSmall);
        }
        let t: u16 = read_u16_at(buf, 12);
        let ether_type = if t == 0x0800 {
            EtherType2::Ipv4
        } else if t == 0x0806 {
            EtherType2::Arp
        } else {
            return Err(EthernetError::UnsupportedEtherType);
        };
        let dst_addr = read_mac(buf, 0);
        let src_addr = read_mac(buf, 6);
        let mut payload: Vec<u8> = Vec::new();
        let mut i: usize = ETHERNET2_HEADER_SIZE;
        while i < buf.len()
            invariant
                14 <= i <= buf@.len(),
                payload@ == buf@.subrange(14, i as int),
            decreases buf@.len() - i,
        {
            payload.push(buf[i]);
            i = i + 1;
            assert(payload@ =~= buf@.subrange(14, i as int));
        }
        Ok((Ethernet2Header { dst_addr, src_addr, ether_type }, payload))
    }

    /// The 14 header bytes.
    pub fn serialize(&self) -> (r: Vec<u8>)
        requires
            self.wf(),
        ensures
            r@ == frame_header_bytes(*self),
    {
        let mut buf: Vec<u8> = vec![0u8; ETHERNET2_HEADER_SIZE];
        write_mac(&mut buf, 0, self.dst_addr);
        let ghost first = buf@;
        write_mac(&mut buf, 6, self.src_addr);
        let t: u16 = match self.ether_type {
            EtherType2::Ipv4 => 0x0800,
            EtherType2::Arp => 0x0806,
        };
        let ghost second = buf@;
        write_u16_at(&mut buf, 12, t);
        assert(buf@.subrange(0, 6) =~= first.subrange(0, 6));
        assert(buf@.subrange(6, 12) =~= second.subrange(6, 12));
        assert(buf@ =~= buf@.subrange(0, 6) + buf@.subrange(6, 12) + buf@.subrange(12, 14));
        assert(buf@ =~= frame_header_bytes(*self));
        buf
    }
}

/// The six bytes of a link address read back as that address.
pub proof fn lemma_mac_round_trip(m: MacAddress, b: Seq<u8>, i: int)
    requires
        m.value < 0x1_0000_0000_0000,
        0 <= i,
        i + 6 <= b.len(),
        b.subrange(i, i + 6) == mac_bytes(m),
    ensures
        mac_at(b, i) == m.value,
{
    let hi = m.value as int / 0x1_0000_0000;
    let lo = m.value as int % 0x1_0000_0000;
    lemma_be16_of_bytes(hi);
    lemma_be32_of_bytes(lo);
    assert(b[i] == b.subrange(i, i + 6)[0]);
    assert(b[i + 1] == b.subrange(i, i + 6)[1]);
    assert(b[i + 2] == b.subrange(i, i + 6)[2]);
    assert(b[i + 3] == b.subrange(i, i + 6)[3]);
    assert(b[i + 4] == b.subrange(i, i + 6)[4]);
    assert(b[i + 5] == b.subrange(i, i + 6)[5]);
}

/// Frame round trip: parsing the header bytes that `serialize` writes,
/// followed by a payload, gives back the header and the payload.
pub proof fn lemma_frame_round_trip(h: Ethernet2Header, payload: Seq<u8>)
    requires
        h.wf(),
    ensures
        ({
            let b = frame_header_bytes(h) + payload;
            &&& frame_error(b) is None
            &&& mac_at(b, 0) == h.dst_addr.value
            &&& mac_at(b, 6) == h.src_addr.value
            &&& be16(b, 12) == ether_type_number(h.ether_type)
            &&& b.subrange(14, b.len() as int) == payload
        }),
{
    let b = frame_header_bytes(h) + payload;
    assert(b.subrange(0, 6) =~= mac_bytes(h.dst_addr));
    assert(b.subrange(6, 12) =~= mac_bytes(h.src_addr));
    lemma_mac_round_trip(h.dst_addr, b, 0);
    lemma_mac_round_trip(h.src_addr, b, 6);
    lemma_be16_of_bytes(ether_type_number(h.ether_type) as int);
    assert(b.subrange(14, b.len() as int) =~= payload);
}

} // verus!
