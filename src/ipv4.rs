use vstd::prelude::*;
use vstd::arithmetic::div_mod::lemma_fundamental_div_mod;
use crate::checksum::{
    compute_checksum, header_checksum_of, lemma_checksum_not_all_ones, lemma_fold_carries_mod,
    lemma_word_sum_bounds, lemma_word_sum_one_byte, lemma_word_sum_skips_checksum, word_sum,
    IPV4_HEADER_SIZE,
};
use crate::fail::{Fail, FailKind};
use crate::wire::{
    be16, be32, byte_of, lemma_be16_of_bytes, lemma_be32_of_bytes, read_u16_at, read_u32_at,
    write_u16_at, write_u32_at,
};

verus! {

/// Time to live of the headers that `Ipv4Header::new` makes.
pub const DEFAULT_IPV4_TTL: u8 = 255;

/// Version number of IPv4.
pub const IPV4_VERSION: u8 = 4;

/// Header length, in 32-bit words, of a header without options.
pub const IPV4_IHL_NO_OPTIONS: u8 = 5;

/// Upper-layer protocols that an IPv4 datagram can carry.
#[derive(Debug, Clone, Copy, PartialEq, Eq, Structural)]
pub enum Ipv4Protocol {
    Icmpv4,
    Tcp,
    Udp,
}

/// The protocol number that stands in the header for `p`.
pub open spec fn protocol_number(p: Ipv4Protocol) -> u8 {
    match p {
        Ipv4Protocol::Icmpv4 => 1,
        Ipv4Protocol::Tcp => 6,
        Ipv4Protocol::Udp => 17,
    }
}

/// The protocol that number `b` stands for, if it is one that is known.
pub open spec fn protocol_of(b: u8) -> Option<Ipv4Protocol> {
    if b == 1 {
        Some(Ipv4Protocol::Icmpv4)
    } else if b == 6 {
        Some(Ipv4Protocol::Tcp)
    } else if b == 17 {
        Some(Ipv4Protocol::Udp)
    } else {
        None
    }
}

impl Ipv4Protocol {
    pub fn from_u8(b: u8) -> (r: Option<Ipv4Protocol>)
        ensures
            r == protocol_of(b),
    {
        if b == 1 {
            Some(Ipv4Protocol::Icmpv4)
        } else if b == 6 {
            Some(Ipv4Protocol::Tcp)
        } else if b == 17 {
            Some(Ipv4Protocol::Udp)
        } else {
            None
        }
    }

    pub fn to_u8(self) -> (r: u8)
        ensures
            r == protocol_number(self),
    {
        match self {
            Ipv4Protocol::Icmpv4 => 1,
            Ipv4Protocol::Tcp => 6,
            Ipv4Protocol::Udp => 17,
        }
    }
}

/// An IPv4 address and a port.
#[derive(Debug, Clone, Copy, PartialEq, Eq, Hash, Structural)]
pub struct Ipv4Endpoint {
    pub addr: u32,
    pub port: u16,
}

impl Ipv4Endpoint {
    pub fn new(addr: u32, port: u16) -> (r: Ipv4Endpoint)
        ensures
            r.addr == addr,
            r.port == port,
    {
        Ipv4Endpoint { addr, port }
    }

    pub fn get_address(&self) -> (r: u32)
        ensures
            r == self.addr,
    {
        self.addr
    }

    pub fn get_port(&self) -> (r: u16)
        ensures
            r == self.port,
    {
        self.port
    }
}

/// Why a buffer is not an IPv4 datagram that the stack accepts.
#[derive(Debug, Clone, Copy, PartialEq, Eq, Structural)]
pub enum Ipv4Error {
    DatagramTooSmall,
    UnsupportedVersion,
    IhlTooSmall,
    OptionsUnsupported,
    DscpUnsupported,
    SizeMismatch,
    FragmentationUnsupported,
    UnsupportedProtocol,
    ChecksumAllOnes,
    InvalidChecksum,
}

pub open spec fn ipv4_error_kind(e: Ipv4Error) -> FailKind {
    match e {
        Ipv4Error::UnsupportedVersion => FailKind::NotSupported,
        Ipv4Error::OptionsUnsupported => FailKind::NotSupported,
        Ipv4Error::DscpUnsupported => FailKind::NotSupported,
        Ipv4Error::FragmentationUnsupported => FailKind::NotSupported,
        Ipv4Error::UnsupportedProtocol => FailKind::NotSupported,
        _ => FailKind::BadMessage,
    }
}

impl Ipv4Error {
    /// The kind of error that this one is reported as.
    pub fn to_fail(self) -> (r: Fail)
        ensures
            r.kind == ipv4_error_kind(self),
    {
        match self {
            Ipv4Error::UnsupportedVersion => Fail::new(FailKind::NotSupported),
            Ipv4Error::OptionsUnsupported => Fail::new(FailKind::NotSupported),
            Ipv4Error::DscpUnsupported => Fail::new(FailKind::NotSupported),
            Ipv4Error::FragmentationUnsupported => Fail::new(FailKind::NotSupported),
            Ipv4Error::UnsupportedProtocol => Fail::new(FailKind::NotSupported),
            _ => Fail::new(FailKind::BadMessage),
        }
    }
}

/// An IPv4 header; addresses are held as their 32-bit values.
#[derive(Debug, Clone, Copy, PartialEq, Eq, Structural)]
pub struct Ipv4Header {
    /// Version (4 bits).
    pub version: u8,
    /// Header length in 32-bit words (4 bits).
    pub ihl: u8,
    /// Differentiated services code point (6 bits).
    pub dscp: u8,
    /// Explicit congestion notification (2 bits).
    pub ecn: u8,
    /// Length of header and data, in bytes.
    pub total_length: u16,
    /// Identification of the datagram that a fragment belongs to.
    pub identification: u16,
    /// Control flags (3 bits); the lowest is "more fragments".
    pub flags: u8,
    /// Offset of a fragment, in 8-byte units (13 bits).
    pub fragment_offset: u16,
    /// Time to live.
    pub ttl: u8,
    /// Protocol of the payload.
    pub protocol: Ipv4Protocol,
    /// Checksum of the header.
    pub header_checksum: u16,
    /// Source address.
    pub src_addr: u32,
    /// Destination address.
    pub dst_addr: u32,
}

/// Why the bytes `b` are refused as an IPv4 datagram, checked in this order,
/// or `None` where they are accepted.
pub open spec fn parse_error(b: Seq<u8>) -> Option<Ipv4Error> {
    if b.len() < 20 {
        Some(Ipv4Error::DatagramTooSmall)
    } else if b[0] / 16 != 4 {
        Some(Ipv4Error::UnsupportedVersion)
    } else if b[0] % 16 < 5 {
        Some(Ipv4Error::IhlTooSmall)
    } else if b[0] % 16 > 5 {
        Some(Ipv4Error::OptionsUnsupported)
    } else if b[1] / 4 != 0 {
        Some(Ipv4Error::DscpUnsupported)
    } else if be16(b, 2) < 20 || be16(b, 2) > b.len() {
        Some(Ipv4Error::SizeMismatch)
    } else if be16(b, 6) % 8192 != 0 || (be16(b, 6) / 8192) % 2 == 1 {
        Some(Ipv4Error::FragmentationUnsupported)
    } else if protocol_of(b[9]) is None {
        Some(Ipv4Error::UnsupportedProtocol)
    } else if be16(b, 10) == 0xFFFF {
        Some(Ipv4Error::ChecksumAllOnes)
    } else if be16(b, 10) != header_checksum_of(b) {
        Some(Ipv4Error::InvalidChecksum)
    } else {
        None
    }
}

/// The header that the first 20 bytes of `b` hold.
pub open spec fn header_of(b: Seq<u8>) -> Ipv4Header {
    Ipv4Header {
        version: (b[0] / 16) as u8,
        ihl: (b[0] % 16) as u8,
        dscp: (b[1] / 4) as u8,
        ecn: (b[1] % 4) as u8,
        total_length: be16(b, 2) as u16,
        identification: be16(b, 4) as u16,
        flags: (be16(b, 6) / 8192) as u8,
        fragment_offset: (be16(b, 6) % 8192) as u16,
        ttl: b[8],
        protocol: protocol_of(b[9]).unwrap(),
        header_checksum: be16(b, 10) as u16,
        src_addr: be32(b, 12) as u32,
        dst_addr: be32(b, 16) as u32,
    }
}

/// The payload of an accepted datagram: what follows the header, up to the
/// total length; any padding after it is left out.
pub open spec fn payload_of(b: Seq<u8>) -> Seq<u8> {
    b.subrange(20, be16(b, 2))
}

/// The header bytes of `h` for a payload of `payload_len` bytes, with the
/// checksum field still zero.
pub open spec fn header_bytes_unsummed(h: Ipv4Header, payload_len: int) -> Seq<u8> {
    let tl = 20 + payload_len;
    let ff = h.flags as int * 8192 + h.fragment_offset as int;
    seq![
        0x45u8,
        (h.dscp as int * 4 + h.ecn as int) as u8,
        byte_of(tl, 1),
        byte_of(tl, 0),
        byte_of(h.identification as int, 1),
        byte_of(h.identification as int, 0),
        byte_of(ff, 1),
        byte_of(ff, 0),
        h.ttl,
        protocol_number(h.protocol),
        0u8,
        0u8,
        byte_of(h.src_addr as int, 3),
        byte_of(h.src_addr as int, 2),
        byte_of(h.src_addr as int, 1),
        byte_of(h.src_addr as int, 0),
        byte_of(h.dst_addr as int, 3),
        byte_of(h.dst_addr as int, 2),
        byte_of(h.dst_addr as int, 1),
        byte_of(h.dst_addr as int, 0),
    ]
}

/// The 20 header bytes that `serialize` writes for `h` and a payload of
/// `payload_len` bytes: version 4, no options, the header's own DSCP, ECN,
/// identification, flags, fragment offset, time to live, protocol and
/// addresses, and the checksum over them.
pub open spec fn header_bytes(h: Ipv4Header, payload_len: int) -> Seq<u8> {
    let u = header_bytes_unsummed(h, payload_len);
    let c = header_checksum_of(u) as int;
    u.update(10, byte_of(c, 1)).update(11, byte_of(c, 0))
}

impl Ipv4Header {
    /// Each field fits the width it has on the wire.
    pub open spec fn wf(&self) -> bool {
        &&& self.dscp < 64
        &&& self.ecn < 4
        &&& self.flags < 8
        &&& self.fragment_offset < 8192
    }

    /// A header for a datagram without payload: version 4, no options, time
    /// to live 255, every other field zero.
    pub fn new(src_addr: u32, dst_addr: u32, protocol: Ipv4Protocol) -> (r: Ipv4Header)
        ensures
            r == (Ipv4Header {
                version: IPV4_VERSION,
                ihl: IPV4_IHL_NO_OPTIONS,
                dscp: 0,
                ecn: 0,
                total_length: 20,
                identification: 0,
                flags: 0,
                fragment_offset: 0,
                ttl: DEFAULT_IPV4_TTL,
                protocol,
                header_checksum: 0,
                src_addr,
                dst_addr,
            }),
            r.wf(),
    {
        Ipv4Header {
            version: IPV4_VERSION,
            ihl: IPV4_IHL_NO_OPTIONS,
            dscp: 0,
            ecn: 0,
            total_length: 20,
            identification: 0,
            flags: 0,
            fragment_offset: 0,
            ttl: DEFAULT_IPV4_TTL,
            protocol,
            header_checksum: 0,
            src_addr,
            dst_addr,
        }
    }

    /// The size of the header on the wire.
    pub fn compute_size(&self) -> (r: usize)
        ensures
            r == IPV4_HEADER_SIZE,
    {
        IPV4_HEADER_SIZE
    }

    pub fn get_src_addr(&self) -> (r: u32)
        ensures
            r == self.src_addr,
    {
        self.src_addr
    }

    pub fn get_dest_addr(&self) -> (r: u32)
        ensures
            r == self.dst_addr,
    {
        self.dst_addr
    }

    pub fn get_protocol(&self) -> (r: Ipv4Protocol)
        ensures
            r == self.protocol,
    {
        self.protocol
    }
}

impl Ipv4Header {
    /// Parses a datagram into its header and its payload. The payload is
    /// truncated to the total length that the header gives.
    pub fn parse(buf: &[u8]) -> (r: Result<(Ipv4Header, Vec<u8>), Ipv4Error>)
        ensures
            match r {
                Ok((h, payload)) => {
                    &&& parse_error(buf@) is None
                    &&& h == header_of(buf@)
                    &&& payload@ == payload_of(buf@)
                },
                Err(e) => parse_error(buf@) == Some(e),
            },
    {
        if buf.len() < IPV4_HEADER_SIZE {
            return Err(Ipv4Error::DatagramTooSmall);
        }
        let version: u8 = buf[0] / 16;
        if version != IPV4_VERSION {
            return Err(Ipv4Error::UnsupportedVersion);
        }
        let ihl: u8 = buf[0] % 16;
        if ihl < IPV4_IHL_NO_OPTIONS {
            return Err(Ipv4Error::IhlTooSmall);
        }
        if ihl > IPV4_IHL_NO_OPTIONS {
            return Err(Ipv4Error::OptionsUnsupported);
        }
        let dscp: u8 = buf[1] / 4;
        if dscp != 0 {
            return Err(Ipv4Error::DscpUnsupported);
        }
        let ecn: u8 = buf[1] % 4;
        let total_length: u16 = read_u16_at(buf, 2);
        if total_length < 20 || total_length as usize > buf.len() {
            return Err(Ipv4Error::SizeMismatch);
        }
        let identification: u16 = read_u16_at(buf, 4);
        let flags_and_offset: u16 = read_u16_at(buf, 6);
        let flags: u8 = (flags_and_offset / 8192) as u8;
        let fragment_offset: u16 = flags_and_offset % 8192;
        if fragment_offset != 0 || flags % 2 == 1 {
            return Err(Ipv4Error::FragmentationUnsupported);
        }
        let ttl: u8 = buf[8];
        let protocol: Ipv4Protocol = match Ipv4Protocol::from_u8(buf[9]) {
            Some(p) => p,
            None => {
                return Err(Ipv4Error::UnsupportedProtocol);
            },
        };
        let header_checksum: u16 = read_u16_at(buf, 10);
        if header_checksum == 0xffff {
            return Err(Ipv4Error::ChecksumAllOnes);
        }
        if header_checksum != compute_checksum(buf) {
            return Err(Ipv4Error::InvalidChecksum);
        }
        let src_addr: u32 = read_u32_at(buf, 12);
        let dst_addr: u32 = read_u32_at(buf, 16);

        let end: usize = total_length as usize;
        let mut payload: Vec<u8> = Vec::new();
        let mut i: usize = IPV4_HEADER_SIZE;
        while i < end
            invariant
                IPV4_HEADER_SIZE <= i <= end <= buf@.len(),
                payload@ == buf@.subrange(20, i as int),
            decreases end - i,
        {
            payload.push(buf[i]);
            i = i + 1;
        }
        let header = Ipv4Header {
            version,
            ihl,
            dscp,
            ecn,
            total_length,
            identification,
            flags,
            fragment_offset,
            ttl,
            protocol,
            header_checksum,
            src_addr,
            dst_addr,
        };
        Ok((header, payload))
    }

    /// The 20 header bytes of a datagram with this header and a payload of
    /// `payload_len` bytes; the checksum is computed over them.
    pub fn serialize(&self, payload_len: usize) -> (r: Vec<u8>)
        requires
            self.wf(),
            payload_len <= 0xFFFF - 20,
        ensures
            r@ == header_bytes(*self, payload_len as int),
    {
        let mut buf: Vec<u8> = vec![0u8; IPV4_HEADER_SIZE];
        buf.set(0, IPV4_VERSION * 16 + IPV4_IHL_NO_OPTIONS);
        buf.set(1, self.dscp * 4 + self.ecn);
        write_u16_at(&mut buf, 2, 20 + payload_len as u16);
        write_u16_at(&mut buf, 4, self.identification);
        write_u16_at(&mut buf, 6, self.flags as u16 * 8192 + self.fragment_offset);
        buf.set(8, self.ttl);
        buf.set(9, self.protocol.to_u8());
        write_u32_at(&mut buf, 12, self.src_addr);
        write_u32_at(&mut buf, 16, self.dst_addr);
        assert(buf@ =~= header_bytes_unsummed(*self, payload_len as int));
        let checksum: u16 = compute_checksum(buf.as_slice());
        write_u16_at(&mut buf, 10, checksum);
        buf
    }
}

/// Header round trip: parsing the bytes that `serialize` writes for a header
/// that asks for nothing unsupported, followed by the payload, succeeds and
/// gives back every field of the header, with the total length and the
/// checksum that were written, and the payload itself. In particular the
/// checksum of every serialized header verifies.
pub proof fn lemma_header_round_trip(h: Ipv4Header, payload: Seq<u8>)
    requires
        h.wf(),
        h.dscp == 0,
        h.fragment_offset == 0,
        h.flags % 2 == 0,
        payload.len() <= 0xFFFF - 20,
    ensures
        parse_error(header_bytes(h, payload.len() as int) + payload) is None,
        header_of(header_bytes(h, payload.len() as int) + payload) == (Ipv4Header {
            version: IPV4_VERSION,
            ihl: IPV4_IHL_NO_OPTIONS,
            total_length: (20 + payload.len()) as u16,
            header_checksum: header_checksum_of(header_bytes_unsummed(h, payload.len() as int)),
            ..h
        }),
        payload_of(header_bytes(h, payload.len() as int) + payload) == payload,
{
    let len = payload.len() as int;
    let u = header_bytes_unsummed(h, len);
    let c = header_checksum_of(u);
    let hb = header_bytes(h, len);
    let b = hb + payload;
    lemma_checksum_not_all_ones(u);
    lemma_word_sum_skips_checksum(u, hb, 10);
    lemma_word_sum_skips_checksum(hb, b, 10);
    assert(header_checksum_of(b) == c);
    lemma_be16_of_bytes(20 + len);
    lemma_be16_of_bytes(h.identification as int);
    lemma_be16_of_bytes(h.flags as int * 8192 + h.fragment_offset as int);
    lemma_be16_of_bytes(c as int);
    lemma_be32_of_bytes(h.src_addr as int);
    lemma_be32_of_bytes(h.dst_addr as int);
    assert(b[0] == 0x45u8);
    assert(be16(b, 2) == 20 + len);
    assert(be16(b, 4) == h.identification);
    assert(be16(b, 6) == h.flags as int * 8192);
    assert(be16(b, 10) == c);
    assert(be32(b, 12) == h.src_addr);
    assert(be32(b, 16) == h.dst_addr);
    assert(b[1] == h.ecn);
    assert(protocol_of(b[9]) == Some(h.protocol));
    assert(b.subrange(20, 20 + len) =~= payload);
}

proof fn lemma_mod_distinct(x: int, d: int)
    requires
        0 <= x,
        0 <= x + d,
        d != 0,
        -0xFFFF < d < 0xFFFF,
    ensures
        x % 0xFFFF != (x + d) % 0xFFFF,
{
    let m: int = 0xFFFF;
    lemma_fundamental_div_mod(x, m);
    lemma_fundamental_div_mod(x + d, m);
    if x % m == (x + d) % m {
        let q1 = x / m;
        let q2 = (x + d) / m;
        assert(d == (q2 - q1) * m);
        assert(false) by (nonlinear_arith)
            requires
                d == (q2 - q1) * m,
                d != 0,
                -m < d < m,
                m == 0xFFFF,
        ;
    }
}

/// The header checksum detects any single flipped bit: where an accepted
/// datagram has one bit of its header flipped, parsing it fails.
pub proof fn lemma_flipped_header_bit_detected(b: Seq<u8>, k: int, j: u8)
    requires
        parse_error(b) is None,
        0 <= k < 20,
        j < 8,
    ensures
        parse_error(b.update(k, b[k] ^ (1u8 << j))) is Some,
{
    let x = b[k];
    assert(x ^ (1u8 << j) != x) by (bit_vector)
        requires
            j < 8,
    ;
    let f = b.update(k, x ^ (1u8 << j));
    if parse_error(f) is None {
        lemma_checksum_not_all_ones(b);
        lemma_checksum_not_all_ones(f);
        if k == 10 || k == 11 {
            lemma_word_sum_skips_checksum(b, f, 10);
            assert(be16(f, 10) != be16(b, 10));
        } else {
            lemma_word_sum_one_byte(b, f, k, 10);
            assert(be16(f, 10) == be16(b, 10));
            let wb = word_sum(b, 10);
            let wf = word_sum(f, 10);
            lemma_word_sum_bounds(b, 10);
            lemma_word_sum_bounds(f, 10);
            lemma_fold_carries_mod(0xFFFF + wb);
            lemma_fold_carries_mod(0xFFFF + wf);
            lemma_mod_distinct(0xFFFE + wb, wf - wb);
        }
    }
}

} // verus!
