use vstd::prelude::*;
use crate::arp::{has_entry, has_pending, ArpCache, MacAddress};
use crate::ethernet::{lemma_mac_round_trip, mac_at, mac_bytes};
use crate::wire::{
    be16, be32, byte_of, lemma_be16_of_bytes, lemma_be32_of_bytes, read_u16_at, read_u32_at,
    write_u16_at, write_u32_at,
};

verus! {

/// Length of an Ethernet/IPv4 ARP packet.
pub const ARP_PACKET_SIZE: usize = 28;

#[derive(Debug, Clone, Copy, PartialEq, Eq, Structural)]
pub enum ArpOperation {
    Request,
    Reply,
}

pub open spec fn operation_number(op: ArpOperation) -> u16 {
    match op {
        ArpOperation::Request => 1,
        ArpOperation::Reply => 2,
    }
}

/// Why bytes are refused as an ARP packet.
#[derive(Debug, Clone, Copy, PartialEq, Eq, Structural)]
pub enum ArpPacketError {
    PacketTooSmall,
    UnsupportedHardware,
    UnsupportedProtocol,
    UnsupportedOperation,
}

/// An ARP packet for Ethernet and IPv4.
#[derive(Debug, Clone, Copy, PartialEq, Eq, Structural)]
pub struct ArpPacket {
    pub operation: ArpOperation,
    pub sender_link_addr: MacAddress,
    pub sender_ip_addr: u32,
    pub target_link_addr: MacAddress,
    pub target_ip_addr: u32,
}

/// Why the bytes `b` are refused, in this order, or `None`: hardware type
/// 1 (Ethernet) with 6-byte addresses, protocol type 0x0800 (IPv4) with
/// 4-byte addresses, and operation request or reply are accepted.
pub open spec fn arp_packet_error(b: Seq<u8>) -> Option<ArpPacketError> {
    if b.len() < 28 {
        Some(ArpPacketError::PacketTooSmall)
    } else if be16(b, 0) != 1 || b[4] != 6 {
        Some(ArpPacketError::UnsupportedHardware)
    } else if be16(b, 2) != 0x0800 || b[5] != 4 {
        Some(ArpPacketError::UnsupportedProtocol)
    } else if be16(b, 6) != 1 && be16(b, 6) != 2 {
        Some(ArpPacketError::UnsupportedOperation)
    } else {
        None
    }
}

/// The 28 bytes of packet `p`.
pub open spec fn arp_packet_bytes(p: ArpPacket) -> Seq<u8> {
    let op = operation_number(p.operation) as int;
    seq![0u8, 1u8, 8u8, 0u8, 6u8, 4u8, byte_of(op, 1), byte_of(op, 0)] + mac_bytes(p.sender_link_addr)
        + seq![
        byte_of(p.sender_ip_addr as int, 3),
        byte_of(p.sender_ip_addr as int, 2),
        byte_of(p.sender_ip_addr as int, 1),
        byte_of(p.sender_ip_addr as int, 0),
    ] + mac_bytes(p.target_link_addr) + seq![
        byte_of(p.target_ip_addr as int, 3),
        byte_of(p.target_ip_addr as int, 2),
        byte_of(p.target_ip_addr as int, 1),
        byte_of(p.target_ip_addr as int, 0),
    ]
}

impl ArpPacket {
    pub open spec fn wf(&self) -> bool {
        &&& self.sender_link_addr.value < 0x1_0000_0000_0000
        &&& self.target_link_addr.value < 0x1_0000_0000_0000
    }

    /// Parses an ARP packet; bytes after the first 28 are ignored.
    pub fn parse(buf: &[u8]) -> (r: Result<ArpPacket, ArpPacketError>)
        ensures
            match r {
                Ok(p) => {
                    &&& arp_packet_error(buf@) is None
                    &&& operation_number(p.operation) == be16(buf@, 6)
                    &&& p.sender_link_addr.value == mac_at(buf@, 8)
                    &&& p.sender_ip_addr == be32(buf@, 14)
                    &&& p.target_link_addr.value == mac_at(buf@, 18)
                    &&& p.target_ip_addr == be32(buf@, 24)
                },
                Err(e) => arp_packet_error(buf@) == Some(e),
            },
    {
        if buf.len() < ARP_PACKET_SIZE {
            return Err(ArpPacketError::PacketTooSmall);
        }
        if read_u16_at(buf, 0) != 1 || buf[4] != 6 {
            return Err(ArpPacketError::UnsupportedHardware);
        }
        if read_u16_at(buf, 2) != 0x0800 || buf[5] != 4 {
            return Err(ArpPacketError::UnsupportedProtocol);
        }
        let op: u16 = read_u16_at(buf, 6);
        let operation = if op == 1 {
            ArpOperation::Request
        } else if op == 2 {
            ArpOperation::Reply
        } else {
            return Err(ArpPacketError::UnsupportedOperation);
        };
        let sender_hi: u16 = read_u16_at(buf, 8);
        let sender_lo: u32 = read_u32_at(buf, 10);
        let target_hi: u16 = read_u16_at(buf, 18);
        let target_lo: u32 = read_u32_at(buf, 20);
        Ok(ArpPacket {
            operation,
            sender_link_addr: MacAddress { value: sender_hi as u64 * 0x1_0000_0000 + sender_lo as u64 },
            sender_ip_addr: read_u32_at(buf, 14),
            target_link_addr: MacAddress { value: target_hi as u64 * 0x1_0000_0000 + target_lo as u64 },
            target_ip_addr: read_u32_at(buf, 24),
        })
    }

    /// The 28 bytes of this packet.
    pub fn serialize(&self) -> (r: Vec<u8>)
        requires
            self.wf(),
        ensures
            r@ == arp_packet_bytes(*self),
    {
        let mut buf: Vec<u8> = vec![0u8; ARP_PACKET_SIZE];
        write_u16_at(&mut buf, 0, 1);
        write_u16_at(&mut buf, 2, 0x0800);
        buf.set(4, 6);
        buf.set(5, 4);
        let op: u16 = match self.operation {
            ArpOperation::Request => 1,
            ArpOperation::Reply => 2,
        };
        write_u16_at(&mut buf, 6, op);
        write_u16_at(&mut buf, 8, (self.sender_link_addr.value / 0x1_0000_0000) as u16);
        write_u32_at(&mut buf, 10, (self.sender_link_addr.value % 0x1_0000_0000) as u32);
        write_u32_at(&mut buf, 14, self.sender_ip_addr);
        write_u16_at(&mut buf, 18, (self.target_link_addr.value / 0x1_0000_0000) as u16);
        write_u32_at(&mut buf, 20, (self.target_link_addr.value % 0x1_0000_0000) as u32);
        write_u32_at(&mut buf, 24, self.target_ip_addr);
        assert(buf@ =~= arp_packet_bytes(*self));
        buf
    }
}

/// ARP packet round trip: parsing the bytes that `serialize` writes gives
/// back every field of the packet.
pub proof fn lemma_arp_packet_round_trip(p: ArpPacket)
    requires
        p.wf(),
    ensures
        ({
            let b = arp_packet_bytes(p);
            &&& arp_packet_error(b) is None
            &&& be16(b, 6) == operation_number(p.operation)
            &&& mac_at(b, 8) == p.sender_link_addr.value
            &&& be32(b, 14) == p.sender_ip_addr
            &&& mac_at(b, 18) == p.target_link_addr.value
            &&& be32(b, 24) == p.target_ip_addr
        }),
{
    let b = arp_packet_bytes(p);
    assert(b.subrange(8, 14) =~= mac_bytes(p.sender_link_addr));
    assert(b.subrange(18, 24) =~= mac_bytes(p.target_link_addr));
    lemma_mac_round_trip(p.sender_link_addr, b, 8);
    lemma_mac_round_trip(p.target_link_addr, b, 18);
    lemma_be16_of_bytes(operation_number(p.operation) as int);
    lemma_be32_of_bytes(p.sender_ip_addr as int);
    lemma_be32_of_bytes(p.target_ip_addr as int);
}

impl ArpCache {
    /// Handles an ARP packet received at `now` by the host with addresses
    /// `local_ip` and `local_link`: the sender's mapping is learned, which
    /// answers a pending request for it (`true` comes back: its waiters are
    /// to be woken); a request for `local_ip` gets a reply.
    pub fn on_packet(&mut self, p: &ArpPacket, local_ip: u32, local_link: MacAddress, now: u64) -> (r: (
        bool,
        Option<ArpPacket>,
    ))
        requires
            old(self).wf(),
        ensures
            final(self).wf(),
            r.0 == has_pending(old(self).pending@, p.sender_ip_addr),
            has_entry(final(self).entries@, p.sender_ip_addr),
            !has_pending(final(self).pending@, p.sender_ip_addr),
            r.1 == if p.operation == ArpOperation::Request && p.target_ip_addr == local_ip {
                Some(
                    ArpPacket {
                        operation: ArpOperation::Reply,
                        sender_link_addr: local_link,
                        sender_ip_addr: local_ip,
                        target_link_addr: p.sender_link_addr,
                        target_ip_addr: p.sender_ip_addr,
                    },
                )
            } else {
                None
            },
    {
        let woke: bool = self.learn(p.sender_ip_addr, p.sender_link_addr, now);
        let reply = if p.operation == ArpOperation::Request && p.target_ip_addr == local_ip {
            Some(
                ArpPacket {
                    operation: ArpOperation::Reply,
                    sender_link_addr: local_link,
                    sender_ip_addr: local_ip,
                    target_link_addr: p.sender_link_addr,
                    target_ip_addr: p.sender_ip_addr,
                },
            )
        } else {
            None
        };
        (woke, reply)
    }
}

} // verus!
