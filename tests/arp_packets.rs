use catnip::arp::{ArpAction, ArpCache, ArpConfig, MacAddress};
use catnip::arp_packet::{ArpOperation, ArpPacket, ArpPacketError};
use catnip::test_helpers::{ALICE_IPV4, ALICE_MAC, BOB_IPV4, BOB_MAC};

fn request_from_bob() -> ArpPacket {
    ArpPacket {
        operation: ArpOperation::Request,
        sender_link_addr: MacAddress::new(BOB_MAC),
        sender_ip_addr: BOB_IPV4,
        target_link_addr: MacAddress::new(0),
        target_ip_addr: ALICE_IPV4,
    }
}

#[test]
fn arp_packet_bytes() {
    let b = request_from_bob().serialize();
    assert_eq!(
        b,
        vec![
            0, 1, 8, 0, 6, 4, 0, 1, 0xab, 0x89, 0x67, 0x45, 0x23, 0x12, 192, 168, 1, 2, 0, 0, 0, 0,
            0, 0, 192, 168, 1, 1
        ]
    );
    assert_eq!(ArpPacket::parse(&b).unwrap(), request_from_bob());
}

#[test]
fn arp_packet_errors() {
    let b = request_from_bob().serialize();
    assert_eq!(ArpPacket::parse(&b[..27]).unwrap_err(), ArpPacketError::PacketTooSmall);
    let mut c = b.clone();
    c[1] = 6;
    assert_eq!(ArpPacket::parse(&c).unwrap_err(), ArpPacketError::UnsupportedHardware);
    let mut c = b.clone();
    c[5] = 16;
    assert_eq!(ArpPacket::parse(&c).unwrap_err(), ArpPacketError::UnsupportedProtocol);
    let mut c = b.clone();
    c[7] = 3;
    assert_eq!(ArpPacket::parse(&c).unwrap_err(), ArpPacketError::UnsupportedOperation);
}

#[test]
fn arp_request_is_answered_and_learned() {
    let mut arp = ArpCache::new(&ArpConfig::new(None, None, None, None, None));
    let (woke, reply) = arp.on_packet(&request_from_bob(), ALICE_IPV4, MacAddress::new(ALICE_MAC), 5);
    assert!(!woke);
    let reply = reply.unwrap();
    assert_eq!(reply.operation, ArpOperation::Reply);
    assert_eq!(reply.sender_link_addr, MacAddress::new(ALICE_MAC));
    assert_eq!(reply.target_ip_addr, BOB_IPV4);
    assert_eq!(arp.query(BOB_IPV4, 6), ArpAction::Resolved(MacAddress::new(BOB_MAC)));
}

#[test]
fn arp_reply_wakes_waiters() {
    let mut arp = ArpCache::new(&ArpConfig::new(None, None, None, None, None));
    assert_eq!(arp.query(BOB_IPV4, 0), ArpAction::SendRequest);
    let mut reply = request_from_bob();
    reply.operation = ArpOperation::Reply;
    let (woke, answer) = arp.on_packet(&reply, ALICE_IPV4, MacAddress::new(ALICE_MAC), 3);
    assert!(woke);
    assert!(answer.is_none());
    assert!(arp.pending.is_empty());
}
