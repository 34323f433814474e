use catnip::arp::MacAddress;
use catnip::ethernet::{EtherType2, Ethernet2Header, EthernetError};
use catnip::test_helpers::{ALICE_MAC, BOB_MAC};

#[test]
fn ethernet_header_bytes() {
    let h = Ethernet2Header::new(MacAddress::new(BOB_MAC), MacAddress::new(ALICE_MAC), EtherType2::Ipv4);
    assert_eq!(
        h.serialize(),
        vec![0xab, 0x89, 0x67, 0x45, 0x23, 0x12, 0x12, 0x23, 0x45, 0x67, 0x89, 0xab, 0x08, 0x00]
    );
}

#[test]
fn ethernet_round_trip() {
    let h = Ethernet2Header::new(MacAddress::new(ALICE_MAC), MacAddress::new(BOB_MAC), EtherType2::Arp);
    let mut frame = h.serialize();
    frame.extend_from_slice(&[1, 2, 3]);
    let (p, payload) = Ethernet2Header::parse(&frame).unwrap();
    assert_eq!(p, h);
    assert_eq!(payload, vec![1, 2, 3]);
}

#[test]
fn ethernet_errors() {
    let h = Ethernet2Header::new(MacAddress::new(1), MacAddress::new(2), EtherType2::Ipv4);
    let mut frame = h.serialize();
    assert_eq!(Ethernet2Header::parse(&frame[..13]).unwrap_err(), EthernetError::FrameTooSmall);
    frame[12] = 0x86;
    frame[13] = 0xdd;
    assert_eq!(Ethernet2Header::parse(&frame).unwrap_err(), EthernetError::UnsupportedEtherType);
}
