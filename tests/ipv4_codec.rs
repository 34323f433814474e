use catnip::checksum::compute_checksum;
use catnip::fail::FailKind;
use catnip::ipv4::{Ipv4Error, Ipv4Header, Ipv4Protocol};

fn sample_datagram() -> Vec<u8> {
    let mut b = vec![
        0x45, 0x00, 0x00, 0x73, 0x00, 0x00, 0x40, 0x00, 0x40, 0x11, 0xb8, 0x61, 0xc0, 0xa8, 0x00,
        0x01, 0xc0, 0xa8, 0x00, 0xc7,
    ];
    for i in 0..95u32 {
        b.push(i as u8);
    }
    b
}

#[test]
fn checksum_of_known_header() {
    let b = sample_datagram();
    assert_eq!(compute_checksum(&b[..20]), 0xb861);
}

#[test]
fn parse_known_datagram() {
    let mut b = sample_datagram();
    b.extend_from_slice(&[0, 0, 0]);
    let (h, payload) = Ipv4Header::parse(&b).unwrap();
    assert_eq!(h.version, 4);
    assert_eq!(h.ihl, 5);
    assert_eq!(h.total_length, 0x73);
    assert_eq!(h.flags, 2);
    assert_eq!(h.fragment_offset, 0);
    assert_eq!(h.ttl, 0x40);
    assert_eq!(h.get_protocol(), Ipv4Protocol::Udp);
    assert_eq!(h.header_checksum, 0xb861);
    assert_eq!(h.get_src_addr(), 0xc0a8_0001);
    assert_eq!(h.get_dest_addr(), 0xc0a8_00c7);
    assert_eq!(payload.len(), 95);
    assert_eq!(payload[94], 94);
}

#[test]
fn header_round_trip() {
    let mut h = Ipv4Header::new(0xc0a8_0101, 0xc0a8_0102, Ipv4Protocol::Tcp);
    h.identification = 0x1234;
    h.ecn = 2;
    h.flags = 2;
    h.ttl = 17;
    let payload: Vec<u8> = (0..32u8).collect();
    let mut bytes = h.serialize(payload.len());
    assert_eq!(bytes.len(), 20);
    assert_eq!(h.compute_size(), 20);
    bytes.extend_from_slice(&payload);
    let (p, body) = Ipv4Header::parse(&bytes).unwrap();
    assert_eq!(p.identification, 0x1234);
    assert_eq!(p.ecn, 2);
    assert_eq!(p.flags, 2);
    assert_eq!(p.ttl, 17);
    assert_eq!(p.protocol, Ipv4Protocol::Tcp);
    assert_eq!(p.src_addr, 0xc0a8_0101);
    assert_eq!(p.dst_addr, 0xc0a8_0102);
    assert_eq!(p.total_length, 52);
    assert_eq!(p.header_checksum, compute_checksum(&bytes[..20]));
    assert_eq!(body, payload);
}

#[test]
fn serialize_writes_fields_big_endian() {
    let h = Ipv4Header::new(0x0a00_0001, 0x0a00_0002, Ipv4Protocol::Icmpv4);
    let b = h.serialize(8);
    assert_eq!(&b[..10], &[0x45, 0, 0, 28, 0, 0, 0, 0, 255, 1]);
    assert_eq!(&b[12..], &[10, 0, 0, 1, 10, 0, 0, 2]);
    let c = compute_checksum(&b);
    assert_eq!(((b[10] as u16) << 8) | b[11] as u16, c);
}

#[test]
fn flipped_header_bit_is_rejected() {
    let h = Ipv4Header::new(0xc0a8_0101, 0xc0a8_0102, Ipv4Protocol::Tcp);
    let b = h.serialize(0);
    for byte in 0..20 {
        for bit in 0..8 {
            let mut c = b.clone();
            c[byte] ^= 1 << bit;
            assert!(Ipv4Header::parse(&c).is_err(), "byte {} bit {}", byte, bit);
        }
    }
}

fn with_checksum(mut b: Vec<u8>) -> Vec<u8> {
    b[10] = 0;
    b[11] = 0;
    let c = compute_checksum(&b);
    b[10] = (c >> 8) as u8;
    b[11] = c as u8;
    b
}

fn err_of(b: &[u8]) -> Ipv4Error {
    Ipv4Header::parse(b).unwrap_err()
}

#[test]
fn parse_errors() {
    let good = Ipv4Header::new(1, 2, Ipv4Protocol::Tcp).serialize(0);
    assert!(Ipv4Header::parse(&good).is_ok());
    assert_eq!(err_of(&good[..19]), Ipv4Error::DatagramTooSmall);

    let mut b = good.clone();
    b[0] = 0x65;
    assert_eq!(err_of(&with_checksum(b)), Ipv4Error::UnsupportedVersion);
    let mut b = good.clone();
    b[0] = 0x44;
    assert_eq!(err_of(&with_checksum(b)), Ipv4Error::IhlTooSmall);
    let mut b = good.clone();
    b[0] = 0x46;
    assert_eq!(err_of(&with_checksum(b)), Ipv4Error::OptionsUnsupported);
    let mut b = good.clone();
    b[1] = 0x04;
    assert_eq!(err_of(&with_checksum(b)), Ipv4Error::DscpUnsupported);
    let mut b = good.clone();
    b[3] = 19;
    assert_eq!(err_of(&with_checksum(b)), Ipv4Error::SizeMismatch);
    let mut b = good.clone();
    b[3] = 21;
    assert_eq!(err_of(&with_checksum(b)), Ipv4Error::SizeMismatch);
    let mut b = good.clone();
    b[7] = 1;
    assert_eq!(err_of(&with_checksum(b)), Ipv4Error::FragmentationUnsupported);
    let mut b = good.clone();
    b[6] = 0x20;
    assert_eq!(err_of(&with_checksum(b)), Ipv4Error::FragmentationUnsupported);
    let mut b = good.clone();
    b[9] = 99;
    assert_eq!(err_of(&with_checksum(b)), Ipv4Error::UnsupportedProtocol);
    let mut b = good.clone();
    b[10] = 0xff;
    b[11] = 0xff;
    assert_eq!(err_of(&b), Ipv4Error::ChecksumAllOnes);
    let mut b = good.clone();
    b[11] ^= 1;
    assert_eq!(err_of(&b), Ipv4Error::InvalidChecksum);
}

#[test]
fn parse_error_kinds() {
    assert_eq!(Ipv4Error::InvalidChecksum.to_fail().kind, FailKind::BadMessage);
    assert_eq!(Ipv4Error::SizeMismatch.to_fail().kind, FailKind::BadMessage);
    assert_eq!(Ipv4Error::DscpUnsupported.to_fail().kind, FailKind::NotSupported);
    assert_eq!(Ipv4Error::UnsupportedProtocol.to_fail().kind, FailKind::NotSupported);
}

#[test]
fn dont_fragment_flag_is_accepted() {
    let mut h = Ipv4Header::new(1, 2, Ipv4Protocol::Udp);
    h.flags = 2;
    let b = h.serialize(0);
    assert_eq!(Ipv4Header::parse(&b).unwrap().0.flags, 2);
}
