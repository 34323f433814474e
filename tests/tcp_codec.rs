use catnip::seq_number::SeqNumber;
use catnip::tcp::{TcpHeader, TcpOption};
use catnip::tcp_codec::{read_options, tcp_checksum, TcpError};

const BOB: u32 = 0xc0a8_0102;
const ALICE: u32 = 0xc0a8_0101;

fn syn_header() -> TcpHeader {
    let mut h = TcpHeader::new(49152, 12100);
    h.syn = true;
    h.seq_num = SeqNumber::from_u32(1000);
    h.window_size = 1024;
    h.push_option(TcpOption::MaximumSegmentSize(1450));
    h.push_option(TcpOption::WindowScale(0));
    h
}

#[test]
fn tcp_segment_bytes_and_checksum() {
    let seg = syn_header().serialize(BOB, ALICE, &[1, 2, 3], false).unwrap();
    let expected: Vec<u8> = vec![
        0xc0, 0x00, 0x2f, 0x44, 0x00, 0x00, 0x03, 0xe8, 0, 0, 0, 0, 0x70, 0x02, 0x04, 0x00, 0x06,
        0xa4, 0, 0, 2, 4, 0x05, 0xaa, 3, 3, 0, 0, 1, 2, 3,
    ];
    assert_eq!(seg, expected);
    assert_eq!(tcp_checksum(BOB, ALICE, &seg), 0x06a4);
}

#[test]
fn tcp_header_round_trip() {
    let mut h = syn_header();
    h.ack = true;
    h.fin = true;
    h.ack_num = SeqNumber::from_u32(0xdead_beef);
    h.push_option(TcpOption::NoOperation);
    let payload: Vec<u8> = (0..33u8).collect();
    let seg = h.serialize(BOB, ALICE, &payload, false).unwrap();
    let (p, body) = TcpHeader::parse(BOB, ALICE, &seg, true).unwrap();
    assert_eq!(p, h);
    assert_eq!(body, payload);
}

#[test]
fn tcp_checksum_is_checked() {
    let mut seg = syn_header().serialize(BOB, ALICE, &[9], false).unwrap();
    assert_eq!(TcpHeader::parse(0xc0a8_0103, ALICE, &seg, true).unwrap_err(), TcpError::InvalidChecksum);
    seg[28] ^= 0x10;
    assert_eq!(TcpHeader::parse(BOB, ALICE, &seg, true).unwrap_err(), TcpError::InvalidChecksum);
    assert!(TcpHeader::parse(BOB, ALICE, &seg, false).is_ok());
}

#[test]
fn tcp_offloaded_checksum_is_zero() {
    let seg = syn_header().serialize(BOB, ALICE, &[], true).unwrap();
    assert_eq!((seg[16], seg[17]), (0, 0));
}

#[test]
fn tcp_parse_errors() {
    let seg = syn_header().serialize(BOB, ALICE, &[], false).unwrap();
    assert_eq!(TcpHeader::parse(BOB, ALICE, &seg[..19], true).unwrap_err(), TcpError::SegmentTooSmall);
    let mut bad = seg.clone();
    bad[12] = 0x40;
    assert_eq!(TcpHeader::parse(BOB, ALICE, &bad, false).unwrap_err(), TcpError::BadDataOffset);
    bad[12] = 0xf0;
    assert_eq!(TcpHeader::parse(BOB, ALICE, &bad, false).unwrap_err(), TcpError::BadDataOffset);
    let mut bad = seg.clone();
    bad[21] = 5;
    assert_eq!(TcpHeader::parse(BOB, ALICE, &bad, false).unwrap_err(), TcpError::BadOptions);
    let big = vec![0u8; 0x10000];
    assert_eq!(TcpHeader::parse(BOB, ALICE, &big, false).unwrap_err(), TcpError::SegmentTooLarge);
}

#[test]
fn tcp_serialize_limits() {
    let mut h = TcpHeader::new(1, 2);
    for _ in 0..41 {
        h.push_option(TcpOption::NoOperation);
    }
    assert_eq!(h.serialize(BOB, ALICE, &[], false).unwrap_err(), TcpError::OptionsTooLong);
    let h = TcpHeader::new(1, 2);
    let payload = vec![0u8; 0xFFFF - 19];
    assert_eq!(h.serialize(BOB, ALICE, &payload, false).unwrap_err(), TcpError::SegmentTooLarge);
    let payload = vec![0u8; 0xFFFF - 20];
    assert_eq!(h.serialize(BOB, ALICE, &payload, false).unwrap().len(), 0xFFFF);
}

#[test]
fn tcp_options_reading() {
    assert_eq!(
        read_options(&[1, 2, 4, 0x05, 0xb4, 8, 4, 0, 0, 3, 3, 7, 0, 2]),
        Some(vec![TcpOption::NoOperation, TcpOption::MaximumSegmentSize(1460), TcpOption::WindowScale(7)])
    );
    assert_eq!(read_options(&[2, 4, 1]), None);
    assert_eq!(read_options(&[3, 4, 1, 1]), None);
    assert_eq!(read_options(&[9]), None);
    assert_eq!(read_options(&[]), Some(vec![]));
}
