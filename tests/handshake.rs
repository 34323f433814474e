use catnip::active_open::{ActiveOpenSocket, SynSentOutcome};
use catnip::fail::FailKind;
use catnip::ipv4::{Ipv4Endpoint, Ipv4Header, Ipv4Protocol};
use catnip::passive_open::PassiveSocket;
use catnip::seq_number::SeqNumber;
use catnip::tcp::{TcpConfig, TcpHeader, TcpOption};
use catnip::test_helpers::{ALICE_IPV4, BOB_IPV4};

fn bob_socket() -> ActiveOpenSocket {
    ActiveOpenSocket::new(
        Ipv4Endpoint::new(BOB_IPV4, 49152),
        Ipv4Endpoint::new(ALICE_IPV4, 12100),
        SeqNumber::from_u32(0xffff_ffff),
        TcpConfig::default_config(),
    )
}

#[test]
fn passive_open_against_active_open() {
    let bob = bob_socket();
    let mut alice = PassiveSocket::new(Ipv4Endpoint::new(ALICE_IPV4, 12100), 8, 99, TcpConfig::default_config());
    let syn = bob.syn_header();
    assert_eq!(syn.options, vec![TcpOption::MaximumSegmentSize(1450), TcpOption::WindowScale(0)]);
    let from_bob = Ipv4Header::new(BOB_IPV4, ALICE_IPV4, Ipv4Protocol::Tcp);
    let alice_isn = alice.receive(&from_bob, &syn).unwrap().unwrap();
    let synack = alice.syn_ack_header(&Ipv4Endpoint::new(BOB_IPV4, 49152)).unwrap();
    let bob_cb = match bob.receive(&synack).unwrap() {
        SynSentOutcome::Established(cb) => cb,
        other => panic!("unexpected {:?}", other),
    };
    assert_eq!(bob_cb.receive_seq_no.value, alice_isn.value.wrapping_add(1));
    assert_eq!(bob_cb.sender_seq_no.value, 0);
    assert_eq!(bob_cb.mss, 1450);
    assert_eq!(bob_cb.sender_window_size, 0xffff);

    let mut ack = TcpHeader::new(49152, 12100);
    ack.ack = true;
    ack.seq_num = bob_cb.sender_seq_no;
    ack.ack_num = bob_cb.receive_seq_no;
    alice.receive(&from_bob, &ack).unwrap();
    let alice_cb = alice.poll_accept().unwrap().unwrap();
    assert_eq!(alice_cb.receive_seq_no.value, 0);
    assert_eq!(alice_cb.sender_seq_no.value, alice_isn.value.wrapping_add(1));
    assert_eq!(alice_cb.get_remote(), Ipv4Endpoint::new(BOB_IPV4, 49152));
}

#[test]
fn syn_sent_outcomes() {
    let bob = bob_socket();
    let mut h = TcpHeader::new(12100, 49152);
    h.syn = true;
    h.ack = true;
    h.ack_num = SeqNumber::from_u32(5);
    assert_eq!(bob.receive(&h).unwrap_err().kind, FailKind::BadMessage);
    h.ack = false;
    assert!(matches!(bob.receive(&h).unwrap(), SynSentOutcome::SimultaneousOpen));
    let mut rst = TcpHeader::new(12100, 49152);
    rst.rst = true;
    assert!(matches!(bob.receive(&rst).unwrap(), SynSentOutcome::Ignored));
    rst.ack = true;
    rst.ack_num = SeqNumber::from_u32(0);
    assert_eq!(bob.receive(&rst).unwrap_err().kind, FailKind::ConnectionRefused);
    assert!(matches!(bob.receive(&TcpHeader::new(1, 2)).unwrap(), SynSentOutcome::Ignored));
}
