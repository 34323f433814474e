use catnip::fail::FailKind;
use catnip::ipv4::{Ipv4Endpoint, Ipv4Header, Ipv4Protocol};
use catnip::isn_generator::IsnGenerator;
use catnip::passive_open::PassiveSocket;
use catnip::receiver::Receiver;
use catnip::seq_number::SeqNumber;
use catnip::tcp::{negotiated_options, TcpConfig, TcpHeader, TcpOption, FALLBACK_MSS};
use catnip::test_helpers::{ALICE_IPV4, BOB_IPV4, CARRIE_IPV4, JUAN_IPV4};

const PORT_BASE: u16 = 12000;

fn syn_from(addr: u32, port: u16, isn: u32) -> (Ipv4Header, TcpHeader) {
    let ip = Ipv4Header::new(addr, ALICE_IPV4, Ipv4Protocol::Tcp);
    let mut tcp = TcpHeader::new(port, PORT_BASE + 100);
    tcp.syn = true;
    tcp.seq_num = SeqNumber::from_u32(isn);
    tcp.window_size = 1024;
    (ip, tcp)
}

fn ack_from(addr: u32, port: u16, seq: u32, ack: u32) -> (Ipv4Header, TcpHeader) {
    let ip = Ipv4Header::new(addr, ALICE_IPV4, Ipv4Protocol::Tcp);
    let mut tcp = TcpHeader::new(port, PORT_BASE + 100);
    tcp.ack = true;
    tcp.seq_num = SeqNumber::from_u32(seq);
    tcp.ack_num = SeqNumber::from_u32(ack);
    (ip, tcp)
}

fn listener(backlog: usize) -> PassiveSocket {
    let local = Ipv4Endpoint::new(ALICE_IPV4, PORT_BASE + 100);
    PassiveSocket::new(local, backlog, 0x1234_5678, TcpConfig::default_config())
}

#[test]
fn isn_hash_and_counter() {
    let local = Ipv4Endpoint::new(0xc0a8_0101, 12100);
    let remote = Ipv4Endpoint::new(0xc0a8_0102, 49152);
    let mut g = IsnGenerator::new(0x1234_5678);
    let a = g.generate(&local, &remote);
    let b = g.generate(&local, &remote);
    assert_eq!(a.value, 0x079d_10b0);
    assert_eq!(b.value, 0x079d_10b1);
    assert_eq!(g.counter, 2);
}

#[test]
fn isn_counter_wraps() {
    let mut g = IsnGenerator::new(7);
    g.counter = 0xffff;
    let a = g.next_from_hash(0xffff_fff0);
    assert_eq!(a.value, 0xffff_fff0u32.wrapping_add(0xffff));
    assert_eq!(g.counter, 0);
}

#[test]
fn passive_open_handshake() {
    let mut alice = listener(8);
    let bob_isn: u32 = 1000;
    let (ip, syn) = syn_from(BOB_IPV4, 49152, bob_isn);
    let alice_isn = alice.receive(&ip, &syn).unwrap().unwrap();
    let remote = Ipv4Endpoint::new(BOB_IPV4, 49152);
    let synack = alice.syn_ack_header(&remote).unwrap();
    assert!(synack.syn && synack.ack);
    assert_eq!(synack.seq_num, alice_isn);
    assert_eq!(synack.ack_num.value, bob_isn + 1);
    assert_eq!(synack.options, vec![TcpOption::MaximumSegmentSize(1450), TcpOption::WindowScale(0)]);
    assert!(alice.poll_accept().is_none());

    let (ip, ack) = ack_from(BOB_IPV4, 49152, bob_isn + 1, alice_isn.value.wrapping_add(1));
    assert_eq!(alice.receive(&ip, &ack), Ok(None));
    let cb = alice.poll_accept().unwrap().unwrap();
    assert_eq!(cb.receive_seq_no.value, bob_isn + 1);
    assert_eq!(cb.sender_seq_no.value, alice_isn.value.wrapping_add(1));
    assert_eq!(cb.get_remote(), remote);
    assert_eq!(cb.remote_mss(), FALLBACK_MSS);
    assert_eq!(cb.sender_window_size, 1024);
    assert!(alice.poll_accept().is_none());
}

#[test]
fn passive_open_window_scaling() {
    let mut alice = listener(8);
    let (ip, mut syn) = syn_from(BOB_IPV4, 40000, 5);
    syn.push_option(TcpOption::MaximumSegmentSize(1400));
    syn.push_option(TcpOption::WindowScale(20));
    let isn = alice.receive(&ip, &syn).unwrap().unwrap();
    let (ip, ack) = ack_from(BOB_IPV4, 40000, 6, isn.value.wrapping_add(1));
    alice.receive(&ip, &ack).unwrap();
    let cb = alice.poll_accept().unwrap().unwrap();
    assert_eq!(cb.mss, 1400);
    assert_eq!(cb.sender_window_scale, 14);
    assert_eq!(cb.sender_window_size, 1024 << 14);
    assert_eq!(cb.receive_window_scale, 0);
    assert_eq!(cb.receive_window_size, 0xffff);
}

#[test]
fn backlog_refusal() {
    let mut alice = listener(2);
    assert!(alice.receive(&syn_from(BOB_IPV4, 1, 1).0, &syn_from(BOB_IPV4, 1, 1).1).is_ok());
    assert!(alice.receive(&syn_from(CARRIE_IPV4, 2, 1).0, &syn_from(CARRIE_IPV4, 2, 1).1).is_ok());
    let (ip, syn) = syn_from(JUAN_IPV4, 3, 1);
    assert_eq!(alice.receive(&ip, &syn).unwrap_err().kind, FailKind::ConnectionRefused);
    assert_eq!(alice.inflight.len(), 2);
}

#[test]
fn backlog_counts_ready_connections() {
    let mut alice = listener(1);
    let (ip, syn) = syn_from(BOB_IPV4, 1, 1);
    let isn = alice.receive(&ip, &syn).unwrap().unwrap();
    let (ip, ack) = ack_from(BOB_IPV4, 1, 2, isn.value.wrapping_add(1));
    alice.receive(&ip, &ack).unwrap();
    let (ip, syn) = syn_from(CARRIE_IPV4, 2, 1);
    assert_eq!(alice.receive(&ip, &syn).unwrap_err().kind, FailKind::ConnectionRefused);
    alice.poll_accept().unwrap().unwrap();
    assert!(alice.receive(&ip, &syn).unwrap().is_some());
}

#[test]
fn duplicate_syn_for_ready_connection_is_dropped() {
    let mut alice = listener(4);
    let (ip, syn) = syn_from(BOB_IPV4, 1, 1);
    let isn = alice.receive(&ip, &syn).unwrap().unwrap();
    let (aip, ack) = ack_from(BOB_IPV4, 1, 2, isn.value.wrapping_add(1));
    alice.receive(&aip, &ack).unwrap();
    assert_eq!(alice.receive(&ip, &syn), Ok(None));
    assert_eq!(alice.ready.len(), 1);
}

#[test]
fn bad_ack_and_bad_flags() {
    let mut alice = listener(4);
    let (ip, syn) = syn_from(BOB_IPV4, 1, 1);
    let isn = alice.receive(&ip, &syn).unwrap().unwrap();
    let (aip, ack) = ack_from(BOB_IPV4, 1, 2, isn.value.wrapping_add(2));
    assert_eq!(alice.receive(&aip, &ack).unwrap_err().kind, FailKind::BadMessage);
    assert_eq!(alice.receive(&ip, &syn).unwrap_err().kind, FailKind::BadMessage);
    let (ip, mut rst) = syn_from(CARRIE_IPV4, 1, 1);
    rst.rst = true;
    assert_eq!(alice.receive(&ip, &rst).unwrap_err().kind, FailKind::BadMessage);
    assert_eq!(alice.inflight.len(), 1);
}

#[test]
fn handshake_timeout_reaches_accept() {
    let mut alice = listener(4);
    let (ip, syn) = syn_from(BOB_IPV4, 1, 1);
    alice.receive(&ip, &syn).unwrap();
    alice.handshake_timed_out(&Ipv4Endpoint::new(BOB_IPV4, 1));
    assert_eq!(alice.inflight.len(), 0);
    assert_eq!(alice.poll_accept().unwrap().unwrap_err().kind, FailKind::Timeout);
}

#[test]
fn options_last_one_wins() {
    let opts = vec![
        TcpOption::WindowScale(3),
        TcpOption::NoOperation,
        TcpOption::MaximumSegmentSize(900),
        TcpOption::WindowScale(5),
    ];
    assert_eq!(negotiated_options(&opts), (Some(5), 900));
    assert_eq!(negotiated_options(&vec![]), (None, FALLBACK_MSS));
}

#[test]
fn catnip_tcp_push_remote() {
    let mut alice = listener(8);
    let port = PORT_BASE + 100;
    let bob_isn: u32 = 0xffff_fff0;
    let (ip, syn) = syn_from(BOB_IPV4, 50000, bob_isn);
    let isn = alice.receive(&ip, &syn).unwrap().unwrap();
    let (ip, ack) = ack_from(BOB_IPV4, 50000, bob_isn.wrapping_add(1), isn.value.wrapping_add(1));
    alice.receive(&ip, &ack).unwrap();
    let cb = alice.poll_accept().unwrap().unwrap();
    assert_eq!(cb.get_local().get_port(), port);

    let mut rx = Receiver::new(cb.receive_seq_no, 1024);
    let body: Vec<u8> = (0..32u8).collect();
    assert!(rx.receive(cb.receive_seq_no, body.clone()));
    assert_eq!(rx.rcv_nxt.value, bob_isn.wrapping_add(1).wrapping_add(32));
    assert_eq!(rx.pop(), body);
}
