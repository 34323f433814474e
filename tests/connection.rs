use catnip::acknowledger::{ack_deadline_after_receive, acknowledger_step, AckDecision};
use catnip::congestion_control::NewReno;
use catnip::established::{EstablishedSocket, ReceiveOutcome};
use catnip::state::State;
use catnip::fail::FailKind;
use catnip::ipv4::Ipv4Endpoint;
use catnip::rto::RtoEstimator;
use catnip::sender::AckEvent;
use catnip::seq_number::SeqNumber;
use catnip::tcp::{ControlBlock, TcpHeader};

#[test]
fn rto_first_and_later_samples() {
    let mut e = RtoEstimator::new();
    assert_eq!(e.estimate(), 1000);
    e.add_sample(400);
    assert_eq!((e.srtt, e.rttvar, e.rto), (400, 200, 1200));
    e.add_sample(800);
    // RTTVAR = (3 * 200 + 400) / 4, SRTT = (7 * 400 + 800) / 8
    assert_eq!((e.srtt, e.rttvar, e.rto), (450, 250, 1450));
    e.add_sample(10);
    assert_eq!(e.rttvar, (3 * 250 + 440) / 4);
    assert_eq!(e.srtt, (7 * 450 + 10) / 8);
}

#[test]
fn rto_is_clamped_and_backs_off() {
    let mut e = RtoEstimator::new();
    e.add_sample(1);
    assert_eq!(e.rto, 1000);
    e.on_timeout();
    assert_eq!(e.rto, 2000);
    let mut big = RtoEstimator::new();
    big.add_sample(50_000);
    assert_eq!(big.rto, 60_000);
    big.on_timeout();
    assert_eq!(big.rto, 60_000);
}

#[test]
fn acknowledger_decisions() {
    assert_eq!(acknowledger_step(None, 10), AckDecision::WaitForChange);
    assert_eq!(acknowledger_step(Some(20), 10), AckDecision::WaitUntil(20));
    assert_eq!(acknowledger_step(Some(20), 20), AckDecision::SendAck);
    assert_eq!(ack_deadline_after_receive(None, 100, 5, false), Some(105));
    assert_eq!(ack_deadline_after_receive(Some(103), 100, 5, false), Some(103));
    assert_eq!(ack_deadline_after_receive(Some(103), 100, 5, true), Some(100));
    assert_eq!(ack_deadline_after_receive(None, u64::MAX, 5, false), Some(u64::MAX));
}

fn control_block() -> ControlBlock {
    ControlBlock {
        local: Ipv4Endpoint::new(0xc0a8_0101, 12100),
        remote: Ipv4Endpoint::new(0xc0a8_0102, 50000),
        receive_seq_no: SeqNumber::from_u32(5000),
        ack_delay_timeout: 5,
        receive_window_size: 1024,
        receive_window_scale: 0,
        sender_seq_no: SeqNumber::from_u32(9000),
        sender_window_size: 100,
        sender_window_scale: 0,
        mss: 40,
    }
}

fn segment(seq: u32, ack: u32, window: u16) -> TcpHeader {
    let mut h = TcpHeader::new(50000, 12100);
    h.seq_num = SeqNumber::from_u32(seq);
    h.ack_num = SeqNumber::from_u32(ack);
    h.ack = true;
    h.window_size = window;
    h
}

#[test]
fn established_send_path() {
    let mut s = EstablishedSocket::new(control_block());
    assert_eq!(s.endpoints().1.get_port(), 50000);
    assert_eq!(s.remote_mss(), 40);
    assert_eq!(s.current_rto(), 1000);
    assert!(s.next_segment(0).is_none());
    s.send((0..100u8).collect()).unwrap();
    let (seq, data) = s.next_segment(0).unwrap();
    assert_eq!(seq.value, 9000);
    assert_eq!(data, (0..40u8).collect::<Vec<u8>>());
    let (seq, data) = s.next_segment(0).unwrap();
    assert_eq!(seq.value, 9040);
    assert_eq!(data.len(), 40);
    let (_, data) = s.next_segment(0).unwrap();
    assert_eq!(data.len(), 20);
    assert!(s.next_segment(0).is_none());
    s.send(vec![7; 10]).unwrap();
    assert!(s.next_segment(0).is_none());
    s.receive(&segment(5000, 9050, 100), vec![], 0);
    assert_eq!(s.sender.snd_una.value, 9050);
    let (seq, data) = s.next_segment(0).unwrap();
    assert_eq!((seq.value, data), (9100, vec![7; 10]));
}

#[test]
fn established_receive_and_reset() {
    let mut s = EstablishedSocket::new(control_block());
    assert!(s.poll_recv().is_none());
    s.receive(&segment(5000, 9000, 100), vec![1, 2, 3], 0);
    assert_eq!(s.poll_recv().unwrap().unwrap(), vec![1, 2, 3]);
    let mut rst = segment(4000, 0, 0);
    rst.rst = true;
    s.receive(&rst, vec![], 0);
    assert!(!s.reset);
    rst.seq_num = SeqNumber::from_u32(5003);
    s.receive(&rst, vec![], 0);
    assert!(s.reset);
    assert_eq!(s.poll_recv().unwrap().unwrap_err().kind, FailKind::ConnectionReset);
    assert_eq!(s.send(vec![1]).unwrap_err().kind, FailKind::ConnectionReset);
}

#[test]
fn established_close_twice() {
    let mut s = EstablishedSocket::new(control_block());
    assert!(s.close().is_ok());
    assert_eq!(s.close().unwrap_err().kind, FailKind::BadDescriptor);
    assert_eq!(s.send(vec![1]).unwrap_err().kind, FailKind::NotConnected);
}

#[test]
fn newreno_slow_start_and_avoidance() {
    let mut cc = NewReno::new(1000);
    assert_eq!(cc.cwnd(), 4000);
    assert_eq!(NewReno::new(1460).cwnd, 4380);
    assert_eq!(NewReno::new(3000).cwnd, 6000);
    cc.on_ack(500);
    assert_eq!(cc.cwnd(), 4500);
    cc.on_ack(5000);
    assert_eq!(cc.cwnd(), 5500);
    cc.on_timeout(8000);
    assert_eq!((cc.cwnd(), cc.ssthresh()), (1000, 4000));
    cc.on_timeout(100);
    assert_eq!(cc.ssthresh(), 2000);
    cc.ssthresh = 1000;
    cc.on_ack(1000);
    assert_eq!(cc.cwnd(), 2000);
    cc.on_ack(1000);
    assert_eq!(cc.cwnd(), 2500);
}

#[test]
fn newreno_fast_recovery() {
    let mut cc = NewReno::new(1000);
    cc.on_duplicate_ack();
    assert_eq!(cc.cwnd(), 4000);
    cc.on_fast_retransmit(10_000);
    assert_eq!((cc.ssthresh(), cc.cwnd()), (5000, 8000));
    assert!(cc.in_recovery);
    cc.on_duplicate_ack();
    assert_eq!(cc.cwnd(), 9000);
    cc.on_ack(1000);
    assert_eq!(cc.cwnd(), 5000);
    assert!(!cc.in_recovery);
}

#[test]
fn third_duplicate_ack_enters_recovery() {
    let mut s = EstablishedSocket::new(control_block());
    s.send((0..100u8).collect()).unwrap();
    while s.next_segment(0).is_some() {}
    assert_eq!(s.receive(&segment(5000, 9040, 100), vec![], 0).ack_event, Some(AckEvent::Advanced(40)));
    assert_eq!(s.receive(&segment(5000, 9040, 100), vec![], 0).ack_event, Some(AckEvent::Duplicate(1)));
    assert_eq!(s.receive(&segment(5000, 9040, 100), vec![], 0).ack_event, Some(AckEvent::Duplicate(2)));
    assert_eq!(s.receive(&segment(5000, 9040, 100), vec![], 0).ack_event, Some(AckEvent::Duplicate(3)));
    assert!(s.cc.in_recovery);
    assert_eq!(s.cc.ssthresh, 80);
    assert_eq!(s.cc.cwnd, 80 + 3 * 40);
}

#[test]
fn retransmit_timeout_restarts() {
    let mut s = EstablishedSocket::new(control_block());
    s.send((0..100u8).collect()).unwrap();
    while s.next_segment(0).is_some() {}
    s.on_retransmit_timeout();
    assert_eq!(s.current_rto(), 2000);
    assert_eq!(s.cc.cwnd, 40);
    assert_eq!(s.cc.ssthresh, 80);
}

#[test]
fn retransmission_queue_follows_acks() {
    let mut s = EstablishedSocket::new(control_block());
    assert!(s.retransmit_segment().is_none());
    let body: Vec<u8> = (0..100u8).collect();
    s.send(body.clone()).unwrap();
    while s.next_segment(0).is_some() {}
    assert_eq!(s.unacked, body);
    let (seq, data) = s.retransmit_segment().unwrap();
    assert_eq!((seq.value, data), (9000, (0..40u8).collect::<Vec<u8>>()));
    s.receive(&segment(5000, 9040, 100), vec![], 0);
    let (seq, data) = s.retransmit_segment().unwrap();
    assert_eq!((seq.value, data), (9040, (40..80u8).collect::<Vec<u8>>()));
    s.receive(&segment(5000, 9100, 100), vec![], 0);
    assert!(s.retransmit_segment().is_none());
}

#[test]
fn round_trip_sample_and_karn() {
    let mut s = EstablishedSocket::new(control_block());
    s.send(vec![0; 80]).unwrap();
    s.next_segment(1000).unwrap();
    assert_eq!(s.rtt_probe.map(|(e, t)| (e.value, t)), Some((9040, 1000)));
    s.next_segment(1010).unwrap();
    assert_eq!(s.rtt_probe.map(|(e, t)| (e.value, t)), Some((9040, 1000)));
    s.receive(&segment(5000, 9020, 100), vec![], 1200);
    assert!(s.rtt_probe.is_some());
    s.receive(&segment(5000, 9040, 100), vec![], 1400);
    assert!(s.rtt_probe.is_none());
    assert_eq!((s.rto.srtt, s.rto.rttvar, s.current_rto()), (400, 200, 1200));

    s.send(vec![0; 40]).unwrap();
    s.next_segment(2000).unwrap();
    s.on_retransmit_timeout();
    assert!(s.rtt_probe.is_none());
    s.receive(&segment(5000, 9120, 100), vec![], 9000);
    assert_eq!(s.rto.srtt, 400);
}

#[test]
fn reset_drops_queued_data() {
    let mut s = EstablishedSocket::new(control_block());
    s.send((0..100u8).collect()).unwrap();
    s.next_segment(0).unwrap();
    s.receive(&segment(5000, 9000, 100), vec![1, 2], 0);
    let mut rst = segment(5002, 0, 0);
    rst.rst = true;
    rst.ack = false;
    let r = s.receive(&rst, vec![], 0);
    assert_eq!(r, ReceiveOutcome { ack_event: None, accepted: false, ack_now: false, fin: false });
    assert!(s.reset);
    assert_eq!(s.state, State::Closed);
    assert!(s.unsent.is_empty() && s.unacked.is_empty());
    assert!(s.receiver.buffer.is_empty());
    assert!(s.next_segment(0).is_none());
    assert!(s.retransmit_segment().is_none());
    assert_eq!(s.poll_recv().unwrap().unwrap_err().kind, FailKind::ConnectionReset);
}

#[test]
fn in_order_segment_is_delivered() {
    let mut s = EstablishedSocket::new(control_block());
    let body: Vec<u8> = (0..32u8).collect();
    let r = s.receive(&segment(5000, 9000, 100), body.clone(), 0);
    assert!(r.accepted && !r.ack_now && !r.fin);
    assert_eq!(s.receiver.rcv_nxt.value, 5032);
    assert_eq!(s.poll_recv().unwrap().unwrap(), body);
}

#[test]
fn out_of_order_and_unacceptable_segments_owe_an_ack() {
    let mut s = EstablishedSocket::new(control_block());
    let r = s.receive(&segment(5010, 9000, 100), vec![9; 5], 0);
    assert!(r.accepted && r.ack_now);
    assert_eq!(s.receiver.rcv_nxt.value, 5000);
    assert!(s.poll_recv().is_none());
    let r = s.receive(&segment(5000 + 4096, 9000, 100), vec![1], 0);
    assert!(!r.accepted && r.ack_now);
    let r = s.receive(&segment(5000, 9000, 100), vec![1; 10], 0);
    assert!(r.accepted && !r.ack_now);
    assert_eq!(s.receiver.rcv_nxt.value, 5015);
    assert_eq!(s.poll_recv().unwrap().unwrap().len(), 15);
}

#[test]
fn peer_fin_then_close() {
    let mut s = EstablishedSocket::new(control_block());
    let mut fin = segment(5000, 9000, 100);
    fin.fin = true;
    let r = s.receive(&fin, vec![4, 5], 0);
    assert!(r.fin && r.ack_now);
    assert_eq!(s.state, State::CloseWait);
    assert_eq!(s.receiver.rcv_nxt.value, 5003);
    assert_eq!(s.poll_recv().unwrap().unwrap(), vec![4, 5]);
    assert_eq!(s.poll_recv().unwrap().unwrap(), Vec::<u8>::new());
    s.send(vec![1, 2]).unwrap();
    assert!(s.close().is_ok());
    assert_eq!(s.state, State::LastAck);
    assert!(s.fin_segment().is_none());
    s.next_segment(0).unwrap();
    assert_eq!(s.fin_segment().map(|q| q.value), Some(9002));
    s.receive(&segment(5003, 9003, 100), vec![], 0);
    assert!(s.fin_acked);
    assert_eq!(s.state, State::Closed);
    assert!(s.unacked.is_empty());
}

#[test]
fn active_close_states() {
    let mut s = EstablishedSocket::new(control_block());
    assert!(s.close().is_ok());
    assert_eq!(s.state, State::FinWait1);
    assert_eq!(s.fin_segment().map(|q| q.value), Some(9000));
    s.receive(&segment(5000, 9001, 100), vec![], 0);
    assert_eq!(s.state, State::FinWait2);
    let mut fin = segment(5000, 9001, 100);
    fin.fin = true;
    assert!(s.receive(&fin, vec![], 0).fin);
    assert_eq!(s.state, State::TimeWait);
}
