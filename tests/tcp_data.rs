use catnip::receiver::Receiver;
use catnip::sender::{AckEvent, SendState};
use catnip::seq_number::SeqNumber;

fn seq(v: u32) -> SeqNumber {
    SeqNumber::from_u32(v)
}

#[test]
fn seq_number_wrapping_order() {
    assert!(seq(0xffff_fff0).lt(seq(5)));
    assert!(!seq(5).lt(seq(0xffff_fff0)));
    assert!(seq(5).le(seq(5)));
    assert!(seq(1).lt(seq(2)));
    assert_eq!(seq(0xffff_ffff).add(2).value, 1);
}

#[test]
fn ack_advances_snd_una() {
    let mut s = SendState::new(seq(0xffff_fff0), 1000);
    s.on_send(100);
    assert_eq!(s.snd_nxt.value, 0x54);
    assert_eq!(s.usable_window(), 900);
    let e = s.on_ack(seq(7), seq(0x10), 2000, false);
    assert_eq!(e, AckEvent::Advanced(0x20));
    assert_eq!(s.snd_una.value, 0x10);
    assert_eq!(s.snd_wnd, 2000);
    assert_eq!(s.snd_wl1.value, 7);
}

#[test]
fn old_and_future_acks_leave_snd_una() {
    let mut s = SendState::new(seq(100), 1000);
    s.on_send(50);
    assert_eq!(s.on_ack(seq(1), seq(99), 1000, true), AckEvent::Other);
    assert_eq!(s.snd_una.value, 100);
    assert_eq!(s.on_ack(seq(1), seq(151), 1000, true), AckEvent::Other);
    assert_eq!(s.snd_una.value, 100);
    assert_eq!(s.on_ack(seq(1), seq(150), 1000, true), AckEvent::Advanced(50));
    assert_eq!(s.snd_una.value, 150);
}

#[test]
fn third_duplicate_ack() {
    let mut s = SendState::new(seq(100), 1000);
    s.on_send(300);
    assert_eq!(s.on_ack(seq(1), seq(200), 1000, false), AckEvent::Advanced(100));
    assert_eq!(s.on_ack(seq(1), seq(200), 1000, false), AckEvent::Duplicate(1));
    assert_eq!(s.on_ack(seq(1), seq(200), 1000, false), AckEvent::Duplicate(2));
    assert_eq!(s.on_ack(seq(1), seq(200), 1000, false), AckEvent::Duplicate(3));
    assert_eq!(s.on_ack(seq(1), seq(250), 1000, false), AckEvent::Advanced(50));
    assert_eq!(s.dup_acks, 0);
}

#[test]
fn stale_window_update_is_ignored() {
    let mut s = SendState::new(seq(100), 1000);
    s.on_ack(seq(50), seq(100), 500, false);
    assert_eq!(s.snd_wnd, 500);
    s.on_ack(seq(40), seq(100), 9000, false);
    assert_eq!(s.snd_wnd, 500);
}

#[test]
fn in_order_delivery() {
    let mut r = Receiver::new(seq(1000), 4096);
    let body: Vec<u8> = (0..32u8).collect();
    assert!(r.receive(seq(1000), body.clone()));
    assert_eq!(r.rcv_nxt.value, 1032);
    assert_eq!(r.pop(), body);
    assert!(r.pop().is_empty());
}

#[test]
fn out_of_order_reassembly() {
    let mut r = Receiver::new(seq(0xffff_fffe), 4096);
    assert!(r.receive(seq(4), vec![6, 7, 8]));
    assert!(r.receive(seq(1), vec![3, 4, 5]));
    assert!(r.pop().is_empty());
    assert!(r.receive(seq(0xffff_fffe), vec![0, 1, 2]));
    assert_eq!(r.pop(), vec![0, 1, 2, 3, 4, 5, 6, 7, 8]);
    assert_eq!(r.rcv_nxt.value, 7);
    assert!(r.out_of_order.is_empty());
}

#[test]
fn duplicates_and_overlaps() {
    let mut r = Receiver::new(seq(10), 100);
    assert!(r.receive(seq(10), vec![1, 2, 3, 4]));
    assert!(!r.receive(seq(10), vec![1, 2, 3, 4]));
    assert!(r.receive(seq(12), vec![3, 4, 5, 6]));
    assert_eq!(r.pop(), vec![1, 2, 3, 4, 5, 6]);
    assert!(!r.receive(seq(16 + 100), vec![9]));
    assert_eq!(r.rcv_nxt.value, 16);
}

#[test]
fn stored_segment_overlapping_delivery() {
    let mut r = Receiver::new(seq(0), 100);
    assert!(r.receive(seq(2), vec![2, 3, 4, 5]));
    assert!(r.receive(seq(0), vec![0, 1, 2, 3]));
    assert_eq!(r.pop(), vec![0, 1, 2, 3, 4, 5]);
}
