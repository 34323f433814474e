use vstd::prelude::*;
use crate::congestion_control::NewReno;
use crate::fail::{Fail, FailKind};
use crate::ipv4::Ipv4Endpoint;
use crate::receiver::{
    agrees, received, relative, slice_of, segment_offset, Receiver, MAX_STREAM_OFFSET,
};
use crate::rto::{after_sample, RtoEstimator};
use crate::sender::{acks_new_data, in_flight, AckEvent, SendState, MAX_IN_FLIGHT};
use crate::seq_number::{seq_le, wrapping_add, wrapping_diff, SeqNumber};
use crate::state::{close_transition, on_close_event, CloseEvent, State};
use crate::tcp::{scale_window, ControlBlock, TcpHeader, FALLBACK_MSS, MAX_WINDOW_SCALE};

verus! {

/// An established connection: its parameters, send and receive state,
/// retransmission timer, and the bytes that the application wrote and that
/// have not gone out yet.
pub struct EstablishedSocket {
    pub cb: ControlBlock,
    pub sender: SendState,
    pub receiver: Receiver,
    pub rto: RtoEstimator,
    pub cc: NewReno,
    pub unsent: Vec<u8>,
    /// The bytes sent and not yet acknowledged, from SND.UNA to SND.NXT.
    pub unacked: Vec<u8>,
    /// The segment being timed for a round-trip sample: the sequence number
    /// just past it, and when it went out.
    pub rtt_probe: Option<(SeqNumber, u64)>,
    /// The peer reset the connection.
    pub reset: bool,
    /// Where the connection stands in its lifecycle.
    pub state: State,
    /// The application closed its side: a FIN follows the unsent bytes.
    pub fin_queued: bool,
    /// The peer acknowledged our FIN.
    pub fin_acked: bool,
}

/// What an incoming segment did.
#[derive(Debug, Clone, Copy, PartialEq, Eq)]
pub struct ReceiveOutcome {
    /// What its acknowledgement did, where it carried one and was taken.
    pub ack_event: Option<AckEvent>,
    /// It passed the acceptability test.
    pub accepted: bool,
    /// An ACK is owed at once: the segment was unacceptable, its data came
    /// out of order, or it carried the peer's FIN.
    pub ack_now: bool,
    /// It carried the peer's FIN, which was taken: the reader is at EOF
    /// once the bytes before it are read.
    pub fin: bool,
}

/// A segment carries an ACK of our FIN: the FIN is queued and every byte
/// before it was sent, so it sits at SND.NXT, and the ACK is SND.NXT + 1.
pub open spec fn fin_acked_by(s: EstablishedSocket, header: TcpHeader) -> bool {
    &&& header.ack
    &&& s.fin_queued
    &&& !s.fin_acked
    &&& s.unsent@.len() == 0
    &&& header.ack_num.value == wrapping_add(s.sender.snd_nxt.value, 1)
}

/// The acknowledgement that the data side sees: an ACK of our FIN covers
/// every byte, up to SND.NXT.
pub open spec fn effective_ack(s: EstablishedSocket, header: TcpHeader) -> u32 {
    if fin_acked_by(s, header) {
        s.sender.snd_nxt.value
    } else {
        header.ack_num.value
    }
}

/// The acceptability test of a segment with `len` bytes of data at `seq`;
/// a payload that no IPv4 datagram can carry is refused.
pub open spec fn segment_ok(s: EstablishedSocket, seq: u32, len: int) -> bool {
    &&& len <= 0xFFFF
    &&& (len == 0 || s.receiver.total < MAX_STREAM_OFFSET)
    &&& s.receiver.segment_acceptable(seq, len)
}

/// The lifecycle event of a segment that carried the peer's FIN (`fin`)
/// and an ACK of ours (`acked`).
pub open spec fn segment_close_event(fin: bool, acked: bool) -> Option<CloseEvent> {
    if fin && acked {
        Some(CloseEvent::FinAndAckOfFin)
    } else if fin {
        Some(CloseEvent::FinReceived)
    } else if acked {
        Some(CloseEvent::AckOfFin)
    } else {
        None
    }
}

pub open spec fn state_after(s: State, fin: bool, acked: bool) -> State {
    match segment_close_event(fin, acked) {
        Some(e) => close_transition(s, e).0,
        None => s,
    }
}

/// The application may still write.
pub open spec fn can_send(s: State) -> bool {
    s == State::Established || s == State::CloseWait
}

/// The smaller of two numbers.
pub open spec fn min(a: int, b: int) -> int {
    if a <= b {
        a
    } else {
        b
    }
}

impl EstablishedSocket {
    pub open spec fn wf(&self) -> bool {
        &&& self.sender.wf()
        &&& self.receiver.wf()
        &&& self.rto.wf()
        &&& self.cc.wf()
        &&& !self.reset ==> self.unacked@.len() == in_flight(self.sender)
        &&& self.reset ==> self.state == State::Closed && self.unacked@.len() == 0
            && self.unsent@.len() == 0
        &&& self.cb.sender_window_scale <= MAX_WINDOW_SCALE
    }

    /// The connection that `cb` describes, with nothing sent or received
    /// yet. Congestion control counts in segments of the peer's size, or of
    /// `FALLBACK_MSS` where the peer gave a size of zero.
    pub fn new(cb: ControlBlock) -> (r: EstablishedSocket)
        requires
            cb.sender_window_scale <= MAX_WINDOW_SCALE,
            cb.receive_window_size < 0x8000_0000,
        ensures
            r.wf(),
            r.cb == cb,
            r.sender.snd_una == cb.sender_seq_no,
            r.sender.snd_nxt == cb.sender_seq_no,
            r.sender.snd_wnd == cb.sender_window_size,
            r.receiver.rcv_nxt == cb.receive_seq_no,
            r.receiver.rcv_wnd == cb.receive_window_size,
            r.receiver.total == 0,
            r.cc.mss == if cb.mss == 0 {
                FALLBACK_MSS as int
            } else if cb.mss > 0xFFFF {
                0xFFFF
            } else {
                cb.mss as int
            },
            r.unsent@.len() == 0,
            r.unacked@.len() == 0,
            r.rtt_probe is None,
            !r.reset,
            r.state == State::Established,
            !r.fin_queued,
            !r.fin_acked,
            !r.receiver.fin_received,
            forall|stream: Seq<u8>| agrees(&r.receiver, stream),
    {
        let cc_mss: u16 = if cb.mss == 0 {
            FALLBACK_MSS as u16
        } else if cb.mss > 0xFFFF {
            0xFFFF
        } else {
            cb.mss as u16
        };
        EstablishedSocket {
            cb,
            sender: SendState::new(cb.sender_seq_no, cb.sender_window_size),
            receiver: Receiver::new(cb.receive_seq_no, cb.receive_window_size),
            rto: RtoEstimator::new(),
            cc: NewReno::new(cc_mss),
            unsent: Vec::new(),
            unacked: Vec::new(),
            rtt_probe: None,
            reset: false,
            state: State::Established,
            fin_queued: false,
            fin_acked: false,
        }
    }

    /// Processes the acknowledgement and window of a segment; see
    /// `receive`.
    fn process_ack(&mut self, seq: SeqNumber, ack: SeqNumber, window: u16, has_data: bool, now: u64) -> (r: AckEvent)
        requires
            old(self).wf(),
            !old(self).reset,
        ensures
            final(self).wf(),
            final(self).cc.mss == old(self).cc.mss,
            r matches AckEvent::Advanced(_) ==> !final(self).cc.in_recovery,
            r == AckEvent::Duplicate(3) ==> final(self).cc.in_recovery,
            final(self).cb == old(self).cb,
            final(self).unsent@ == old(self).unsent@,
            final(self).state == old(self).state,
            final(self).fin_queued == old(self).fin_queued,
            final(self).fin_acked == old(self).fin_acked,
            final(self).reset == old(self).reset,
            final(self).receiver == old(self).receiver,
            final(self).sender.snd_nxt == old(self).sender.snd_nxt,
            !acks_new_data(old(self).sender, ack.value) ==> final(self).sender.snd_una
                == old(self).sender.snd_una,
            (r matches AckEvent::Advanced(n) ==> final(self).unacked@ == old(self).unacked@.subrange(
                n as int,
                old(self).unacked@.len() as int,
            )),
            !(r matches AckEvent::Advanced(_)) ==> final(self).unacked@ == old(self).unacked@,
            seq_le(old(self).sender.snd_una.value, final(self).sender.snd_una.value),
            acks_new_data(old(self).sender, ack.value) ==> final(self).sender.snd_una == ack,
            (r matches AckEvent::Advanced(n) && (old(self).rtt_probe matches Some((end, t))
                && wrapping_diff(end.value, old(self).sender.snd_una.value) <= n)) ==> {
                &&& final(self).rto == after_sample(
                    old(self).rto,
                    (if now >= old(self).rtt_probe->Some_0.1 {
                        now - old(self).rtt_probe->Some_0.1
                    } else {
                        0
                    }) as u64,
                )
                &&& final(self).rtt_probe is None
            },
            (r matches AckEvent::Advanced(n) && !(old(self).rtt_probe matches Some((end, t))
                && wrapping_diff(end.value, old(self).sender.snd_una.value) <= n)) ==> {
                &&& final(self).rto == old(self).rto
                &&& final(self).rtt_probe == old(self).rtt_probe
            },
            r == AckEvent::Duplicate(3) ==> final(self).rto == old(self).rto
                && final(self).rtt_probe is None,
            !(r matches AckEvent::Advanced(_)) && r != AckEvent::Duplicate(3) ==> final(self).rto
                == old(self).rto && final(self).rtt_probe == old(self).rtt_probe,
    {
        let wnd: u32 = scale_window(window, self.cb.sender_window_scale);
        let una: SeqNumber = self.sender.snd_una;
        let e = self.sender.on_ack(seq, ack, wnd, has_data);
        match e {
            AckEvent::Advanced(n) => {
                let rest: Vec<u8> = self.unacked.split_off(n as usize);
                self.unacked = rest;
                self.cc.on_ack(n as u64);
                match self.rtt_probe {
                    Some((end, t)) => {
                        if end.value.wrapping_sub(una.value) <= n {
                            self.rto.add_sample(now.saturating_sub(t));
                            self.rtt_probe = None;
                        }
                    },
                    None => {},
                }
            },
            AckEvent::Duplicate(c) => {
                if c == 3 {
                    self.rtt_probe = None;
                    let flight: u32 = self.sender.snd_nxt.value.wrapping_sub(self.sender.snd_una.value);
                    self.cc.on_fast_retransmit(flight as u64);
                } else {
                    self.cc.on_duplicate_ack();
                }
            },
            AckEvent::Other => {},
        }
        e
    }

    /// The peer reset the connection: it closes at once, and the bytes
    /// queued to send, those in flight and those received but not read are
    /// dropped.
    fn drop_all(&mut self)
        requires
            old(self).wf(),
        ensures
            final(self).wf(),
            final(self).reset,
            final(self).state == State::Closed,
            final(self).unsent@.len() == 0,
            final(self).unacked@.len() == 0,
            final(self).receiver.buffer@.len() == 0,
            final(self).receiver.out_of_order@.len() == 0,
            final(self).sender == old(self).sender,
            final(self).cb == old(self).cb,
            final(self).cc == old(self).cc,
    {
        self.unsent = Vec::new();
        self.unacked = Vec::new();
        self.receiver = Receiver::new(self.receiver.rcv_nxt, self.receiver.rcv_wnd);
        self.rtt_probe = None;
        self.fin_queued = false;
        self.reset = true;
        self.state = State::Closed;
    }

    /// Handles a segment of this connection, received at time `now`.
    /// - Once the connection is reset, nothing changes.
    /// - A RST at RCV.NXT resets it (`drop_all`); any other RST is ignored.
    /// - A segment that fails the acceptability test is dropped, and an
    ///   ACK is owed at once.
    /// - Otherwise its acknowledgement and window are processed and
    ///   reported to the congestion controller (an ACK of our FIN covers
    ///   every byte); an ACK that covers the timed segment gives a
    ///   round-trip sample, none after a retransmission (Karn's algorithm);
    ///   then its data is delivered or stored out of order; then a FIN
    ///   that falls at RCV.NXT is taken. The lifecycle state follows the
    ///   FINs seen and acknowledged.
    pub fn receive(&mut self, header: &TcpHeader, data: Vec<u8>, now: u64) -> (r: ReceiveOutcome)
        requires
            old(self).wf(),
        ensures
            final(self).wf(),
            final(self).cb == old(self).cb,
            final(self).cc.mss == old(self).cc.mss,
            old(self).reset ==> {
                &&& r == (ReceiveOutcome { ack_event: None, accepted: false, ack_now: false, fin: false })
                &&& final(self).reset
                &&& final(self).sender == old(self).sender
                &&& final(self).receiver == old(self).receiver
                &&& final(self).state == old(self).state
            },
            !old(self).reset && header.rst && header.seq_num == old(self).receiver.rcv_nxt ==> {
                &&& final(self).reset
                &&& final(self).state == State::Closed
                &&& final(self).unsent@.len() == 0
                &&& final(self).unacked@.len() == 0
                &&& final(self).receiver.buffer@.len() == 0
                &&& final(self).receiver.out_of_order@.len() == 0
                &&& r.ack_event is None && !r.accepted && !r.fin
            },
            !old(self).reset && header.rst && header.seq_num != old(self).receiver.rcv_nxt ==> {
                &&& !final(self).reset
                &&& final(self).sender == old(self).sender
                &&& final(self).receiver == old(self).receiver
                &&& final(self).unsent@ == old(self).unsent@
                &&& final(self).unacked@ == old(self).unacked@
                &&& final(self).state == old(self).state
                &&& r.ack_event is None && !r.accepted && !r.fin
            },
            !old(self).reset && !header.rst ==> ({
                let o = *old(self);
                let len = data@.len() as int;
                let rel = relative(header.seq_num.value, o.receiver.rcv_nxt.value);
                let acked = fin_acked_by(o, *header);
                let ack = effective_ack(o, *header);
                &&& !final(self).reset
                &&& r.accepted == segment_ok(o, header.seq_num.value, len)
                &&& !r.accepted ==> {
                    &&& r == (ReceiveOutcome { ack_event: None, accepted: false, ack_now: true, fin: false })
                    &&& final(self).sender == o.sender
                    &&& final(self).receiver == o.receiver
                    &&& final(self).unacked@ == o.unacked@
                    &&& final(self).state == o.state
                }
                &&& r.accepted ==> {
                    &&& (r.ack_event is Some) == header.ack
                    &&& final(self).sender.snd_nxt == o.sender.snd_nxt
                    &&& seq_le(o.sender.snd_una.value, final(self).sender.snd_una.value)
                    &&& header.ack && acks_new_data(o.sender, ack) ==> final(self).sender.snd_una.value == ack
                    &&& !(header.ack && acks_new_data(o.sender, ack)) ==> final(self).sender.snd_una == o.sender.snd_una
                    &&& (r.ack_event matches Some(AckEvent::Advanced(n)) ==> final(self).unacked@
                        == o.unacked@.subrange(n as int, o.unacked@.len() as int))
                    &&& !(r.ack_event matches Some(AckEvent::Advanced(_))) ==> final(self).unacked@ == o.unacked@
                    &&& (r.ack_event matches Some(AckEvent::Advanced(_))) ==> !final(self).cc.in_recovery
                    &&& r.ack_event == Some(AckEvent::Duplicate(3)) ==> final(self).cc.in_recovery
                        && final(self).rtt_probe is None
                    &&& len > 0 && !o.receiver.fin_received && rel == 0 ==> {
                        &&& final(self).receiver.total >= o.receiver.total + len
                        &&& received(&final(self).receiver).subrange(
                            o.receiver.total as int,
                            o.receiver.total + len,
                        ) == data@
                    }
                    &&& len > 0 && !o.receiver.fin_received && rel > 0 ==> {
                        &&& final(self).receiver.out_of_order@ == o.receiver.out_of_order@.push(
                            ((o.receiver.total + rel) as u64, data),
                        )
                        &&& final(self).receiver.total == o.receiver.total
                        &&& final(self).receiver.buffer@ == o.receiver.buffer@
                    }
                    &&& r.fin ==> header.fin && final(self).receiver.fin_received
                    &&& !header.fin || o.receiver.fin_received ==> !r.fin
                        && final(self).receiver.fin_received == o.receiver.fin_received
                    &&& header.fin && !o.receiver.fin_received ==> r.fin == (wrapping_add(
                        header.seq_num.value,
                        len as u32,
                    ) == wrapping_add(
                        o.receiver.initial_seq,
                        (final(self).receiver.total % 0x1_0000_0000) as u32,
                    ))
                    &&& r.ack_now == (r.fin || (len > 0 && !o.receiver.fin_received && rel > 0))
                    &&& final(self).fin_acked == (o.fin_acked || acked)
                    &&& final(self).state == state_after(o.state, r.fin, acked)
                }
            }),
            !old(self).reset && !(header.rst && header.seq_num == old(self).receiver.rcv_nxt) ==> {
                &&& final(self).unsent@ == old(self).unsent@
                &&& final(self).receiver.popped == old(self).receiver.popped
                &&& received(&final(self).receiver).take(old(self).receiver.total as int)
                    == received(&old(self).receiver)
                &&& forall|stream: Seq<u8>|
                    agrees(&old(self).receiver, stream) && slice_of(
                        stream,
                        segment_offset(&old(self).receiver, header.seq_num.value),
                        data@,
                    ) ==> #[trigger] agrees(&final(self).receiver, stream)
            },
    {
        let none = ReceiveOutcome { ack_event: None, accepted: false, ack_now: false, fin: false };
        proof {
            assert(received(&self.receiver).take(self.receiver.total as int) =~= received(
                &self.receiver,
            ));
        }
        if self.reset {
            return none;
        }
        if header.rst {
            if header.seq_num == self.receiver.rcv_nxt {
                self.drop_all();
            }
            return none;
        }
        let len: usize = data.len();
        if len > 0xFFFF || (len > 0 && self.receiver.total >= MAX_STREAM_OFFSET)
            || !self.receiver.accepts(header.seq_num, len) {
            return ReceiveOutcome { ack_event: None, accepted: false, ack_now: true, fin: false };
        }
        let acked: bool = header.ack && self.fin_queued && !self.fin_acked && self.unsent.len() == 0
            && header.ack_num == self.sender.snd_nxt.add(1);
        let mut ack_event: Option<AckEvent> = None;
        if header.ack {
            let ack: SeqNumber = if acked {
                self.sender.snd_nxt
            } else {
                header.ack_num
            };
            ack_event = Some(self.process_ack(header.seq_num, ack, header.window_size, len > 0, now));
        }
        let out_of_order: bool = len > 0 && !self.receiver.fin_received
            && header.seq_num != self.receiver.rcv_nxt
            && header.seq_num.value.wrapping_sub(self.receiver.rcv_nxt.value) < 0x8000_0000;
        if len > 0 {
            self.receiver.receive(header.seq_num, data);
        }
        let fin: bool = if header.fin {
            self.receiver.receive_fin(header.seq_num, len)
        } else {
            false
        };
        if acked {
            self.fin_acked = true;
        }
        let event: Option<CloseEvent> = if fin && acked {
            Some(CloseEvent::FinAndAckOfFin)
        } else if fin {
            Some(CloseEvent::FinReceived)
        } else if acked {
            Some(CloseEvent::AckOfFin)
        } else {
            None
        };
        match event {
            Some(e) => {
                self.state = on_close_event(self.state, e).0;
            },
            None => {},
        }
        ReceiveOutcome { ack_event, accepted: true, ack_now: fin || out_of_order, fin }
    }

    /// The retransmission timer expired: the timeout backs off and the
    /// congestion controller restarts from one segment, and the timed
    /// segment is no longer timed. The segment at SND.UNA is to be sent
    /// again.
    pub fn on_retransmit_timeout(&mut self)
        requires
            old(self).wf(),
        ensures
            final(self).wf(),
            final(self).rto.rto == if 2 * old(self).rto.rto > crate::rto::MAX_RTO {
                crate::rto::MAX_RTO as int
            } else {
                2 * old(self).rto.rto
            },
            final(self).cc.cwnd == old(self).cc.mss,
            final(self).rtt_probe is None,
            final(self).cc.ssthresh == crate::congestion_control::spec_min(
                crate::congestion_control::loss_threshold(old(self).cc.mss, in_flight(old(self).sender) as u64) as int,
                crate::congestion_control::MAX_CWND as int,
            ),
            final(self).sender == old(self).sender,
            final(self).receiver == old(self).receiver,
            final(self).unsent@ == old(self).unsent@,
            final(self).cb == old(self).cb,
            final(self).reset == old(self).reset,
            final(self).state == old(self).state,
    {
        self.rto.on_timeout();
        self.rtt_probe = None;
        let flight: u32 = self.sender.snd_nxt.value.wrapping_sub(self.sender.snd_una.value);
        self.cc.on_timeout(flight as u64);
    }

    /// Queues bytes that the application writes: refused once the
    /// connection is reset, or once the application closed its side.
    pub fn send(&mut self, buf: Vec<u8>) -> (r: Result<(), Fail>)
        requires
            old(self).wf(),
        ensures
            final(self).wf(),
            old(self).reset ==> r == Err::<(), Fail>(Fail { kind: FailKind::ConnectionReset })
                && final(self).unsent@ == old(self).unsent@,
            !old(self).reset && !can_send(old(self).state) ==> r == Err::<(), Fail>(
                Fail { kind: FailKind::NotConnected },
            ) && final(self).unsent@ == old(self).unsent@,
            !old(self).reset && can_send(old(self).state) ==> r is Ok && final(self).unsent@
                == old(self).unsent@ + buf@,
            final(self).sender == old(self).sender,
            final(self).receiver == old(self).receiver,
            final(self).reset == old(self).reset,
            final(self).state == old(self).state,
            final(self).fin_queued == old(self).fin_queued,
            final(self).cb == old(self).cb,
    {
        if self.reset {
            return Err(Fail::new(FailKind::ConnectionReset));
        }
        if !(self.state == State::Established || self.state == State::CloseWait) {
            return Err(Fail::new(FailKind::NotConnected));
        }
        let mut i: usize = 0;
        while i < buf.len()
            invariant
                i <= buf@.len(),
                self.unsent@ == old(self).unsent@ + buf@.subrange(0, i as int),
                self.sender == old(self).sender,
                self.receiver == old(self).receiver,
                self.rto == old(self).rto,
                self.cc == old(self).cc,
                self.unacked@ == old(self).unacked@,
                self.rtt_probe == old(self).rtt_probe,
                self.cb == old(self).cb,
                self.reset == old(self).reset,
                self.state == old(self).state,
                self.fin_queued == old(self).fin_queued,
                self.fin_acked == old(self).fin_acked,
            decreases buf@.len() - i,
        {
            self.unsent.push(buf[i]);
            i = i + 1;
            assert(self.unsent@ =~= old(self).unsent@ + buf@.subrange(0, i as int));
        }
        assert(buf@.subrange(0, buf@.len() as int) =~= buf@);
        Ok(())
    }

    /// How many bytes the next segment carries: no more than the segment
    /// size that congestion control counts in, the room left in the peer's
    /// window and in the congestion window, the room left in half the
    /// sequence space, and what is unsent.
    pub open spec fn segment_size_spec(&self) -> int {
        let free = if in_flight(self.sender) < self.sender.snd_wnd {
            self.sender.snd_wnd - in_flight(self.sender)
        } else {
            0
        };
        let cwnd_free = if in_flight(self.sender) < self.cc.cwnd {
            self.cc.cwnd - in_flight(self.sender)
        } else {
            0
        };
        min(
            min(min(min(self.cc.mss as int, free), cwnd_free), MAX_IN_FLIGHT - in_flight(self.sender)),
            self.unsent@.len() as int,
        )
    }

    fn segment_size(&self) -> (r: usize)
        requires
            self.wf(),
        ensures
            r == self.segment_size_spec(),
    {
        let flight: u32 = self.sender.snd_nxt.value.wrapping_sub(self.sender.snd_una.value);
        let mut n: usize = self.sender.usable_window() as usize;
        if (self.cc.mss as usize) < n {
            n = self.cc.mss as usize;
        }
        let cwnd_free: u64 = if (flight as u64) < self.cc.cwnd {
            self.cc.cwnd - flight as u64
        } else {
            0
        };
        if cwnd_free < n as u64 {
            n = cwnd_free as usize;
        }
        let space: usize = (MAX_IN_FLIGHT - flight) as usize;
        if space < n {
            n = space;
        }
        if self.unsent.len() < n {
            n = self.unsent.len();
        }
        n
    }

    /// The next segment to transmit: as many unsent bytes as
    /// `segment_size_spec` admits, starting at SND.NXT, which moves past
    /// them, and never past the peer's window. `None` where nothing can go,
    /// and once the connection is reset. Where no segment is being timed,
    /// this one is, from `now`.
    pub fn next_segment(&mut self, now: u64) -> (r: Option<(SeqNumber, Vec<u8>)>)
        requires
            old(self).wf(),
        ensures
            final(self).wf(),
            old(self).reset ==> r is None && final(self).unsent@ == old(self).unsent@,
            !old(self).reset ==> ({
                let o = *old(self);
                let n = o.segment_size_spec();
                &&& n == 0 ==> r is None && final(self).unsent@ == o.unsent@ && final(self).sender == o.sender
                    && final(self).unacked@ == o.unacked@ && final(self).rtt_probe == o.rtt_probe
                &&& n > 0 ==> {
                    &&& r is Some
                    &&& r->Some_0.0 == o.sender.snd_nxt
                    &&& r->Some_0.1@ == o.unsent@.subrange(0, n)
                    &&& final(self).unsent@ == o.unsent@.subrange(n, o.unsent@.len() as int)
                    &&& final(self).unacked@ == o.unacked@ + o.unsent@.subrange(0, n)
                    &&& final(self).rtt_probe == if o.rtt_probe is None {
                        Some((final(self).sender.snd_nxt, now))
                    } else {
                        o.rtt_probe
                    }
                    &&& in_flight(final(self).sender) == in_flight(o.sender) + n
                    &&& in_flight(final(self).sender) <= final(self).sender.snd_wnd
                    &&& final(self).sender.snd_una == o.sender.snd_una
                }
            }),
            final(self).receiver == old(self).receiver,
            final(self).cb == old(self).cb,
            final(self).reset == old(self).reset,
            final(self).state == old(self).state,
            final(self).fin_queued == old(self).fin_queued,
    {
        if self.reset {
            return None;
        }
        let n: usize = self.segment_size();
        if n == 0 {
            return None;
        }
        let rest: Vec<u8> = self.unsent.split_off(n);
        let mut seg: Vec<u8> = rest;
        std::mem::swap(&mut seg, &mut self.unsent);
        let seq: SeqNumber = self.sender.snd_nxt;
        self.sender.on_send(n as u32);
        let ghost mid = *self;
        let mut i: usize = 0;
        while i < seg.len()
            invariant
                i <= seg@.len(),
                self.unacked@ == old(self).unacked@ + seg@.take(i as int),
                self.sender == mid.sender,
                self.unsent@ == mid.unsent@,
                self.receiver == mid.receiver,
                self.rto == mid.rto,
                self.cc == mid.cc,
                self.cb == mid.cb,
                self.reset == mid.reset,
                self.state == mid.state,
                self.fin_queued == mid.fin_queued,
                self.fin_acked == mid.fin_acked,
                self.rtt_probe == mid.rtt_probe,
            decreases seg@.len() - i,
        {
            self.unacked.push(seg[i]);
            i = i + 1;
            assert(self.unacked@ =~= old(self).unacked@ + seg@.take(i as int));
        }
        assert(seg@.take(seg@.len() as int) =~= seg@);
        if self.rtt_probe.is_none() {
            self.rtt_probe = Some((self.sender.snd_nxt, now));
        }
        Some((seq, seg))
    }

    /// The segment to send again after a retransmission timeout or a third
    /// duplicate ACK: the oldest unacknowledged bytes, at SND.UNA, as many
    /// as one segment holds. `None` where nothing is unacknowledged, and
    /// once the connection is reset.
    pub fn retransmit_segment(&self) -> (r: Option<(SeqNumber, Vec<u8>)>)
        requires
            self.wf(),
        ensures
            self.reset || self.unacked@.len() == 0 ==> r is None,
            !self.reset && self.unacked@.len() > 0 ==> (r matches Some((seq, data)) && seq == self.sender.snd_una
                && data@ == self.unacked@.take(min(self.cc.mss as int, self.unacked@.len() as int))),
    {
        if self.reset || self.unacked.len() == 0 {
            return None;
        }
        let n: usize = if (self.cc.mss as usize) < self.unacked.len() {
            self.cc.mss as usize
        } else {
            self.unacked.len()
        };
        let mut data: Vec<u8> = Vec::new();
        let mut i: usize = 0;
        while i < n
            invariant
                n <= self.unacked@.len(),
                i <= n,
                data@ == self.unacked@.take(i as int),
            decreases n - i,
        {
            data.push(self.unacked[i]);
            i = i + 1;
            assert(data@ =~= self.unacked@.take(i as int));
        }
        Some((self.sender.snd_una, data))
    }

    /// Takes what the peer sent and the application has not read: `None`
    /// where nothing waits, an empty buffer at EOF (the peer's FIN came and
    /// every byte before it was read), an error once the connection was
    /// reset.
    pub fn poll_recv(&mut self) -> (r: Option<Result<Vec<u8>, Fail>>)
        requires
            old(self).wf(),
        ensures
            final(self).wf(),
            old(self).reset ==> r == Some(Err::<Vec<u8>, Fail>(Fail { kind: FailKind::ConnectionReset }))
                && final(self).receiver == old(self).receiver,
            !old(self).reset && old(self).receiver.buffer@.len() == 0 ==> final(self).receiver
                == old(self).receiver && if old(self).receiver.fin_received {
                r matches Some(Ok(bytes)) && bytes@.len() == 0
            } else {
                r is None
            },
            !old(self).reset && old(self).receiver.buffer@.len() > 0 ==> {
                &&& r matches Some(Ok(bytes))
                &&& bytes@ == old(self).receiver.buffer@
                &&& final(self).receiver.popped@ == old(self).receiver.popped@ + bytes@
                &&& final(self).receiver.buffer@.len() == 0
            },
            received(&final(self).receiver) == received(&old(self).receiver),
            forall|stream: Seq<u8>| agrees(&old(self).receiver, stream) ==> #[trigger] agrees(&final(self).receiver, stream),
            final(self).sender == old(self).sender,
            final(self).reset == old(self).reset,
    {
        if self.reset {
            return Some(Err(Fail::new(FailKind::ConnectionReset)));
        }
        if self.receiver.buffer.len() == 0 {
            if self.receiver.fin_received {
                return Some(Ok(Vec::new()));
            }
            return None;
        }
        Some(Ok(self.receiver.pop()))
    }

    /// Closes the application's side: from ESTABLISHED to FIN-WAIT-1, or
    /// from CLOSE-WAIT to LAST-ACK, with a FIN queued after the bytes still
    /// unsent. In any other state the connection is already closing or
    /// closed, and the call fails.
    pub fn close(&mut self) -> (r: Result<(), Fail>)
        requires
            old(self).wf(),
        ensures
            final(self).wf(),
            can_send(old(self).state) && !old(self).reset ==> {
                &&& r is Ok
                &&& final(self).state == close_transition(old(self).state, CloseEvent::Close).0
                &&& final(self).fin_queued
            },
            !(can_send(old(self).state) && !old(self).reset) ==> {
                &&& r == Err::<(), Fail>(Fail { kind: FailKind::BadDescriptor })
                &&& final(self).state == old(self).state
                &&& final(self).fin_queued == old(self).fin_queued
            },
            final(self).sender == old(self).sender,
            final(self).receiver == old(self).receiver,
            final(self).unsent@ == old(self).unsent@,
            final(self).reset == old(self).reset,
    {
        if self.reset || !(self.state == State::Established || self.state == State::CloseWait) {
            return Err(Fail::new(FailKind::BadDescriptor));
        }
        self.state = on_close_event(self.state, CloseEvent::Close).0;
        self.fin_queued = true;
        Ok(())
    }

    /// The sequence number of our FIN, to be sent (or sent again) now:
    /// where the application closed its side, every byte before the FIN
    /// went out, the peer has not acknowledged it, and the connection is
    /// not reset.
    pub fn fin_segment(&self) -> (r: Option<SeqNumber>)
        ensures
            r == if !self.reset && self.fin_queued && !self.fin_acked && self.unsent@.len() == 0 {
                Some(self.sender.snd_nxt)
            } else {
                None::<SeqNumber>
            },
    {
        if !self.reset && self.fin_queued && !self.fin_acked && self.unsent.len() == 0 {
            Some(self.sender.snd_nxt)
        } else {
            None
        }
    }

    pub fn remote_mss(&self) -> (r: usize)
        ensures
            r == self.cb.mss,
    {
        self.cb.remote_mss()
    }

    /// The current retransmission timeout, in milliseconds.
    pub fn current_rto(&self) -> (r: u64)
        ensures
            r == self.rto.rto,
    {
        self.rto.estimate()
    }

    /// The local and the remote endpoint.
    pub fn endpoints(&self) -> (r: (Ipv4Endpoint, Ipv4Endpoint))
        ensures
            r == (self.cb.local, self.cb.remote),
    {
        (self.cb.get_local(), self.cb.get_remote())
    }
}

} // verus!
