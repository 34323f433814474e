use vstd::prelude::*;
use crate::seq_number::{seq_le, seq_lt, wrapping_add, wrapping_diff, SeqNumber};

verus! {

/// Half the sequence space: no more than this may be in flight.
pub const MAX_IN_FLIGHT: u32 = 0x7fff_ffff;

/// What an incoming acknowledgement did to the send state.
#[derive(Debug, Clone, Copy, PartialEq, Eq, Structural)]
pub enum AckEvent {
    /// SND.UNA moved on by this many bytes.
    Advanced(u32),
    /// A duplicate ACK; this many in a row so far.
    Duplicate(u32),
    /// Neither new nor duplicate.
    Other,
}

/// The send side of a connection: SND.UNA, SND.NXT, SND.WND, and the
/// segment that last updated the window (SND.WL1, SND.WL2).
#[derive(Debug, Clone, Copy, PartialEq, Eq, Structural)]
pub struct SendState {
    pub snd_una: SeqNumber,
    pub snd_nxt: SeqNumber,
    pub snd_wnd: u32,
    pub snd_wl1: SeqNumber,
    pub snd_wl2: SeqNumber,
    pub dup_acks: u32,
}

/// The bytes sent and not yet acknowledged.
pub open spec fn in_flight(s: SendState) -> int {
    wrapping_diff(s.snd_nxt.value, s.snd_una.value)
}

/// An acknowledgement of new data, `SND.UNA < ack <= SND.NXT`: `ack` lies
/// past SND.UNA and within the bytes in flight.
pub open spec fn acks_new_data(s: SendState, ack: u32) -> bool {
    0 < wrapping_diff(ack, s.snd_una.value) <= in_flight(s)
}

/// The window update test: `SND.WL1 < seq`, or `SND.WL1 = seq` and
/// `SND.WL2 <= ack`.
pub open spec fn updates_window(s: SendState, seq: u32, ack: u32) -> bool {
    seq_lt(s.snd_wl1.value, seq) || (s.snd_wl1.value == seq && seq_le(s.snd_wl2.value, ack))
}

proof fn lemma_diff_facts(a: u32, b: u32)
    ensures
        0 <= wrapping_diff(a, b) < 0x1_0000_0000,
        a == b <==> wrapping_diff(a, b) == 0,
        a != b ==> wrapping_diff(b, a) == 0x1_0000_0000 - wrapping_diff(a, b),
{
}

proof fn lemma_flight_after_ack(una: u32, ack: u32, nxt: u32)
    requires
        0 < wrapping_diff(ack, una) <= wrapping_diff(nxt, una),
    ensures
        wrapping_diff(nxt, ack) == wrapping_diff(nxt, una) - wrapping_diff(ack, una),
{
    let m: int = 0x1_0000_0000;
    let a = wrapping_diff(ack, una);
    let n = wrapping_diff(nxt, una);
    assert(ack as int - una as int == a || ack as int - una as int == a - m);
    assert(nxt as int - una as int == n || nxt as int - una as int == n - m);
}

impl SendState {
    /// SND.UNA never trails SND.NXT by more than half the sequence space.
    pub open spec fn wf(&self) -> bool {
        in_flight(*self) <= MAX_IN_FLIGHT
    }

    /// The send state of a connection that opens with our sequence number
    /// `iss` + 1 still unsent and the peer's window `wnd`.
    pub fn new(snd_una: SeqNumber, wnd: u32) -> (r: SendState)
        ensures
            r.wf(),
            r.snd_una == snd_una,
            r.snd_nxt == snd_una,
            r.snd_wnd == wnd,
            r.snd_wl1.value == 0,
            r.snd_wl2 == snd_una,
            r.dup_acks == 0,
    {
        SendState {
            snd_una,
            snd_nxt: snd_una,
            snd_wnd: wnd,
            snd_wl1: SeqNumber::from_u32(0),
            snd_wl2: snd_una,
            dup_acks: 0,
        }
    }

    /// Bytes that the peer's window still admits.
    pub fn usable_window(&self) -> (r: u32)
        requires
            self.wf(),
        ensures
            r == if in_flight(*self) < self.snd_wnd {
                self.snd_wnd - in_flight(*self)
            } else {
                0
            },
    {
        let flight: u32 = self.snd_nxt.value.wrapping_sub(self.snd_una.value);
        if flight < self.snd_wnd {
            self.snd_wnd - flight
        } else {
            0
        }
    }

    /// Records that `n` more bytes went out.
    pub fn on_send(&mut self, n: u32)
        requires
            old(self).wf(),
            in_flight(*old(self)) + n <= MAX_IN_FLIGHT,
        ensures
            final(self).wf(),
            final(self).snd_nxt.value == wrapping_add(old(self).snd_nxt.value, n),
            final(self).snd_una == old(self).snd_una,
            in_flight(*final(self)) == in_flight(*old(self)) + n,
            final(self).snd_wnd == old(self).snd_wnd,
            final(self).snd_wl1 == old(self).snd_wl1,
            final(self).snd_wl2 == old(self).snd_wl2,
            final(self).dup_acks == old(self).dup_acks,
    {
        self.snd_nxt = self.snd_nxt.add(n);
    }

    /// Processes the acknowledgement `ack`, window `wnd` and sequence number
    /// `seq` of an incoming segment; `has_data` tells whether it carries
    /// payload.
    /// - An ACK of new data moves SND.UNA to `ack` and ends a run of
    ///   duplicates.
    /// - An ACK of SND.UNA with no data and an unchanged window, with data
    ///   in flight, is a duplicate and is counted.
    /// - The window is taken from the segment where the window update test
    ///   passes.
    pub fn on_ack(&mut self, seq: SeqNumber, ack: SeqNumber, wnd: u32, has_data: bool) -> (r:
        AckEvent)
        requires
            old(self).wf(),
        ensures
            final(self).wf(),
            seq_le(old(self).snd_una.value, final(self).snd_una.value),
            final(self).snd_nxt == old(self).snd_nxt,
            acks_new_data(*old(self), ack.value) ==> {
                &&& final(self).snd_una == ack
                &&& in_flight(*final(self)) == in_flight(*old(self)) - wrapping_diff(
                    ack.value,
                    old(self).snd_una.value,
                )
                &&& final(self).dup_acks == 0
                &&& r == AckEvent::Advanced(
                    wrapping_diff(ack.value, old(self).snd_una.value) as u32,
                )
            },
            !acks_new_data(*old(self), ack.value) ==> final(self).snd_una == old(self).snd_una,
            (!acks_new_data(*old(self), ack.value) && ack == old(self).snd_una && !has_data
                && wnd == old(self).snd_wnd && in_flight(*old(self)) > 0) ==> {
                &&& final(self).dup_acks == if old(self).dup_acks < u32::MAX {
                    old(self).dup_acks + 1
                } else {
                    old(self).dup_acks as int
                }
                &&& r == AckEvent::Duplicate(final(self).dup_acks)
            },
            (!acks_new_data(*old(self), ack.value) && !(ack == old(self).snd_una && !has_data
                && wnd == old(self).snd_wnd && in_flight(*old(self)) > 0)) ==> {
                &&& final(self).dup_acks == old(self).dup_acks
                &&& r == AckEvent::Other
            },
            updates_window(*old(self), seq.value, ack.value) ==> {
                &&& final(self).snd_wnd == wnd
                &&& final(self).snd_wl1 == seq
                &&& final(self).snd_wl2 == ack
            },
            !updates_window(*old(self), seq.value, ack.value) ==> {
                &&& final(self).snd_wnd == old(self).snd_wnd
                &&& final(self).snd_wl1 == old(self).snd_wl1
                &&& final(self).snd_wl2 == old(self).snd_wl2
            },
    {
        let ghost o = *self;
        let update: bool = self.snd_wl1.lt(seq) || (self.snd_wl1 == seq && self.snd_wl2.le(ack));
        let flight: u32 = self.snd_nxt.value.wrapping_sub(self.snd_una.value);
        let acked: u32 = ack.value.wrapping_sub(self.snd_una.value);
        proof {
            lemma_diff_facts(ack.value, o.snd_una.value);
            lemma_diff_facts(o.snd_una.value, ack.value);
            lemma_diff_facts(o.snd_nxt.value, ack.value);
            lemma_diff_facts(ack.value, o.snd_nxt.value);
            lemma_diff_facts(o.snd_nxt.value, o.snd_una.value);
        }
        let r = if 0 < acked && acked <= flight {
            proof {
                lemma_flight_after_ack(o.snd_una.value, ack.value, o.snd_nxt.value);
            }
            self.snd_una = ack;
            self.dup_acks = 0;
            AckEvent::Advanced(acked)
        } else if ack == self.snd_una && !has_data && wnd == self.snd_wnd && flight > 0 {
            if self.dup_acks < u32::MAX {
                self.dup_acks = self.dup_acks + 1;
            }
            AckEvent::Duplicate(self.dup_acks)
        } else {
            AckEvent::Other
        };
        if update {
            self.snd_wnd = wnd;
            self.snd_wl1 = seq;
            self.snd_wl2 = ack;
        }
        r
    }
}

} // verus!
