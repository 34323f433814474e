use vstd::prelude::*;

verus! {

/// Largest congestion window or threshold, in bytes.
pub const MAX_CWND: u64 = 0xffff_ffff;

pub open spec fn spec_min(a: int, b: int) -> int {
    if a <= b {
        a
    } else {
        b
    }
}

pub open spec fn spec_max(a: int, b: int) -> int {
    if a >= b {
        a
    } else {
        b
    }
}

/// The threshold after a loss: half the bytes in flight, but at least two
/// segments.
pub open spec fn loss_threshold(mss: u64, in_flight: u64) -> u64 {
    spec_max(in_flight as int / 2, 2 * mss) as u64
}

/// NewReno congestion control (RFC 5681, RFC 6582): slow start below the
/// threshold, then additive increase; fast recovery after a fast
/// retransmit; restart from one segment after a timeout.
#[derive(Debug, Clone, Copy, PartialEq, Eq, Structural)]
pub struct NewReno {
    pub mss: u64,
    pub cwnd: u64,
    pub ssthresh: u64,
    pub in_recovery: bool,
}

impl NewReno {
    pub open spec fn wf(&self) -> bool {
        &&& 1 <= self.mss <= 0xFFFF
        &&& self.cwnd <= MAX_CWND
        &&& self.ssthresh <= MAX_CWND
    }

    /// The initial window of RFC 5681: four segments of up to 1095 bytes,
    /// three of up to 2190, else two; no threshold yet.
    pub fn new(mss: u16) -> (r: NewReno)
        requires
            mss >= 1,
        ensures
            r.wf(),
            r.mss == mss,
            r.cwnd == if mss > 2190 {
                2 * mss
            } else if mss > 1095 {
                3 * mss
            } else {
                4 * mss
            },
            r.ssthresh == MAX_CWND,
            !r.in_recovery,
    {
        let m: u64 = mss as u64;
        let cwnd: u64 = if m > 2190 {
            2 * m
        } else if m > 1095 {
            3 * m
        } else {
            4 * m
        };
        NewReno { mss: m, cwnd, ssthresh: MAX_CWND, in_recovery: false }
    }

    pub fn cwnd(&self) -> (r: u64)
        ensures
            r == self.cwnd,
    {
        self.cwnd
    }

    pub fn ssthresh(&self) -> (r: u64)
        ensures
            r == self.ssthresh,
    {
        self.ssthresh
    }

    /// An ACK of `acked` new bytes. It ends fast recovery, setting the
    /// window to the threshold; else below the threshold the window grows
    /// by the bytes acknowledged, at most one segment, and above it by
    /// `MSS * MSS / cwnd`, at least one byte.
    pub fn on_ack(&mut self, acked: u64)
        requires
            old(self).wf(),
        ensures
            final(self).wf(),
            final(self).mss == old(self).mss,
            final(self).ssthresh == old(self).ssthresh,
            !final(self).in_recovery,
            old(self).in_recovery ==> final(self).cwnd == old(self).ssthresh,
            !old(self).in_recovery && old(self).cwnd < old(self).ssthresh ==> final(self).cwnd
                == spec_min(old(self).cwnd + spec_min(acked as int, old(self).mss as int), MAX_CWND as int),
            !old(self).in_recovery && old(self).cwnd >= old(self).ssthresh ==> final(self).cwnd
                == spec_min(
                old(self).cwnd + spec_max(
                    if old(self).cwnd == 0 {
                        old(self).mss as int
                    } else {
                        (old(self).mss * old(self).mss) as int / old(self).cwnd as int
                    },
                    1,
                ),
                MAX_CWND as int,
            ),
    {
        if self.in_recovery {
            self.cwnd = self.ssthresh;
            self.in_recovery = false;
            return;
        }
        let inc: u64 = if self.cwnd < self.ssthresh {
            if acked < self.mss {
                acked
            } else {
                self.mss
            }
        } else {
            let step: u64 = if self.cwnd == 0 {
                self.mss
            } else {
                proof {
                    assert(self.mss * self.mss <= 0xFFFF * 0xFFFF) by (nonlinear_arith)
                        requires
                            self.mss <= 0xFFFF,
                    ;
                }
                (self.mss * self.mss) / self.cwnd
            };
            if step < 1 {
                1
            } else {
                step
            }
        };
        self.cwnd = if inc > MAX_CWND - self.cwnd {
            MAX_CWND
        } else {
            self.cwnd + inc
        };
    }

    /// A duplicate ACK during fast recovery inflates the window by one
    /// segment; at other times it changes nothing.
    pub fn on_duplicate_ack(&mut self)
        requires
            old(self).wf(),
        ensures
            final(self).wf(),
            final(self).mss == old(self).mss,
            final(self).ssthresh == old(self).ssthresh,
            final(self).in_recovery == old(self).in_recovery,
            final(self).cwnd == if old(self).in_recovery {
                spec_min(old(self).cwnd + old(self).mss, MAX_CWND as int)
            } else {
                old(self).cwnd as int
            },
    {
        if self.in_recovery {
            self.cwnd = if self.mss > MAX_CWND - self.cwnd {
                MAX_CWND
            } else {
                self.cwnd + self.mss
            };
        }
    }

    /// The third duplicate ACK: the threshold drops to half the bytes in
    /// flight (at least two segments), the window to the threshold plus
    /// three segments, and fast recovery begins.
    pub fn on_fast_retransmit(&mut self, in_flight: u64)
        requires
            old(self).wf(),
        ensures
            final(self).wf(),
            final(self).mss == old(self).mss,
            final(self).ssthresh == spec_min(loss_threshold(old(self).mss, in_flight) as int, MAX_CWND as int),
            final(self).cwnd == spec_min(final(self).ssthresh + 3 * old(self).mss, MAX_CWND as int),
            final(self).in_recovery,
    {
        let half: u64 = in_flight / 2;
        let t: u64 = if half > 2 * self.mss {
            half
        } else {
            2 * self.mss
        };
        self.ssthresh = if t > MAX_CWND {
            MAX_CWND
        } else {
            t
        };
        self.cwnd = if 3 * self.mss > MAX_CWND - self.ssthresh {
            MAX_CWND
        } else {
            self.ssthresh + 3 * self.mss
        };
        self.in_recovery = true;
    }

    /// A retransmission timeout: the threshold drops as for a fast
    /// retransmit and the window restarts from one segment.
    pub fn on_timeout(&mut self, in_flight: u64)
        requires
            old(self).wf(),
        ensures
            final(self).wf(),
            final(self).mss == old(self).mss,
            final(self).ssthresh == spec_min(loss_threshold(old(self).mss, in_flight) as int, MAX_CWND as int),
            final(self).cwnd == old(self).mss,
            !final(self).in_recovery,
    {
        let half: u64 = in_flight / 2;
        let t: u64 = if half > 2 * self.mss {
            half
        } else {
            2 * self.mss
        };
        self.ssthresh = if t > MAX_CWND {
            MAX_CWND
        } else {
            t
        };
        self.cwnd = self.mss;
        self.in_recovery = false;
    }
}

} // verus!
