use vstd::prelude::*;

verus! {

/// Smallest retransmission timeout, in milliseconds.
pub const MIN_RTO: u64 = 1000;

/// Largest retransmission timeout, in milliseconds.
pub const MAX_RTO: u64 = 60_000;

/// Round-trip samples above this many milliseconds are taken as this.
pub const MAX_RTT_SAMPLE: u64 = 0x1_0000_0000;

pub open spec fn clamp_rto(x: int) -> u64 {
    if x < MIN_RTO {
        MIN_RTO
    } else if x > MAX_RTO {
        MAX_RTO
    } else {
        x as u64
    }
}

pub open spec fn abs_diff(a: int, b: int) -> int {
    if a >= b {
        a - b
    } else {
        b - a
    }
}

/// The estimator after round-trip sample `rtt` (at most
/// `MAX_RTT_SAMPLE`): the first sample sets SRTT to it and RTTVAR to half
/// of it; later ones set RTTVAR to `3/4 RTTVAR + 1/4 |SRTT - R|` and then
/// SRTT to `7/8 SRTT + 1/8 R`. The timeout becomes `SRTT + 4 RTTVAR`, kept
/// within one second and a minute.
pub open spec fn after_sample(o: RtoEstimator, rtt: u64) -> RtoEstimator {
    let r = if rtt > MAX_RTT_SAMPLE {
        MAX_RTT_SAMPLE as int
    } else {
        rtt as int
    };
    let srtt = if o.sampled {
        (7 * o.srtt + r) / 8
    } else {
        r
    };
    let rttvar = if o.sampled {
        (3 * o.rttvar + abs_diff(o.srtt as int, r)) / 4
    } else {
        r / 2
    };
    RtoEstimator {
        srtt: srtt as u64,
        rttvar: rttvar as u64,
        rto: clamp_rto(srtt + 4 * rttvar),
        sampled: true,
    }
}

/// Retransmission timeout estimator of RFC 6298, in whole milliseconds.
#[derive(Debug, Clone, Copy, PartialEq, Eq, Structural)]
pub struct RtoEstimator {
    pub srtt: u64,
    pub rttvar: u64,
    pub rto: u64,
    /// Whether a round-trip sample has been taken yet.
    pub sampled: bool,
}

impl RtoEstimator {
    pub open spec fn wf(&self) -> bool {
        &&& self.srtt <= MAX_RTT_SAMPLE
        &&& self.rttvar <= MAX_RTT_SAMPLE
        &&& MIN_RTO <= self.rto <= MAX_RTO
    }

    /// An estimator with no sample yet and a timeout of one second.
    pub fn new() -> (r: RtoEstimator)
        ensures
            r.wf(),
            r.rto == MIN_RTO,
            !r.sampled,
            r.srtt == 0,
            r.rttvar == 0,
    {
        RtoEstimator { srtt: 0, rttvar: 0, rto: MIN_RTO, sampled: false }
    }

    /// Takes in a round-trip time `rtt`, as `after_sample` says.
    pub fn add_sample(&mut self, rtt: u64)
        requires
            old(self).wf(),
        ensures
            final(self).wf(),
            *final(self) == after_sample(*old(self), rtt),
    {
        let r: u64 = if rtt > MAX_RTT_SAMPLE {
            MAX_RTT_SAMPLE
        } else {
            rtt
        };
        if !self.sampled {
            self.srtt = r;
            self.rttvar = r / 2;
            self.sampled = true;
        } else {
            let diff: u64 = if self.srtt >= r {
                self.srtt - r
            } else {
                r - self.srtt
            };
            self.rttvar = (3 * self.rttvar + diff) / 4;
            self.srtt = (7 * self.srtt + r) / 8;
        }
        let x: u64 = self.srtt + 4 * self.rttvar;
        self.rto = if x < MIN_RTO {
            MIN_RTO
        } else if x > MAX_RTO {
            MAX_RTO
        } else {
            x
        };
    }

    /// Exponential backoff after a retransmission timeout: the timeout
    /// doubles, up to a minute.
    pub fn on_timeout(&mut self)
        requires
            old(self).wf(),
        ensures
            final(self).wf(),
            final(self).rto == if 2 * old(self).rto > MAX_RTO {
                MAX_RTO as int
            } else {
                2 * old(self).rto
            },
            final(self).srtt == old(self).srtt,
            final(self).rttvar == old(self).rttvar,
            final(self).sampled == old(self).sampled,
    {
        self.rto = if 2 * self.rto > MAX_RTO {
            MAX_RTO
        } else {
            2 * self.rto
        };
    }

    pub fn estimate(&self) -> (r: u64)
        ensures
            r == self.rto,
    {
        self.rto
    }
}

} // verus!
