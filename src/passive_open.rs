use vstd::prelude::*;
use std::collections::VecDeque;
use vstd::arithmetic::power2::pow2;
use crate::fail::{Fail, FailKind};
use crate::ipv4::{Ipv4Endpoint, Ipv4Header};
use crate::isn_generator::{crc32_ieee_of, isn_hash_input, isn_of, IsnGenerator};
use crate::seq_number::{wrapping_add, SeqNumber};
use crate::tcp::{
    mss_option, negotiated_options, scale_window, window_scale_option, ControlBlock, TcpConfig,
    TcpHeader, TcpOption, MAX_WINDOW_SCALE,
};

verus! {

/// A connection whose SYN has been answered and whose final ACK is awaited.
#[derive(Debug, Clone, Copy, PartialEq, Eq, Structural)]
pub struct InflightAccept {
    pub local_isn: SeqNumber,
    pub remote_isn: SeqNumber,
    /// The window that the peer's SYN advertised, before scaling.
    pub header_window_size: u16,
    pub remote_window_scale: Option<u8>,
    pub mss: usize,
}

/// Whether the queue holds an established connection with `remote`.
pub open spec fn has_ready(s: Seq<Result<ControlBlock, Fail>>, remote: Ipv4Endpoint) -> bool {
    exists|i: int| 0 <= i < s.len() && s[i] is Ok && (#[trigger] s[i])->Ok_0.remote == remote
}

/// Connections that are ready to be accepted, and handshakes that failed, in
/// the order in which they came.
pub struct ReadySockets {
    pub ready: VecDeque<Result<ControlBlock, Fail>>,
}

impl ReadySockets {
    /// At most one ready connection per remote endpoint.
    pub open spec fn wf(&self) -> bool {
        forall|i: int, j: int|
            0 <= i < j < self.ready@.len() && (#[trigger] self.ready@[i]) is Ok
                && (#[trigger] self.ready@[j]) is Ok ==> self.ready@[i]->Ok_0.remote
                != self.ready@[j]->Ok_0.remote
    }

    pub fn new() -> (r: ReadySockets)
        ensures
            r.ready@.len() == 0,
            r.wf(),
    {
        ReadySockets { ready: VecDeque::new() }
    }

    /// Whether a connection with `remote` waits to be accepted.
    pub fn contains(&self, remote: &Ipv4Endpoint) -> (r: bool)
        ensures
            r == has_ready(self.ready@, *remote),
    {
        let mut i: usize = 0;
        while i < self.ready.len()
            invariant
                i <= self.ready@.len(),
                forall|j: int|
                    0 <= j < i ==> !(self.ready@[j] is Ok && self.ready@[j]->Ok_0.remote
                        == *remote),
            decreases self.ready@.len() - i,
        {
            match &self.ready[i] {
                Ok(cb) => {
                    if cb.remote == *remote {
                        return true;
                    }
                },
                Err(_) => {},
            }
            i = i + 1;
        }
        false
    }

    /// Queues an established connection.
    pub fn push_ok(&mut self, cb: ControlBlock)
        requires
            old(self).wf(),
            !has_ready(old(self).ready@, cb.remote),
        ensures
            final(self).wf(),
            final(self).ready@ == old(self).ready@.push(Ok(cb)),
    {
        self.ready.push_back(Ok(cb));
        proof {
            let s = self.ready@;
            assert forall|i: int, j: int|
                0 <= i < j < s.len() && (#[trigger] s[i]) is Ok && (#[trigger] s[j]) is Ok
                    implies s[i]->Ok_0.remote != s[j]->Ok_0.remote by {
                if j == s.len() - 1 {
                    assert(old(self).ready@[i] == s[i]);
                }
            }
        }
    }

    /// Queues a failed handshake.
    pub fn push_err(&mut self, err: Fail)
        requires
            old(self).wf(),
        ensures
            final(self).wf(),
            final(self).ready@ == old(self).ready@.push(Err(err)),
    {
        self.ready.push_back(Err(err));
        assert(forall|i: int| 0 <= i < old(self).ready@.len() ==> self.ready@[i] == old(self).ready@[i]);
    }

    /// Takes the oldest entry, or `None` where there is none.
    pub fn poll(&mut self) -> (r: Option<Result<ControlBlock, Fail>>)
        requires
            old(self).wf(),
        ensures
            final(self).wf(),
            old(self).ready@.len() == 0 ==> r is None && final(self).ready@ == old(self).ready@,
            old(self).ready@.len() > 0 ==> r == Some(old(self).ready@[0])
                && final(self).ready@ == old(self).ready@.subrange(
                1,
                old(self).ready@.len() as int,
            ),
    {
        let r = self.ready.pop_front();
        proof {
            let s = self.ready@;
            assert forall|i: int, j: int|
                0 <= i < j < s.len() && (#[trigger] s[i]) is Ok && (#[trigger] s[j]) is Ok
                    implies s[i]->Ok_0.remote != s[j]->Ok_0.remote by {
                assert(s[i] == old(self).ready@[i + 1]);
                assert(s[j] == old(self).ready@[j + 1]);
            }
        }
        r
    }

    pub fn len(&self) -> (r: usize)
        ensures
            r == self.ready@.len(),
    {
        self.ready.len()
    }
}

/// Whether a handshake with `remote` is under way.
pub open spec fn has_inflight(s: Seq<(Ipv4Endpoint, InflightAccept)>, remote: Ipv4Endpoint) -> bool {
    exists|i: int| 0 <= i < s.len() && (#[trigger] s[i]).0 == remote
}

/// Where the handshake with `remote` stands in `s`.
pub open spec fn inflight_index(s: Seq<(Ipv4Endpoint, InflightAccept)>, remote: Ipv4Endpoint) -> int {
    choose|i: int| 0 <= i < s.len() && (#[trigger] s[i]).0 == remote
}

/// No two handshakes with one remote endpoint.
pub open spec fn keys_unique(s: Seq<(Ipv4Endpoint, InflightAccept)>) -> bool {
    forall|i: int, j: int| 0 <= i < j < s.len() ==> (#[trigger] s[i]).0 != (#[trigger] s[j]).0
}

/// The window scales that a connection uses, ours and the peer's: both zero
/// unless the peer's SYN carried the option, and the peer's no larger than
/// `MAX_WINDOW_SCALE`.
pub open spec fn effective_scales(tcp: TcpConfig, e: InflightAccept) -> (u8, u8) {
    match e.remote_window_scale {
        Some(w) => (tcp.window_scale, if w > MAX_WINDOW_SCALE {
            MAX_WINDOW_SCALE
        } else {
            w
        }),
        None => (0, 0),
    }
}

/// The connection that a completed handshake opens.
pub open spec fn established_cb(
    local: Ipv4Endpoint,
    remote: Ipv4Endpoint,
    tcp: TcpConfig,
    e: InflightAccept,
) -> ControlBlock {
    let (ls, rs) = effective_scales(tcp, e);
    ControlBlock {
        local,
        remote,
        receive_seq_no: SeqNumber { value: wrapping_add(e.remote_isn.value, 1) },
        ack_delay_timeout: tcp.ack_delay_timeout,
        receive_window_size: (tcp.receive_window_size * pow2(ls as nat)) as u32,
        receive_window_scale: ls,
        sender_seq_no: SeqNumber { value: wrapping_add(e.local_isn.value, 1) },
        sender_window_size: (e.header_window_size * pow2(rs as nat)) as u32,
        sender_window_scale: rs,
        mss: e.mss,
    }
}

/// The handshake that a SYN from `header` opens, with our number `isn`.
pub open spec fn new_accept(header: TcpHeader, isn: SeqNumber) -> InflightAccept {
    InflightAccept {
        local_isn: isn,
        remote_isn: header.seq_num,
        header_window_size: header.window_size,
        remote_window_scale: window_scale_option(header.options@),
        mss: mss_option(header.options@),
    }
}

proof fn lemma_remove_keeps_keys_unique(s: Seq<(Ipv4Endpoint, InflightAccept)>, i: int)
    requires
        keys_unique(s),
        0 <= i < s.len(),
    ensures
        keys_unique(s.remove(i)),
{
    let t = s.remove(i);
    assert forall|a: int, b: int| 0 <= a < b < t.len() implies (#[trigger] t[a]).0
        != (#[trigger] t[b]).0 by {
        let a0 = if a < i { a } else { a + 1 };
        let b0 = if b < i { b } else { b + 1 };
        assert(t[a] == s[a0]);
        assert(t[b] == s[b0]);
    }
}

/// Builds the connection that a completed handshake opens.
pub fn established_control_block(
    local: Ipv4Endpoint,
    remote: Ipv4Endpoint,
    tcp: &TcpConfig,
    e: InflightAccept,
) -> (r: ControlBlock)
    requires
        tcp.wf(),
    ensures
        r == established_cb(local, remote, *tcp, e),
{
    let (local_window_scale, remote_window_scale): (u8, u8) = match e.remote_window_scale {
        Some(w) => (tcp.window_scale, if w > MAX_WINDOW_SCALE {
            MAX_WINDOW_SCALE
        } else {
            w
        }),
        None => (0, 0),
    };
    let remote_window_size: u32 = scale_window(e.header_window_size, remote_window_scale);
    let local_window_size: u32 = scale_window(tcp.receive_window_size, local_window_scale);
    ControlBlock {
        local,
        remote,
        receive_seq_no: e.remote_isn.add(1),
        ack_delay_timeout: tcp.ack_delay_timeout,
        receive_window_size: local_window_size,
        receive_window_scale: local_window_scale,
        sender_seq_no: e.local_isn.add(1),
        sender_window_size: remote_window_size,
        sender_window_scale: remote_window_scale,
        mss: e.mss,
    }
}

/// What the SYN+ACK task does next.
#[derive(Debug, Clone, Copy, PartialEq, Eq, Structural)]
pub enum HandshakeStep {
    /// Send the SYN+ACK (again), then wait the handshake timeout.
    Retransmit,
    /// Attempts are exhausted: the handshake times out.
    TimedOut,
}

/// One turn of the SYN+ACK task, after `attempts` attempts out of
/// `retries`.
pub fn handshake_step(attempts: usize, retries: usize) -> (r: HandshakeStep)
    ensures
        r == if attempts < retries {
            HandshakeStep::Retransmit
        } else {
            HandshakeStep::TimedOut
        },
{
    if attempts < retries {
        HandshakeStep::Retransmit
    } else {
        HandshakeStep::TimedOut
    }
}

/// A listening socket: handshakes under way, and connections and failures
/// that wait to be accepted.
pub struct PassiveSocket {
    pub inflight: Vec<(Ipv4Endpoint, InflightAccept)>,
    pub ready: ReadySockets,
    pub max_backlog: usize,
    pub isn_generator: IsnGenerator,
    pub local: Ipv4Endpoint,
    pub tcp: TcpConfig,
}

impl PassiveSocket {
    /// Handshakes under way and entries waiting to be accepted together
    /// never number more than `max_backlog`; there is at most one handshake
    /// per remote endpoint.
    pub open spec fn wf(&self) -> bool {
        &&& self.ready.wf()
        &&& self.tcp.wf()
        &&& keys_unique(self.inflight@)
        &&& self.inflight@.len() + self.ready.ready@.len() <= self.max_backlog
    }

    /// Nothing but the generator may have changed.
    pub open spec fn same_queues(&self, other: &PassiveSocket) -> bool {
        &&& self.inflight@ == other.inflight@
        &&& self.ready.ready@ == other.ready.ready@
        &&& self.max_backlog == other.max_backlog
        &&& self.local == other.local
        &&& self.tcp == other.tcp
    }

    /// A socket listening on `local` that admits `max_backlog` connections
    /// at a time; `nonce` is the secret of its sequence-number generator.
    pub fn new(local: Ipv4Endpoint, max_backlog: usize, nonce: u32, tcp: TcpConfig) -> (r: PassiveSocket)
        requires
            tcp.wf(),
        ensures
            r.wf(),
            r.inflight@.len() == 0,
            r.ready.ready@.len() == 0,
            r.max_backlog == max_backlog,
            r.local == local,
            r.tcp == tcp,
            r.isn_generator.nonce == nonce,
            r.isn_generator.counter == 0,
    {
        PassiveSocket {
            inflight: Vec::new(),
            ready: ReadySockets::new(),
            max_backlog,
            isn_generator: IsnGenerator::new(nonce),
            local,
            tcp,
        }
    }

    /// Takes the oldest connection, or failed handshake, that waits to be
    /// accepted.
    pub fn poll_accept(&mut self) -> (r: Option<Result<ControlBlock, Fail>>)
        requires
            old(self).wf(),
        ensures
            final(self).wf(),
            old(self).ready.ready@.len() == 0 ==> r is None && final(self).ready.ready@ == old(self).ready.ready@,
            old(self).ready.ready@.len() > 0 ==> r == Some(old(self).ready.ready@[0])
                && final(self).ready.ready@ == old(self).ready.ready@.subrange(1, old(self).ready.ready@.len() as int),
            final(self).inflight@ == old(self).inflight@,
            final(self).max_backlog == old(self).max_backlog,
            final(self).local == old(self).local,
            final(self).tcp == old(self).tcp,
    {
        self.ready.poll()
    }

    /// Handles a segment from a peer that is not yet an established
    /// connection, from the endpoint that the IPv4 source address and the
    /// TCP source port name.
    /// - A segment from a peer whose connection waits to be accepted is
    ///   dropped: `Ok(None)`.
    /// - For a handshake under way, an ACK of our initial sequence number
    ///   plus one completes it: the connection moves to the ready queue and
    ///   `Ok(None)` comes back. Any other segment is a bad message.
    /// - Otherwise only a SYN, with neither ACK nor RST, is taken; it is
    ///   refused where the backlog is full, and else opens a handshake whose
    ///   initial sequence number comes back, for the SYN+ACK that answers it.
    pub fn receive(&mut self, ip_header: &Ipv4Header, header: &TcpHeader) -> (r: Result<
        Option<SeqNumber>,
        Fail,
    >)
        requires
            old(self).wf(),
        ensures
            final(self).wf(),
            final(self).max_backlog == old(self).max_backlog,
            final(self).local == old(self).local,
            final(self).tcp == old(self).tcp,
            final(self).isn_generator.nonce == old(self).isn_generator.nonce,
            ({
                let remote = Ipv4Endpoint { addr: ip_header.src_addr, port: header.src_port };
                let o = *old(self);
                let f = *final(self);
                if has_ready(o.ready.ready@, remote) {
                    &&& r == Ok::<Option<SeqNumber>, Fail>(None)
                    &&& f.same_queues(&o)
                    &&& f.isn_generator == o.isn_generator
                } else if has_inflight(o.inflight@, remote) {
                    let i = inflight_index(o.inflight@, remote);
                    let e = o.inflight@[i].1;
                    if !header.ack || header.ack_num.value != wrapping_add(e.local_isn.value, 1) {
                        &&& r == Err::<Option<SeqNumber>, Fail>(Fail { kind: FailKind::BadMessage })
                        &&& f.same_queues(&o)
                        &&& f.isn_generator == o.isn_generator
                    } else {
                        &&& r == Ok::<Option<SeqNumber>, Fail>(None)
                        &&& f.inflight@ == o.inflight@.remove(i)
                        &&& f.ready.ready@ == o.ready.ready@.push(
                            Ok(established_cb(o.local, remote, o.tcp, e)),
                        )
                        &&& f.isn_generator == o.isn_generator
                    }
                } else if !header.syn || header.ack || header.rst {
                    &&& r == Err::<Option<SeqNumber>, Fail>(Fail { kind: FailKind::BadMessage })
                    &&& f.same_queues(&o)
                    &&& f.isn_generator == o.isn_generator
                } else if o.inflight@.len() + o.ready.ready@.len() >= o.max_backlog {
                    &&& r == Err::<Option<SeqNumber>, Fail>(
                        Fail { kind: FailKind::ConnectionRefused },
                    )
                    &&& f.same_queues(&o)
                    &&& f.isn_generator == o.isn_generator
                } else {
                    let isn = SeqNumber {
                        value: isn_of(
                            crc32_ieee_of(isn_hash_input(o.local, remote, o.isn_generator.nonce)),
                            o.isn_generator.counter,
                        ),
                    };
                    &&& r == Ok::<Option<SeqNumber>, Fail>(Some(isn))
                    &&& f.inflight@ == o.inflight@.push((remote, new_accept(*header, isn)))
                    &&& f.ready.ready@ == o.ready.ready@
                    &&& f.isn_generator.counter == (o.isn_generator.counter + 1) % 0x1_0000
                }
            }),
    {
        let remote = Ipv4Endpoint::new(ip_header.get_src_addr(), header.src_port);
        if self.ready.contains(&remote) {
            return Ok(None);
        }
        let inflight_len: usize = self.inflight.len();
        match self.find_inflight(&remote) {
            Some(i) => {
                proof {
                    let j = inflight_index(self.inflight@, remote);
                    assert(self.inflight@[i as int].0 == remote);
                    assert(self.inflight@[j].0 == remote);
                    assert(j == i);
                }
                if !header.ack {
                    return Err(Fail::new(FailKind::BadMessage));
                }
                let e: InflightAccept = self.inflight[i].1;
                if header.ack_num != e.local_isn.add(1) {
                    return Err(Fail::new(FailKind::BadMessage));
                }
                let cb = established_control_block(self.local, remote, &self.tcp, e);
                proof {
                    lemma_remove_keeps_keys_unique(self.inflight@, i as int);
                }
                self.inflight.remove(i);
                self.ready.push_ok(cb);
                Ok(None)
            },
            None => {
                if !header.syn || header.ack || header.rst {
                    return Err(Fail::new(FailKind::BadMessage));
                }
                if inflight_len >= self.max_backlog || self.ready.len() >= self.max_backlog - inflight_len {
                    return Err(Fail::new(FailKind::ConnectionRefused));
                }
                let local_isn: SeqNumber = self.isn_generator.generate(&self.local, &remote);
                let (remote_window_scale, mss): (Option<u8>, usize) = negotiated_options(&header.options);
                let accept = InflightAccept {
                    local_isn,
                    remote_isn: header.seq_num,
                    header_window_size: header.window_size,
                    remote_window_scale,
                    mss,
                };
                let ghost before = self.inflight@;
                self.inflight.push((remote, accept));
                proof {
                    let s = self.inflight@;
                    assert forall|a: int, b: int| 0 <= a < b < s.len() implies (#[trigger] s[a]).0
                        != (#[trigger] s[b]).0 by {
                        if b == s.len() - 1 {
                            assert(s[a] == before[a]);
                        } else {
                            assert(s[a] == before[a]);
                            assert(s[b] == before[b]);
                        }
                    }
                }
                Ok(Some(local_isn))
            },
        }
    }

    /// The SYN+ACK that answers the SYN of the handshake with `remote`:
    /// our initial sequence number, an ACK of the peer's plus one, our
    /// receive window, and our segment size and window scale as options.
    /// `None` where no handshake with `remote` is under way.
    pub fn syn_ack_header(&self, remote: &Ipv4Endpoint) -> (r: Option<TcpHeader>)
        requires
            self.wf(),
        ensures
            !has_inflight(self.inflight@, *remote) ==> r is None,
            has_inflight(self.inflight@, *remote) ==> ({
                let e = self.inflight@[inflight_index(self.inflight@, *remote)].1;
                &&& r is Some
                &&& r->Some_0.src_port == self.local.port
                &&& r->Some_0.dst_port == remote.port
                &&& r->Some_0.seq_num == e.local_isn
                &&& r->Some_0.ack_num.value == wrapping_add(e.remote_isn.value, 1)
                &&& r->Some_0.syn && r->Some_0.ack && !r->Some_0.rst && !r->Some_0.fin
                &&& r->Some_0.window_size == self.tcp.receive_window_size
                &&& r->Some_0.options@ == seq![
                    TcpOption::MaximumSegmentSize(self.tcp.advertised_mss as u16),
                    TcpOption::WindowScale(self.tcp.window_scale),
                ]
            }),
    {
        match self.find_inflight(remote) {
            None => None,
            Some(i) => {
                proof {
                    let j = inflight_index(self.inflight@, *remote);
                    assert(self.inflight@[i as int].0 == *remote);
                    assert(self.inflight@[j].0 == *remote);
                }
                let e: InflightAccept = self.inflight[i].1;
                let mut h = TcpHeader::new(self.local.port, remote.port);
                h.syn = true;
                h.seq_num = e.local_isn;
                h.ack = true;
                h.ack_num = e.remote_isn.add(1);
                h.window_size = self.tcp.receive_window_size;
                h.push_option(TcpOption::MaximumSegmentSize(self.tcp.advertised_mss as u16));
                h.push_option(TcpOption::WindowScale(self.tcp.window_scale));
                assert(h.options@ =~= seq![
                    TcpOption::MaximumSegmentSize(self.tcp.advertised_mss as u16),
                    TcpOption::WindowScale(self.tcp.window_scale),
                ]);
                Some(h)
            },
        }
    }

    /// The SYN+ACK retransmissions to `remote` ran out: the handshake ends
    /// and a timeout takes its place in the ready queue. Nothing changes
    /// where no handshake with `remote` is under way.
    pub fn handshake_timed_out(&mut self, remote: &Ipv4Endpoint)
        requires
            old(self).wf(),
        ensures
            final(self).wf(),
            final(self).max_backlog == old(self).max_backlog,
            final(self).local == old(self).local,
            final(self).tcp == old(self).tcp,
            final(self).isn_generator == old(self).isn_generator,
            !has_inflight(old(self).inflight@, *remote) ==> final(self).same_queues(old(self)),
            has_inflight(old(self).inflight@, *remote) ==> {
                &&& final(self).inflight@ == old(self).inflight@.remove(
                    inflight_index(old(self).inflight@, *remote),
                )
                &&& final(self).ready.ready@ == old(self).ready.ready@.push(
                    Err(Fail { kind: FailKind::Timeout }),
                )
            },
    {
        match self.find_inflight(remote) {
            None => {},
            Some(i) => {
                proof {
                    let j = inflight_index(self.inflight@, *remote);
                    assert(self.inflight@[i as int].0 == *remote);
                    assert(self.inflight@[j].0 == *remote);
                }
                proof {
                    lemma_remove_keeps_keys_unique(self.inflight@, i as int);
                }
                self.inflight.remove(i);
                self.ready.push_err(Fail::new(FailKind::Timeout));
            },
        }
    }

    fn find_inflight(&self, remote: &Ipv4Endpoint) -> (r: Option<usize>)
        ensures
            match r {
                Some(i) => i < self.inflight@.len() && self.inflight@[i as int].0 == *remote,
                None => !has_inflight(self.inflight@, *remote),
            },
    {
        let mut i: usize = 0;
        while i < self.inflight.len()
            invariant
                i <= self.inflight@.len(),
                forall|j: int| 0 <= j < i ==> self.inflight@[j].0 != *remote,
            decreases self.inflight@.len() - i,
        {
            if self.inflight[i].0 == *remote {
                return Some(i);
            }
            i = i + 1;
        }
        None
    }
}

/// Backlog bound: a listening socket never holds more handshakes under way
/// and entries waiting to be accepted, together, than its backlog; every
/// operation on it keeps this.
pub proof fn lemma_backlog_bound(s: PassiveSocket)
    requires
        s.wf(),
    ensures
        s.inflight@.len() + s.ready.ready@.len() <= s.max_backlog,
{
}

} // verus!
