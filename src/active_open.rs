use vstd::prelude::*;
use crate::fail::{Fail, FailKind};
use crate::ipv4::Ipv4Endpoint;
use crate::passive_open::{established_cb, established_control_block, new_accept, InflightAccept};
use crate::seq_number::{wrapping_add, SeqNumber};
use crate::tcp::{negotiated_options, ControlBlock, TcpConfig, TcpHeader, TcpOption};

verus! {

/// What a segment did to a connection in SYN-SENT.
#[derive(Debug)]
pub enum SynSentOutcome {
    /// A SYN+ACK of our SYN: the connection is established.
    Established(ControlBlock),
    /// A SYN without ACK: both sides opened at once; the connection moves
    /// to SYN-RECEIVED.
    SimultaneousOpen,
    /// The segment does not concern the handshake.
    Ignored,
}

/// A connection that sent its SYN and awaits the peer's SYN+ACK.
pub struct ActiveOpenSocket {
    pub local: Ipv4Endpoint,
    pub remote: Ipv4Endpoint,
    pub local_isn: SeqNumber,
    pub tcp: TcpConfig,
}

impl ActiveOpenSocket {
    pub fn new(local: Ipv4Endpoint, remote: Ipv4Endpoint, local_isn: SeqNumber, tcp: TcpConfig) -> (r:
        ActiveOpenSocket)
        ensures
            r.local == local,
            r.remote == remote,
            r.local_isn == local_isn,
            r.tcp == tcp,
    {
        ActiveOpenSocket { local, remote, local_isn, tcp }
    }

    /// The SYN that opens the connection: our initial sequence number, our
    /// receive window, and our segment size and window scale as options.
    pub fn syn_header(&self) -> (r: TcpHeader)
        requires
            self.tcp.wf(),
        ensures
            r.src_port == self.local.port,
            r.dst_port == self.remote.port,
            r.seq_num == self.local_isn,
            r.ack_num.value == 0,
            r.syn && !r.ack && !r.rst && !r.fin,
            r.window_size == self.tcp.receive_window_size,
            r.options@ == seq![
                TcpOption::MaximumSegmentSize(self.tcp.advertised_mss as u16),
                TcpOption::WindowScale(self.tcp.window_scale),
            ],
    {
        let mut h = TcpHeader::new(self.local.port, self.remote.port);
        h.syn = true;
        h.seq_num = self.local_isn;
        h.window_size = self.tcp.receive_window_size;
        h.push_option(TcpOption::MaximumSegmentSize(self.tcp.advertised_mss as u16));
        h.push_option(TcpOption::WindowScale(self.tcp.window_scale));
        assert(h.options@ =~= seq![
            TcpOption::MaximumSegmentSize(self.tcp.advertised_mss as u16),
            TcpOption::WindowScale(self.tcp.window_scale),
        ]);
        h
    }

    /// Handles a segment from the peer. A RST that acknowledges our SYN
    /// refuses the connection; a SYN+ACK must acknowledge our initial
    /// sequence number plus one, and then establishes the connection with
    /// the options that it carries.
    pub fn receive(&self, header: &TcpHeader) -> (r: Result<SynSentOutcome, Fail>)
        requires
            self.tcp.wf(),
        ensures
            ({
                let acks_syn = header.ack && header.ack_num.value == wrapping_add(
                    self.local_isn.value,
                    1,
                );
                if header.rst {
                    if acks_syn {
                        r == Err::<SynSentOutcome, Fail>(Fail { kind: FailKind::ConnectionRefused })
                    } else {
                        r matches Ok(SynSentOutcome::Ignored)
                    }
                } else if header.syn && header.ack {
                    if acks_syn {
                        r matches Ok(SynSentOutcome::Established(cb)) && cb == established_cb(
                            self.local,
                            self.remote,
                            self.tcp,
                            new_accept(*header, self.local_isn),
                        )
                    } else {
                        r == Err::<SynSentOutcome, Fail>(Fail { kind: FailKind::BadMessage })
                    }
                } else if header.syn {
                    r matches Ok(SynSentOutcome::SimultaneousOpen)
                } else {
                    r matches Ok(SynSentOutcome::Ignored)
                }
            }),
    {
        let acks_syn: bool = header.ack && header.ack_num == self.local_isn.add(1);
        if header.rst {
            if acks_syn {
                return Err(Fail::new(FailKind::ConnectionRefused));
            }
            return Ok(SynSentOutcome::Ignored);
        }
        if header.syn && header.ack {
            if !acks_syn {
                return Err(Fail::new(FailKind::BadMessage));
            }
            let (remote_window_scale, mss): (Option<u8>, usize) = negotiated_options(&header.options);
            let e = InflightAccept {
                local_isn: self.local_isn,
                remote_isn: header.seq_num,
                header_window_size: header.window_size,
                remote_window_scale,
                mss,
            };
            let cb = established_control_block(self.local, self.remote, &self.tcp, e);
            return Ok(SynSentOutcome::Established(cb));
        }
        if header.syn {
            return Ok(SynSentOutcome::SimultaneousOpen);
        }
        Ok(SynSentOutcome::Ignored)
    }
}

} // verus!
