use vstd::prelude::*;
use vstd::arithmetic::power2::{lemma2_to64, pow2};
use vstd::bits::lemma_u32_shl_is_mul;
use crate::ipv4::Ipv4Endpoint;
use crate::seq_number::SeqNumber;

verus! {

/// Maximum segment size assumed when the peer advertises none.
pub const FALLBACK_MSS: usize = 536;

/// Largest window scale shift that RFC 7323 allows; larger ones are taken
/// as this one.
pub const MAX_WINDOW_SCALE: u8 = 14;

/// The TCP options that the stack recognises.
#[derive(Debug, Clone, Copy, PartialEq, Eq, Structural)]
pub enum TcpOption {
    NoOperation,
    MaximumSegmentSize(u16),
    WindowScale(u8),
}

/// The fields of a TCP header that connection set-up reads.
#[derive(Debug, Clone, PartialEq, Eq)]
pub struct TcpHeader {
    pub src_port: u16,
    pub dst_port: u16,
    pub seq_num: SeqNumber,
    pub ack_num: SeqNumber,
    pub ack: bool,
    pub syn: bool,
    pub rst: bool,
    pub fin: bool,
    pub window_size: u16,
    pub options: Vec<TcpOption>,
}

impl TcpHeader {
    /// A header between two ports with no flag set, zero sequence numbers,
    /// a zero window and no options.
    pub fn new(src_port: u16, dst_port: u16) -> (r: TcpHeader)
        ensures
            r.src_port == src_port,
            r.dst_port == dst_port,
            r.seq_num.value == 0,
            r.ack_num.value == 0,
            !r.ack && !r.syn && !r.rst && !r.fin,
            r.window_size == 0,
            r.options@.len() == 0,
    {
        TcpHeader {
            src_port,
            dst_port,
            seq_num: SeqNumber::from_u32(0),
            ack_num: SeqNumber::from_u32(0),
            ack: false,
            syn: false,
            rst: false,
            fin: false,
            window_size: 0,
            options: Vec::new(),
        }
    }

    pub fn push_option(&mut self, option: TcpOption)
        ensures
            final(self).options@ == old(self).options@.push(option),
            final(self).src_port == old(self).src_port,
            final(self).dst_port == old(self).dst_port,
            final(self).seq_num == old(self).seq_num,
            final(self).ack_num == old(self).ack_num,
            final(self).ack == old(self).ack,
            final(self).syn == old(self).syn,
            final(self).rst == old(self).rst,
            final(self).fin == old(self).fin,
            final(self).window_size == old(self).window_size,
    {
        self.options.push(option);
    }
}

/// The window scale that the last window-scale option among `opts` gives.
pub open spec fn window_scale_option(opts: Seq<TcpOption>) -> Option<u8>
    decreases opts.len(),
{
    if opts.len() == 0 {
        None
    } else {
        match opts.last() {
            TcpOption::WindowScale(w) => Some(w),
            _ => window_scale_option(opts.drop_last()),
        }
    }
}

/// The segment size that the last MSS option among `opts` gives, or
/// `FALLBACK_MSS` where there is none.
pub open spec fn mss_option(opts: Seq<TcpOption>) -> usize
    decreases opts.len(),
{
    if opts.len() == 0 {
        FALLBACK_MSS
    } else {
        match opts.last() {
            TcpOption::MaximumSegmentSize(m) => m as usize,
            _ => mss_option(opts.drop_last()),
        }
    }
}

/// Reads the peer's window scale and segment size from a list of options.
pub fn negotiated_options(opts: &Vec<TcpOption>) -> (r: (Option<u8>, usize))
    ensures
        r.0 == window_scale_option(opts@),
        r.1 == mss_option(opts@),
{
    let mut scale: Option<u8> = None;
    let mut mss: usize = FALLBACK_MSS;
    let mut i: usize = 0;
    while i < opts.len()
        invariant
            i <= opts@.len(),
            scale == window_scale_option(opts@.subrange(0, i as int)),
            mss == mss_option(opts@.subrange(0, i as int)),
        decreases opts@.len() - i,
    {
        assert(opts@.subrange(0, i + 1).drop_last() =~= opts@.subrange(0, i as int));
        match opts[i] {
            TcpOption::WindowScale(w) => {
                scale = Some(w);
            },
            TcpOption::MaximumSegmentSize(m) => {
                mss = m as usize;
            },
            TcpOption::NoOperation => {},
        }
        i = i + 1;
    }
    assert(opts@.subrange(0, opts@.len() as int) =~= opts@);
    (scale, mss)
}

/// `w` shifted left by `scale` bits.
pub fn scale_window(w: u16, scale: u8) -> (r: u32)
    requires
        scale <= MAX_WINDOW_SCALE,
    ensures
        r == w * pow2(scale as nat),
{
    proof {
        lemma2_to64();
        assert(pow2(scale as nat) <= 0x4000);
        assert(w * pow2(scale as nat) <= 0xFFFF * 0x4000) by (nonlinear_arith)
            requires
                w <= 0xFFFF,
                pow2(scale as nat) <= 0x4000,
        ;
        lemma_u32_shl_is_mul(w as u32, scale as u32);
    }
    (w as u32) << (scale as u32)
}

/// The TCP settings of a stack.
#[derive(Debug, Clone, Copy, PartialEq, Eq, Structural)]
pub struct TcpConfig {
    pub advertised_mss: usize,
    pub window_scale: u8,
    pub receive_window_size: u16,
    /// Delay before a delayed ACK goes out, in milliseconds.
    pub ack_delay_timeout: u64,
    pub handshake_retries: usize,
    /// Time between two SYN+ACK or SYN transmissions, in milliseconds.
    pub handshake_timeout: u64,
    pub rx_checksum_offload: bool,
    pub tx_checksum_offload: bool,
}

impl TcpConfig {
    /// The settings that `default_config` gives.
    pub open spec fn default_spec() -> TcpConfig {
        TcpConfig {
            advertised_mss: 1450,
            window_scale: 0,
            receive_window_size: 0xffff,
            ack_delay_timeout: 5,
            handshake_retries: 5,
            handshake_timeout: 3000,
            rx_checksum_offload: false,
            tx_checksum_offload: false,
        }
    }

    pub open spec fn wf(&self) -> bool {
        &&& self.window_scale <= MAX_WINDOW_SCALE
        &&& self.advertised_mss <= 0xFFFF
    }

    /// Maximum segment size 1450, no window scaling, a receive window of
    /// 0xFFFF bytes, delayed ACKs after 5 ms, five handshake attempts three
    /// seconds apart, and checksums computed in software.
    pub fn default_config() -> (r: TcpConfig)
        ensures
            r == TcpConfig::default_spec(),
            r.wf(),
    {
        TcpConfig {
            advertised_mss: 1450,
            window_scale: 0,
            receive_window_size: 0xffff,
            ack_delay_timeout: 5,
            handshake_retries: 5,
            handshake_timeout: 3000,
            rx_checksum_offload: false,
            tx_checksum_offload: false,
        }
    }
}

/// The parameters with which a connection enters ESTABLISHED.
#[derive(Debug, Clone, Copy, PartialEq, Eq, Structural)]
pub struct ControlBlock {
    pub local: Ipv4Endpoint,
    pub remote: Ipv4Endpoint,
    /// RCV.NXT: the next sequence number expected from the peer.
    pub receive_seq_no: SeqNumber,
    /// Delay before a delayed ACK goes out, in milliseconds.
    pub ack_delay_timeout: u64,
    pub receive_window_size: u32,
    pub receive_window_scale: u8,
    /// SND.UNA (equal to SND.NXT when the connection opens).
    pub sender_seq_no: SeqNumber,
    pub sender_window_size: u32,
    pub sender_window_scale: u8,
    /// The peer's maximum segment size.
    pub mss: usize,
}

impl ControlBlock {
    pub fn get_local(&self) -> (r: Ipv4Endpoint)
        ensures
            r == self.local,
    {
        self.local
    }

    pub fn get_remote(&self) -> (r: Ipv4Endpoint)
        ensures
            r == self.remote,
    {
        self.remote
    }

    pub fn remote_mss(&self) -> (r: usize)
        ensures
            r == self.mss,
    {
        self.mss
    }
}

} // verus!
