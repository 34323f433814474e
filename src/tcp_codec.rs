use vstd::prelude::*;
use vstd::slice::slice_subrange;
use crate::checksum::{fold_carries, lemma_fold_carries_range};
use crate::seq_number::SeqNumber;
use crate::tcp::{TcpHeader, TcpOption};
use crate::wire::{
    be16, be32, byte_of, lemma_be16_of_bytes, lemma_be32_of_bytes, read_u16_at, read_u32_at,
    write_u16_at, write_u32_at,
};

verus! {

/// The bytes of one option: kind, length where it has one, value.
pub open spec fn option_bytes(o: TcpOption) -> Seq<u8> {
    match o {
        TcpOption::NoOperation => seq![1u8],
        TcpOption::MaximumSegmentSize(m) => seq![2u8, 4u8, byte_of(m as int, 1), byte_of(m as int, 0)],
        TcpOption::WindowScale(w) => seq![3u8, 3u8, w],
    }
}

/// The bytes of a list of options, one after the other.
pub open spec fn options_bytes(opts: Seq<TcpOption>) -> Seq<u8>
    decreases opts.len(),
{
    if opts.len() == 0 {
        Seq::empty()
    } else {
        option_bytes(opts[0]) + options_bytes(opts.drop_first())
    }
}

/// `acc` followed by the options of `r`, where `r` is a list.
pub open spec fn prepend(acc: Seq<TcpOption>, r: Option<Seq<TcpOption>>) -> Option<Seq<TcpOption>> {
    match r {
        Some(rest) => Some(acc + rest),
        None => None,
    }
}

/// The options that the bytes `b` of an options field hold, read up to
/// the end-of-list option or the end of the field. No-operation, segment
/// size and window scale are recognised; other kinds are skipped by their
/// length. `None` where an option is cut short or has a wrong length.
pub open spec fn parse_options(b: Seq<u8>) -> Option<Seq<TcpOption>>
    decreases b.len(),
{
    if b.len() == 0 || b[0] == 0 {
        Some(Seq::empty())
    } else if b[0] == 1 {
        prepend(seq![TcpOption::NoOperation], parse_options(b.drop_first()))
    } else if b.len() < 2 || b[1] < 2 || b[1] > b.len() {
        None
    } else if b[0] == 2 {
        if b[1] != 4 {
            None
        } else {
            prepend(
                seq![TcpOption::MaximumSegmentSize(be16(b, 2) as u16)],
                parse_options(b.subrange(4, b.len() as int)),
            )
        }
    } else if b[0] == 3 {
        if b[1] != 3 {
            None
        } else {
            prepend(seq![TcpOption::WindowScale(b[2])], parse_options(b.subrange(3, b.len() as int)))
        }
    } else {
        parse_options(b.subrange(b[1] as int, b.len() as int))
    }
}

proof fn lemma_prepend_assoc(a: Seq<TcpOption>, b: Seq<TcpOption>, r: Option<Seq<TcpOption>>)
    ensures
        prepend(a, prepend(b, r)) == prepend(a + b, r),
{
    match r {
        Some(rest) => {
            assert(a + (b + rest) =~= (a + b) + rest);
        },
        None => {},
    }
}

/// Reads the options field `b`.
pub fn read_options(b: &[u8]) -> (r: Option<Vec<TcpOption>>)
    ensures
        match r {
            Some(v) => parse_options(b@) == Some(v@),
            None => parse_options(b@) is None,
        },
{
    let n: usize = b.len();
    let mut acc: Vec<TcpOption> = Vec::new();
    let mut i: usize = 0;
    assert(b@.subrange(0, n as int) =~= b@);
    assert(Seq::<TcpOption>::empty() + acc@ =~= acc@);
    while i < n
        invariant
            n == b@.len(),
            i <= n,
            parse_options(b@) == prepend(acc@, parse_options(b@.subrange(i as int, n as int))),
        decreases n - i,
    {
        let ghost rest = b@.subrange(i as int, n as int);
        let kind: u8 = b[i];
        if kind == 0 {
            assert(parse_options(rest) == Some(Seq::<TcpOption>::empty()));
            assert(acc@ + Seq::<TcpOption>::empty() =~= acc@);
            return Some(acc);
        }
        if kind == 1 {
            assert(rest.drop_first() =~= b@.subrange(i + 1, n as int));
            proof {
                lemma_prepend_assoc(acc@, seq![TcpOption::NoOperation], parse_options(rest.drop_first()));
            }
            acc.push(TcpOption::NoOperation);
            i = i + 1;
            continue;
        }
        if n - i < 2 {
            return None;
        }
        let len: u8 = b[i + 1];
        if len < 2 || len as usize > n - i {
            return None;
        }
        assert(rest.subrange(len as int, rest.len() as int) =~= b@.subrange(i + len, n as int));
        if kind == 2 {
            if len != 4 {
                return None;
            }
            let m: u16 = read_u16_at(b, i + 2);
            assert(m == be16(rest, 2));
            proof {
                lemma_prepend_assoc(
                    acc@,
                    seq![TcpOption::MaximumSegmentSize(m)],
                    parse_options(b@.subrange(i + 4, n as int)),
                );
            }
            acc.push(TcpOption::MaximumSegmentSize(m));
        } else if kind == 3 {
            if len != 3 {
                return None;
            }
            proof {
                lemma_prepend_assoc(
                    acc@,
                    seq![TcpOption::WindowScale(b[i + 2])],
                    parse_options(b@.subrange(i + 3, n as int)),
                );
            }
            acc.push(TcpOption::WindowScale(b[i + 2]));
        }
        i = i + len as usize;
    }
    assert(parse_options(b@.subrange(n as int, n as int)) == Some(Seq::<TcpOption>::empty()));
    assert(acc@ + Seq::<TcpOption>::empty() =~= acc@);
    Some(acc)
}

proof fn lemma_options_bytes_append(a: Seq<TcpOption>, b: Seq<TcpOption>)
    ensures
        options_bytes(a + b) == options_bytes(a) + options_bytes(b),
    decreases a.len(),
{
    if a.len() == 0 {
        assert(a + b =~= b);
        assert(Seq::<u8>::empty() + options_bytes(b) =~= options_bytes(b));
    } else {
        assert((a + b).drop_first() =~= a.drop_first() + b);
        lemma_options_bytes_append(a.drop_first(), b);
        assert(option_bytes(a[0]) + (options_bytes(a.drop_first()) + options_bytes(b))
            =~= (option_bytes(a[0]) + options_bytes(a.drop_first())) + options_bytes(b));
    }
}

/// Appends the bytes of `opts` to `out`.
pub fn write_options(opts: &Vec<TcpOption>, out: &mut Vec<u8>)
    ensures
        final(out)@ == old(out)@ + options_bytes(opts@),
{
    let mut i: usize = 0;
    assert(old(out)@ + options_bytes(opts@.take(0)) =~= old(out)@);
    while i < opts.len()
        invariant
            i <= opts@.len(),
            out@ == old(out)@ + options_bytes(opts@.take(i as int)),
        decreases opts@.len() - i,
    {
        let ghost before = out@;
        match opts[i] {
            TcpOption::NoOperation => {
                out.push(1u8);
            },
            TcpOption::MaximumSegmentSize(m) => {
                out.push(2u8);
                out.push(4u8);
                out.push(0u8);
                out.push(0u8);
                let at: usize = out.len() - 2;
                write_u16_at(out, at, m);
            },
            TcpOption::WindowScale(w) => {
                out.push(3u8);
                out.push(3u8);
                out.push(w);
            },
        }
        proof {
            assert(out@ =~= before + option_bytes(opts@[i as int]));
            assert(opts@.take(i + 1) =~= opts@.take(i as int) + seq![opts@[i as int]]);
            lemma_options_bytes_append(opts@.take(i as int), seq![opts@[i as int]]);
            let one = seq![opts@[i as int]];
            assert(one.drop_first() =~= Seq::<TcpOption>::empty());
            assert(options_bytes(one.drop_first()) == Seq::<u8>::empty());
            assert(options_bytes(one) == option_bytes(one[0]) + options_bytes(one.drop_first()));
            assert(options_bytes(one) =~= option_bytes(opts@[i as int]));
        }
        i = i + 1;
    }
    assert(opts@.take(opts@.len() as int) =~= opts@);
}

/// Options round trip: the bytes of a list of options, followed by any
/// number of end-of-list bytes, read back as that list.
pub proof fn lemma_options_round_trip(opts: Seq<TcpOption>, pad: Seq<u8>)
    requires
        forall|i: int| 0 <= i < pad.len() ==> pad[i] == 0,
    ensures
        parse_options(options_bytes(opts) + pad) == Some(opts),
    decreases opts.len(),
{
    let b = options_bytes(opts) + pad;
    if opts.len() == 0 {
        assert(b =~= pad);
        assert(opts =~= Seq::<TcpOption>::empty());
    } else {
        let o = opts[0];
        let rest = options_bytes(opts.drop_first()) + pad;
        lemma_options_round_trip(opts.drop_first(), pad);
        assert(b =~= option_bytes(o) + rest);
        assert(seq![o] + opts.drop_first() =~= opts);
        match o {
            TcpOption::NoOperation => {
                assert(b.drop_first() =~= rest);
            },
            TcpOption::MaximumSegmentSize(m) => {
                lemma_be16_of_bytes(m as int);
                assert(b.subrange(4, b.len() as int) =~= rest);
            },
            TcpOption::WindowScale(w) => {
                assert(b.subrange(3, b.len() as int) =~= rest);
            },
        }
    }
}

/// The 16-bit word of `b` that starts at byte `i`; a last odd byte is
/// padded with zero.
pub open spec fn word_at(b: Seq<u8>, i: int) -> int {
    b[i] as int * 256 + if i + 1 < b.len() {
        b[i + 1] as int
    } else {
        0
    }
}

/// Sum of the first `n` 16-bit words of `b`.
pub open spec fn words_sum(b: Seq<u8>, n: nat) -> int
    decreases n,
{
    if n == 0 {
        0
    } else {
        words_sum(b, (n - 1) as nat) + word_at(b, 2 * (n - 1))
    }
}

/// The pseudo-header that the TCP checksum covers: the addresses, the
/// protocol number 6 and the segment length.
pub open spec fn pseudo_header(src_addr: u32, dst_addr: u32, len: int) -> Seq<u8> {
    seq![
        byte_of(src_addr as int, 3),
        byte_of(src_addr as int, 2),
        byte_of(src_addr as int, 1),
        byte_of(src_addr as int, 0),
        byte_of(dst_addr as int, 3),
        byte_of(dst_addr as int, 2),
        byte_of(dst_addr as int, 1),
        byte_of(dst_addr as int, 0),
        0u8,
        6u8,
        byte_of(len, 1),
        byte_of(len, 0),
    ]
}

/// The checksum of TCP segment `seg`: the one's-complement sum, seeded at
/// `0xFFFF`, over the pseudo-header and the segment with its checksum field
/// counted as zero, with carries folded, complemented.
pub open spec fn tcp_checksum_of(src_addr: u32, dst_addr: u32, seg: Seq<u8>) -> u16 {
    let all = pseudo_header(src_addr, dst_addr, seg.len() as int) + seg.update(16, 0u8).update(
        17,
        0u8,
    );
    (0xFFFF - fold_carries(0xFFFF + words_sum(all, ((all.len() + 1) / 2) as nat))) as u16
}

proof fn lemma_words_sum_bound(b: Seq<u8>, n: nat)
    requires
        2 * n <= b.len() + 1,
    ensures
        0 <= words_sum(b, n) <= 0xFFFF * n,
    decreases n,
{
    if n > 0 {
        lemma_words_sum_bound(b, (n - 1) as nat);
    }
}

/// Computes the checksum of segment `seg` sent from `src_addr` to
/// `dst_addr`.
pub fn tcp_checksum(src_addr: u32, dst_addr: u32, seg: &[u8]) -> (r: u16)
    requires
        18 <= seg@.len() <= 0xFFFF,
    ensures
        r == tcp_checksum_of(src_addr, dst_addr, seg@),
{
    let mut all: Vec<u8> = vec![0u8; 12];
    write_u32_at(&mut all, 0, src_addr);
    write_u32_at(&mut all, 4, dst_addr);
    all.set(9, 6u8);
    write_u16_at(&mut all, 10, seg.len() as u16);
    assert(all@ =~= pseudo_header(src_addr, dst_addr, seg@.len() as int));
    let ghost zeroed = seg@.update(16, 0u8).update(17, 0u8);
    let mut i: usize = 0;
    while i < seg.len()
        invariant
            18 <= seg@.len() <= 0xFFFF,
            i <= seg@.len(),
            zeroed == seg@.update(16, 0u8).update(17, 0u8),
            all@ == pseudo_header(src_addr, dst_addr, seg@.len() as int) + zeroed.take(i as int),
        decreases seg@.len() - i,
    {
        if i == 16 || i == 17 {
            all.push(0u8);
        } else {
            all.push(seg[i]);
        }
        i = i + 1;
        assert(all@ =~= pseudo_header(src_addr, dst_addr, seg@.len() as int) + zeroed.take(i as int));
    }
    assert(zeroed.take(seg@.len() as int) =~= zeroed);
    let n: usize = all.len();
    let words: usize = (n + 1) / 2;
    let mut state: u64 = 0xffff;
    let mut w: usize = 0;
    while w < words
        invariant
            n == all@.len(),
            words == (n + 1) / 2,
            w <= words,
            state as int == 0xFFFF + words_sum(all@, w as nat),
            state <= 0xFFFF * (w + 1),
            n <= 12 + 0xFFFF,
        decreases words - w,
    {
        let word: u64 = if 2 * w + 1 < n {
            read_u16_at(all.as_slice(), 2 * w) as u64
        } else {
            all[2 * w] as u64 * 256
        };
        state = state + word;
        w = w + 1;
    }
    let ghost total: int = state as int;
    while state > 0xffff
        invariant
            fold_carries(state as int) == fold_carries(total),
        decreases state,
    {
        state = state - 0xffff;
    }
    proof {
        lemma_words_sum_bound(all@, words as nat);
        lemma_fold_carries_range(total);
    }
    (0xffff - state) as u16
}

/// The header length that the data offset of `b` gives, in bytes.
pub open spec fn data_offset(b: Seq<u8>) -> int {
    (b[12] / 16) as int * 4
}

/// Why the bytes `b` are refused as a TCP segment from `src_addr` to
/// `dst_addr`, checked in this order, or `None` where they are accepted.
pub open spec fn tcp_parse_error(src_addr: u32, dst_addr: u32, b: Seq<u8>, verify_checksum: bool) -> Option<
    TcpError,
> {
    if b.len() < 20 {
        Some(TcpError::SegmentTooSmall)
    } else if b.len() > 0xFFFF {
        Some(TcpError::SegmentTooLarge)
    } else if data_offset(b) < 20 || data_offset(b) > b.len() {
        Some(TcpError::BadDataOffset)
    } else if verify_checksum && be16(b, 16) != tcp_checksum_of(src_addr, dst_addr, b) {
        Some(TcpError::InvalidChecksum)
    } else if parse_options(b.subrange(20, data_offset(b))) is None {
        Some(TcpError::BadOptions)
    } else {
        None
    }
}

/// Why bytes are not a TCP segment that the stack accepts, or why a
/// header cannot be written.
#[derive(Debug, Clone, Copy, PartialEq, Eq, Structural)]
pub enum TcpError {
    SegmentTooSmall,
    SegmentTooLarge,
    BadDataOffset,
    InvalidChecksum,
    BadOptions,
    OptionsTooLong,
}

/// The flags byte: FIN, SYN, RST and ACK.
pub open spec fn flags_byte(h: TcpHeader) -> u8 {
    ((if h.fin {
        1int
    } else {
        0
    }) + (if h.syn {
        2int
    } else {
        0
    }) + (if h.rst {
        4int
    } else {
        0
    }) + (if h.ack {
        16int
    } else {
        0
    })) as u8
}

/// The end-of-list bytes that pad the options to a multiple of four.
pub open spec fn padding_len(opts: Seq<TcpOption>) -> int {
    (4 - options_bytes(opts).len() % 4) % 4
}

/// The length of the header, options and padding included.
pub open spec fn header_len(h: TcpHeader) -> int {
    20 + options_bytes(h.options@).len() + padding_len(h.options@)
}

/// The fixed 20 bytes of the header, with data offset byte `off` and the
/// checksum and urgent pointer zero.
pub open spec fn fixed_header(h: TcpHeader, off: u8) -> Seq<u8> {
    seq![
        byte_of(h.src_port as int, 1),
        byte_of(h.src_port as int, 0),
        byte_of(h.dst_port as int, 1),
        byte_of(h.dst_port as int, 0),
        byte_of(h.seq_num.value as int, 3),
        byte_of(h.seq_num.value as int, 2),
        byte_of(h.seq_num.value as int, 1),
        byte_of(h.seq_num.value as int, 0),
        byte_of(h.ack_num.value as int, 3),
        byte_of(h.ack_num.value as int, 2),
        byte_of(h.ack_num.value as int, 1),
        byte_of(h.ack_num.value as int, 0),
        off,
        flags_byte(h),
        byte_of(h.window_size as int, 1),
        byte_of(h.window_size as int, 0),
        0u8,
        0u8,
        0u8,
        0u8,
    ]
}

pub open spec fn zeros(n: int) -> Seq<u8> {
    Seq::new(n as nat, |i: int| 0u8)
}

/// The segment for `h` and `payload`, with the checksum field still zero.
pub open spec fn segment_unsummed(h: TcpHeader, payload: Seq<u8>) -> Seq<u8> {
    fixed_header(h, ((header_len(h) / 4) * 16) as u8) + options_bytes(h.options@) + zeros(
        padding_len(h.options@),
    ) + payload
}

/// The segment that `serialize` writes: the checksum is computed unless
/// the NIC computes it (`offload`), in which case the field stays zero.
pub open spec fn segment_bytes(
    h: TcpHeader,
    src_addr: u32,
    dst_addr: u32,
    payload: Seq<u8>,
    offload: bool,
) -> Seq<u8> {
    let u = segment_unsummed(h, payload);
    let c = if offload {
        0
    } else {
        tcp_checksum_of(src_addr, dst_addr, u) as int
    };
    u.update(16, byte_of(c, 1)).update(17, byte_of(c, 0))
}

/// Appends the end-of-list bytes that bring `out` to a multiple of four
/// bytes.
fn pad_to_words(out: &mut Vec<u8>)
    requires
        old(out)@.len() <= 60,
    ensures
        final(out)@ == old(out)@ + zeros((4 - old(out)@.len() % 4) % 4),
{
    let ghost start = out@;
    while out.len() % 4 != 0
        invariant
            start.len() <= 60,
            start.len() <= out@.len(),
            out@.len() - start.len() <= (4 - start.len() % 4) % 4,
            out@ == start + zeros(out@.len() - start.len()),
        decreases 64 - out@.len(),
    {
        out.push(0u8);
        assert(out@ =~= start + zeros(out@.len() - start.len()));
    }
}

/// Appends `bytes` to `out`.
fn append_bytes(out: &mut Vec<u8>, bytes: &[u8])
    ensures
        final(out)@ == old(out)@ + bytes@,
{
    let mut i: usize = 0;
    while i < bytes.len()
        invariant
            i <= bytes@.len(),
            out@ == old(out)@ + bytes@.take(i as int),
        decreases bytes@.len() - i,
    {
        out.push(bytes[i]);
        i = i + 1;
        assert(out@ =~= old(out)@ + bytes@.take(i as int));
    }
    assert(bytes@.take(bytes@.len() as int) =~= bytes@);
}

impl TcpHeader {
    /// The fixed part of the header, with data offset zero.
    fn write_fixed(&self) -> (r: Vec<u8>)
        ensures
            r@ == fixed_header(*self, 0),
    {
        let mut out: Vec<u8> = vec![0u8; 20];
        write_u16_at(&mut out, 0, self.src_port);
        write_u16_at(&mut out, 2, self.dst_port);
        write_u32_at(&mut out, 4, self.seq_num.value);
        write_u32_at(&mut out, 8, self.ack_num.value);
        let flags: u8 = (if self.fin { 1u8 } else { 0u8 }) + (if self.syn { 2u8 } else { 0u8 }) + (
        if self.rst {
            4u8
        } else {
            0u8
        }) + (if self.ack {
            16u8
        } else {
            0u8
        });
        out.set(13, flags);
        write_u16_at(&mut out, 14, self.window_size);
        assert(out@ =~= fixed_header(*self, 0));
        out
    }

    /// Writes the segment with this header and `payload`, sent from
    /// `src_addr` to `dst_addr`. Fails where the options take more than 40
    /// bytes or the segment more than 0xFFFF.
    pub fn serialize(&self, src_addr: u32, dst_addr: u32, payload: &[u8], offload: bool) -> (r: Result<
        Vec<u8>,
        TcpError,
    >)
        ensures
            options_bytes(self.options@).len() > 40 ==> r == Err::<Vec<u8>, TcpError>(
                TcpError::OptionsTooLong,
            ),
            options_bytes(self.options@).len() <= 40 && header_len(*self) + payload@.len() > 0xFFFF
                ==> r == Err::<Vec<u8>, TcpError>(TcpError::SegmentTooLarge),
            options_bytes(self.options@).len() <= 40 && header_len(*self) + payload@.len() <= 0xFFFF
                ==> (r matches Ok(v) && v@ == segment_bytes(*self, src_addr, dst_addr, payload@, offload)),
    {
        let mut out: Vec<u8> = self.write_fixed();
        write_options(&self.options, &mut out);
        if out.len() > 60 {
            return Err(TcpError::OptionsTooLong);
        }
        let ghost opts = out@;
        pad_to_words(&mut out);
        assert((4 - opts.len() % 4) % 4 == padding_len(self.options@));
        if payload.len() > 0xFFFF - out.len() {
            return Err(TcpError::SegmentTooLarge);
        }
        let hl: usize = out.len();
        out.set(12, ((hl / 4) * 16) as u8);
        let ghost header = out@;
        assert(header =~= fixed_header(*self, ((header_len(*self) / 4) * 16) as u8) + options_bytes(
            self.options@,
        ) + zeros(padding_len(self.options@)));
        append_bytes(&mut out, payload);
        assert(out@ =~= segment_unsummed(*self, payload@));
        if !offload {
            let c: u16 = tcp_checksum(src_addr, dst_addr, out.as_slice());
            write_u16_at(&mut out, 16, c);
        } else {
            write_u16_at(&mut out, 16, 0);
        }
        Ok(out)
    }

    /// Parses a segment sent from `src_addr` to `dst_addr` into its header
    /// and payload, checking the checksum where `verify_checksum` asks it.
    pub fn parse(src_addr: u32, dst_addr: u32, buf: &[u8], verify_checksum: bool) -> (r: Result<
        (TcpHeader, Vec<u8>),
        TcpError,
    >)
        ensures
            match r {
                Ok((h, payload)) => {
                    let b = buf@;
                    &&& tcp_parse_error(src_addr, dst_addr, b, verify_checksum) is None
                    &&& h.src_port == be16(b, 0)
                    &&& h.dst_port == be16(b, 2)
                    &&& h.seq_num.value == be32(b, 4)
                    &&& h.ack_num.value == be32(b, 8)
                    &&& h.fin == (b[13] % 2 == 1)
                    &&& h.syn == ((b[13] / 2) % 2 == 1)
                    &&& h.rst == ((b[13] / 4) % 2 == 1)
                    &&& h.ack == ((b[13] / 16) % 2 == 1)
                    &&& h.window_size == be16(b, 14)
                    &&& Some(h.options@) == parse_options(b.subrange(20, data_offset(b)))
                    &&& payload@ == b.subrange(data_offset(b), b.len() as int)
                },
                Err(e) => tcp_parse_error(src_addr, dst_addr, buf@, verify_checksum) == Some(e),
            },
    {
        if buf.len() < 20 {
            return Err(TcpError::SegmentTooSmall);
        }
        if buf.len() > 0xFFFF {
            return Err(TcpError::SegmentTooLarge);
        }
        let hl: usize = (buf[12] / 16) as usize * 4;
        if hl < 20 || hl > buf.len() {
            return Err(TcpError::BadDataOffset);
        }
        if verify_checksum && read_u16_at(buf, 16) != tcp_checksum(src_addr, dst_addr, buf) {
            return Err(TcpError::InvalidChecksum);
        }
        let options: Vec<TcpOption> = match read_options(slice_subrange(buf, 20, hl)) {
            Some(o) => o,
            None => {
                return Err(TcpError::BadOptions);
            },
        };
        let flags: u8 = buf[13];
        let h = TcpHeader {
            src_port: read_u16_at(buf, 0),
            dst_port: read_u16_at(buf, 2),
            seq_num: SeqNumber::from_u32(read_u32_at(buf, 4)),
            ack_num: SeqNumber::from_u32(read_u32_at(buf, 8)),
            ack: (flags / 16) % 2 == 1,
            syn: (flags / 2) % 2 == 1,
            rst: (flags / 4) % 2 == 1,
            fin: flags % 2 == 1,
            window_size: read_u16_at(buf, 14),
            options,
        };
        let mut payload: Vec<u8> = Vec::new();
        append_bytes(&mut payload, slice_subrange(buf, hl, buf.len()));
        assert(payload@ =~= buf@.subrange(hl as int, buf@.len() as int));
        Ok((h, payload))
    }
}

/// TCP header round trip: parsing, with the checksum checked, the segment
/// that `serialize` writes for a header and a payload succeeds and gives
/// back the header's ports, sequence and acknowledgement numbers, flags,
/// window and options, and the payload.
pub proof fn lemma_tcp_round_trip(h: TcpHeader, src_addr: u32, dst_addr: u32, payload: Seq<u8>)
    requires
        options_bytes(h.options@).len() <= 40,
        header_len(h) + payload.len() <= 0xFFFF,
    ensures
        ({
            let b = segment_bytes(h, src_addr, dst_addr, payload, false);
            &&& tcp_parse_error(src_addr, dst_addr, b, true) is None
            &&& be16(b, 0) == h.src_port
            &&& be16(b, 2) == h.dst_port
            &&& be32(b, 4) == h.seq_num.value
            &&& be32(b, 8) == h.ack_num.value
            &&& (b[13] % 2 == 1) == h.fin
            &&& ((b[13] / 2) % 2 == 1) == h.syn
            &&& ((b[13] / 4) % 2 == 1) == h.rst
            &&& ((b[13] / 16) % 2 == 1) == h.ack
            &&& be16(b, 14) == h.window_size
            &&& parse_options(b.subrange(20, data_offset(b))) == Some(h.options@)
            &&& b.subrange(data_offset(b), b.len() as int) == payload
        }),
{
    let u = segment_unsummed(h, payload);
    let c = tcp_checksum_of(src_addr, dst_addr, u);
    let b = segment_bytes(h, src_addr, dst_addr, payload, false);
    let opts = options_bytes(h.options@);
    let pad = zeros(padding_len(h.options@));
    let hl = header_len(h);
    assert(hl % 4 == 0);
    assert(hl <= 60);
    assert(u.len() == hl + payload.len());
    assert(b.len() == u.len());
    assert(b[12] == ((hl / 4) * 16) as u8);
    assert(data_offset(b) == hl);
    assert(b.update(16, 0u8).update(17, 0u8) =~= u.update(16, 0u8).update(17, 0u8));
    assert(tcp_checksum_of(src_addr, dst_addr, b) == c);
    lemma_be16_of_bytes(c as int);
    assert(be16(b, 16) == c);
    assert(b.subrange(20, hl) =~= opts + pad);
    lemma_options_round_trip(h.options@, pad);
    assert(b.subrange(hl, b.len() as int) =~= payload);
    lemma_be16_of_bytes(h.src_port as int);
    lemma_be16_of_bytes(h.dst_port as int);
    lemma_be16_of_bytes(h.window_size as int);
    lemma_be32_of_bytes(h.seq_num.value as int);
    lemma_be32_of_bytes(h.ack_num.value as int);
    assert(b[13] == flags_byte(h));
}

} // verus!
