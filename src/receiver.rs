use vstd::prelude::*;
use vstd::arithmetic::div_mod::lemma_add_mod_noop;
use crate::seq_number::{wrapping_add, wrapping_diff, SeqNumber};

verus! {

/// Byte counts of a connection stay below this.
pub const MAX_STREAM_OFFSET: u64 = 0x4000_0000_0000_0000;

/// The receive side of a connection: RCV.NXT and RCV.WND, the in-order
/// bytes not yet read, and segments that arrived ahead of RCV.NXT, each
/// under the stream offset of its first byte.
pub struct Receiver {
    /// RCV.NXT when the connection opened.
    pub initial_seq: u32,
    pub rcv_nxt: SeqNumber,
    pub rcv_wnd: u32,
    /// Bytes delivered in order since the connection opened.
    pub total: u64,
    /// In-order bytes that the reader has not taken yet.
    pub buffer: Vec<u8>,
    pub out_of_order: Vec<(u64, Vec<u8>)>,
    /// Bytes that the reader has taken.
    pub popped: Ghost<Seq<u8>>,
    /// The peer's FIN has been taken in: it follows every byte delivered
    /// and occupies one sequence number after them.
    pub fin_received: bool,
}

/// Every byte delivered in order: those read, then those not yet read.
pub open spec fn received(r: &Receiver) -> Seq<u8> {
    r.popped@ + r.buffer@
}

/// Where sequence number `seq` falls relative to RCV.NXT, within half the
/// sequence space either way.
pub open spec fn relative(seq: u32, nxt: u32) -> int {
    let d = wrapping_diff(seq, nxt);
    if d < 0x8000_0000 {
        d
    } else {
        d - 0x1_0000_0000
    }
}

/// The stream offset of the first byte of a segment that starts at `seq`.
pub open spec fn segment_offset(r: &Receiver, seq: u32) -> int {
    r.total + relative(seq, r.rcv_nxt.value)
}

/// `data` is the part of `stream` that starts at `off`.
pub open spec fn slice_of(stream: Seq<u8>, off: int, data: Seq<u8>) -> bool {
    &&& 0 <= off
    &&& off + data.len() <= stream.len()
    &&& data == stream.subrange(off, off + data.len())
}

/// What the receiver holds agrees with the byte stream `stream` that the
/// peer sends: the bytes delivered are its beginning, and each stored
/// segment is the part of it at its offset.
pub open spec fn agrees(r: &Receiver, stream: Seq<u8>) -> bool {
    &&& r.total <= stream.len()
    &&& received(r) == stream.take(r.total as int)
    &&& forall|i: int|
        0 <= i < r.out_of_order@.len() ==> slice_of(
            stream,
            (#[trigger] r.out_of_order@[i]).0 as int,
            r.out_of_order@[i].1@,
        )
}

proof fn lemma_extend_prefix(prefix: Seq<u8>, stream: Seq<u8>, total: int, off: int, seg: Seq<u8>)
    requires
        prefix == stream.take(total),
        0 <= total <= stream.len(),
        slice_of(stream, off, seg),
        off <= total < off + seg.len(),
    ensures
        prefix + seg.subrange(total - off, seg.len() as int) == stream.take(off + seg.len()),
{
    assert(prefix + seg.subrange(total - off, seg.len() as int) =~= stream.take(off + seg.len()));
}

proof fn lemma_advance(init: u32, total: int, n: int)
    requires
        0 <= total,
        0 <= n < 0x1_0000_0000,
    ensures
        wrapping_add(wrapping_add(init, (total % 0x1_0000_0000) as u32), n as u32) == wrapping_add(
            init,
            ((total + n) % 0x1_0000_0000) as u32,
        ),
{
    let m: int = 0x1_0000_0000;
    let a = init as int;
    let t = total % m;
    lemma_add_mod_noop(a + t, n, m);
    lemma_add_mod_noop(t, n, m);
    lemma_add_mod_noop(total, n, m);
    lemma_add_mod_noop(a, t + n, m);
    lemma_add_mod_noop(a, total + n, m);
    assert(n % m == n);
    assert(a % m == a);
    assert(((a + t) % m + n) % m == (a + t + n) % m);
    assert((t + n) % m == (total + n) % m);
    assert((a + (t + n) % m) % m == (a + (t + n)) % m);
}

/// One step of delivering stored segments keeps the agreement with the
/// stream: segment `i`, which starts at or before the end of what was
/// delivered, is taken out and whatever of it lies beyond is delivered.
proof fn lemma_drain_step(mid: &Receiver, after: &Receiver, i: int, stream: Seq<u8>)
    requires
        agrees(mid, stream),
        received(mid).len() == mid.total,
        0 <= i < mid.out_of_order@.len(),
        mid.out_of_order@[i].0 <= mid.total,
        after.out_of_order@ == mid.out_of_order@.remove(i),
        after.popped == mid.popped,
        ({
            let (off, seg) = mid.out_of_order@[i];
            if mid.total - off < seg@.len() {
                &&& after.buffer@ == mid.buffer@ + seg@.subrange(mid.total - off, seg@.len() as int)
                &&& after.total == mid.total + (seg@.len() - (mid.total - off))
            } else {
                &&& after.buffer@ == mid.buffer@
                &&& after.total == mid.total
            }
        }),
    ensures
        agrees(after, stream),
{
    let (off, seg) = mid.out_of_order@[i];
    assert(slice_of(stream, off as int, seg@));
    if mid.total - off < seg@.len() {
        lemma_extend_prefix(received(mid), stream, mid.total as int, off as int, seg@);
        assert(received(after) =~= received(mid) + seg@.subrange(mid.total - off, seg@.len() as int));
    } else {
        assert(received(after) =~= received(mid));
    }
    assert forall|j: int| 0 <= j < after.out_of_order@.len() implies slice_of(
        stream,
        (#[trigger] after.out_of_order@[j]).0 as int,
        after.out_of_order@[j].1@,
    ) by {
        let j0 = if j < i { j } else { j + 1 };
        assert(after.out_of_order@[j] == mid.out_of_order@[j0]);
    }
}

impl Receiver {
    pub open spec fn wf(&self) -> bool {
        &&& received(self).len() == self.total
        &&& self.total < 0x8000_0000_0000_0000
        &&& self.rcv_nxt.value == if self.fin_received {
            wrapping_add(self.initial_seq, ((self.total + 1) % 0x1_0000_0000) as u32)
        } else {
            wrapping_add(self.initial_seq, (self.total % 0x1_0000_0000) as u32)
        }
        &&& self.rcv_wnd < 0x8000_0000
        &&& forall|i: int|
            0 <= i < self.out_of_order@.len() ==> (#[trigger] self.out_of_order@[i]).0
                + self.out_of_order@[i].1@.len() < 0x8000_0000_0000_0000
                && self.out_of_order@[i].1@.len() <= 0xFFFF
    }

    /// A receiver that expects `rcv_nxt` next and admits `rcv_wnd` bytes
    /// ahead of it.
    pub fn new(rcv_nxt: SeqNumber, rcv_wnd: u32) -> (r: Receiver)
        requires
            rcv_wnd < 0x8000_0000,
        ensures
            r.wf(),
            r.rcv_nxt == rcv_nxt,
            r.initial_seq == rcv_nxt.value,
            r.rcv_wnd == rcv_wnd,
            r.total == 0,
            !r.fin_received,
            r.buffer@.len() == 0,
            received(&r).len() == 0,
            r.out_of_order@.len() == 0,
            forall|stream: Seq<u8>| agrees(&r, stream),
    {
        let r = Receiver {
            initial_seq: rcv_nxt.value,
            rcv_nxt,
            rcv_wnd,
            total: 0,
            buffer: Vec::new(),
            out_of_order: Vec::new(),
            popped: Ghost(Seq::empty()),
            fin_received: false,
        };
        assert forall|stream: Seq<u8>| agrees(&r, stream) by {
            assert(received(&r) =~= stream.take(0));
        }
        r
    }

    /// Delivers the bytes of `seg` from index `from` on.
    fn append_from(&mut self, seg: &Vec<u8>, from: usize)
        requires
            from <= seg@.len(),
            seg@.len() - from < 0x1_0000_0000,
            received(old(self)).len() == old(self).total,
            old(self).rcv_nxt.value == wrapping_add(old(self).initial_seq, (old(self).total % 0x1_0000_0000) as u32),
            old(self).total + (seg@.len() - from) < 0x8000_0000_0000_0000,
        ensures
            final(self).buffer@ == old(self).buffer@ + seg@.subrange(from as int, seg@.len() as int),
            final(self).total == old(self).total + (seg@.len() - from),
            final(self).rcv_nxt.value == wrapping_add(final(self).initial_seq, (final(self).total % 0x1_0000_0000) as u32),
            final(self).initial_seq == old(self).initial_seq,
            final(self).rcv_wnd == old(self).rcv_wnd,
            final(self).out_of_order@ == old(self).out_of_order@,
            final(self).popped == old(self).popped,
            final(self).fin_received == old(self).fin_received,
    {
        let mut i: usize = from;
        while i < seg.len()
            invariant
                from <= i <= seg@.len(),
                self.buffer@ == old(self).buffer@ + seg@.subrange(from as int, i as int),
                self.total == old(self).total,
                self.rcv_nxt == old(self).rcv_nxt,
                self.initial_seq == old(self).initial_seq,
                self.rcv_wnd == old(self).rcv_wnd,
                self.out_of_order@ == old(self).out_of_order@,
                self.popped == old(self).popped,
                self.fin_received == old(self).fin_received,
            decreases seg@.len() - i,
        {
            self.buffer.push(seg[i]);
            i = i + 1;
            assert(self.buffer@ =~= old(self).buffer@ + seg@.subrange(from as int, i as int));
        }
        let n: usize = seg.len() - from;
        proof {
            lemma_advance(self.initial_seq, self.total as int, n as int);
        }
        self.total = self.total + n as u64;
        self.rcv_nxt = self.rcv_nxt.add(n as u32);
    }


    /// A stored segment that starts at or before the end of what was
    /// delivered, if there is one.
    fn first_contiguous(&self) -> (r: Option<usize>)
        ensures
            match r {
                Some(i) => i < self.out_of_order@.len() && self.out_of_order@[i as int].0 <= self.total,
                None => forall|j: int| 0 <= j < self.out_of_order@.len() ==> (#[trigger] self.out_of_order@[j]).0 > self.total,
            },
    {
        let mut i: usize = 0;
        while i < self.out_of_order.len()
            invariant
                i <= self.out_of_order@.len(),
                forall|j: int| 0 <= j < i ==> (#[trigger] self.out_of_order@[j]).0 > self.total,
            decreases self.out_of_order@.len() - i,
        {
            if self.out_of_order[i].0 <= self.total {
                return Some(i);
            }
            i = i + 1;
        }
        None
    }

    /// Delivers the stored segments that have become contiguous.
    fn drain(&mut self)
        requires
            old(self).wf(),
            !old(self).fin_received,
        ensures
            final(self).wf(),
            !final(self).fin_received,
            final(self).popped == old(self).popped,
            final(self).initial_seq == old(self).initial_seq,
            final(self).rcv_wnd == old(self).rcv_wnd,
            final(self).total >= old(self).total,
            received(final(self)).take(old(self).total as int) == received(old(self)),
            forall|j: int| 0 <= j < final(self).out_of_order@.len() ==> (#[trigger] final(self).out_of_order@[j]).0 > final(self).total,
            forall|stream: Seq<u8>| agrees(old(self), stream) ==> #[trigger] agrees(final(self), stream),
    {
        loop
            invariant
                self.wf(),
                !self.fin_received,
                self.popped == old(self).popped,
                self.initial_seq == old(self).initial_seq,
                self.rcv_wnd == old(self).rcv_wnd,
                self.total >= old(self).total,
                received(self).take(old(self).total as int) == received(old(self)),
                forall|stream: Seq<u8>| agrees(old(self), stream) ==> #[trigger] agrees(self, stream),
            ensures
                forall|j: int| 0 <= j < self.out_of_order@.len() ==> (#[trigger] self.out_of_order@[j]).0 > self.total,
            decreases self.out_of_order@.len(),
        {
            let i: usize = match self.first_contiguous() {
                Some(i) => i,
                None => {
                    break;
                },
            };
            let ghost mid = *self;
            let (off, seg) = self.out_of_order.remove(i);
            assert(mid.out_of_order@[i as int] == (off, seg));
            assert(off + seg@.len() < 0x8000_0000_0000_0000);
            let skip: u64 = self.total - off;
            if skip < seg.len() as u64 {
                self.append_from(&seg, skip as usize);
            }
            proof {
                assert(received(self).take(mid.total as int) =~= received(&mid));
                assert(received(self).take(old(self).total as int) =~= received(old(self)));
                assert forall|j: int| 0 <= j < self.out_of_order@.len() implies (#[trigger] self.out_of_order@[j]).0
                    + self.out_of_order@[j].1@.len() < 0x8000_0000_0000_0000
                    && self.out_of_order@[j].1@.len() <= 0xFFFF by {
                    let j0 = if j < i { j } else { j + 1 };
                    assert(self.out_of_order@[j] == mid.out_of_order@[j0]);
                }
                assert forall|stream: Seq<u8>| agrees(old(self), stream) implies #[trigger] agrees(self, stream) by {
                    lemma_drain_step(&mid, self, i as int, stream);
                }
            }
        }
    }

    /// A segment that starts at `seq` with `len` bytes overlaps the window
    /// `[RCV.NXT, RCV.NXT + RCV.WND)` or brings bytes past RCV.NXT.
    pub open spec fn acceptable(&self, seq: u32, len: int) -> bool {
        let rel = relative(seq, self.rcv_nxt.value);
        (0 <= rel < self.rcv_wnd) || (rel < 0 && -rel < len)
    }

    /// Takes in a segment's payload. A segment at RCV.NXT, or one that
    /// begins before it and reaches past it, delivers its new bytes, and
    /// then any stored segments that have become contiguous; one further
    /// on within the window is stored; any other is dropped, and `false`
    /// comes back. Whatever stream the peer sends, if what the receiver
    /// holds agrees with it and the segment is the part of it at the
    /// segment's offset, what it holds afterwards agrees with it too.
    pub fn receive(&mut self, seq: SeqNumber, data: Vec<u8>) -> (r: bool)
        requires
            old(self).wf(),
            data@.len() <= 0xFFFF,
            old(self).total < MAX_STREAM_OFFSET,
        ensures
            final(self).wf(),
            r == (!old(self).fin_received && old(self).acceptable(seq.value, data@.len() as int)),
            final(self).fin_received == old(self).fin_received,
            r && 0 < relative(seq.value, old(self).rcv_nxt.value) ==> {
                &&& final(self).out_of_order@ == old(self).out_of_order@.push(
                    ((old(self).total + relative(seq.value, old(self).rcv_nxt.value)) as u64, data),
                )
                &&& final(self).total == old(self).total
                &&& final(self).buffer@ == old(self).buffer@
            },
            final(self).popped == old(self).popped,
            final(self).initial_seq == old(self).initial_seq,
            final(self).rcv_wnd == old(self).rcv_wnd,
            final(self).total >= old(self).total,
            received(final(self)).take(old(self).total as int) == received(old(self)),
            !r ==> final(self).total == old(self).total && final(self).buffer@ == old(self).buffer@
                && final(self).out_of_order@ == old(self).out_of_order@,
            relative(seq.value, old(self).rcv_nxt.value) == 0 && r ==> {
                &&& final(self).total >= old(self).total + data@.len()
                &&& received(final(self)).subrange(
                    old(self).total as int,
                    old(self).total + data@.len(),
                ) == data@
            },
            forall|stream: Seq<u8>|
                agrees(old(self), stream) && slice_of(
                    stream,
                    segment_offset(old(self), seq.value),
                    data@,
                ) ==> #[trigger] agrees(final(self), stream),
    {
        let ghost o = *self;
        if self.fin_received {
            proof {
                assert(received(self).take(self.total as int) =~= received(self));
            }
            return false;
        }
        let d: u32 = seq.value.wrapping_sub(self.rcv_nxt.value);
        if d < 0x8000_0000 {
            if d >= self.rcv_wnd {
                return false;
            }
            if d == 0 {
                self.deliver(&data, 0);
            } else {
                self.store(self.total + d as u64, data);
            }
            true
        } else {
            let back: u64 = 0x1_0000_0000u64 - d as u64;
            if back >= data.len() as u64 {
                return false;
            }
            if back <= self.total {
                self.deliver(&data, back as usize);
            }
            true
        }
    }

    /// Delivers the bytes of `data` from index `from` on, which continue
    /// what was delivered, then the stored segments that have become
    /// contiguous.
    fn deliver(&mut self, data: &Vec<u8>, from: usize)
        requires
            old(self).wf(),
            from <= data@.len() <= 0xFFFF,
            from <= old(self).total < MAX_STREAM_OFFSET,
            !old(self).fin_received,
        ensures
            final(self).wf(),
            !final(self).fin_received,
            final(self).popped == old(self).popped,
            final(self).initial_seq == old(self).initial_seq,
            final(self).rcv_wnd == old(self).rcv_wnd,
            final(self).total >= old(self).total + (data@.len() - from),
            received(final(self)).take(old(self).total as int) == received(old(self)),
            received(final(self)).subrange(
                old(self).total as int,
                old(self).total + (data@.len() - from),
            ) == data@.subrange(from as int, data@.len() as int),
            forall|stream: Seq<u8>|
                agrees(old(self), stream) && slice_of(stream, old(self).total - from, data@)
                    ==> #[trigger] agrees(final(self), stream),
    {
        let ghost o = *self;
        self.append_from(data, from);
        proof {
            let tail = data@.subrange(from as int, data@.len() as int);
            assert(received(self) =~= received(&o) + tail);
            assert(received(self).take(o.total as int) =~= received(&o));
            assert forall|stream: Seq<u8>|
                agrees(&o, stream) && slice_of(stream, o.total - from, data@)
                implies #[trigger] agrees(self, stream) by {
                if from < data@.len() {
                    lemma_extend_prefix(received(&o), stream, o.total as int, o.total - from, data@);
                } else {
                    assert(received(self) =~= received(&o));
                }
            }
        }
        let ghost mid = *self;
        self.drain();
        proof {
            assert(received(self).take(o.total as int) =~= received(self).take(mid.total as int).take(
                o.total as int,
            ));
            assert(received(self).subrange(o.total as int, o.total + (data@.len() - from)) =~= received(
                &mid,
            ).subrange(o.total as int, o.total + (data@.len() - from)));
            assert(received(&mid).subrange(o.total as int, o.total + (data@.len() - from)) =~= data@.subrange(
                from as int,
                data@.len() as int,
            ));
        }
    }

    /// Stores a segment that starts at stream offset `off`, beyond what was
    /// delivered.
    fn store(&mut self, off: u64, data: Vec<u8>)
        requires
            old(self).wf(),
            data@.len() <= 0xFFFF,
            off < MAX_STREAM_OFFSET + 0x1_0000_0000,
        ensures
            final(self).wf(),
            final(self).fin_received == old(self).fin_received,
            final(self).popped == old(self).popped,
            final(self).initial_seq == old(self).initial_seq,
            final(self).rcv_wnd == old(self).rcv_wnd,
            final(self).rcv_nxt == old(self).rcv_nxt,
            final(self).total == old(self).total,
            final(self).buffer@ == old(self).buffer@,
            final(self).out_of_order@ == old(self).out_of_order@.push((off, data)),
            forall|stream: Seq<u8>|
                agrees(old(self), stream) && slice_of(stream, off as int, data@)
                    ==> #[trigger] agrees(final(self), stream),
    {
        let ghost o = *self;
        let ghost dv = data@;
        self.out_of_order.push((off, data));
        proof {
            let s = self.out_of_order@;
            assert(s[o.out_of_order@.len() as int] == (off, data));
            assert forall|j: int| 0 <= j < s.len() implies (#[trigger] s[j]).0 + s[j].1@.len()
                < 0x8000_0000_0000_0000 && s[j].1@.len() <= 0xFFFF by {
                if j < o.out_of_order@.len() {
                    assert(s[j] == o.out_of_order@[j]);
                }
            }
            assert forall|stream: Seq<u8>|
                agrees(&o, stream) && slice_of(stream, off as int, dv)
                implies #[trigger] agrees(self, stream) by {
                assert forall|j: int| 0 <= j < s.len() implies slice_of(
                    stream,
                    (#[trigger] s[j]).0 as int,
                    s[j].1@,
                ) by {
                    if j < o.out_of_order@.len() {
                        assert(s[j] == o.out_of_order@[j]);
                    }
                }
            }
        }
    }

    /// The acceptability test of a segment that starts at `seq` with `len`
    /// bytes: one with data must overlap the window or reach past RCV.NXT
    /// (`acceptable`); an empty one must fall at RCV.NXT or in the window.
    pub open spec fn segment_acceptable(&self, seq: u32, len: int) -> bool {
        if len == 0 {
            let rel = relative(seq, self.rcv_nxt.value);
            rel == 0 || (0 <= rel < self.rcv_wnd)
        } else {
            self.acceptable(seq, len)
        }
    }

    pub fn accepts(&self, seq: SeqNumber, len: usize) -> (r: bool)
        requires
            self.wf(),
        ensures
            r == self.segment_acceptable(seq.value, len as int),
    {
        let d: u32 = seq.value.wrapping_sub(self.rcv_nxt.value);
        if d < 0x8000_0000 {
            if len == 0 {
                d == 0 || d < self.rcv_wnd
            } else {
                d < self.rcv_wnd
            }
        } else {
            len > 0 && ((0x1_0000_0000u64 - d as u64) < len as u64)
        }
    }

    /// Takes in the FIN of a segment that starts at `seq` with `len` bytes
    /// of data: it is taken where it falls at RCV.NXT, that is, once every
    /// byte before it has been delivered, and RCV.NXT then moves past it.
    pub fn receive_fin(&mut self, seq: SeqNumber, len: usize) -> (r: bool)
        requires
            old(self).wf(),
            len <= 0xFFFF,
        ensures
            final(self).wf(),
            r == (!old(self).fin_received && wrapping_add(seq.value, len as u32) == old(self).rcv_nxt.value),
            r ==> final(self).fin_received && final(self).rcv_nxt.value == wrapping_add(old(self).rcv_nxt.value, 1),
            !r ==> final(self).fin_received == old(self).fin_received && final(self).rcv_nxt == old(self).rcv_nxt,
            final(self).total == old(self).total,
            final(self).buffer@ == old(self).buffer@,
            final(self).out_of_order@ == old(self).out_of_order@,
            final(self).popped == old(self).popped,
            final(self).initial_seq == old(self).initial_seq,
            final(self).rcv_wnd == old(self).rcv_wnd,
            forall|stream: Seq<u8>| agrees(old(self), stream) ==> #[trigger] agrees(final(self), stream),
    {
        if self.fin_received || seq.add(len as u32) != self.rcv_nxt {
            return false;
        }
        proof {
            lemma_advance(self.initial_seq, self.total as int, 1);
        }
        self.rcv_nxt = self.rcv_nxt.add(1);
        self.fin_received = true;
        true
    }

    /// Takes the in-order bytes that wait to be read.
    pub fn pop(&mut self) -> (r: Vec<u8>)
        requires
            old(self).wf(),
        ensures
            final(self).wf(),
            r@ == old(self).buffer@,
            final(self).buffer@.len() == 0,
            final(self).popped@ == old(self).popped@ + r@,
            received(final(self)) == received(old(self)),
            final(self).total == old(self).total,
            final(self).rcv_nxt == old(self).rcv_nxt,
            final(self).rcv_wnd == old(self).rcv_wnd,
            final(self).initial_seq == old(self).initial_seq,
            final(self).out_of_order@ == old(self).out_of_order@,
            forall|stream: Seq<u8>| agrees(old(self), stream) ==> #[trigger] agrees(final(self), stream),
    {
        let mut r: Vec<u8> = Vec::new();
        std::mem::swap(&mut r, &mut self.buffer);
        self.popped = Ghost(self.popped@ + r@);
        assert(received(self) =~= received(old(self)));
        r
    }
}

/// Receive monotonicity: while what a receiver holds agrees with the stream
/// that the peer sends (as `Receiver::new` establishes for every stream, and
/// `receive` and `pop` keep for every segment taken from it), the bytes that
/// `pop` has handed out are the beginning of that stream, in order.
pub proof fn lemma_popped_is_prefix(r: &Receiver, stream: Seq<u8>)
    requires
        r.wf(),
        agrees(r, stream),
    ensures
        r.popped@.len() <= stream.len(),
        r.popped@ == stream.take(r.popped@.len() as int),
{
    assert(received(r).take(r.popped@.len() as int) =~= r.popped@);
    assert(stream.take(r.total as int).take(r.popped@.len() as int) =~= stream.take(
        r.popped@.len() as int,
    ));
}

} // verus!
