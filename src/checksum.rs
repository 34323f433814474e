use vstd::prelude::*;
use vstd::arithmetic::div_mod::lemma_mod_sub_multiples_vanish;
use crate::wire::{be16, read_u16_at};

verus! {

/// Number of bytes in an IPv4 header without options.
pub const IPV4_HEADER_SIZE: usize = 20;

/// Folds the carries of a one's-complement sum back into 16 bits by
/// repeatedly taking `0xFFFF` away.
pub open spec fn fold_carries(s: int) -> int
    decreases s,
{
    if s > 0xFFFF {
        fold_carries(s - 0xFFFF)
    } else {
        s
    }
}

/// Sum of the first `n` 16-bit big-endian words of a header, leaving out
/// word 5, which holds the checksum.
pub open spec fn word_sum(h: Seq<u8>, n: nat) -> int
    decreases n,
{
    if n == 0 {
        0
    } else {
        word_sum(h, (n - 1) as nat) + if n - 1 == 5 {
            0
        } else {
            be16(h, 2 * (n - 1))
        }
    }
}

/// The checksum of a 20-byte IPv4 header: the words are summed into an
/// accumulator seeded at `0xFFFF`, with the checksum field counted as zero,
/// the carries folded, and the one's complement taken.
pub open spec fn header_checksum_of(h: Seq<u8>) -> u16 {
    (0xFFFF - fold_carries(0xFFFF + word_sum(h, 10))) as u16
}

pub proof fn lemma_fold_carries_range(s: int)
    requires
        s >= 1,
    ensures
        1 <= fold_carries(s) <= 0xFFFF,
    decreases s,
{
    if s > 0xFFFF {
        lemma_fold_carries_range(s - 0xFFFF);
    }
}

pub proof fn lemma_word_sum_bounds(h: Seq<u8>, n: nat)
    requires
        2 * n <= h.len(),
    ensures
        0 <= word_sum(h, n) <= 0xFFFF * n,
    decreases n,
{
    if n > 0 {
        lemma_word_sum_bounds(h, (n - 1) as nat);
    }
}

/// The checksum is never `0xFFFF`.
pub proof fn lemma_checksum_not_all_ones(h: Seq<u8>)
    requires
        h.len() >= 20,
    ensures
        header_checksum_of(h) != 0xFFFF,
        0 <= 0xFFFF - fold_carries(0xFFFF + word_sum(h, 10)) < 0xFFFF,
{
    lemma_word_sum_bounds(h, 10);
    lemma_fold_carries_range(0xFFFF + word_sum(h, 10));
}

/// The checksum does not read the checksum field.
pub proof fn lemma_word_sum_skips_checksum(a: Seq<u8>, b: Seq<u8>, n: nat)
    requires
        n <= 10,
        a.len() >= 20,
        b.len() >= 20,
        forall|i: int| 0 <= i < 20 && i != 10 && i != 11 ==> a[i] == b[i],
    ensures
        word_sum(a, n) == word_sum(b, n),
    decreases n,
{
    if n > 0 {
        lemma_word_sum_skips_checksum(a, b, (n - 1) as nat);
    }
}

pub proof fn lemma_fold_carries_mod(s: int)
    requires
        s >= 1,
    ensures
        fold_carries(s) == (s - 1) % 0xFFFF + 1,
    decreases s,
{
    if s > 0xFFFF {
        lemma_fold_carries_mod(s - 0xFFFF);
        assert((s - 1) % 0xFFFF == (s - 0xFFFF - 1) % 0xFFFF) by {
            lemma_mod_sub_multiples_vanish(s - 1, 0xFFFF);
        }
    }
}

/// Two bytes sequences that differ at byte `k` alone, outside the checksum
/// field, have word sums that differ by the change in the word holding `k`.
pub proof fn lemma_word_sum_one_byte(a: Seq<u8>, b: Seq<u8>, k: int, n: nat)
    requires
        a.len() >= 20,
        b.len() == a.len(),
        n <= 10,
        0 <= k < 20,
        k != 10,
        k != 11,
        forall|i: int| 0 <= i < 20 && i != k ==> a[i] == b[i],
    ensures
        word_sum(b, n) - word_sum(a, n) == if n > k / 2 {
            be16(b, 2 * (k / 2)) - be16(a, 2 * (k / 2))
        } else {
            0
        },
    decreases n,
{
    if n > 0 {
        lemma_word_sum_one_byte(a, b, k, (n - 1) as nat);
        let i = n - 1;
        if i != k / 2 && i != 5 {
            assert(a[2 * i] == b[2 * i]);
            assert(a[2 * i + 1] == b[2 * i + 1]);
        }
    }
}

/// Computes the checksum of the IPv4 header that starts `buf`.
pub fn compute_checksum(buf: &[u8]) -> (r: u16)
    requires
        buf@.len() >= IPV4_HEADER_SIZE,
    ensures
        r == header_checksum_of(buf@),
{
    let mut state: u32 = 0xffff;
    let mut i: usize = 0;
    while i < 10
        invariant
            i <= 10,
            buf@.len() >= IPV4_HEADER_SIZE,
            state as int == 0xFFFF + word_sum(buf@, i as nat),
            state <= 0xFFFF * (i + 1),
        decreases 10 - i,
    {
        if i != 5 {
            let w: u16 = read_u16_at(buf, 2 * i);
            state = state + w as u32;
        }
        i = i + 1;
    }
    let ghost total: int = state as int;
    while state > 0xffff
        invariant
            fold_carries(state as int) == fold_carries(total),
        decreases state,
    {
        state = state - 0xffff;
    }
    proof {
        lemma_checksum_not_all_ones(buf@);
    }
    (0xffff - state) as u16
}

} // verus!
