//! Bit-packed occupancy masks: voxel `i` lives in bit `i % 32` of word `i / 32`.
use vstd::prelude::*;

verus! {

/// Bit `b` of the word `w`.
pub open spec fn word_bit(w: u32, b: int) -> bool {
    (w >> (b as u32)) & 1u32 == 1u32
}

/// Bit `i` of the mask made of the words `mask`.
pub open spec fn mask_bit(mask: Seq<u32>, i: int) -> bool {
    word_bit(mask[i / 32], i % 32)
}

/// The mask after bit `i` was set.
pub open spec fn mask_with(mask: Seq<u32>, i: int) -> Seq<u32> {
    mask.update(i / 32, mask[i / 32] | (1u32 << ((i % 32) as u32)))
}

/// The mask after bit `i` was cleared.
pub open spec fn mask_without(mask: Seq<u32>, i: int) -> Seq<u32> {
    mask.update(i / 32, mask[i / 32] & !(1u32 << ((i % 32) as u32)))
}

/// Number of set bits among the lowest `n` bits of `w`.
pub open spec fn word_ones(w: u32, n: nat) -> nat
    decreases n,
{
    if n == 0 {
        0
    } else {
        word_ones(w, (n - 1) as nat) + if word_bit(w, n - 1) {
            1nat
        } else {
            0nat
        }
    }
}

/// Number of set bits in the first `n` words of `mask`.
pub open spec fn mask_ones(mask: Seq<u32>, n: nat) -> nat
    decreases n,
{
    if n == 0 {
        0
    } else {
        mask_ones(mask, (n - 1) as nat) + word_ones(mask[n - 1], 32)
    }
}

/// Every word of the mask is zero.
pub open spec fn mask_is_zero(mask: Seq<u32>) -> bool {
    forall|w: int| 0 <= w < mask.len() ==> mask[w] == 0
}

proof fn lemma_test_word(w: u32, b: u32)
    by (bit_vector)
    requires
        b < 32,
    ensures
        (w & (1u32 << b) != 0) == ((w >> b) & 1u32 == 1u32),
{
}

proof fn lemma_set_word(w: u32, b: u32, j: u32)
    by (bit_vector)
    requires
        b < 32,
        j < 32,
    ensures
        (((w | (1u32 << b)) >> j) & 1u32 == 1u32) == (((w >> j) & 1u32 == 1u32) || j == b),
{
}

proof fn lemma_clear_word(w: u32, b: u32, j: u32)
    by (bit_vector)
    requires
        b < 32,
        j < 32,
    ensures
        (((w & !(1u32 << b)) >> j) & 1u32 == 1u32) == (((w >> j) & 1u32 == 1u32) && j != b),
{
}

proof fn lemma_zero_word(j: u32)
    by (bit_vector)
    requires
        j < 32,
    ensures
        (0u32 >> j) & 1u32 != 1u32,
{
}

/// Setting bit `i` sets it and leaves every other bit as it was.
pub proof fn lemma_mask_with(mask: Seq<u32>, i: int, k: int)
    requires
        0 <= i < 32 * mask.len(),
        0 <= k < 32 * mask.len(),
    ensures
        mask_with(mask, i).len() == mask.len(),
        mask_bit(mask_with(mask, i), k) == (mask_bit(mask, k) || k == i),
{
    if k / 32 == i / 32 {
        lemma_set_word(mask[i / 32], (i % 32) as u32, (k % 32) as u32);
    }
}

/// Clearing bit `i` clears it and leaves every other bit as it was.
pub proof fn lemma_mask_without(mask: Seq<u32>, i: int, k: int)
    requires
        0 <= i < 32 * mask.len(),
        0 <= k < 32 * mask.len(),
    ensures
        mask_without(mask, i).len() == mask.len(),
        mask_bit(mask_without(mask, i), k) == (mask_bit(mask, k) && k != i),
{
    if k / 32 == i / 32 {
        lemma_clear_word(mask[i / 32], (i % 32) as u32, (k % 32) as u32);
    }
}

/// A mask of zero words has no bit set.
pub proof fn lemma_zero_mask(mask: Seq<u32>, k: int)
    requires
        mask_is_zero(mask),
        0 <= k < 32 * mask.len(),
    ensures
        !mask_bit(mask, k),
{
    lemma_zero_word((k % 32) as u32);
}

proof fn lemma_low_bits_step(w: u32, n: u64)
    by (bit_vector)
    requires
        n < 32,
        (w as u64) & (((1u64 << n) - 1) as u64) == 0,
        (w >> (n as u32)) & 1u32 != 1u32,
    ensures
        (w as u64) & (((1u64 << ((n + 1) as u64)) - 1) as u64) == 0,
{
}

proof fn lemma_low_bits_all(w: u32)
    by (bit_vector)
    requires
        (w as u64) & (((1u64 << 32u64) - 1) as u64) == 0,
    ensures
        w == 0,
{
}

proof fn lemma_low_bits_none(w: u32)
    by (bit_vector)
    ensures
        (w as u64) & (((1u64 << 0u64) - 1) as u64) == 0,
{
}

/// A word none of whose lowest `n` bits is set has its lowest `n` bits zero.
proof fn lemma_no_bits_low(w: u32, n: nat)
    requires
        n <= 32,
        forall|b: int| 0 <= b < n ==> !#[trigger] word_bit(w, b),
    ensures
        (w as u64) & (((1u64 << (n as u64)) - 1) as u64) == 0,
    decreases n,
{
    if n == 0 {
        lemma_low_bits_none(w);
    } else {
        lemma_no_bits_low(w, (n - 1) as nat);
        assert(!word_bit(w, n - 1));
        lemma_low_bits_step(w, (n - 1) as u64);
    }
}

/// A word counts no set bit among its lowest `n` exactly when none of them is set.
proof fn lemma_word_ones_zero(w: u32, n: nat)
    ensures
        word_ones(w, n) == 0 <==> forall|b: int| 0 <= b < n ==> !#[trigger] word_bit(w, b),
    decreases n,
{
    if n > 0 {
        lemma_word_ones_zero(w, (n - 1) as nat);
        if word_ones(w, n) == 0 {
            assert forall|b: int| 0 <= b < n implies !#[trigger] word_bit(w, b) by {
                if b < n - 1 {
                }
            }
        }
    }
}

/// A word is zero exactly when none of its 32 bits is set.
proof fn lemma_word_zero_iff(w: u32)
    ensures
        w == 0 <==> forall|b: int| 0 <= b < 32 ==> !#[trigger] word_bit(w, b),
{
    if forall|b: int| 0 <= b < 32 ==> !#[trigger] word_bit(w, b) {
        lemma_no_bits_low(w, 32);
        lemma_low_bits_all(w);
    }
    if w == 0 {
        assert forall|b: int| 0 <= b < 32 implies !#[trigger] word_bit(w, b) by {
            lemma_zero_word(b as u32);
        }
    }
}

/// The first `n` words count no set bit exactly when they are all zero.
proof fn lemma_mask_ones_zero(mask: Seq<u32>, n: nat)
    requires
        n <= mask.len(),
    ensures
        mask_ones(mask, n) == 0 <==> forall|w: int| 0 <= w < n ==> #[trigger] mask[w] == 0,
    decreases n,
{
    if n > 0 {
        lemma_mask_ones_zero(mask, (n - 1) as nat);
        lemma_word_ones_zero(mask[n - 1], 32);
        lemma_word_zero_iff(mask[n - 1]);
    }
}

/// A mask's words are all zero exactly when it counts no set bit, and exactly when none of
/// its bits is set.
pub proof fn lemma_mask_zero_iff(mask: Seq<u32>)
    ensures
        mask_is_zero(mask) <==> mask_ones(mask, mask.len()) == 0,
        mask_is_zero(mask) <==> forall|i: int| 0 <= i < 32 * mask.len() ==> !#[trigger] mask_bit(
            mask,
            i,
        ),
{
    lemma_mask_ones_zero(mask, mask.len());
    if mask_is_zero(mask) {
        assert forall|i: int| 0 <= i < 32 * mask.len() implies !#[trigger] mask_bit(mask, i) by {
            lemma_zero_mask(mask, i);
        }
    }
    if forall|i: int| 0 <= i < 32 * mask.len() ==> !#[trigger] mask_bit(mask, i) {
        assert forall|w: int| 0 <= w < mask.len() implies mask[w] == 0 by {
            assert forall|b: int| 0 <= b < 32 implies !#[trigger] word_bit(mask[w], b) by {
                let i = 32 * w + b;
                assert(i / 32 == w && i % 32 == b);
                assert(!mask_bit(mask, i));
            }
            lemma_word_zero_iff(mask[w]);
        }
    }
}

/// Reads bit `idx` of `mask`.
pub fn test_bit(mask: &[u32], idx: usize) -> (r: bool)
    requires
        idx < 32 * mask@.len(),
    ensures
        r == mask_bit(mask@, idx as int),
{
    let w = mask[idx / 32];
    let b = (idx % 32) as u32;
    proof {
        lemma_test_word(w, b);
    }
    w & (1u32 << b) != 0
}

/// Number of set bits in `w`.
pub fn count_ones(w: u32) -> (r: u32)
    ensures
        r == word_ones(w, 32),
{
    let mut count: u32 = 0;
    let mut b: u32 = 0;
    while b < 32
        invariant
            b <= 32,
            count == word_ones(w, b as nat),
            count <= b,
        decreases 32 - b,
    {
        proof {
            lemma_test_word(w, b);
        }
        if w & (1u32 << b) != 0 {
            count = count + 1;
        }
        b = b + 1;
    }
    count
}

} // verus!
