//! Bit and bit-field extraction from 64-bit hardware words.
//!
//! The meaning of a bit or a field is stated arithmetically, over the
//! value of the word; the executable helpers shift and mask.

use vstd::prelude::*;
use vstd::arithmetic::power2::{lemma_pow2_pos, pow2};
use vstd::bits::{
    lemma_u64_low_bits_mask_is_mod, lemma_u64_pow2_no_overflow, lemma_u64_shl_is_mul,
    lemma_u64_shr_is_div, low_bits_mask,
};

verus! {

/// Whether bit `n` of `w` is set (bit 0 is the least significant).
pub open spec fn bit(w: u64, n: nat) -> bool {
    (w as nat / pow2(n)) % 2 == 1
}

/// The value of the `width`-bit field of `w` whose lowest bit is bit `lo`.
pub open spec fn field(w: u64, lo: nat, width: nat) -> nat {
    (w as nat / pow2(lo)) % pow2(width)
}

/// A field is smaller than two to the power of its width.
pub proof fn lemma_field_bound(w: u64, lo: nat, width: nat)
    ensures
        field(w, lo, width) < pow2(width),
{
    lemma_pow2_pos(width);
}

/// Tests bit `n` of `w`.
pub fn test_bit(w: u64, n: u64) -> (r: bool)
    requires
        n < 64,
    ensures
        r == bit(w, n as nat),
{
    let s: u64 = w >> n;
    proof {
        lemma_u64_shr_is_div(w, n);
        assert(s & 1 == s % 2) by (bit_vector);
    }
    (s & 1) == 1
}

/// Extracts the `width`-bit field of `w` that starts at bit `lo`.
pub fn extract(w: u64, lo: u64, width: u64) -> (r: u64)
    requires
        lo < 64,
        width < 64,
    ensures
        r == field(w, lo as nat, width as nat),
{
    let s: u64 = w >> lo;
    proof {
        lemma_u64_shr_is_div(w, lo);
        lemma_u64_pow2_no_overflow(width as nat);
        lemma_u64_shl_is_mul(1, width);
        lemma_pow2_pos(width as nat);
        lemma_u64_low_bits_mask_is_mod(s, width as nat);
        assert(((1u64 << width) - 1) as u64 == low_bits_mask(width as nat) as u64);
    }
    let mask: u64 = (1u64 << width) - 1;
    s & mask
}

} // verus!
