//! Extraction of a bit field from an integer.

use vstd::prelude::*;
use vstd::arithmetic::div_mod::lemma_mod_multiples_vanish;
use vstd::arithmetic::power2::{lemma2_to64, lemma_pow2_adds, lemma_pow2_pos, pow2};
use vstd::bits::{
    lemma_u64_low_bits_mask_is_mod,
    lemma_u64_pow2_no_overflow,
    lemma_u64_shl_is_mul,
    lemma_u64_shr_is_div,
    low_bits_mask,
};

verus! {

/// The bits of `x` from position `end` up to, not including, position
/// `start`, as a number; position 0 is the least significant bit. For a
/// negative `x` these are the bits of its two's-complement form.
pub open spec fn bit_field(x: int, start: nat, end: nat) -> int {
    (x % pow2(start) as int) / pow2(end) as int
}

/// Masking with `2^start - 1` and shifting right by `end` extracts a bit field.
proof fn lemma_mask_shift_is_bit_field(x: u64, start: u64, end: u64)
    requires
        start < 64,
        end < 64,
    ensures
        (1u64 << start) == pow2(start as nat),
        ((x & (((1u64 << start) - 1) as u64)) >> end) == bit_field(x as int, start as nat, end as nat),
{
    lemma_u64_pow2_no_overflow(start as nat);
    lemma_u64_shl_is_mul(1, start);
    assert(((1u64 << start) - 1) as u64 == low_bits_mask(start as nat) as u64);
    lemma_u64_low_bits_mask_is_mod(x, start as nat);
    lemma_u64_shr_is_div((x & (((1u64 << start) - 1) as u64)), end);
}

/// The low bits of a negative number are those of the unsigned number with
/// the same two's-complement form.
proof fn lemma_mod_pow2_of_raw(x: i64, start: nat)
    requires
        start < 64,
    ensures
        (x as u64) as int % pow2(start) as int == x as int % pow2(start) as int,
{
    let raw = x as u64;
    assert(raw == if x < 0 {
        x + 0x1_0000_0000_0000_0000
    } else {
        x as int
    }) by (bit_vector)
        requires
            raw == x as u64,
    ;
    if x < 0 {
        let m = pow2(start) as int;
        lemma_pow2_pos(start);
        lemma_pow2_adds(start, (64 - start) as nat);
        lemma2_to64();
        lemma_mod_multiples_vanish(pow2((64 - start) as nat) as int, x as int, m);
    }
}

/// Bits `end..start` of `x`, cut to a byte.
pub(crate) fn get_posint_bits(x: u64, start: usize, end: usize) -> (r: u8)
    requires
        start < 64,
        end < 64,
    ensures
        r == bit_field(x as int, start as nat, end as nat) % 256,
{
    proof {
        lemma_mask_shift_is_bit_field(x, start as u64, end as u64);
        lemma_u64_pow2_no_overflow(start as nat);
    }
    let field: u64 = (x & ((1u64 << start) - 1u64)) >> end;
    assert(field as u8 == field % 256) by (bit_vector);
    #[verifier::truncate]
    (field as u8)
}

/// Bits `end..start` of the two's-complement form of `x`, cut to a byte.
pub(crate) fn get_negint_bits(x: i64, start: usize, end: usize) -> (r: u8)
    requires
        start < 63,
        end < 64,
    ensures
        r == bit_field(x as int, start as nat, end as nat) % 256,
{
    let s = start as u64;
    let e = end as u64;
    assert(0 < (1i64 << s) && ((x & (((1i64 << s) - 1) as i64)) >> e) as u8 == (((x as u64) & (((1u64
        << s) - 1) as u64)) >> e) as u8) by (bit_vector)
        requires
            s < 63,
            e < 64,
    ;
    proof {
        lemma_mask_shift_is_bit_field(x as u64, s, e);
        lemma_mod_pow2_of_raw(x, start as nat);
        let field = (((x as u64) & (((1u64 << s) - 1) as u64)) >> e);
        assert(field as u8 == field % 256) by (bit_vector);
    }
    #[verifier::truncate]
    (((x & ((1i64 << start) - 1i64)) >> end) as u8)
}

} // verus!
