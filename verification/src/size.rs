//! Minimal lengths: how many bytes a magnitude needs, and how long the
//! encoding of a value is.

use vstd::prelude::*;
use vstd::std_specs::bits::{axiom_u64_leading_zeros, u64_leading_ones, u64_leading_zeros};
use crate::bytes::{lemma_min_len_unique, lemma_pow256_values, min_len, pow256};
use crate::category::{
    Category,
    INTPACK64_MAXSIZE,
    NEG_1BYTE_MIN,
    NEG_2BYTE_MIN,
    POS_1BYTE_MAX,
    POS_2BYTE_MAX,
};

verus! {

/// Payload length of a non-negative magnitude by its leading zero bits:
/// eight minus the number of whole leading zero bytes, and one for zero.
pub open spec fn spec_size_posint(x: u64) -> int {
    if x == 0 {
        1
    } else {
        8 - u64_leading_zeros(x) / 8
    }
}

/// Payload length of a raw two's-complement value by its leading one bits:
/// eight minus the number of whole leading `0xff` bytes, and one for `-1`.
pub open spec fn spec_size_negint(x: i64) -> int {
    if x == -1 {
        1
    } else {
        8 - u64_leading_ones(x as u64) / 8
    }
}

/// How many bytes follow the header in the encoding of `x`: none or one in
/// the short categories, and otherwise the digit count of `x - 8256`, or of
/// `-x - 1` for a negative `x`.
pub open spec fn payload_len(x: int) -> nat {
    match Category::spec_of_value(x) {
        Category::NegMulti => min_len((-x - 1) as nat),
        Category::Neg2Byte => 1,
        Category::Neg1Byte => 0,
        Category::Pos1Byte => 0,
        Category::Pos2Byte => 1,
        Category::PosMulti => min_len((x - 8256) as nat),
    }
}

/// Length of the encoding of `x`, header included.
pub open spec fn encoded_len(x: int) -> nat {
    1 + payload_len(x)
}

/// The leading-zero formula counts base-256 digits: no shorter payload can
/// hold `x`.
pub proof fn lemma_size_posint_is_min_len(x: u64)
    ensures
        spec_size_posint(x) == min_len(x as nat),
        1 <= spec_size_posint(x) <= 8,
{
    if x != 0 {
        axiom_u64_leading_zeros(x);
        let lz = u64_leading_zeros(x) as u64;
        let top = (63 - lz) as u64;
        let k = (7 - lz / 8) as u64;
        assert(x >= (1u64 << (8 * k)) && (k < 7 ==> x < (1u64 << (8 * (k + 1))))) by (bit_vector)
            requires
                lz < 64,
                top == 63 - lz,
                k == 7 - lz / 8,
                (x >> top) & 1 != 0,
                lz > 0 ==> x >> ((top + 1) as u64) == 0,
        ;
        lemma_shl_is_pow256(k);
        if k < 7 {
            lemma_shl_is_pow256((k + 1) as u64);
        } else {
            lemma_pow256_values();
        }
        lemma_min_len_unique(x as nat, (k + 1) as nat);
    }
}

/// The leading-one formula counts the base-256 digits of the complement
/// `-x - 1`: no shorter payload can hold a negative `x`.
pub proof fn lemma_size_negint_is_min_len(x: i64)
    requires
        x < 0,
    ensures
        spec_size_negint(x) == min_len((-x - 1) as nat),
        1 <= spec_size_negint(x) <= 8,
{
    let raw = x as u64;
    let inv = !raw;
    assert(inv == -x - 1 && (x == -1 <==> inv == 0)) by (bit_vector)
        requires
            x < 0,
            raw == x as u64,
            inv == !raw,
    ;
    lemma_size_posint_is_min_len(inv);
}

/// Shifting one left by `k` whole bytes gives `256^k`.
proof fn lemma_shl_is_pow256(k: u64)
    requires
        k <= 7,
    ensures
        (1u64 << (8 * k)) == pow256(k as nat),
{
    lemma_pow256_values();
    assert(k <= 7 ==> (1u64 << (8 * k)) == if k == 0 {
        1u64
    } else if k == 1 {
        0x100
    } else if k == 2 {
        0x1_0000
    } else if k == 3 {
        0x100_0000
    } else if k == 4 {
        0x1_0000_0000
    } else if k == 5 {
        0x100_0000_0000
    } else if k == 6 {
        0x1_0000_0000_0000
    } else {
        0x100_0000_0000_0000
    }) by (bit_vector);
}

/// Number of whole leading zero bytes of `x`.
pub fn lz_posint(x: u64) -> (r: usize)
    ensures
        r == u64_leading_zeros(x) / 8,
        0 <= r <= 8,
        r == 8 <==> x == 0,
{
    proof {
        axiom_u64_leading_zeros(x);
    }
    if x == 0 {
        8
    } else {
        let bits: u32 = x.leading_zeros();
        assert(bits >> 3 == bits / 8) by (bit_vector);
        (bits >> 3) as usize
    }
}

/// Number of whole leading `0xff` bytes of the two's-complement form of `x`.
pub fn lz_negint(x: i64) -> (r: usize)
    ensures
        r == u64_leading_ones(x as u64) / 8,
        0 <= r <= 8,
        r == 8 <==> x == -1,
{
    let inv: u64 = (!x) as u64;
    assert(inv == !(x as u64) && (inv == 0 <==> x == -1)) by (bit_vector)
        requires
            inv == (!x) as u64,
    ;
    lz_posint(inv)
}

/// Fewest bytes that hold the magnitude `x`; zero still takes one byte.
pub fn size_posint(x: u64) -> (r: usize)
    ensures
        r == spec_size_posint(x),
        r == min_len(x as nat),
        1 <= r <= 8,
{
    proof {
        lemma_size_posint_is_min_len(x);
    }
    let lz = lz_posint(x);
    if lz == 8 {
        1
    } else {
        INTPACK64_MAXSIZE - 1 - lz
    }
}

/// Fewest bytes that hold the raw two's-complement value `x` when the bytes
/// left out are read as `0xff`; `-1` still takes one byte.
pub fn size_negint(x: i64) -> (r: usize)
    ensures
        r == spec_size_negint(x),
        x < 0 ==> r == min_len((-x - 1) as nat),
        1 <= r <= 8,
{
    proof {
        if x < 0 {
            lemma_size_negint_is_min_len(x);
        }
    }
    let lz = lz_negint(x);
    if lz == 8 {
        1
    } else {
        INTPACK64_MAXSIZE - 1 - lz
    }
}

/// Length of the encoding of the unsigned value `x`.
pub fn size_uint(x: u64) -> (r: usize)
    ensures
        r == encoded_len(x as int),
        1 <= r <= INTPACK64_MAXSIZE,
{
    if x <= POS_1BYTE_MAX {
        return 1;
    }
    if x <= POS_2BYTE_MAX {
        return 2;
    }
    let y: u64 = x - (POS_2BYTE_MAX + 1);
    1 + size_posint(y)
}

/// Length of the encoding of the signed value `x`.
pub fn size_int(x: i64) -> (r: usize)
    ensures
        r == encoded_len(x as int),
        1 <= r <= INTPACK64_MAXSIZE,
{
    if x < NEG_2BYTE_MIN {
        return 1 + size_negint(x);
    }
    if x < NEG_1BYTE_MIN {
        return 2;
    }
    if x < 0 {
        return 1;
    }
    size_uint(x as u64)
}

} // verus!
