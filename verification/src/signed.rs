//! The signed codec: the three categories of negative values; non-negative
//! values are left to the unsigned codec.

use vstd::prelude::*;
use vstd::arithmetic::power2::lemma2_to64;
use crate::bits::get_negint_bits;
use crate::bytes::{
    be_bytes,
    be_value,
    lemma_be_bytes_len,
    lemma_be_value_bound,
    lemma_pow256_monotone,
    lemma_pow256_values,
    pow256,
};
use crate::category::{Category, NEG_1BYTE_MIN, NEG_2BYTE_MIN};
use crate::error::DecodeError;
use crate::format::{decoding_signed, encoding, multi_payload, reinterpret, sign_filled};
use crate::laws::lemma_round_trip_signed;
use crate::size::{
    encoded_len,
    lemma_size_negint_is_min_len,
    size_int,
    size_negint,
    spec_size_negint,
};
use crate::unsigned::{pack_uint, unpack_uint};

verus! {

/// Completes a multi-byte encoding in place: adds the payload length of `x`
/// to the header, whose low four bits must be clear, and writes behind it
/// that many low bytes of the two's-complement form of `x`, most significant
/// first. The buffer must have exactly the room for them.
pub(crate) fn pack_negint_into(x: i64, res: &mut Vec<u8>)
    requires
        old(res)@.len() == 1 + spec_size_negint(x),
        old(res)@[0] % 16 == 0,
    ensures
        final(res)@ == seq![(old(res)@[0] + spec_size_negint(x)) as u8] + be_bytes(
            x as int,
            spec_size_negint(x) as nat,
        ),
{
    let len = size_negint(x);
    let marker = res[0];
    let nibble = #[verifier::truncate] ((len & 0xf) as u8);
    assert(marker | nibble == marker + len) by (bit_vector)
        requires
            marker % 16 == 0,
            1 <= len <= 8,
            nibble == (len & 0xf) as u8,
    ;
    let header = marker | nibble;
    res.set(0, header);

    let mut left = len;
    let mut index: usize = 1;
    let ghost mut high: i64 = 0;
    while left > 0
        invariant
            1 <= len <= 8,
            1 <= index,
            index + left == 1 + len,
            res@.len() == 1 + len,
            res@[0] == header,
            res@.subrange(1, index as int) == be_bytes(high as int, (index - 1) as nat),
            index > 1 ==> high == x >> ((8 * left) as u64),
        decreases left,
    {
        let shift = (left - 1) * 8;
        let digits = x >> shift;
        let byte = #[verifier::truncate] (digits as u8);
        proof {
            let above = (shift + 8) as u64;
            assert(byte == digits % 256 && digits / 256 == digits >> 8 && (shift < 56 ==> digits
                >> 8 == x >> above)) by (bit_vector)
                requires
                    digits == x >> shift,
                    byte == digits as u8,
                    above == shift + 8,
            ;
        }
        let ghost before = res@;
        res.set(index, byte);
        proof {
            let written = (index - 1) as nat;
            assert(res@.subrange(1, index + 1) == before.subrange(1, index as int).push(byte));
            assert(be_bytes(high as int, written) == be_bytes(digits as int / 256, written)) by {
                if written > 0 {
                    assert(digits / 256 == high);
                }
            }
            assert(be_bytes(digits as int, written + 1) == be_bytes(
                digits as int / 256,
                written,
            ).push((digits as int % 256) as u8));
            high = digits;
        }
        index += 1;
        left -= 1;
    }
    proof {
        assert(x >> 0 == x) by (bit_vector);
        assert(res@ == seq![header] + res@.subrange(1, index as int));
    }
}

/// Reads the payload behind a multi-byte header as the low bytes of a
/// two's-complement number whose bytes left out are all `0xff`.
pub(crate) fn unpack_negint_from(res: &Vec<u8>) -> (r: Result<i64, DecodeError>)
    requires
        res@.len() > 0,
    ensures
        match multi_payload(res@) {
            Ok(p) => r is Ok && r->Ok_0 == sign_filled(be_value(p), p.len()),
            Err(e) => r == Err::<i64, DecodeError>(e),
        },
{
    let header = res[0];
    let len = (header & 0xf) as usize;
    assert(header & 0xf == header % 16) by (bit_vector);
    if len < 1 || len > 8 {
        return Err(DecodeError::InvalidMarker);
    }
    if res.len() < 1 + len {
        return Err(DecodeError::Truncated);
    }
    let mut x: u64 = u64::MAX;
    let mut index: usize = 1;
    while index <= len
        invariant
            1 <= index <= len + 1,
            len <= 8,
            1 + len <= res@.len(),
            x + pow256((index - 1) as nat) == 0x1_0000_0000_0000_0000 + be_value(
                res@.subrange(1, index as int),
            ),
        decreases len + 1 - index,
    {
        let byte = res[index];
        proof {
            let read = res@.subrange(1, index as int);
            lemma_be_value_bound(read);
            lemma_pow256_monotone(read.len(), 7);
            lemma_pow256_values();
            assert(((x << 8) | (byte as u64)) + 0xff_0000_0000_0000_0000 == x * 256 + byte)
                by (bit_vector)
                requires
                    x >= 0xff00_0000_0000_0000,
            ;
            assert(res@.subrange(1, index + 1).drop_last() == read);
        }
        x = (x << 8) | byte as u64;
        index += 1;
    }
    proof {
        lemma_be_value_bound(res@.subrange(1, index as int));
        lemma_pow256_monotone(len as nat, 8);
        if len < 8 {
            lemma_pow256_monotone(len as nat, 7);
        }
        lemma_pow256_values();
        assert(x as i64 == reinterpret(x)) by (bit_vector);
    }
    Ok(x as i64)
}

/// Encodes a signed value. Every value has an encoding, of one to nine
/// bytes, which the signed decoder turns back into the value; a
/// non-negative value is encoded as the unsigned codec encodes it,
/// and the multi-byte payload of a negative value is as long as the
/// leading-one formula says, which is the digit count of `-x - 1`, so no
/// shorter payload could hold it.
pub fn pack_int(x: i64) -> (res: Vec<u8>)
    ensures
        res@ == encoding(x as int),
        x >= 0 ==> res@ == encoding((x as u64) as int),
        res@.len() == encoded_len(x as int),
        x < -8256 ==> res@.len() == 1 + spec_size_negint(x),
        1 <= res@.len() <= 9,
        Category::spec_of_header(res@[0]) == Some(Category::spec_of_value(x as int)),
        decoding_signed(res@) == Ok::<i64, DecodeError>(x),
{
    proof {
        lemma_round_trip_signed(x);
    }
    if x >= 0 {
        return pack_uint(x as u64);
    }
    proof {
        if x < -8256 {
            lemma_size_negint_is_min_len(x);
        }
    }
    let len = size_int(x);
    let mut res: Vec<u8> = vec![0; len];
    let category = Category::of_int(x);
    let marker = category.marker();
    proof {
        lemma2_to64();
    }
    match category {
        Category::NegMulti => {
            proof {
                lemma_be_bytes_len(x as int, spec_size_negint(x) as nat);
            }
            res.set(0, marker);
            pack_negint_into(x, &mut res);
        },
        Category::Neg2Byte => {
            let y: i64 = x - NEG_2BYTE_MIN;
            let high = get_negint_bits(y, 13, 8);
            let low = get_negint_bits(y, 8, 0);
            assert(marker | high == marker + high) by (bit_vector)
                requires
                    marker == 0x20,
                    high < 32,
            ;
            res.set(0, marker | high);
            res.set(1, low);
        },
        _ => {
            let y: i64 = x - NEG_1BYTE_MIN;
            let low = get_negint_bits(y, 6, 0);
            assert(marker | low == marker + low) by (bit_vector)
                requires
                    marker == 0x40,
                    low < 64,
            ;
            res.set(0, marker | low);
        },
    }
    res
}

/// Decodes a signed value from the front of `res`; bytes behind the encoding
/// are ignored. The result is the one that `decoding_signed` gives: the
/// value, or the reason why there is none.
pub fn unpack_int(res: &Vec<u8>) -> (r: Result<i64, DecodeError>)
    ensures
        r == decoding_signed(res@),
{
    if res.len() == 0 {
        return Err(DecodeError::Truncated);
    }
    let header = res[0];
    proof {
        lemma2_to64();
    }
    match Category::of_header(header) {
        Some(Category::NegMulti) => unpack_negint_from(res),
        Some(Category::Neg2Byte) => {
            if res.len() < 2 {
                return Err(DecodeError::Truncated);
            }
            let high = get_negint_bits(header as i64, 5, 0) as i64;
            let low = res[1];
            assert((high << 8) | (low as i64) == high * 256 + low) by (bit_vector)
                requires
                    0 <= high < 32,
            ;
            let mut x: i64 = high << 8;
            x |= low as i64;
            x += NEG_2BYTE_MIN;
            Ok(x)
        },
        Some(Category::Neg1Byte) => Ok(NEG_1BYTE_MIN + get_negint_bits(header as i64, 6, 0) as i64),
        _ => match unpack_uint(res) {
            Ok(y) => {
                assert(y as i64 == reinterpret(y)) by (bit_vector);
                Ok(y as i64)
            },
            Err(e) => Err(e),
        },
    }
}

} // verus!
