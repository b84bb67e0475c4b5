//! The unsigned codec: the three categories of non-negative values.

use vstd::prelude::*;
use vstd::arithmetic::power2::lemma2_to64;
use crate::bits::get_posint_bits;
use crate::bytes::{
    be_bytes,
    be_value,
    lemma_be_bytes_len,
    lemma_be_value_bound,
    lemma_pow256_monotone,
    lemma_pow256_values,
    min_len,
};
use crate::category::{Category, POS_1BYTE_MAX, POS_2BYTE_MAX};
use crate::error::DecodeError;
use crate::format::{decoding_unsigned, encoding, multi_payload};
use crate::laws::lemma_round_trip_unsigned;
use crate::size::{
    encoded_len,
    lemma_size_posint_is_min_len,
    size_posint,
    size_uint,
    spec_size_posint,
};

verus! {

/// Completes a multi-byte encoding in place: adds the digit count of `x` to
/// the header, whose low four bits must be clear, and writes the big-endian
/// digits of `x` behind it. The buffer must have exactly the room for them.
pub(crate) fn pack_posint_into(x: u64, res: &mut Vec<u8>)
    requires
        old(res)@.len() == 1 + min_len(x as nat),
        old(res)@[0] % 16 == 0,
    ensures
        final(res)@ == seq![(old(res)@[0] + min_len(x as nat)) as u8] + be_bytes(
            x as int,
            min_len(x as nat),
        ),
{
    let len = size_posint(x);
    let marker = res[0];
    let nibble = #[verifier::truncate] ((len & 0xf) as u8);
    assert(marker | nibble == marker + len) by (bit_vector)
        requires
            marker % 16 == 0,
            1 <= len <= 8,
            nibble == (len & 0xf) as u8,
    ;
    let header = marker | nibble;
    res.set(0, header);

    let mut left = len;
    let mut index: usize = 1;
    let ghost mut high: u64 = 0;
    while left > 0
        invariant
            1 <= len <= 8,
            1 <= index,
            index + left == 1 + len,
            res@.len() == 1 + len,
            res@[0] == header,
            res@.subrange(1, index as int) == be_bytes(high as int, (index - 1) as nat),
            index > 1 ==> high == x >> ((8 * left) as u64),
        decreases left,
    {
        let shift = (left - 1) * 8;
        let digits = x >> shift;
        let byte = #[verifier::truncate] (digits as u8);
        proof {
            let above = (shift + 8) as u64;
            assert(byte == digits % 256 && digits / 256 == digits >> 8 && (shift < 56 ==> digits
                >> 8 == x >> above)) by (bit_vector)
                requires
                    digits == x >> shift,
                    byte == digits as u8,
                    above == shift + 8,
            ;
        }
        let ghost before = res@;
        res.set(index, byte);
        proof {
            let written = (index - 1) as nat;
            assert(res@.subrange(1, index + 1) == before.subrange(1, index as int).push(byte));
            assert(be_bytes(high as int, written) == be_bytes(digits as int / 256, written)) by {
                if written > 0 {
                    assert(digits / 256 == high);
                }
            }
            assert(be_bytes(digits as int, written + 1) == be_bytes(
                digits as int / 256,
                written,
            ).push((digits as int % 256) as u8));
            high = digits;
        }
        index += 1;
        left -= 1;
    }
    proof {
        assert(x >> 0 == x) by (bit_vector);
        assert(res@ == seq![header] + res@.subrange(1, index as int));
    }
}

/// Reads the payload behind a multi-byte header as a big-endian number.
pub(crate) fn unpack_posint_from(res: &Vec<u8>) -> (r: Result<u64, DecodeError>)
    requires
        res@.len() > 0,
    ensures
        match multi_payload(res@) {
            Ok(p) => r is Ok && r->Ok_0 == be_value(p),
            Err(e) => r == Err::<u64, DecodeError>(e),
        },
{
    let header = res[0];
    let len = (header & 0xf) as usize;
    assert(header & 0xf == header % 16) by (bit_vector);
    if len < 1 || len > 8 {
        return Err(DecodeError::InvalidMarker);
    }
    if res.len() < 1 + len {
        return Err(DecodeError::Truncated);
    }
    let mut x: u64 = 0;
    let mut index: usize = 1;
    while index <= len
        invariant
            1 <= index <= len + 1,
            len <= 8,
            1 + len <= res@.len(),
            x == be_value(res@.subrange(1, index as int)),
        decreases len + 1 - index,
    {
        let byte = res[index];
        proof {
            let read = res@.subrange(1, index as int);
            lemma_be_value_bound(read);
            lemma_pow256_monotone(read.len(), 7);
            lemma_pow256_values();
            assert((x << 8) | (byte as u64) == x * 256 + byte) by (bit_vector)
                requires
                    x < 0x100_0000_0000_0000,
            ;
            assert(res@.subrange(1, index + 1).drop_last() == read);
        }
        x = (x << 8) | byte as u64;
        index += 1;
    }
    proof {
        lemma_be_value_bound(res@.subrange(1, index as int));
        lemma_pow256_monotone(len as nat, 8);
        lemma_pow256_values();
    }
    Ok(x)
}

/// Encodes an unsigned value. Every value has an encoding, of one to nine
/// bytes, which the unsigned decoder turns back into the value; a multi-byte
/// payload is as long as the leading-zero formula says, which is the digit
/// count of `x - 8256`, so no shorter payload could hold it.
pub fn pack_uint(x: u64) -> (res: Vec<u8>)
    ensures
        res@ == encoding(x as int),
        res@.len() == encoded_len(x as int),
        x > 8255 ==> res@.len() == 1 + spec_size_posint((x - 8256) as u64),
        1 <= res@.len() <= 9,
        Category::spec_of_header(res@[0]) == Some(Category::spec_of_value(x as int)),
        decoding_unsigned(res@) == Ok::<u64, DecodeError>(x),
{
    proof {
        if x > 8255 {
            lemma_size_posint_is_min_len((x - 8256) as u64);
        }
        lemma_round_trip_unsigned(x);
    }
    let len = size_uint(x);
    let mut res: Vec<u8> = vec![0; len];
    let category = Category::of_uint(x);
    let marker = category.marker();
    proof {
        lemma2_to64();
    }
    match category {
        Category::Pos1Byte => {
            let low = get_posint_bits(x, 6, 0);
            assert(marker | low == marker + low) by (bit_vector)
                requires
                    marker == 0x80,
                    low < 64,
            ;
            res.set(0, marker | low);
        },
        Category::Pos2Byte => {
            let y: u64 = x - (POS_1BYTE_MAX + 1);
            let high = get_posint_bits(y, 13, 8);
            let low = get_posint_bits(y, 8, 0);
            assert(marker | high == marker + high) by (bit_vector)
                requires
                    marker == 0xc0,
                    high < 32,
            ;
            res.set(0, marker | high);
            res.set(1, low);
        },
        _ => {
            let y: u64 = x - (POS_2BYTE_MAX + 1);
            res.set(0, marker);
            pack_posint_into(y, &mut res);
            proof {
                lemma_be_bytes_len(y as int, min_len(y as nat));
            }
        },
    }
    res
}

/// Decodes an unsigned value from the front of `res`; bytes behind the
/// encoding are ignored. The result is the one that `decoding_unsigned`
/// gives: the value, or the reason why there is none.
pub fn unpack_uint(res: &Vec<u8>) -> (r: Result<u64, DecodeError>)
    ensures
        r == decoding_unsigned(res@),
{
    if res.len() == 0 {
        return Err(DecodeError::Truncated);
    }
    let header = res[0];
    proof {
        lemma2_to64();
    }
    match Category::of_header(header) {
        Some(Category::Pos1Byte) => Ok(get_posint_bits(header as u64, 6, 0) as u64),
        Some(Category::Pos2Byte) => {
            if res.len() < 2 {
                return Err(DecodeError::Truncated);
            }
            let high = get_posint_bits(header as u64, 5, 0) as u64;
            let low = res[1];
            assert((high << 8) | (low as u64) == high * 256 + low) by (bit_vector)
                requires
                    high < 32,
            ;
            let mut x: u64 = high << 8;
            x |= low as u64;
            x += POS_1BYTE_MAX + 1;
            Ok(x)
        },
        Some(Category::PosMulti) => match unpack_posint_from(res) {
            Ok(y) => if y > u64::MAX - (POS_2BYTE_MAX + 1) {
                Err(DecodeError::InvalidMarker)
            } else {
                Ok(y + (POS_2BYTE_MAX + 1))
            },
            Err(e) => Err(e),
        },
        _ => Err(DecodeError::InvalidMarker),
    }
}

} // verus!
