//! The wire format as mathematics: which bytes encode a value, and which
//! value, if any, a byte string decodes to.

use vstd::prelude::*;
use crate::bytes::{be_bytes, be_value, pow256};
use crate::category::Category;
use crate::error::DecodeError;
use crate::size::payload_len;

verus! {

/// The bytes that encode `x`, for `-2^63 <= x < 2^64`.
///
/// * `0 ..= 63`: one byte, `0x80 + x`.
/// * `64 ..= 8255`: with `y = x - 64`, the bytes `0xc0 + y / 256`, `y % 256`.
/// * above `8255`: with `y = x - 8256` and `n` the digit count of `y`, the
///   byte `0xe0 + n` and the `n` big-endian digits of `y`.
/// * `-64 ..= -1`: one byte, `0x40 + (x + 64)`.
/// * `-8256 ..= -65`: with `y = x + 8256`, the bytes `0x20 + y / 256`,
///   `y % 256`.
/// * below `-8256`: with `n` the digit count of `-x - 1`, the byte
///   `0x10 + n` and the low `n` bytes of the two's-complement form of `x`.
pub open spec fn encoding(x: int) -> Seq<u8> {
    match Category::spec_of_value(x) {
        Category::NegMulti => {
            let n = payload_len(x);
            seq![(0x10 + n) as u8] + be_bytes(x, n)
        },
        Category::Neg2Byte => {
            let y = x + 8256;
            seq![(0x20 + y / 256) as u8, (y % 256) as u8]
        },
        Category::Neg1Byte => seq![(0x40 + (x + 64)) as u8],
        Category::Pos1Byte => seq![(0x80 + x) as u8],
        Category::Pos2Byte => {
            let y = x - 64;
            seq![(0xc0 + y / 256) as u8, (y % 256) as u8]
        },
        Category::PosMulti => {
            let y = x - 8256;
            let n = payload_len(x);
            seq![(0xe0 + n) as u8] + be_bytes(y, n)
        },
    }
}

/// The length that the low four bits of a multi-byte header announce.
pub open spec fn length_nibble(h: u8) -> int {
    h as int % 16
}

/// The payload behind a multi-byte header: the bytes that follow it, as many
/// as its low four bits announce.
///
/// * An announced length outside `1 ..= 8`: `InvalidMarker`.
/// * Fewer bytes than announced: `Truncated`.
pub open spec fn multi_payload(s: Seq<u8>) -> Result<Seq<u8>, DecodeError>
    recommends
        s.len() > 0,
{
    let n = length_nibble(s[0]);
    if n < 1 || n > 8 {
        Err(DecodeError::InvalidMarker)
    } else if s.len() < 1 + n {
        Err(DecodeError::Truncated)
    } else {
        Ok(s.subrange(1, 1 + n))
    }
}

/// The signed number that `n` payload bytes spelling `v` stand for once the
/// bytes left out are read as `0xff`: `v - 256^n`, except that a full
/// eight-byte payload with a clear top bit stands for `v` itself.
pub open spec fn sign_filled(v: nat, n: nat) -> int {
    if n < 8 || v >= 0x8000_0000_0000_0000 {
        v - pow256(n)
    } else {
        v as int
    }
}

/// The signed number with the same 64-bit two's-complement form as `u`.
pub open spec fn reinterpret(u: u64) -> int {
    if u < 0x8000_0000_0000_0000 {
        u as int
    } else {
        u - 0x1_0000_0000_0000_0000
    }
}

/// What the unsigned decoder makes of `s`. Bytes behind the encoding that
/// the header announces are not looked at.
///
/// * No byte at all: `Truncated`.
/// * A header outside the three positive categories: `InvalidMarker`.
/// * A two-byte header with no byte behind it: `Truncated`.
/// * A multi-byte header: the failures of `multi_payload`, and
///   `InvalidMarker` where the payload is too large for the result to fit
///   in 64 bits.
pub open spec fn decoding_unsigned(s: Seq<u8>) -> Result<u64, DecodeError> {
    if s.len() == 0 {
        Err(DecodeError::Truncated)
    } else {
        match Category::spec_of_header(s[0]) {
            Some(Category::Pos1Byte) => Ok((s[0] - 0x80) as u64),
            Some(Category::Pos2Byte) => if s.len() < 2 {
                Err(DecodeError::Truncated)
            } else {
                Ok(((s[0] - 0xc0) * 256 + s[1] + 64) as u64)
            },
            Some(Category::PosMulti) => match multi_payload(s) {
                Ok(p) => if be_value(p) + 8256 > u64::MAX {
                    Err(DecodeError::InvalidMarker)
                } else {
                    Ok((be_value(p) + 8256) as u64)
                },
                Err(e) => Err(e),
            },
            _ => Err(DecodeError::InvalidMarker),
        }
    }
}

/// What the signed decoder makes of `s`. Bytes behind the encoding that the
/// header announces are not looked at.
///
/// A header of a negative category is decoded here, with the same two
/// failures as in the unsigned decoder; any other header is left to the
/// unsigned decoder, whose result is reinterpreted as a signed number.
pub open spec fn decoding_signed(s: Seq<u8>) -> Result<i64, DecodeError> {
    if s.len() == 0 {
        Err(DecodeError::Truncated)
    } else {
        match Category::spec_of_header(s[0]) {
            Some(Category::NegMulti) => match multi_payload(s) {
                Ok(p) => Ok(sign_filled(be_value(p), p.len()) as i64),
                Err(e) => Err(e),
            },
            Some(Category::Neg2Byte) => if s.len() < 2 {
                Err(DecodeError::Truncated)
            } else {
                Ok(((s[0] - 0x20) * 256 + s[1] - 8256) as i64)
            },
            Some(Category::Neg1Byte) => Ok((s[0] - 0x40 - 64) as i64),
            _ => match decoding_unsigned(s) {
                Ok(u) => Ok(reinterpret(u) as i64),
                Err(e) => Err(e),
            },
        }
    }
}

} // verus!
