//! What holds of the wire format as a whole: decoding undoes encoding and
//! ignores what follows it, no buffer that decodes to a value is shorter
//! than its encoding, and the byte order of encodings is the order of the
//! values, except among long negative values of different lengths.

use vstd::prelude::*;
use crate::bytes::{
    be_bytes,
    be_value,
    lemma_be_bytes_len,
    lemma_be_value_bound,
    lemma_be_value_of_be_bytes,
    lemma_min_len_bounds,
    lemma_min_len_fits,
    lemma_min_len_monotone,
    lemma_min_len_u64,
    lemma_pow256_monotone,
    lemma_pow256_values,
    pow256,
};
use crate::category::Category;
use crate::error::DecodeError;
use crate::format::{decoding_signed, decoding_unsigned, encoding, multi_payload};
use crate::order::{
    lemma_lex_lt_after_prefix,
    lemma_lex_lt_asymmetric,
    lemma_lex_lt_first_byte,
    lemma_lex_lt_of_be_value,
    lex_lt,
    lex_lt_at,
};
use crate::size::{
    encoded_len,
    lemma_size_negint_is_min_len,
    lemma_size_posint_is_min_len,
    payload_len,
    spec_size_negint,
    spec_size_posint,
};

verus! {

/// The values that have an encoding: those of `i64` and of `u64`.
pub open spec fn encodable(x: int) -> bool {
    -0x8000_0000_0000_0000 <= x <= 0xffff_ffff_ffff_ffff
}

/// The payload length of a multi-byte value is between one and eight, and
/// the payload spells the value it was made from.
proof fn lemma_multi_payload(x: int)
    requires
        encodable(x),
    ensures
        Category::spec_of_value(x) == Category::PosMulti ==> {
            &&& 1 <= payload_len(x) <= 8
            &&& be_bytes(x - 8256, payload_len(x)).len() == payload_len(x)
            &&& be_value(be_bytes(x - 8256, payload_len(x))) == x - 8256
        },
        Category::spec_of_value(x) == Category::NegMulti ==> {
            &&& 1 <= payload_len(x) <= 8
            &&& be_bytes(x, payload_len(x)).len() == payload_len(x)
            &&& be_value(be_bytes(x, payload_len(x))) == x + pow256(payload_len(x))
        },
{
    let n = payload_len(x);
    if Category::spec_of_value(x) == Category::PosMulti {
        let y = x - 8256;
        lemma_min_len_u64(y as nat);
        lemma_min_len_bounds(y as nat);
        lemma_be_bytes_len(y, n);
        lemma_be_value_of_be_bytes(y, n);
    } else if Category::spec_of_value(x) == Category::NegMulti {
        let m = (-x - 1) as nat;
        lemma_min_len_u64(m);
        lemma_min_len_bounds(m);
        lemma_be_bytes_len(x, n);
        lemma_be_value_of_be_bytes(x, n);
    }
}

/// An encoding is one to nine bytes long, its length is `encoded_len`, and
/// its header announces the category of the value.
pub proof fn lemma_encoding_shape(x: int)
    requires
        encodable(x),
    ensures
        encoding(x).len() == encoded_len(x),
        1 <= encoding(x).len() <= 9,
        Category::spec_of_header(encoding(x)[0]) == Some(Category::spec_of_value(x)),
        x < -8256 || x > 8255 ==> encoding(x)[0] == Category::spec_of_value(x).spec_marker()
            + payload_len(x),
{
    lemma_multi_payload(x);
}

/// The length of an encoding by the leading-bit formulas: one or two bytes
/// in the short categories, and otherwise one byte more than eight minus
/// the number of whole leading zero bytes of `x - 8256`, or of whole leading
/// `0xff` bytes of a negative `x`.
pub proof fn lemma_encoded_len_by_leading_bits(x: int)
    requires
        encodable(x),
    ensures
        x > 8255 ==> encoded_len(x) == 1 + spec_size_posint((x - 8256) as u64),
        x < -8256 ==> encoded_len(x) == 1 + spec_size_negint(x as i64),
{
    if x > 8255 {
        lemma_size_posint_is_min_len((x - 8256) as u64);
    } else if x < -8256 {
        lemma_size_negint_is_min_len(x as i64);
    }
}

/// Decoding what the unsigned encoder produced gives the value back.
pub proof fn lemma_round_trip_unsigned(x: u64)
    ensures
        decoding_unsigned(encoding(x as int)) == Ok::<u64, DecodeError>(x),
{
    let s = encoding(x as int);
    lemma_encoding_shape(x as int);
    lemma_multi_payload(x as int);
    if x > 8255 {
        let n = payload_len(x as int);
        assert(s.subrange(1, 1 + n as int) =~= be_bytes(x - 8256, n));
    }
}

/// Decoding what the signed encoder produced gives the value back.
pub proof fn lemma_round_trip_signed(x: i64)
    ensures
        decoding_signed(encoding(x as int)) == Ok::<i64, DecodeError>(x),
{
    let s = encoding(x as int);
    lemma_encoding_shape(x as int);
    lemma_multi_payload(x as int);
    lemma_pow256_values();
    if x >= 0 {
        lemma_round_trip_unsigned(x as u64);
    } else if x < -8256 {
        let n = payload_len(x as int);
        assert(s.subrange(1, 1 + n as int) =~= be_bytes(x as int, n));
    }
}

/// Where the unsigned decoder finds a value, it finds the same value
/// whatever bytes are appended to the buffer.
pub proof fn lemma_decoding_unsigned_ignores_rest(s: Seq<u8>, rest: Seq<u8>)
    requires
        decoding_unsigned(s) is Ok,
    ensures
        decoding_unsigned(s + rest) == decoding_unsigned(s),
{
    let t = s + rest;
    assert(t[0] == s[0]);
    match Category::spec_of_header(s[0]) {
        Some(Category::Pos2Byte) => {
            assert(t[1] == s[1]);
        },
        Some(Category::PosMulti) => {
            assert(multi_payload(t)->Ok_0 =~= multi_payload(s)->Ok_0);
        },
        _ => {},
    }
}

/// Where the signed decoder finds a value, it finds the same value whatever
/// bytes are appended to the buffer.
pub proof fn lemma_decoding_signed_ignores_rest(s: Seq<u8>, rest: Seq<u8>)
    requires
        decoding_signed(s) is Ok,
    ensures
        decoding_signed(s + rest) == decoding_signed(s),
{
    let t = s + rest;
    assert(t[0] == s[0]);
    match Category::spec_of_header(s[0]) {
        Some(Category::NegMulti) => {
            assert(multi_payload(t)->Ok_0 =~= multi_payload(s)->Ok_0);
        },
        Some(Category::Neg2Byte) => {
            assert(t[1] == s[1]);
        },
        Some(Category::Neg1Byte) => {},
        _ => {
            lemma_decoding_unsigned_ignores_rest(s, rest);
        },
    }
}

/// No buffer that decodes to `x` is shorter than the encoding of `x`.
pub proof fn lemma_encoding_is_shortest_unsigned(s: Seq<u8>, x: u64)
    requires
        decoding_unsigned(s) == Ok::<u64, DecodeError>(x),
    ensures
        s.len() >= encoded_len(x as int),
{
    if Category::spec_of_header(s[0]) == Some(Category::PosMulti) {
        let p = multi_payload(s)->Ok_0;
        lemma_be_value_bound(p);
        lemma_min_len_fits(be_value(p), p.len());
    }
}

/// No buffer that decodes to `x` is shorter than the encoding of `x`.
pub proof fn lemma_encoding_is_shortest_signed(s: Seq<u8>, x: i64)
    requires
        decoding_signed(s) == Ok::<i64, DecodeError>(x),
    ensures
        s.len() >= encoded_len(x as int),
{
    lemma_encoding_shape(x as int);
    lemma_pow256_values();
    match Category::spec_of_header(s[0]) {
        Some(Category::NegMulti) => {
            let p = multi_payload(s)->Ok_0;
            lemma_be_value_bound(p);
            if p.len() < 8 && x < -8256 {
                lemma_min_len_fits((-x - 1) as nat, p.len());
            }
        },
        Some(Category::PosMulti) => {
            let p = multi_payload(s)->Ok_0;
            lemma_be_value_bound(p);
            if p.len() < 8 {
                lemma_pow256_monotone(p.len(), 7);
                lemma_encoding_is_shortest_unsigned(s, x as u64);
            }
        },
        _ => {},
    }
}

/// A pair of values whose encodings are ordered as the values are: every
/// pair but two values below `-8256` with payloads of different lengths.
pub open spec fn order_kept(a: int, b: int) -> bool {
    a < -8256 && b < -8256 ==> payload_len(a) == payload_len(b)
}

/// Of two values the smaller has the encoding that comes first.
proof fn lemma_encoding_increases(a: int, b: int)
    requires
        encodable(a),
        encodable(b),
        order_kept(a, b),
        a < b,
    ensures
        lex_lt(encoding(a), encoding(b)),
{
    let ea = encoding(a);
    let eb = encoding(b);
    let ca = Category::spec_of_value(a);
    let cb = Category::spec_of_value(b);
    lemma_encoding_shape(a);
    lemma_encoding_shape(b);
    lemma_multi_payload(a);
    lemma_multi_payload(b);
    if ea[0] < eb[0] {
        lemma_lex_lt_first_byte(ea, eb);
    } else if ca == Category::Neg2Byte || ca == Category::Pos2Byte {
        assert(lex_lt_at(ea, eb, 1));
    } else if ca == Category::PosMulti {
        lemma_min_len_monotone((a - 8256) as nat, (b - 8256) as nat);
        let n = payload_len(a);
        lemma_lex_lt_of_be_value(be_bytes(a - 8256, n), be_bytes(b - 8256, n));
        lemma_lex_lt_after_prefix(seq![ea[0]], be_bytes(a - 8256, n), be_bytes(b - 8256, n));
    } else {
        assert(ca == Category::NegMulti && cb == Category::NegMulti);
        let n = payload_len(a);
        lemma_lex_lt_of_be_value(be_bytes(a, n), be_bytes(b, n));
        lemma_lex_lt_after_prefix(seq![ea[0]], be_bytes(a, n), be_bytes(b, n));
    }
}

/// Two values of either signedness compare as their encodings do, byte by
/// byte, unless both are below `-8256` with payloads of different lengths.
pub proof fn lemma_order(a: int, b: int)
    requires
        encodable(a),
        encodable(b),
        order_kept(a, b),
    ensures
        a < b <==> lex_lt(encoding(a), encoding(b)),
        a == b <==> encoding(a) == encoding(b),
{
    if a < b {
        lemma_encoding_increases(a, b);
        lemma_lex_lt_asymmetric(encoding(a), encoding(b));
    } else if b < a {
        lemma_encoding_increases(b, a);
        lemma_lex_lt_asymmetric(encoding(b), encoding(a));
    } else {
        if lex_lt(encoding(a), encoding(b)) {
            lemma_lex_lt_asymmetric(encoding(a), encoding(b));
        }
    }
}

/// Unsigned values compare as their encodings do, byte by byte.
pub proof fn lemma_order_unsigned(a: u64, b: u64)
    ensures
        a < b <==> lex_lt(encoding(a as int), encoding(b as int)),
{
    lemma_order(a as int, b as int);
}

/// Signed values compare as their encodings do, byte by byte, unless both
/// are below `-8256` with payloads of different lengths.
pub proof fn lemma_order_signed(a: i64, b: i64)
    requires
        order_kept(a as int, b as int),
    ensures
        a < b <==> lex_lt(encoding(a as int), encoding(b as int)),
{
    lemma_order(a as int, b as int);
}

/// Of two values below `-8256` with payloads of different lengths, the
/// smaller value has the longer payload and its encoding comes last: the
/// header carries the length, and a longer payload means a larger header.
pub proof fn lemma_order_across_negative_lengths(a: int, b: int)
    requires
        encodable(a),
        a < b < -8256,
        payload_len(a) != payload_len(b),
    ensures
        payload_len(a) > payload_len(b),
        lex_lt(encoding(b), encoding(a)),
{
    lemma_min_len_monotone((-b - 1) as nat, (-a - 1) as nat);
    lemma_encoding_shape(a);
    lemma_encoding_shape(b);
    lemma_lex_lt_first_byte(encoding(b), encoding(a));
}

} // verus!
