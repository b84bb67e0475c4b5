use intpack::{pack_int, pack_uint, size_int, size_uint, unpack_int, unpack_uint};
use quickcheck::{QuickCheck, TestResult};

fn round_trip_unsigned(x: u64) -> bool {
    unpack_uint(&pack_uint(x)) == Ok(x)
}

fn round_trip_signed(x: i64) -> bool {
    unpack_int(&pack_int(x)) == Ok(x)
}

fn order_unsigned(x: u64, y: u64) -> bool {
    let xb = pack_uint(x);
    let yb = pack_uint(y);
    if x >= y {
        xb >= yb
    } else {
        xb < yb
    }
}

fn order_signed(x: i64, y: i64) -> TestResult {
    if x < -8256 && y < -8256 && size_int(x) != size_int(y) {
        return TestResult::discard();
    }
    let xb = pack_int(x);
    let yb = pack_int(y);
    TestResult::from_bool(if x >= y { xb >= yb } else { xb < yb })
}

fn order_signed_short(x: i16, y: i16) -> bool {
    let x = i64::from(x).max(-8256);
    let y = i64::from(y).max(-8256);
    let xb = pack_int(x);
    let yb = pack_int(y);
    if x >= y {
        xb >= yb
    } else {
        xb < yb
    }
}

fn length_unsigned(x: u64) -> bool {
    let bytes = pack_uint(x);
    bytes.len() == size_uint(x) && bytes.len() <= 9
}

fn length_signed(x: i64) -> bool {
    let bytes = pack_int(x);
    bytes.len() == size_int(x) && bytes.len() <= 9
}

fn delegation(x: i64) -> TestResult {
    if x < 0 {
        return TestResult::discard();
    }
    TestResult::from_bool(pack_int(x) == pack_uint(x as u64))
}

fn trailing_bytes(x: i64, rest: Vec<u8>) -> bool {
    let mut bytes = pack_int(x);
    bytes.extend_from_slice(&rest);
    unpack_int(&bytes) == Ok(x)
}

#[test]
fn pack_and_unpack_pos() {
    let property: fn(u64) -> bool = round_trip_unsigned;
    QuickCheck::new().tests(2000).quickcheck(property);
}

#[test]
fn pack_and_unpack_neg() {
    let property: fn(i64) -> bool = round_trip_signed;
    QuickCheck::new().tests(2000).quickcheck(property);
}

#[test]
fn order_is_correct_pos() {
    let property: fn(u64, u64) -> bool = order_unsigned;
    QuickCheck::new().tests(2000).quickcheck(property);
}

#[test]
fn order_is_correct_neg() {
    let property: fn(i64, i64) -> TestResult = order_signed;
    QuickCheck::new().tests(2000).max_tests(200_000).quickcheck(property);
}

#[test]
fn order_is_correct_near_zero() {
    let property: fn(i16, i16) -> bool = order_signed_short;
    QuickCheck::new().tests(2000).quickcheck(property);
}

#[test]
fn length_is_the_computed_size_pos() {
    let property: fn(u64) -> bool = length_unsigned;
    QuickCheck::new().tests(2000).quickcheck(property);
}

#[test]
fn length_is_the_computed_size_neg() {
    let property: fn(i64) -> bool = length_signed;
    QuickCheck::new().tests(2000).quickcheck(property);
}

#[test]
fn non_negative_values_share_one_encoding() {
    let property: fn(i64) -> TestResult = delegation;
    QuickCheck::new().tests(1000).max_tests(100_000).quickcheck(property);
}

#[test]
fn decoding_ignores_what_follows() {
    let property: fn(i64, Vec<u8>) -> bool = trailing_bytes;
    QuickCheck::new().tests(1000).quickcheck(property);
}

fn precedes_is_vector_order(a: Vec<u8>, b: Vec<u8>) -> bool {
    intpack::order::precedes(&a, &b) == (a < b)
}

#[test]
fn precedes_is_the_order_of_vectors() {
    let property: fn(Vec<u8>, Vec<u8>) -> bool = precedes_is_vector_order;
    QuickCheck::new().tests(2000).quickcheck(property);
}
