use intpack::{pack_uint, unpack_uint, DecodeError};

#[test]
fn pack_uint_one_byte_boundaries() {
    assert_eq!(pack_uint(0), vec![0x80]);
    assert_eq!(pack_uint(1), vec![0x81]);
    assert_eq!(pack_uint(63), vec![0xbf]);
}

#[test]
fn pack_uint_two_byte_boundaries() {
    assert_eq!(pack_uint(64), vec![0xc0, 0x00]);
    assert_eq!(pack_uint(65), vec![0xc0, 0x01]);
    assert_eq!(pack_uint(64 + 255), vec![0xc0, 0xff]);
    assert_eq!(pack_uint(64 + 256), vec![0xc1, 0x00]);
    assert_eq!(pack_uint(8255), vec![0xdf, 0xff]);
}

#[test]
fn pack_uint_multi_byte_boundaries() {
    assert_eq!(pack_uint(8256), vec![0xe1, 0x00]);
    assert_eq!(pack_uint(8257), vec![0xe1, 0x01]);
    assert_eq!(pack_uint(8256 + 0xff), vec![0xe1, 0xff]);
    assert_eq!(pack_uint(8256 + 0x100), vec![0xe2, 0x01, 0x00]);
    assert_eq!(pack_uint(8256 + 0x1234), vec![0xe2, 0x12, 0x34]);
    assert_eq!(pack_uint(8256 + 0xffff), vec![0xe2, 0xff, 0xff]);
    assert_eq!(pack_uint(8256 + 0x1_0000), vec![0xe3, 0x01, 0x00, 0x00]);
    assert_eq!(
        pack_uint(8256 + 0x0102_0304_0506_0708),
        vec![0xe8, 0x01, 0x02, 0x03, 0x04, 0x05, 0x06, 0x07, 0x08]
    );
    assert_eq!(
        pack_uint(u64::MAX),
        vec![0xe8, 0xff, 0xff, 0xff, 0xff, 0xff, 0xff, 0xdf, 0xbf]
    );
}

#[test]
fn pack_uint_payload_has_no_leading_zero_byte() {
    let mut y: u64 = 0x100;
    while y != 0 {
        let bytes = pack_uint(8256 + y);
        assert_ne!(bytes[1], 0, "value {}", 8256 + y);
        let below = pack_uint(8256 + y - 1);
        assert_eq!(below.len() + 1, bytes.len());
        y = y.wrapping_shl(8);
    }
}

#[test]
fn unpack_uint_reads_each_category() {
    assert_eq!(unpack_uint(&vec![0x80]), Ok(0));
    assert_eq!(unpack_uint(&vec![0xbf]), Ok(63));
    assert_eq!(unpack_uint(&vec![0xc0, 0x00]), Ok(64));
    assert_eq!(unpack_uint(&vec![0xdf, 0xff]), Ok(8255));
    assert_eq!(unpack_uint(&vec![0xe1, 0x00]), Ok(8256));
    assert_eq!(unpack_uint(&vec![0xe2, 0x12, 0x34]), Ok(8256 + 0x1234));
    assert_eq!(
        unpack_uint(&vec![0xe8, 0xff, 0xff, 0xff, 0xff, 0xff, 0xff, 0xdf, 0xbf]),
        Ok(u64::MAX)
    );
}

#[test]
fn unpack_uint_takes_value_bits_in_the_marker_nibble() {
    assert_eq!(unpack_uint(&vec![0x85]), Ok(0x05));
    assert_eq!(unpack_uint(&vec![0x95]), Ok(0x15));
    assert_eq!(unpack_uint(&vec![0xa5]), Ok(0x25));
    assert_eq!(unpack_uint(&vec![0xb5]), Ok(0x35));
    assert_eq!(unpack_uint(&vec![0xc3, 0x07]), Ok(64 + 0x0307));
    assert_eq!(unpack_uint(&vec![0xd3, 0x07]), Ok(64 + 0x1307));
}

#[test]
fn unpack_uint_accepts_a_padded_payload() {
    assert_eq!(unpack_uint(&vec![0xe2, 0x00, 0x05]), Ok(8256 + 5));
}

#[test]
fn unpack_uint_ignores_trailing_bytes() {
    assert_eq!(unpack_uint(&vec![0x80, 0xff, 0xff]), Ok(0));
    assert_eq!(unpack_uint(&vec![0xc0, 0x01, 0xff]), Ok(65));
    assert_eq!(unpack_uint(&vec![0xe1, 0x01, 0xff, 0xff]), Ok(8257));
    let mut key = pack_uint(123_456_789);
    key.extend_from_slice(&pack_uint(7));
    assert_eq!(unpack_uint(&key), Ok(123_456_789));
}

#[test]
fn unpack_uint_rejects_reserved_headers() {
    assert_eq!(unpack_uint(&vec![0x00]), Err(DecodeError::InvalidMarker));
    for low in 0u8..16 {
        assert_eq!(unpack_uint(&vec![low]), Err(DecodeError::InvalidMarker));
        assert_eq!(unpack_uint(&vec![0xf0 | low]), Err(DecodeError::InvalidMarker));
        assert_eq!(
            unpack_uint(&vec![0xf0 | low, 0, 0, 0, 0, 0, 0, 0, 0, 0, 0, 0, 0, 0, 0, 0, 0]),
            Err(DecodeError::InvalidMarker)
        );
    }
}

#[test]
fn unpack_uint_rejects_negative_headers() {
    for header in 0x10u8..0x80 {
        assert_eq!(
            unpack_uint(&vec![header, 0, 0, 0, 0, 0, 0, 0, 0]),
            Err(DecodeError::InvalidMarker)
        );
    }
}

#[test]
fn unpack_uint_rejects_impossible_lengths() {
    assert_eq!(unpack_uint(&vec![0xe0]), Err(DecodeError::InvalidMarker));
    assert_eq!(unpack_uint(&vec![0xe0, 0x01]), Err(DecodeError::InvalidMarker));
    for nibble in 9u8..16 {
        let mut bytes = vec![0xe0 | nibble];
        bytes.extend_from_slice(&[1u8; 15]);
        assert_eq!(unpack_uint(&bytes), Err(DecodeError::InvalidMarker));
    }
}

#[test]
fn unpack_uint_rejects_a_payload_beyond_64_bits() {
    assert_eq!(
        unpack_uint(&vec![0xe8, 0xff, 0xff, 0xff, 0xff, 0xff, 0xff, 0xdf, 0xc0]),
        Err(DecodeError::InvalidMarker)
    );
    assert_eq!(
        unpack_uint(&vec![0xe8, 0xff, 0xff, 0xff, 0xff, 0xff, 0xff, 0xff, 0xff]),
        Err(DecodeError::InvalidMarker)
    );
}

#[test]
fn unpack_uint_reports_truncation() {
    assert_eq!(unpack_uint(&Vec::new()), Err(DecodeError::Truncated));
    assert_eq!(unpack_uint(&vec![0xe1]), Err(DecodeError::Truncated));
    assert_eq!(unpack_uint(&vec![0xc0]), Err(DecodeError::Truncated));
    assert_eq!(unpack_uint(&vec![0xdf]), Err(DecodeError::Truncated));
    assert_eq!(unpack_uint(&vec![0xe3, 0x01, 0x02]), Err(DecodeError::Truncated));
    assert_eq!(
        unpack_uint(&vec![0xe8, 1, 2, 3, 4, 5, 6, 7]),
        Err(DecodeError::Truncated)
    );
}

#[test]
fn unpack_uint_undoes_pack_uint() {
    let mut values: Vec<u64> = vec![0, 1, 62, 63, 64, 65, 8254, 8255, 8256, 8257, u64::MAX];
    for k in 1..8 {
        let edge = 1u64 << (8 * k);
        values.extend_from_slice(&[edge - 1, edge, edge + 1]);
        values.extend_from_slice(&[8256 + edge - 1, 8256 + edge, 8256 + edge + 1]);
    }
    values.extend_from_slice(&[u64::MAX - 8256, u64::MAX - 8255, u64::MAX - 1]);
    for x in values {
        assert_eq!(unpack_uint(&pack_uint(x)), Ok(x), "value {}", x);
    }
}

#[test]
fn unpack_uint_undoes_pack_uint_on_every_short_value() {
    for x in 0u64..20_000 {
        assert_eq!(unpack_uint(&pack_uint(x)), Ok(x));
    }
}
