use intpack::{pack_int, pack_uint};

fn unsigned_samples() -> Vec<u64> {
    let mut values: Vec<u64> = vec![0, 1, 2, 62, 63, 64, 65, 319, 320, 8254, 8255, 8256, 8257];
    for k in 1..8 {
        let edge = 1u64 << (8 * k);
        values.extend_from_slice(&[edge - 1, edge, edge + 1]);
        values.extend_from_slice(&[8256 + edge - 1, 8256 + edge, 8256 + edge + 1]);
    }
    values.extend_from_slice(&[u64::MAX - 8256, u64::MAX - 1, u64::MAX]);
    values.sort();
    values.dedup();
    values
}

#[test]
fn unsigned_encodings_sort_as_their_values() {
    let values = unsigned_samples();
    for &a in &values {
        for &b in &values {
            assert_eq!(a < b, pack_uint(a) < pack_uint(b), "{} and {}", a, b);
            assert_eq!(a == b, pack_uint(a) == pack_uint(b), "{} and {}", a, b);
        }
    }
}

#[test]
fn unsigned_encodings_of_neighbours_increase() {
    for x in 0u64..70_000 {
        assert!(pack_uint(x) < pack_uint(x + 1), "{}", x);
    }
}

#[test]
fn signed_encodings_sort_as_their_values_from_minus_8256_up() {
    let mut values: Vec<i64> = vec![
        -8256, -8255, -4160, -321, -320, -66, -65, -64, -63, -2, -1, 0, 1, 63, 64, 8255, 8256,
        8257, i64::MAX - 1, i64::MAX,
    ];
    for k in 1..8 {
        let edge = 1i64 << (8 * k);
        values.extend_from_slice(&[edge - 1, edge, 8256 + edge - 1, 8256 + edge]);
    }
    for &a in &values {
        for &b in &values {
            assert_eq!(a < b, pack_int(a) < pack_int(b), "{} and {}", a, b);
        }
    }
}

#[test]
fn signed_encodings_of_neighbours_increase() {
    for x in -8256i64..70_000 {
        assert!(pack_int(x) < pack_int(x + 1), "{}", x);
    }
}

#[test]
fn long_negative_encodings_sort_before_all_others() {
    let long = [i64::MIN, -1i64 << 40, -65537, -65536, -8258, -8257];
    let short = [-8256i64, -65, -64, -1, 0, 63, 64, 8255, 8256, i64::MAX];
    for &a in &long {
        for &b in &short {
            assert!(pack_int(a) < pack_int(b), "{} and {}", a, b);
        }
    }
}

#[test]
fn long_negative_encodings_of_one_length_sort_as_their_values() {
    let groups: [&[i64]; 4] = [
        &[-65536, -65535, -30000, -8258, -8257],
        &[-0x100_0000, -0xff_ffff, -70000, -65538, -65537],
        &[-0x1_0000_0000, -0xffff_ffff, -0x100_0002, -0x100_0001],
        &[i64::MIN, i64::MIN + 1, -0x100_0000_0000_0002, -0x100_0000_0000_0001],
    ];
    for group in groups {
        for &a in group {
            for &b in group {
                assert_eq!(pack_int(a).len(), pack_int(b).len());
                assert_eq!(a < b, pack_int(a) < pack_int(b), "{} and {}", a, b);
            }
        }
    }
}

#[test]
fn long_negative_encodings_of_different_lengths_sort_by_length() {
    assert!(-70000 < -8257);
    assert!(pack_int(-70000) > pack_int(-8257));
    assert!(pack_int(-65537) > pack_int(-65536));
    assert!(pack_int(i64::MIN) > pack_int(-8257));
}

#[test]
fn precedes_agrees_with_the_order_of_vectors() {
    let strings: Vec<Vec<u8>> = vec![
        vec![],
        vec![0x00],
        vec![0x00, 0x00],
        vec![0x00, 0x01],
        vec![0x01],
        vec![0x7f, 0xff],
        vec![0x80],
        vec![0x80, 0x00],
        vec![0xff],
        vec![0xff, 0xff, 0xff],
    ];
    for a in &strings {
        for b in &strings {
            assert_eq!(intpack::order::precedes(a, b), a < b, "{:?} and {:?}", a, b);
        }
    }
}

#[test]
fn precedes_orders_encodings_as_values() {
    let values = unsigned_samples();
    for &a in &values {
        for &b in &values {
            assert_eq!(intpack::order::precedes(&pack_uint(a), &pack_uint(b)), a < b);
        }
    }
    for a in -8256i64..300 {
        assert!(intpack::order::precedes(&pack_int(a), &pack_int(a + 1)));
        assert!(!intpack::order::precedes(&pack_int(a + 1), &pack_int(a)));
        assert!(!intpack::order::precedes(&pack_int(a), &pack_int(a)));
    }
}
