use crc32c::{crc32c_mem, Crc32cHashMap, Crc32cHashSet, Crc32cHasher};
use std::hash::Hasher;

#[test]
fn basic_tests() {
    assert_eq!(crc32c_mem(0, b""), 0x0);
    assert_eq!(crc32c_mem(0, b"a"), 0xc1d04330);
    assert_eq!(crc32c_mem(0, b"hello\n"), 0x353dd8be);
}

#[test]
fn incremental_in_two_pieces() {
    let first = crc32c_mem(0, b"hel");
    assert_eq!(crc32c_mem(first, b"lo\n"), 0x353dd8be);
    assert_eq!(crc32c_mem(first, b"lo\n"), crc32c_mem(0, b"hello\n"));
}

#[test]
fn incremental_byte_by_byte() {
    let data = b"The quick brown fox jumps over the lazy dog";
    let mut sum: u32 = 0;
    for b in data.iter() {
        sum = crc32c_mem(sum, &[*b]);
    }
    assert_eq!(sum, crc32c_mem(0, data));
}

#[test]
fn empty_input_keeps_seed() {
    for seed in [0u32, 1, 0x353dd8be, 0xffff_ffff, 0x8000_0000] {
        assert_eq!(crc32c_mem(seed, b""), seed);
    }
}

#[test]
fn same_input_same_checksum() {
    let a = crc32c_mem(0x1234_5678, b"hello\n");
    let b = crc32c_mem(0x1234_5678, b"hello\n");
    assert_eq!(a, b);
}

#[test]
fn single_bit_flip_changes_checksum() {
    assert_ne!(crc32c_mem(0, b"hello\n"), crc32c_mem(0, b"hellO\n"));
    let data = b"hello\n".to_vec();
    let base = crc32c_mem(0, &data);
    for i in 0..data.len() {
        for bit in 0..8 {
            let mut flipped = data.clone();
            flipped[i] ^= 1u8 << bit;
            assert_ne!(crc32c_mem(0, &flipped), base);
        }
    }
}

#[test]
fn standard_check_value() {
    // The customary check input for CRC algorithms.
    assert_eq!(crc32c_mem(0, b"123456789"), 0xe306_9283);
}

#[test]
fn all_zero_and_all_one_blocks() {
    assert_eq!(crc32c_mem(0, &[0u8; 32]), 0x8a91_36aa);
    assert_eq!(crc32c_mem(0, &[0xffu8; 32]), 0x62a8_ab43);
}

#[test]
fn nonzero_seed_continues_checksum() {
    assert_eq!(crc32c_mem(0xc1d04330, b"b"), crc32c_mem(0, b"ab"));
    assert_ne!(crc32c_mem(1, b"a"), crc32c_mem(0, b"a"));
}

#[test]
fn hasher_default_is_zero() {
    let h = Crc32cHasher::default();
    assert_eq!(h.finish(), 0);
}

#[test]
fn hasher_streaming_matches_single_write() {
    let mut one = Crc32cHasher::default();
    one.write(b"hello\n");
    let mut two = Crc32cHasher::default();
    two.write(b"hel");
    two.write(b"lo\n");
    assert_eq!(one.finish(), two.finish());
    assert_eq!(one.finish() as u32, crc32c_mem(0, b"hello\n"));
    assert_eq!(one.finish(), 0x353dd8be_353dd8be);
}

#[test]
fn hasher_finish_repeats_checksum() {
    let mut h = Crc32cHasher::default();
    h.write(b"a");
    assert_eq!(h.finish(), 0xc1d04330_c1d04330);
    assert_eq!(h.finish() >> 32, h.finish() & 0xffff_ffff);
}

#[test]
fn hasher_empty_write_keeps_state() {
    let mut h = Crc32cHasher::default();
    h.write(b"a");
    let before = h.finish();
    h.write(b"");
    assert_eq!(h.finish(), before);
}

#[test]
fn containers_with_crc_hasher() {
    let mut m: Crc32cHashMap<String, u32> = Crc32cHashMap::default();
    m.insert("one".to_string(), 1);
    m.insert("two".to_string(), 2);
    m.insert("one".to_string(), 11);
    assert_eq!(m.len(), 2);
    assert_eq!(m.get("one"), Some(&11));
    assert_eq!(m.get("two"), Some(&2));
    assert_eq!(m.get("three"), None);

    let mut s: Crc32cHashSet<u64> = Crc32cHashSet::default();
    assert!(s.insert(5));
    assert!(!s.insert(5));
    assert!(s.insert(6));
    assert_eq!(s.len(), 2);
}
