use simd_intrinsics::sampling::{
    bit, bucket, hash0, hash1, pick, settle_concrete, settle_concrete_usize, settle_sample,
};

#[test]
fn bits_of_a_word() {
    assert_eq!(bit(0, 0b101), 1);
    assert_eq!(bit(1, 0b101), 0);
    assert_eq!(bit(2, 0b101), 1);
    assert_eq!(bit(31, 0x8000_0000), 1);
    assert_eq!(bit(31, 0x7fff_ffff), 0);
    assert_eq!(bit(0, u32::MAX), 1);
}

#[test]
fn digest_is_parity_of_chosen_bits() {
    assert_eq!(hash0(0), 0);
    assert_eq!(hash0(1 << 0), 0b00100);
    assert_eq!(hash0(1 << 1), 0b10010);
    assert_eq!(hash0(1 << 2), 0b01010);
    assert_eq!(hash0(1 << 3), 0b10001);
    assert_eq!(hash0(1 << 4), 0b00110);
    assert_eq!(hash0(1 << 5), 0b00001);
    assert_eq!(hash0(1 << 6), 0b00101);
    assert_eq!(hash0(1 << 7), 0b01000);
    assert_eq!(hash0(1 << 8), 0b01000);
    assert_eq!(hash0(1 << 9), 0b10000);
    assert_eq!(hash0(1 << 10), 0);
    assert_eq!(hash0(0xffff_fc00), 0);
    assert_eq!(hash0(0x3ff), 0b11111);
    assert_eq!(hash0((1 << 7) | (1 << 8)), 0);
    for x in 0..2048u32 {
        assert!(hash0(x) < 32);
        assert_eq!(hash0(x), hash0(x & 0x3ff));
    }
}

#[test]
fn generator_step_wraps() {
    assert_eq!(hash1(0), 1013904223);
    assert_eq!(hash1(1), 1015568748);
    assert_eq!(hash1(u32::MAX), 1013904223u32.wrapping_sub(1664525));
    assert_eq!(hash1(0x1234_5678), ((0x1234_5678u64 * 1664525 + 1013904223) % (1u64 << 32)) as u32);
}

#[test]
fn bucket_keeps_the_low_bits_of_the_digest() {
    for x in [0u32, 1, 2, 0x3ff, 0x155, 0x2aa, 12345] {
        assert_eq!(bucket(0, x), 0);
        assert_eq!(bucket(1, x), hash0(x) & 1);
        assert_eq!(bucket(3, x), hash0(x) & 7);
        assert_eq!(bucket(5, x), hash0(x));
        assert_eq!(bucket(6, x), hash0(x));
        assert_eq!(bucket(31, x), hash0(x));
    }
    assert_eq!(bucket(2, 0x3ff), 3);
}

#[test]
fn a_sample_stands_when_it_is_the_value_or_the_last() {
    assert_eq!(settle_sample(16, 1, 7, 7), Some(7));
    assert_eq!(settle_sample(16, 1, 7, 8), None);
    assert_eq!(settle_sample(16, 15, 7, 8), None);
    assert_eq!(settle_sample(16, 16, 7, 8), Some(8));
    assert_eq!(settle_sample(1, 1, 7, 8), Some(8));
    assert_eq!(settle_sample(1, 1, 7, 7), Some(7));
}

#[test]
fn a_concrete_value_stands_only_when_it_is_the_value() {
    assert_eq!(settle_concrete(7, 7), Some(7));
    assert_eq!(settle_concrete(7, 8), None);
    assert_eq!(settle_concrete(0, u32::MAX), None);
    assert_eq!(settle_concrete_usize(7, 7), Some(7));
    assert_eq!(settle_concrete_usize(7, 8), None);
    assert_eq!(settle_concrete_usize(usize::MAX, usize::MAX), Some(usize::MAX));
    assert_eq!(settle_concrete_usize(usize::MAX, 0), None);
}

#[test]
fn picking_by_number() {
    let xs = [1, 10, 100];
    assert_eq!(pick(&xs, 0), Some(&1));
    assert_eq!(pick(&xs, 2), Some(&100));
    assert_eq!(pick(&xs, 3), None);
    let none: [u8; 0] = [];
    assert_eq!(pick(&none, 0), None);
}
