use simd_intrinsics::scalar::{
    and64, andnot64, cmpeq_u16, cmpeq_u8, index16_u8, index32_u8, index8_u16, or64, sign_u8_i32,
    srl_immed_u16_u8, srl_immed_u32_u8, srl_immed_u64_u8, srl_immed_u8_u8, xor64,
};

#[test]
fn bitwise_logic_on_64_bits() {
    assert_eq!(and64(0b1100, 0b1010), 0b1000);
    assert_eq!(andnot64(0b1100, 0b1010), 0b0100);
    assert_eq!(or64(0b1100, 0b1010), 0b1110);
    assert_eq!(xor64(0b1100, 0b1010), 0b0110);
    assert_eq!(andnot64(u64::MAX, 0), u64::MAX);
    assert_eq!(andnot64(u64::MAX, u64::MAX), 0);
}

#[test]
fn equal_lanes_give_all_ones() {
    for x in 0..=255u8 {
        assert_eq!(cmpeq_u8(x, x), 0xff);
    }
    assert_eq!(cmpeq_u16(0, 0), 0xffff);
    assert_eq!(cmpeq_u16(0xabcd, 0xabcd), 0xffff);
    assert_eq!(cmpeq_u16(u16::MAX, u16::MAX), 0xffff);
}

#[test]
fn different_lanes_give_zero() {
    for x in 0..=255u8 {
        for y in 0..=255u8 {
            if x != y {
                assert_eq!(cmpeq_u8(x, y), 0);
            }
        }
    }
    assert_eq!(cmpeq_u16(1, 0x101), 0);
    assert_eq!(cmpeq_u16(0, u16::MAX), 0);
}

#[test]
fn shift_by_zero_changes_nothing() {
    assert_eq!(srl_immed_u8_u8(0xa5, 0), 0xa5);
    assert_eq!(srl_immed_u16_u8(0xa5a5, 0), 0xa5a5);
    assert_eq!(srl_immed_u32_u8(0xa5a5_a5a5, 0), 0xa5a5_a5a5);
    assert_eq!(srl_immed_u64_u8(0xa5a5_a5a5_a5a5_a5a5, 0), 0xa5a5_a5a5_a5a5_a5a5);
}

#[test]
fn shift_at_the_width_boundaries() {
    assert_eq!(srl_immed_u8_u8(0xff, 7), 1);
    assert_eq!(srl_immed_u8_u8(0xff, 8), 0);
    assert_eq!(srl_immed_u8_u8(0xff, 9), 0);
    assert_eq!(srl_immed_u16_u8(0xffff, 15), 1);
    assert_eq!(srl_immed_u16_u8(0xffff, 16), 0);
    assert_eq!(srl_immed_u16_u8(0xffff, 17), 0);
    assert_eq!(srl_immed_u32_u8(u32::MAX, 31), 1);
    assert_eq!(srl_immed_u32_u8(u32::MAX, 32), 0);
    assert_eq!(srl_immed_u32_u8(u32::MAX, 33), 0);
    assert_eq!(srl_immed_u64_u8(u64::MAX, 63), 1);
    assert_eq!(srl_immed_u64_u8(u64::MAX, 64), 0);
    assert_eq!(srl_immed_u64_u8(u64::MAX, 65), 0);
}

#[test]
fn shift_beyond_the_width_gives_zero() {
    for d in 8..=255u8 {
        assert_eq!(srl_immed_u8_u8(0xff, d), 0);
    }
    for d in 64..=255u8 {
        assert_eq!(srl_immed_u64_u8(u64::MAX, d), 0);
    }
}

#[test]
fn shift_within_the_width() {
    assert_eq!(srl_immed_u8_u8(0x80, 3), 0x10);
    assert_eq!(srl_immed_u16_u8(0x1234, 4), 0x0123);
    assert_eq!(srl_immed_u32_u8(0x1234_5678, 8), 0x0012_3456);
    assert_eq!(srl_immed_u64_u8(0x1234_5678_9abc_def0, 32), 0x1234_5678);
}

#[test]
fn sign_is_the_top_bit() {
    assert_eq!(sign_u8_i32(0), 0);
    assert_eq!(sign_u8_i32(0x7f), 0);
    assert_eq!(sign_u8_i32(0x80), 1);
    assert_eq!(sign_u8_i32(0xff), 1);
}

#[test]
fn control_values_wrap_around() {
    assert_eq!(index16_u8(0), 0);
    assert_eq!(index16_u8(15), 15);
    assert_eq!(index16_u8(16), 0);
    assert_eq!(index16_u8(0x93), 3);
    assert_eq!(index32_u8(31), 31);
    assert_eq!(index32_u8(32), 0);
    assert_eq!(index32_u8(0xff), 31);
    assert_eq!(index8_u16(7), 7);
    assert_eq!(index8_u16(8), 0);
    assert_eq!(index8_u16(0xfffd), 5);
}
