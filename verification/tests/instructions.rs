use simd_intrinsics::for_miri;
use simd_intrinsics::intrinsics::{
    _mm256_and_si256, _mm256_andnot_si256, _mm256_loadu_si256, _mm256_or_si256,
    _mm256_set1_epi8, _mm256_xor_si256, _mm_and_si128, _mm_andnot_si128, _mm_cvtsi128_si32,
    _mm_loadu_si128, _mm_or_si128, _mm_set1_epi8, _mm_srli_si128, _mm_storeu_si128,
    _mm_storeu_si256, _mm_xor_si128, llvm_x86_avx2_pshuf_b, llvm_x86_avx2_psrli_b,
    llvm_x86_avx2_psrli_d, llvm_x86_avx2_psrli_q, llvm_x86_avx2_psrli_w, llvm_x86_sse2_pcmpeqb_epi8,
    llvm_x86_sse2_pcmpeqw_epi16, llvm_x86_sse2_pmovmskb_128, llvm_x86_sse2_psrli_b,
    llvm_x86_sse2_psrli_d, llvm_x86_sse2_psrli_q, llvm_x86_sse2_psrli_w,
    llvm_x86_ssse3_pshuf_b_128, llvm_x86_ssse3_pshuf_w_128, shift_distance,
};
use simd_intrinsics::mask::place_i32;
use simd_intrinsics::vector::{
    __m128i, __m256i, u16x16, u16x8, u32x4, u32x8, u64x2, u64x4, u8x16, u8x32,
};

fn count16() -> [u8; 16] {
    let mut a = [0u8; 16];
    for i in 0..16 {
        a[i] = i as u8;
    }
    a
}

fn count32() -> [u8; 32] {
    let mut a = [0u8; 32];
    for i in 0..32 {
        a[i] = i as u8;
    }
    a
}

#[test]
fn compare_then_movemask() {
    let a = u8x16(count16());
    let b = u8x16([15, 14, 2, 12, 11, 10, 9, 8, 7, 6, 5, 4, 3, 2, 1, 0]);
    let r = llvm_x86_sse2_pcmpeqb_epi8(a, b);
    for i in 0..16 {
        assert_eq!(r.0[i], if i == 2 { 0xff } else { 0x00 });
    }
    assert_eq!(llvm_x86_sse2_pmovmskb_128(r), 0x0004);
}

#[test]
fn compare_then_movemask_on_registers() {
    let a = __m128i(count16());
    let b = __m128i([15, 14, 2, 12, 11, 10, 9, 8, 7, 6, 5, 4, 3, 2, 1, 0]);
    let r = for_miri::llvm_x86_sse2_pcmpeqb_epi8(a, b);
    assert_eq!(r.0, [0, 0, 0xff, 0, 0, 0, 0, 0, 0, 0, 0, 0, 0, 0, 0, 0]);
    assert_eq!(for_miri::llvm_x86_sse2_pmovmskb_128(r), 0x0004);
    let same = for_miri::veccall_test(a, b);
    assert_eq!(same.0, r.0);
}

#[test]
fn movemask_of_alternating_lanes() {
    let mut v = [0u8; 16];
    for i in 0..16 {
        v[i] = if i % 2 == 0 { 0x80 | (i as u8) } else { 0x7f - (i as u8) };
    }
    assert_eq!(llvm_x86_sse2_pmovmskb_128(u8x16(v)), 0x5555);
    assert_eq!(for_miri::llvm_x86_sse2_pmovmskb_128(__m128i(v)), 0x5555);
}

#[test]
fn movemask_puts_lane_i_at_bit_i() {
    for i in 0..16 {
        let mut v = [0x7fu8; 16];
        v[i] = 0x80;
        assert_eq!(llvm_x86_sse2_pmovmskb_128(u8x16(v)), 1 << i);
    }
    assert_eq!(llvm_x86_sse2_pmovmskb_128(u8x16([0; 16])), 0);
    assert_eq!(llvm_x86_sse2_pmovmskb_128(u8x16([0xff; 16])), 0xffff);
    assert_eq!(llvm_x86_sse2_pmovmskb_128(_mm_set1_epi8(-1)), 0xffff);
    assert_eq!(llvm_x86_sse2_pmovmskb_128(_mm_set1_epi8(1)), 0);
}

#[test]
fn place_lays_the_upper_run_above_the_lower() {
    assert_eq!(place_i32(1, 1, 1), 3);
    assert_eq!(place_i32(4, 0b1010, 0b0110), 0b0110_1010);
    assert_eq!(place_i32(8, 0xff, 0xab), 0xabff);
    assert_eq!(place_i32(2, 0, 3), 12);
}

#[test]
fn compare_words() {
    let a = u16x8([0, 1, 0x100, 0xffff, 5, 6, 7, 0x8000]);
    let b = u16x8([0, 2, 0x001, 0xffff, 5, 7, 6, 0x0080]);
    let r = llvm_x86_sse2_pcmpeqw_epi16(a, b);
    assert_eq!(r.0, [0xffff, 0, 0, 0xffff, 0xffff, 0, 0, 0]);
    let m = for_miri::llvm_x86_sse2_pcmpeqw_epi16(a.to_machine(), b.to_machine());
    assert_eq!(u16x8::from_machine(m).0, r.0);
    assert_eq!(m.0, [0xff, 0xff, 0, 0, 0, 0, 0xff, 0xff, 0xff, 0xff, 0, 0, 0, 0, 0, 0]);
}

#[test]
fn distance_of_an_immediate() {
    assert_eq!(shift_distance(0), 0);
    assert_eq!(shift_distance(1), 1);
    assert_eq!(shift_distance(64), 64);
    assert_eq!(shift_distance(255), 255);
    assert_eq!(shift_distance(256), 255);
    assert_eq!(shift_distance(257), 255);
    assert_eq!(shift_distance(0x1234), 255);
    assert_eq!(shift_distance(i32::MAX), 255);
    assert_eq!(shift_distance(-1), 255);
    assert_eq!(shift_distance(-256), 0);
    assert_eq!(shift_distance(-255), 1);
    assert_eq!(shift_distance(i32::MIN), 0);
}

#[test]
fn immediates_beyond_a_byte_shift_everything_out() {
    let w = u16x8([1, 0xffff, 0x8000, 0x1234, 2, 3, 4, 5]);
    for imm8 in [16, 17, 255, 256, 257, 272, 512, 0x1_0000, 0x1_0004, i32::MAX] {
        assert_eq!(llvm_x86_sse2_psrli_b(u8x16([0xff; 16]), imm8).0, [0; 16]);
        assert_eq!(llvm_x86_sse2_psrli_w(w, imm8).0, [0; 8]);
        assert_eq!(llvm_x86_avx2_psrli_b(u8x32([0xff; 32]), imm8).0, [0; 32]);
        assert_eq!(llvm_x86_avx2_psrli_w(u16x16([0xffff; 16]), imm8).0, [0; 16]);
        assert_eq!(for_miri::llvm_x86_sse2_psrli_w(w.to_machine(), imm8).0, [0; 16]);
        assert_eq!(for_miri::llvm_x86_avx2_psrli_b(__m256i([0xff; 32]), imm8).0, [0; 32]);
        assert_eq!(_mm_srli_si128(u128::MAX, imm8), 0);
        assert_eq!(_mm_srli_si128(1, imm8), 0);
    }
    for imm8 in [64, 65, 255, 256, 320, 0x100_0000, i32::MAX] {
        assert_eq!(llvm_x86_sse2_psrli_d(u32x4([u32::MAX; 4]), imm8).0, [0; 4]);
        assert_eq!(llvm_x86_sse2_psrli_q(u64x2([u64::MAX; 2]), imm8).0, [0; 2]);
        assert_eq!(llvm_x86_avx2_psrli_d(u32x8([u32::MAX; 8]), imm8).0, [0; 8]);
        assert_eq!(llvm_x86_avx2_psrli_q(u64x4([u64::MAX; 4]), imm8).0, [0; 4]);
        assert_eq!(for_miri::llvm_x86_sse2_psrli_d(__m128i([0xff; 16]), imm8).0, [0; 16]);
        assert_eq!(for_miri::llvm_x86_sse2_psrli_q(__m128i([0xff; 16]), imm8).0, [0; 16]);
        assert_eq!(for_miri::llvm_x86_avx2_psrli_d(__m256i([0xff; 32]), imm8).0, [0; 32]);
        assert_eq!(for_miri::llvm_x86_avx2_psrli_q(__m256i([0xff; 32]), imm8).0, [0; 32]);
    }
}

#[test]
fn negative_immediates_count_by_their_low_byte() {
    let w = u16x8([0x8000; 8]);
    assert_eq!(llvm_x86_sse2_psrli_w(w, -1).0, [0; 8]);
    assert_eq!(llvm_x86_sse2_psrli_w(w, -256).0, [0x8000; 8]);
    assert_eq!(llvm_x86_sse2_psrli_w(w, -252).0, [0x0800; 8]);
    assert_eq!(llvm_x86_sse2_psrli_w(w, -240).0, [0; 8]);
    assert_eq!(_mm_srli_si128(0x1234, -1), 0);
    assert_eq!(_mm_srli_si128(0x1234, -256), 0x1234);
    assert_eq!(_mm_srli_si128(0x1234, -255), 0x12);
    assert_eq!(_mm_srli_si128(0x1234, -240), 0);
}

#[test]
fn lane_shifts_saturate_to_zero() {
    let b = u8x16([0xff; 16]);
    assert_eq!(llvm_x86_sse2_psrli_b(b, 0).0, [0xff; 16]);
    assert_eq!(llvm_x86_sse2_psrli_b(b, 7).0, [1; 16]);
    assert_eq!(llvm_x86_sse2_psrli_b(b, 8).0, [0; 16]);
    assert_eq!(llvm_x86_sse2_psrli_b(b, 9).0, [0; 16]);
    let w = u16x8([0xffff, 0x8000, 0x1234, 1, 0, 0x00ff, 0xff00, 2]);
    assert_eq!(llvm_x86_sse2_psrli_w(w, 0).0, w.0);
    assert_eq!(llvm_x86_sse2_psrli_w(w, 4).0, [0x0fff, 0x0800, 0x0123, 0, 0, 0x000f, 0x0ff0, 0]);
    assert_eq!(llvm_x86_sse2_psrli_w(w, 15).0, [1, 1, 0, 0, 0, 0, 1, 0]);
    assert_eq!(llvm_x86_sse2_psrli_w(w, 16).0, [0; 8]);
    assert_eq!(llvm_x86_sse2_psrli_w(w, 17).0, [0; 8]);
    let d = u32x4([u32::MAX, 0x8000_0000, 0x1234_5678, 1]);
    assert_eq!(llvm_x86_sse2_psrli_d(d, 31).0, [1, 1, 0, 0]);
    assert_eq!(llvm_x86_sse2_psrli_d(d, 32).0, [0; 4]);
    assert_eq!(llvm_x86_sse2_psrli_d(d, 33).0, [0; 4]);
    assert_eq!(llvm_x86_sse2_psrli_d(d, 8).0, [0x00ff_ffff, 0x0080_0000, 0x0012_3456, 0]);
    let q = u64x2([u64::MAX, 0x0123_4567_89ab_cdef]);
    assert_eq!(llvm_x86_sse2_psrli_q(q, 63).0, [1, 0]);
    assert_eq!(llvm_x86_sse2_psrli_q(q, 64).0, [0; 2]);
    assert_eq!(llvm_x86_sse2_psrli_q(q, 65).0, [0; 2]);
    assert_eq!(llvm_x86_sse2_psrli_q(q, 16).0, [0x0000_ffff_ffff_ffff, 0x0000_0123_4567_89ab]);
}

#[test]
fn wide_lane_shifts() {
    assert_eq!(llvm_x86_avx2_psrli_b(u8x32([0x80; 32]), 3).0, [0x10; 32]);
    assert_eq!(llvm_x86_avx2_psrli_b(u8x32([0x80; 32]), 8).0, [0; 32]);
    assert_eq!(llvm_x86_avx2_psrli_w(u16x16([0x8000; 16]), 15).0, [1; 16]);
    assert_eq!(llvm_x86_avx2_psrli_w(u16x16([0x8000; 16]), 16).0, [0; 16]);
    assert_eq!(llvm_x86_avx2_psrli_d(u32x8([0x8000_0000; 8]), 31).0, [1; 8]);
    assert_eq!(llvm_x86_avx2_psrli_d(u32x8([0x8000_0000; 8]), 32).0, [0; 8]);
    assert_eq!(llvm_x86_avx2_psrli_q(u64x4([1 << 63; 4]), 63).0, [1; 4]);
    assert_eq!(llvm_x86_avx2_psrli_q(u64x4([1 << 63; 4]), 64).0, [0; 4]);
    assert_eq!(llvm_x86_avx2_psrli_q(u64x4([1 << 63; 4]), 0).0, [1 << 63; 4]);
}

#[test]
fn shifts_on_registers() {
    let m = __m128i([0x10, 0x32, 0x54, 0x76, 0x98, 0xba, 0xdc, 0xfe, 0, 1, 2, 3, 4, 5, 6, 7]);
    let r = for_miri::llvm_x86_sse2_psrli_w(m, 4);
    assert_eq!(
        r.0,
        [0x21, 0x03, 0x65, 0x07, 0xa9, 0x0b, 0xed, 0x0f, 0x10, 0, 0x30, 0, 0x50, 0, 0x70, 0]
    );
    let r = for_miri::llvm_x86_sse2_psrli_q(m, 8);
    assert_eq!(r.0, [0x32, 0x54, 0x76, 0x98, 0xba, 0xdc, 0xfe, 0, 1, 2, 3, 4, 5, 6, 7, 0]);
    let r = for_miri::llvm_x86_sse2_psrli_d(m, 32);
    assert_eq!(r.0, [0; 16]);
    let r = for_miri::llvm_x86_sse2_psrli_b(m, 4);
    assert_eq!(r.0, [1, 3, 5, 7, 9, 0xb, 0xd, 0xf, 0, 0, 0, 0, 0, 0, 0, 0]);
    let w = __m256i([0xf0; 32]);
    assert_eq!(for_miri::llvm_x86_avx2_psrli_b(w, 4).0, [0x0f; 32]);
    assert_eq!(for_miri::llvm_x86_avx2_psrli_w(w, 8).0, [0xf0, 0].repeat(16).as_slice());
    assert_eq!(for_miri::llvm_x86_avx2_psrli_d(w, 24).0, [0xf0, 0, 0, 0].repeat(8).as_slice());
    assert_eq!(for_miri::llvm_x86_avx2_psrli_q(w, 64).0, [0; 32]);
}

#[test]
fn bitwise_logic_on_vectors() {
    let a = u64x2([0xff00_ff00_ff00_ff00, 0x0123_4567_89ab_cdef]);
    let b = u64x2([0x0ff0_0ff0_0ff0_0ff0, u64::MAX]);
    assert_eq!(_mm_and_si128(a, b).0, [0x0f00_0f00_0f00_0f00, 0x0123_4567_89ab_cdef]);
    assert_eq!(_mm_andnot_si128(a, b).0, [0xf000_f000_f000_f000, 0]);
    assert_eq!(_mm_or_si128(a, b).0, [0xfff0_fff0_fff0_fff0, u64::MAX]);
    assert_eq!(_mm_xor_si128(a, b).0, [0xf0f0_f0f0_f0f0_f0f0, 0xfedc_ba98_7654_3210]);
    let c = u64x4([1, 2, 3, 4]);
    let d = u64x4([5, 6, 7, 8]);
    assert_eq!(_mm256_and_si256(c, d).0, [1, 2, 3, 0]);
    assert_eq!(_mm256_andnot_si256(c, d).0, [0, 0, 0, 4]);
    assert_eq!(_mm256_or_si256(c, d).0, [5, 6, 7, 12]);
    assert_eq!(_mm256_xor_si256(c, d).0, [4, 4, 4, 12]);
}

#[test]
fn xor_of_broadcasts() {
    let a = for_miri::_mm_set1_epi8(5);
    let b = for_miri::_mm_set1_epi8(3);
    let r = for_miri::_mm_xor_si128(a, b);
    assert_eq!(r.0, for_miri::_mm_set1_epi8(6).0);
    assert_eq!(for_miri::_mm_and_si128(a, b).0, [1; 16]);
    assert_eq!(for_miri::_mm_or_si128(a, b).0, [7; 16]);
    assert_eq!(for_miri::_mm_andnot_si128(a, b).0, [4; 16]);
    let c = for_miri::_mm256_set1_epi8(5);
    let d = for_miri::_mm256_set1_epi8(3);
    assert_eq!(for_miri::_mm256_xor_si256(c, d).0, [6; 32]);
    assert_eq!(for_miri::_mm256_and_si256(c, d).0, [1; 32]);
    assert_eq!(for_miri::_mm256_or_si256(c, d).0, [7; 32]);
    assert_eq!(for_miri::_mm256_andnot_si256(c, d).0, [4; 32]);
}

#[test]
fn set1_fills_every_byte() {
    assert_eq!(_mm_set1_epi8(0).0, [0; 16]);
    assert_eq!(_mm_set1_epi8(5).0, [5; 16]);
    assert_eq!(_mm_set1_epi8(-1).0, [0xff; 16]);
    assert_eq!(_mm_set1_epi8(i8::MIN).0, [0x80; 16]);
    assert_eq!(_mm256_set1_epi8(0x7f).0, [0x7f; 32]);
    assert_eq!(_mm256_set1_epi8(-2).0, [0xfe; 32]);
}

#[test]
fn shuffle_picks_by_control() {
    let a = u8x16([100, 101, 102, 103, 104, 105, 106, 107, 108, 109, 110, 111, 112, 113, 114, 115]);
    let control = u8x16([15, 14, 13, 12, 11, 10, 9, 8, 7, 6, 5, 4, 3, 2, 1, 0]);
    let r = llvm_x86_ssse3_pshuf_b_128(a, control);
    assert_eq!(
        r.0,
        [115, 114, 113, 112, 111, 110, 109, 108, 107, 106, 105, 104, 103, 102, 101, 100]
    );
    let r = llvm_x86_ssse3_pshuf_b_128(a, u8x16([3; 16]));
    assert_eq!(r.0, [103; 16]);
    let m = for_miri::llvm_x86_ssse3_pshuf_b_128(a.to_machine(), control.to_machine());
    assert_eq!(m.0[0], 115);
    assert_eq!(m.0[15], 100);
}

#[test]
fn shuffle_control_wraps_around() {
    let a = u8x16(count16());
    let control = u8x16([
        16, 17, 31, 32, 0x80, 0xff, 0xf0, 0x2a, 15, 255, 254, 100, 200, 48, 47, 0,
    ]);
    let r = llvm_x86_ssse3_pshuf_b_128(a, control);
    for i in 0..16 {
        assert_eq!(r.0[i], a.0[(control.0[i] % 16) as usize]);
    }
    assert_eq!(r.0, [0, 1, 15, 0, 0, 15, 0, 10, 15, 15, 14, 4, 8, 0, 15, 0]);
    let b = u8x32(count32());
    let mut c = [0u8; 32];
    for i in 0..32 {
        c[i] = (i * 37 + 5) as u8;
    }
    let r = llvm_x86_avx2_pshuf_b(b, u8x32(c));
    for i in 0..32 {
        assert_eq!(r.0[i], (c[i] % 32));
    }
    let m = for_miri::llvm_x86_avx2_pshuf_b(b.to_machine(), __m256i(c));
    assert_eq!(m.0, r.0);
    let w = u16x8([10, 11, 12, 13, 14, 15, 16, 17]);
    let r = llvm_x86_ssse3_pshuf_w_128(w, u16x8([0, 7, 8, 9, 0xffff, 0x100, 3, 0x8004]));
    assert_eq!(r.0, [10, 17, 10, 11, 17, 10, 13, 14]);
    let m = for_miri::llvm_x86_ssse3_pshuf_w_128(
        w.to_machine(),
        u16x8([0, 7, 8, 9, 0xffff, 0x100, 3, 0x8004]).to_machine(),
    );
    assert_eq!(u16x8::from_machine(m).0, r.0);
}

#[test]
fn load_and_store_move_exactly_the_bytes() {
    let mem = count16();
    let v = _mm_loadu_si128(&mem);
    assert_eq!(v.0, mem);
    let mut out = [0xeeu8; 16];
    _mm_storeu_si128(&mut out, v);
    assert_eq!(out, mem);
    let mem = count32();
    let v = _mm256_loadu_si256(&mem);
    assert_eq!(v.0, mem);
    let mut out = [0xeeu8; 32];
    _mm_storeu_si256(&mut out, v);
    assert_eq!(out, mem);
    let m = for_miri::_mm_loadu_si128(&count16());
    let mut out = [0u8; 16];
    for_miri::_mm_storeu_si128(&mut out, m);
    assert_eq!(out, count16());
    let m = for_miri::_mm256_loadu_si256(&count32());
    let mut out = [0u8; 32];
    for_miri::_mm_storeu_si256(&mut out, m);
    assert_eq!(out, count32());
}

#[test]
fn lowest_lane_as_signed() {
    assert_eq!(_mm_cvtsi128_si32(u32x4([7, 1, 2, 3])), 7);
    assert_eq!(_mm_cvtsi128_si32(u32x4([0x7fff_ffff, 0, 0, 0])), i32::MAX);
    assert_eq!(_mm_cvtsi128_si32(u32x4([0x8000_0000, 0, 0, 0])), i32::MIN);
    assert_eq!(_mm_cvtsi128_si32(u32x4([u32::MAX, 0, 0, 0])), -1);
    let m = __m128i([0xfe, 0xff, 0xff, 0xff, 9, 9, 9, 9, 9, 9, 9, 9, 9, 9, 9, 9]);
    assert_eq!(for_miri::_mm_cvtsi128_si32(m), -2);
}

#[test]
fn whole_vector_byte_shift() {
    let a: u128 = 0x0f0e_0d0c_0b0a_0908_0706_0504_0302_0100;
    assert_eq!(_mm_srli_si128(a, 0), a);
    assert_eq!(_mm_srli_si128(a, 1), 0x000f_0e0d_0c0b_0a09_0807_0605_0403_0201);
    assert_eq!(_mm_srli_si128(a, 8), 0x0f0e_0d0c_0b0a_0908);
    assert_eq!(_mm_srli_si128(a, 15), 0x0f);
    assert_eq!(_mm_srli_si128(a, 16), 0);
    assert_eq!(_mm_srli_si128(a, 17), 0);
    assert_eq!(_mm_srli_si128(a, 255), 0);
    assert_eq!(_mm_srli_si128(a, 256), 0);
    assert_eq!(_mm_srli_si128(a, 257), 0);
    assert_eq!(_mm_srli_si128(a, i32::MAX), 0);
    assert_eq!(_mm_srli_si128(u128::MAX, 16), 0);
}
