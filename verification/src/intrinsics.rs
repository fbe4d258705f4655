//! The emulated instructions, on vectors in their lane shape. Each is
//! named after the instruction it stands for.

use crate::lift::{
    can_fold, lemma_total_can_fold, lift16_s_v, lift16_v_s, lift16_vs_v, lift16_vv_v, lift2_vs_v,
    lift2_vv_v, lift32_s_v, lift32_vs_v, lift4_vs_v, lift4_vv_v, lift8_vs_v, lift8_vv_v,
    maps_each, tree_folds,
};
use crate::mask::{
    bit_of, lemma_fold_is_mask, lemma_sign_mask_bit, lemma_sign_mask_bound, place_i32, sign_mask,
};
use crate::scalar::{
    and64, andnot64, cmpeq_u16, cmpeq_u8, index16_u8, index32_u8, index8_u16, or64, sign_u8_i32,
    spec_cmpeq_u16, spec_cmpeq_u8, spec_pick, spec_sign_u8, spec_srl_u16, spec_srl_u32,
    spec_srl_u64, spec_srl_u8, srl_immed_u16_u8, srl_immed_u32_u8, srl_immed_u64_u8,
    srl_immed_u8_u8, xor64,
};
use crate::vector::{u16x16, u16x8, u32x4, u32x8, u64x2, u64x4, u8x16, u8x32};
use vstd::arithmetic::power2::{lemma2_to64, pow2};
use vstd::bits::lemma_u128_shr_is_div;
use vstd::prelude::*;

verus! {

/// The shift distance that an instruction reads from a 32-bit immediate.
/// An immediate from 0 to 255 is the distance itself, and a greater one
/// stands for 255, which is beyond every lane; of a negative immediate the
/// low eight bits count.
pub open spec fn spec_distance(imm8: i32) -> u8 {
    if imm8 > 255 {
        255
    } else {
        (imm8 as int % 256) as u8
    }
}

/// The shift distance that an instruction reads from a 32-bit immediate.
pub fn shift_distance(imm8: i32) -> (d: u8)
    ensures
        d == spec_distance(imm8),
        0 <= imm8 <= 255 ==> d == imm8,
        imm8 > 255 ==> d == 255,
{
    if imm8 > 255 {
        255
    } else {
        let d: u8 = imm8 as u8;
        assert(d == imm8 as int % 256) by (bit_vector)
            requires
                d == imm8 as u8,
        ;
        d
    }
}

/// Compares sixteen pairs of 8-bit lanes for equality (`pcmpeqb`): a lane of
/// the result is all ones where the two lanes are equal and zero elsewhere.
pub fn llvm_x86_sse2_pcmpeqb_epi8(a: u8x16, b: u8x16) -> (r: u8x16)
    ensures
        forall|i: int| 0 <= i < 16 ==> #[trigger] r.0@[i] == spec_cmpeq_u8(a.0@[i], b.0@[i]),
{
    lift16_vv_v::<_, u8, u8, u8>(cmpeq_u8, a, b)
}

/// Compares eight pairs of 16-bit lanes for equality (`pcmpeqw`).
pub fn llvm_x86_sse2_pcmpeqw_epi16(a: u16x8, b: u16x8) -> (r: u16x8)
    ensures
        forall|i: int| 0 <= i < 8 ==> #[trigger] r.0@[i] == spec_cmpeq_u16(a.0@[i], b.0@[i]),
{
    lift8_vv_v::<_, u16, u16, u16>(cmpeq_u16, a, b)
}

/// Shifts each of sixteen 8-bit lanes right by the immediate distance.
/// A distance of 8 or more leaves every lane zero.
pub fn llvm_x86_sse2_psrli_b(a: u8x16, imm8: i32) -> (r: u8x16)
    ensures
        forall|i: int|
            0 <= i < 16 ==> #[trigger] r.0@[i] == spec_srl_u8(a.0@[i], spec_distance(imm8)),
        imm8 >= 8 ==> forall|i: int| 0 <= i < 16 ==> #[trigger] r.0@[i] == 0,
        0 <= imm8 < 8 ==> forall|i: int|
            0 <= i < 16 ==> #[trigger] r.0@[i] == a.0@[i] >> (imm8 as u8),
{
    lift16_vs_v::<_, u8, u8, u8>(srl_immed_u8_u8, a, shift_distance(imm8))
}

/// Shifts each of eight 16-bit lanes right by the immediate distance
/// (`psrlw`).
/// A distance of 16 or more leaves every lane zero.
pub fn llvm_x86_sse2_psrli_w(a: u16x8, imm8: i32) -> (r: u16x8)
    ensures
        forall|i: int|
            0 <= i < 8 ==> #[trigger] r.0@[i] == spec_srl_u16(a.0@[i], spec_distance(imm8)),
        imm8 >= 16 ==> forall|i: int| 0 <= i < 8 ==> #[trigger] r.0@[i] == 0,
        0 <= imm8 < 16 ==> forall|i: int|
            0 <= i < 8 ==> #[trigger] r.0@[i] == a.0@[i] >> (imm8 as u8),
{
    lift8_vs_v::<_, u16, u8, u16>(srl_immed_u16_u8, a, shift_distance(imm8))
}

/// Shifts each of four 32-bit lanes right by the immediate distance
/// (`psrld`).
/// A distance of 32 or more leaves every lane zero.
pub fn llvm_x86_sse2_psrli_d(a: u32x4, imm8: i32) -> (r: u32x4)
    ensures
        forall|i: int|
            0 <= i < 4 ==> #[trigger] r.0@[i] == spec_srl_u32(a.0@[i], spec_distance(imm8)),
        imm8 >= 32 ==> forall|i: int| 0 <= i < 4 ==> #[trigger] r.0@[i] == 0,
        0 <= imm8 < 32 ==> forall|i: int|
            0 <= i < 4 ==> #[trigger] r.0@[i] == a.0@[i] >> (imm8 as u8),
{
    lift4_vs_v::<_, u32, u8, u32>(srl_immed_u32_u8, a, shift_distance(imm8))
}

/// Shifts each of two 64-bit lanes right by the immediate distance
/// (`psrlq`).
/// A distance of 64 or more leaves every lane zero.
pub fn llvm_x86_sse2_psrli_q(a: u64x2, imm8: i32) -> (r: u64x2)
    ensures
        forall|i: int|
            0 <= i < 2 ==> #[trigger] r.0@[i] == spec_srl_u64(a.0@[i], spec_distance(imm8)),
        imm8 >= 64 ==> forall|i: int| 0 <= i < 2 ==> #[trigger] r.0@[i] == 0,
        0 <= imm8 < 64 ==> forall|i: int|
            0 <= i < 2 ==> #[trigger] r.0@[i] == a.0@[i] >> (imm8 as u8),
{
    lift2_vs_v::<_, u64, u8, u64>(srl_immed_u64_u8, a, shift_distance(imm8))
}

/// Shifts each of thirty-two 8-bit lanes right by the immediate distance.
/// A distance of 8 or more leaves every lane zero.
pub fn llvm_x86_avx2_psrli_b(a: u8x32, imm8: i32) -> (r: u8x32)
    ensures
        forall|i: int|
            0 <= i < 32 ==> #[trigger] r.0@[i] == spec_srl_u8(a.0@[i], spec_distance(imm8)),
        imm8 >= 8 ==> forall|i: int| 0 <= i < 32 ==> #[trigger] r.0@[i] == 0,
        0 <= imm8 < 8 ==> forall|i: int|
            0 <= i < 32 ==> #[trigger] r.0@[i] == a.0@[i] >> (imm8 as u8),
{
    lift32_vs_v::<_, u8, u8, u8>(srl_immed_u8_u8, a, shift_distance(imm8))
}

/// Shifts each of sixteen 16-bit lanes right by the immediate distance
/// (`vpsrlw`).
/// A distance of 16 or more leaves every lane zero.
pub fn llvm_x86_avx2_psrli_w(a: u16x16, imm8: i32) -> (r: u16x16)
    ensures
        forall|i: int|
            0 <= i < 16 ==> #[trigger] r.0@[i] == spec_srl_u16(a.0@[i], spec_distance(imm8)),
        imm8 >= 16 ==> forall|i: int| 0 <= i < 16 ==> #[trigger] r.0@[i] == 0,
        0 <= imm8 < 16 ==> forall|i: int|
            0 <= i < 16 ==> #[trigger] r.0@[i] == a.0@[i] >> (imm8 as u8),
{
    lift16_vs_v::<_, u16, u8, u16>(srl_immed_u16_u8, a, shift_distance(imm8))
}

/// Shifts each of eight 32-bit lanes right by the immediate distance
/// (`vpsrld`).
/// A distance of 32 or more leaves every lane zero.
pub fn llvm_x86_avx2_psrli_d(a: u32x8, imm8: i32) -> (r: u32x8)
    ensures
        forall|i: int|
            0 <= i < 8 ==> #[trigger] r.0@[i] == spec_srl_u32(a.0@[i], spec_distance(imm8)),
        imm8 >= 32 ==> forall|i: int| 0 <= i < 8 ==> #[trigger] r.0@[i] == 0,
        0 <= imm8 < 32 ==> forall|i: int|
            0 <= i < 8 ==> #[trigger] r.0@[i] == a.0@[i] >> (imm8 as u8),
{
    lift8_vs_v::<_, u32, u8, u32>(srl_immed_u32_u8, a, shift_distance(imm8))
}

/// Shifts each of four 64-bit lanes right by the immediate distance
/// (`vpsrlq`).
/// A distance of 64 or more leaves every lane zero.
pub fn llvm_x86_avx2_psrli_q(a: u64x4, imm8: i32) -> (r: u64x4)
    ensures
        forall|i: int|
            0 <= i < 4 ==> #[trigger] r.0@[i] == spec_srl_u64(a.0@[i], spec_distance(imm8)),
        imm8 >= 64 ==> forall|i: int| 0 <= i < 4 ==> #[trigger] r.0@[i] == 0,
        0 <= imm8 < 64 ==> forall|i: int|
            0 <= i < 4 ==> #[trigger] r.0@[i] == a.0@[i] >> (imm8 as u8),
{
    lift4_vs_v::<_, u64, u8, u64>(srl_immed_u64_u8, a, shift_distance(imm8))
}

/// Bitwise AND of two 128-bit vectors (`pand`).
pub fn _mm_and_si128(a: u64x2, b: u64x2) -> (r: u64x2)
    ensures
        forall|i: int| 0 <= i < 2 ==> #[trigger] r.0@[i] == a.0@[i] & b.0@[i],
{
    lift2_vv_v::<_, u64, u64, u64>(and64, a, b)
}

/// Bitwise AND of two 256-bit vectors (`vpand`).
pub fn _mm256_and_si256(a: u64x4, b: u64x4) -> (r: u64x4)
    ensures
        forall|i: int| 0 <= i < 4 ==> #[trigger] r.0@[i] == a.0@[i] & b.0@[i],
{
    lift4_vv_v::<_, u64, u64, u64>(and64, a, b)
}

/// The bits of `a` that `b` lacks, on 128-bit vectors.
pub fn _mm_andnot_si128(a: u64x2, b: u64x2) -> (r: u64x2)
    ensures
        forall|i: int| 0 <= i < 2 ==> #[trigger] r.0@[i] == a.0@[i] & !b.0@[i],
{
    lift2_vv_v::<_, u64, u64, u64>(andnot64, a, b)
}

/// The bits of `a` that `b` lacks, on 256-bit vectors.
pub fn _mm256_andnot_si256(a: u64x4, b: u64x4) -> (r: u64x4)
    ensures
        forall|i: int| 0 <= i < 4 ==> #[trigger] r.0@[i] == a.0@[i] & !b.0@[i],
{
    lift4_vv_v::<_, u64, u64, u64>(andnot64, a, b)
}

/// Bitwise OR of two 128-bit vectors (`por`).
pub fn _mm_or_si128(a: u64x2, b: u64x2) -> (r: u64x2)
    ensures
        forall|i: int| 0 <= i < 2 ==> #[trigger] r.0@[i] == a.0@[i] | b.0@[i],
{
    lift2_vv_v::<_, u64, u64, u64>(or64, a, b)
}

/// Bitwise OR of two 256-bit vectors (`vpor`).
pub fn _mm256_or_si256(a: u64x4, b: u64x4) -> (r: u64x4)
    ensures
        forall|i: int| 0 <= i < 4 ==> #[trigger] r.0@[i] == a.0@[i] | b.0@[i],
{
    lift4_vv_v::<_, u64, u64, u64>(or64, a, b)
}

/// Bitwise XOR of two 128-bit vectors (`pxor`).
pub fn _mm_xor_si128(a: u64x2, b: u64x2) -> (r: u64x2)
    ensures
        forall|i: int| 0 <= i < 2 ==> #[trigger] r.0@[i] == a.0@[i] ^ b.0@[i],
{
    lift2_vv_v::<_, u64, u64, u64>(xor64, a, b)
}

/// Bitwise XOR of two 256-bit vectors (`vpxor`).
pub fn _mm256_xor_si256(a: u64x4, b: u64x4) -> (r: u64x4)
    ensures
        forall|i: int| 0 <= i < 4 ==> #[trigger] r.0@[i] == a.0@[i] ^ b.0@[i],
{
    lift4_vv_v::<_, u64, u64, u64>(xor64, a, b)
}

/// Sixteen copies of one byte.
pub fn _mm_set1_epi8(a: i8) -> (r: u8x16)
    ensures
        forall|i: int| 0 <= i < 16 ==> #[trigger] r.0@[i] == a as u8,
{
    lift16_s_v::<u8>(a as u8)
}

/// Thirty-two copies of one byte.
pub fn _mm256_set1_epi8(a: i8) -> (r: u8x32)
    ensures
        forall|i: int| 0 <= i < 32 ==> #[trigger] r.0@[i] == a as u8,
{
    lift32_s_v::<u8>(a as u8)
}

/// Packs the sign bits of sixteen 8-bit lanes into the low sixteen bits of
/// an integer, lane `i` into bit `i` (`pmovmskb`).
pub fn llvm_x86_sse2_pmovmskb_128(a: u8x16) -> (r: i32)
    ensures
        r == sign_mask(a.0@, 0, 16),
        0 <= r < 0x1_0000,
        forall|i: nat| i < 16 ==> #[trigger] bit_of(r as int, i) == spec_sign_u8(a.0@[i as int]),
{
    proof {
        assert forall|i: nat| i < 16 implies #[trigger] bit_of(sign_mask(a.0@, 0, 16), i)
            == spec_sign_u8(a.0@[i as int]) by {
            lemma_sign_mask_bit(a.0@, 0, 16, i);
        }
        assert forall|m: Seq<i32>| #[trigger] maps_each(sign_u8_i32, a.0@, m) implies can_fold(
            place_i32,
            m,
            0,
            16,
        ) by {
            lemma_total_can_fold(place_i32, m, 0, 16, 32);
        }
    }
    let r = lift16_v_s::<_, _, u8, i32>(sign_u8_i32, place_i32, a);
    proof {
        let m = choose|m: Seq<i32>| #[trigger]
            maps_each(sign_u8_i32, a.0@, m) && tree_folds(place_i32, m, 0, 16, r);
        lemma_fold_is_mask(place_i32, a.0@, m, 0, 16, r);
        lemma_sign_mask_bound(a.0@, 0, 16);
        lemma2_to64();
    }
    r
}

/// Shuffles sixteen bytes (`pshufb`): lane `i` of the result is the lane of
/// `a` that lane `i` of the control vector `b` picks, modulo 16.
pub fn llvm_x86_ssse3_pshuf_b_128(a: u8x16, b: u8x16) -> (r: u8x16)
    ensures
        forall|i: int| 0 <= i < 16 ==> #[trigger] r.0@[i] == a.0@[spec_pick(b.0@[i] as int, 16)],
{
    let mut out: [u8; 16] = [0; 16];
    let mut i: usize = 0;
    while i < 16
        invariant
            i <= 16,
            forall|k: int| 0 <= k < i ==> #[trigger] out@[k] == a.0@[spec_pick(b.0@[k] as int, 16)],
        decreases 16 - i,
    {
        out[i] = a.0[index16_u8(b.0[i])];
        i += 1;
    }
    u8x16(out)
}

/// Shuffles thirty-two bytes: lane `i` of the result is the lane of `a`
/// that lane `i` of the control vector `b` picks, modulo 32.
pub fn llvm_x86_avx2_pshuf_b(a: u8x32, b: u8x32) -> (r: u8x32)
    ensures
        forall|i: int| 0 <= i < 32 ==> #[trigger] r.0@[i] == a.0@[spec_pick(b.0@[i] as int, 32)],
{
    let mut out: [u8; 32] = [0; 32];
    let mut i: usize = 0;
    while i < 32
        invariant
            i <= 32,
            forall|k: int| 0 <= k < i ==> #[trigger] out@[k] == a.0@[spec_pick(b.0@[k] as int, 32)],
        decreases 32 - i,
    {
        out[i] = a.0[index32_u8(b.0[i])];
        i += 1;
    }
    u8x32(out)
}

/// Shuffles eight 16-bit lanes: lane `i` of the result is the lane of `a`
/// that lane `i` of the control vector `b` picks, modulo 8.
pub fn llvm_x86_ssse3_pshuf_w_128(a: u16x8, b: u16x8) -> (r: u16x8)
    ensures
        forall|i: int| 0 <= i < 8 ==> #[trigger] r.0@[i] == a.0@[spec_pick(b.0@[i] as int, 8)],
{
    let mut out: [u16; 8] = [0; 8];
    let mut i: usize = 0;
    while i < 8
        invariant
            i <= 8,
            forall|k: int| 0 <= k < i ==> #[trigger] out@[k] == a.0@[spec_pick(b.0@[k] as int, 8)],
        decreases 8 - i,
    {
        out[i] = a.0[index8_u16(b.0[i])];
        i += 1;
    }
    u16x8(out)
}

/// Loads sixteen bytes of memory as a vector (`movdqu`), whatever their
/// alignment.
pub fn _mm_loadu_si128(mem_addr: &[u8; 16]) -> (r: u8x16)
    ensures
        r.0@ == mem_addr@,
{
    u8x16(*mem_addr)
}

/// Loads thirty-two bytes of memory as a vector (`vmovdqu`), whatever
/// their alignment.
pub fn _mm256_loadu_si256(mem_addr: &[u8; 32]) -> (r: u8x32)
    ensures
        r.0@ == mem_addr@,
{
    u8x32(*mem_addr)
}

/// Stores a vector to sixteen bytes of memory (`movdqu`), whatever their
/// alignment.
pub fn _mm_storeu_si128(mem_addr: &mut [u8; 16], a: u8x16)
    ensures
        final(mem_addr)@ == a.0@,
{
    *mem_addr = a.0;
}

/// Stores a vector to thirty-two bytes of memory (`vmovdqu`), whatever
/// their alignment.
pub fn _mm_storeu_si256(mem_addr: &mut [u8; 32], a: u8x32)
    ensures
        final(mem_addr)@ == a.0@,
{
    *mem_addr = a.0;
}

/// What a 32-bit pattern means as a signed integer.
pub open spec fn spec_signed32(x: u32) -> int {
    if x < 0x8000_0000 {
        x as int
    } else {
        x - 0x1_0000_0000
    }
}

/// The lowest 32-bit lane, read as a signed integer (`movd`).
pub fn _mm_cvtsi128_si32(a: u32x4) -> (r: i32)
    ensures
        r == spec_signed32(a.0@[0]),
{
    let x: u32 = a.0[0];
    let r: i32 = x as i32;
    assert(r == (if x < 0x8000_0000u32 { x as int } else { x - 0x1_0000_0000 })) by (bit_vector)
        requires
            r == x as i32,
    ;
    r
}

/// How many bytes a whole-vector shift moves by: the distance that the
/// immediate stands for, but sixteen at most.
pub open spec fn spec_byte_shift(imm8: i32) -> int {
    if spec_distance(imm8) > 15 {
        16
    } else {
        spec_distance(imm8) as int
    }
}

/// A 128-bit pattern moved right by `n` whole bytes, zeros coming in from
/// above; moved by sixteen bytes or more, nothing is left.
pub open spec fn spec_srl_bytes(a: u128, n: int) -> u128 {
    if n >= 16 {
        0
    } else {
        a >> ((8 * n) as u128)
    }
}

/// Shifts a whole 128-bit vector right by whole bytes (`psrldq`). A distance
/// of sixteen bytes or more leaves nothing.
pub fn _mm_srli_si128(a: u128, imm8: i32) -> (r: u128)
    ensures
        r == spec_srl_bytes(a, spec_byte_shift(imm8)),
        imm8 >= 16 ==> r == 0,
        0 <= imm8 <= 15 ==> r == a >> ((8 * imm8) as u128),
        imm8 == 0 ==> r == a,
        spec_byte_shift(imm8) < 16 ==> r == a as nat / pow2((8 * spec_byte_shift(imm8)) as nat),
{
    let n: u8 = shift_distance(imm8);
    if n > 15 {
        0
    } else {
        let bits: u32 = 8 * (n as u32);
        assert(a >> 0u128 == a) by (bit_vector);
        proof {
            lemma_u128_shr_is_div(a, bits as u128);
        }
        a >> bits
    }
}

} // verus!
