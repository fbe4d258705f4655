//! The emulated instructions, on vectors in their register shape. Each
//! converts its arguments to lanes, runs the instruction of the same name
//! on them, and converts the result back.

use crate::bitcast::{
    le_u32, lemma_unpack_pack_u16, lemma_unpack_pack_u32, lemma_unpack_pack_u64, unpack_u16,
    unpack_u32, unpack_u64,
};
use crate::intrinsics::{spec_distance, spec_signed32};
use crate::mask::{bit_of, sign_mask};
use crate::scalar::{
    spec_cmpeq_u16, spec_cmpeq_u8, spec_pick, spec_sign_u8, spec_srl_u16, spec_srl_u32,
    spec_srl_u64, spec_srl_u8,
};
use crate::vector::{__m128i, __m256i, u16x16, u16x8, u32x4, u32x8, u64x2, u64x4, u8x16, u8x32};
use vstd::prelude::*;

verus! {

/// Compares sixteen pairs of bytes for equality (`pcmpeqb`).
pub fn llvm_x86_sse2_pcmpeqb_epi8(a: __m128i, b: __m128i) -> (m: __m128i)
    ensures
        forall|i: int|
            0 <= i < 16 ==> #[trigger] m@[i] == spec_cmpeq_u8(a@[i], b@[i]),
{
    let r = crate::intrinsics::llvm_x86_sse2_pcmpeqb_epi8(
        u8x16::from_machine(a),
        u8x16::from_machine(b),
    );
    r.to_machine()
}

/// Compares eight pairs of 16-bit lanes for equality (`pcmpeqw`).
pub fn llvm_x86_sse2_pcmpeqw_epi16(a: __m128i, b: __m128i) -> (m: __m128i)
    ensures
        forall|i: int|
            0 <= i < 8 ==> #[trigger] unpack_u16(m@)[i]
                == spec_cmpeq_u16(unpack_u16(a@)[i], unpack_u16(b@)[i]),
{
    let r = crate::intrinsics::llvm_x86_sse2_pcmpeqw_epi16(
        u16x8::from_machine(a),
        u16x8::from_machine(b),
    );
    proof {
        lemma_unpack_pack_u16(r.0@);
    }
    r.to_machine()
}

/// Shifts each of sixteen bytes right by the immediate distance.
/// A distance of 8 or more leaves every lane zero.
pub fn llvm_x86_sse2_psrli_b(a: __m128i, imm8: i32) -> (m: __m128i)
    ensures
        forall|i: int|
            0 <= i < 16 ==> #[trigger] m@[i] == spec_srl_u8(a@[i], spec_distance(imm8)),
        imm8 >= 8 ==> forall|i: int| 0 <= i < 16 ==> #[trigger] m@[i] == 0,
        0 <= imm8 < 8 ==> forall|i: int| 0 <= i < 16 ==> #[trigger] m@[i] == a@[i] >> (imm8 as u8),
{
    let r = crate::intrinsics::llvm_x86_sse2_psrli_b(u8x16::from_machine(a), imm8);
    r.to_machine()
}

/// Shifts each of eight 16-bit lanes right by the immediate distance
/// (`psrlw`).
/// A distance of 16 or more leaves every lane zero.
pub fn llvm_x86_sse2_psrli_w(a: __m128i, imm8: i32) -> (m: __m128i)
    ensures
        forall|i: int|
            0 <= i < 8 ==> #[trigger] unpack_u16(m@)[i]
                == spec_srl_u16(unpack_u16(a@)[i], spec_distance(imm8)),
        imm8 >= 16 ==> forall|i: int| 0 <= i < 8 ==> #[trigger] unpack_u16(m@)[i] == 0,
        0 <= imm8 < 16 ==> forall|i: int|
            0 <= i < 8 ==> #[trigger] unpack_u16(m@)[i] == unpack_u16(a@)[i] >> (imm8 as u8),
{
    let r = crate::intrinsics::llvm_x86_sse2_psrli_w(u16x8::from_machine(a), imm8);
    proof {
        lemma_unpack_pack_u16(r.0@);
    }
    r.to_machine()
}

/// Shifts each of four 32-bit lanes right by the immediate distance
/// (`psrld`).
/// A distance of 32 or more leaves every lane zero.
pub fn llvm_x86_sse2_psrli_d(a: __m128i, imm8: i32) -> (m: __m128i)
    ensures
        forall|i: int|
            0 <= i < 4 ==> #[trigger] unpack_u32(m@)[i]
                == spec_srl_u32(unpack_u32(a@)[i], spec_distance(imm8)),
        imm8 >= 32 ==> forall|i: int| 0 <= i < 4 ==> #[trigger] unpack_u32(m@)[i] == 0,
        0 <= imm8 < 32 ==> forall|i: int|
            0 <= i < 4 ==> #[trigger] unpack_u32(m@)[i] == unpack_u32(a@)[i] >> (imm8 as u8),
{
    let r = crate::intrinsics::llvm_x86_sse2_psrli_d(u32x4::from_machine(a), imm8);
    proof {
        lemma_unpack_pack_u32(r.0@);
    }
    r.to_machine()
}

/// Shifts each of two 64-bit lanes right by the immediate distance
/// (`psrlq`).
/// A distance of 64 or more leaves every lane zero.
pub fn llvm_x86_sse2_psrli_q(a: __m128i, imm8: i32) -> (m: __m128i)
    ensures
        forall|i: int|
            0 <= i < 2 ==> #[trigger] unpack_u64(m@)[i]
                == spec_srl_u64(unpack_u64(a@)[i], spec_distance(imm8)),
        imm8 >= 64 ==> forall|i: int| 0 <= i < 2 ==> #[trigger] unpack_u64(m@)[i] == 0,
        0 <= imm8 < 64 ==> forall|i: int|
            0 <= i < 2 ==> #[trigger] unpack_u64(m@)[i] == unpack_u64(a@)[i] >> (imm8 as u8),
{
    let r = crate::intrinsics::llvm_x86_sse2_psrli_q(u64x2::from_machine(a), imm8);
    proof {
        lemma_unpack_pack_u64(r.0@);
    }
    r.to_machine()
}

/// Shifts each of thirty-two bytes right by the immediate distance.
/// A distance of 8 or more leaves every lane zero.
pub fn llvm_x86_avx2_psrli_b(a: __m256i, imm8: i32) -> (m: __m256i)
    ensures
        forall|i: int|
            0 <= i < 32 ==> #[trigger] m@[i] == spec_srl_u8(a@[i], spec_distance(imm8)),
        imm8 >= 8 ==> forall|i: int| 0 <= i < 32 ==> #[trigger] m@[i] == 0,
        0 <= imm8 < 8 ==> forall|i: int| 0 <= i < 32 ==> #[trigger] m@[i] == a@[i] >> (imm8 as u8),
{
    let r = crate::intrinsics::llvm_x86_avx2_psrli_b(u8x32::from_machine(a), imm8);
    r.to_machine()
}

/// Shifts each of sixteen 16-bit lanes right by the immediate distance
/// (`vpsrlw`).
/// A distance of 16 or more leaves every lane zero.
pub fn llvm_x86_avx2_psrli_w(a: __m256i, imm8: i32) -> (m: __m256i)
    ensures
        forall|i: int|
            0 <= i < 16 ==> #[trigger] unpack_u16(m@)[i]
                == spec_srl_u16(unpack_u16(a@)[i], spec_distance(imm8)),
        imm8 >= 16 ==> forall|i: int| 0 <= i < 16 ==> #[trigger] unpack_u16(m@)[i] == 0,
        0 <= imm8 < 16 ==> forall|i: int|
            0 <= i < 16 ==> #[trigger] unpack_u16(m@)[i] == unpack_u16(a@)[i] >> (imm8 as u8),
{
    let r = crate::intrinsics::llvm_x86_avx2_psrli_w(u16x16::from_machine(a), imm8);
    proof {
        lemma_unpack_pack_u16(r.0@);
    }
    r.to_machine()
}

/// Shifts each of eight 32-bit lanes right by the immediate distance
/// (`vpsrld`).
/// A distance of 32 or more leaves every lane zero.
pub fn llvm_x86_avx2_psrli_d(a: __m256i, imm8: i32) -> (m: __m256i)
    ensures
        forall|i: int|
            0 <= i < 8 ==> #[trigger] unpack_u32(m@)[i]
                == spec_srl_u32(unpack_u32(a@)[i], spec_distance(imm8)),
        imm8 >= 32 ==> forall|i: int| 0 <= i < 8 ==> #[trigger] unpack_u32(m@)[i] == 0,
        0 <= imm8 < 32 ==> forall|i: int|
            0 <= i < 8 ==> #[trigger] unpack_u32(m@)[i] == unpack_u32(a@)[i] >> (imm8 as u8),
{
    let r = crate::intrinsics::llvm_x86_avx2_psrli_d(u32x8::from_machine(a), imm8);
    proof {
        lemma_unpack_pack_u32(r.0@);
    }
    r.to_machine()
}

/// Shifts each of four 64-bit lanes right by the immediate distance
/// (`vpsrlq`).
/// A distance of 64 or more leaves every lane zero.
pub fn llvm_x86_avx2_psrli_q(a: __m256i, imm8: i32) -> (m: __m256i)
    ensures
        forall|i: int|
            0 <= i < 4 ==> #[trigger] unpack_u64(m@)[i]
                == spec_srl_u64(unpack_u64(a@)[i], spec_distance(imm8)),
        imm8 >= 64 ==> forall|i: int| 0 <= i < 4 ==> #[trigger] unpack_u64(m@)[i] == 0,
        0 <= imm8 < 64 ==> forall|i: int|
            0 <= i < 4 ==> #[trigger] unpack_u64(m@)[i] == unpack_u64(a@)[i] >> (imm8 as u8),
{
    let r = crate::intrinsics::llvm_x86_avx2_psrli_q(u64x4::from_machine(a), imm8);
    proof {
        lemma_unpack_pack_u64(r.0@);
    }
    r.to_machine()
}

/// Packs the sign bits of sixteen bytes into the low sixteen bits of an
/// integer, byte `i` into bit `i` (`pmovmskb`).
pub fn llvm_x86_sse2_pmovmskb_128(a: __m128i) -> (r: i32)
    ensures
        r == sign_mask(a@, 0, 16),
        0 <= r < 0x1_0000,
        forall|i: nat| i < 16 ==> #[trigger] bit_of(r as int, i) == spec_sign_u8(a@[i as int]),
{
    crate::intrinsics::llvm_x86_sse2_pmovmskb_128(u8x16::from_machine(a))
}

/// Bitwise AND of two 128-bit registers, taken 64 bits at a time.
pub fn _mm_and_si128(a: __m128i, b: __m128i) -> (m: __m128i)
    ensures
        forall|i: int|
            0 <= i < 2 ==> #[trigger] unpack_u64(m@)[i] == unpack_u64(a@)[i] & unpack_u64(b@)[i],
{
    let r = crate::intrinsics::_mm_and_si128(u64x2::from_machine(a), u64x2::from_machine(b));
    proof {
        lemma_unpack_pack_u64(r.0@);
    }
    r.to_machine()
}

/// Bitwise AND of two 256-bit registers, taken 64 bits at a time.
pub fn _mm256_and_si256(a: __m256i, b: __m256i) -> (m: __m256i)
    ensures
        forall|i: int|
            0 <= i < 4 ==> #[trigger] unpack_u64(m@)[i] == unpack_u64(a@)[i] & unpack_u64(b@)[i],
{
    let r = crate::intrinsics::_mm256_and_si256(u64x4::from_machine(a), u64x4::from_machine(b));
    proof {
        lemma_unpack_pack_u64(r.0@);
    }
    r.to_machine()
}

/// The bits of `a` that `b` lacks, on 128-bit registers, taken 64 bits
/// at a time.
pub fn _mm_andnot_si128(a: __m128i, b: __m128i) -> (m: __m128i)
    ensures
        forall|i: int|
            0 <= i < 2 ==> #[trigger] unpack_u64(m@)[i] == unpack_u64(a@)[i] & !unpack_u64(b@)[i],
{
    let r = crate::intrinsics::_mm_andnot_si128(u64x2::from_machine(a), u64x2::from_machine(b));
    proof {
        lemma_unpack_pack_u64(r.0@);
    }
    r.to_machine()
}

/// The bits of `a` that `b` lacks, on 256-bit registers, taken 64 bits
/// at a time.
pub fn _mm256_andnot_si256(a: __m256i, b: __m256i) -> (m: __m256i)
    ensures
        forall|i: int|
            0 <= i < 4 ==> #[trigger] unpack_u64(m@)[i] == unpack_u64(a@)[i] & !unpack_u64(b@)[i],
{
    let r = crate::intrinsics::_mm256_andnot_si256(u64x4::from_machine(a), u64x4::from_machine(b));
    proof {
        lemma_unpack_pack_u64(r.0@);
    }
    r.to_machine()
}

/// Bitwise OR of two 128-bit registers, taken 64 bits at a time.
pub fn _mm_or_si128(a: __m128i, b: __m128i) -> (m: __m128i)
    ensures
        forall|i: int|
            0 <= i < 2 ==> #[trigger] unpack_u64(m@)[i] == unpack_u64(a@)[i] | unpack_u64(b@)[i],
{
    let r = crate::intrinsics::_mm_or_si128(u64x2::from_machine(a), u64x2::from_machine(b));
    proof {
        lemma_unpack_pack_u64(r.0@);
    }
    r.to_machine()
}

/// Bitwise OR of two 256-bit registers, taken 64 bits at a time.
pub fn _mm256_or_si256(a: __m256i, b: __m256i) -> (m: __m256i)
    ensures
        forall|i: int|
            0 <= i < 4 ==> #[trigger] unpack_u64(m@)[i] == unpack_u64(a@)[i] | unpack_u64(b@)[i],
{
    let r = crate::intrinsics::_mm256_or_si256(u64x4::from_machine(a), u64x4::from_machine(b));
    proof {
        lemma_unpack_pack_u64(r.0@);
    }
    r.to_machine()
}

/// Bitwise XOR of two 128-bit registers, taken 64 bits at a time.
pub fn _mm_xor_si128(a: __m128i, b: __m128i) -> (m: __m128i)
    ensures
        forall|i: int|
            0 <= i < 2 ==> #[trigger] unpack_u64(m@)[i] == unpack_u64(a@)[i] ^ unpack_u64(b@)[i],
{
    let r = crate::intrinsics::_mm_xor_si128(u64x2::from_machine(a), u64x2::from_machine(b));
    proof {
        lemma_unpack_pack_u64(r.0@);
    }
    r.to_machine()
}

/// Bitwise XOR of two 256-bit registers, taken 64 bits at a time.
pub fn _mm256_xor_si256(a: __m256i, b: __m256i) -> (m: __m256i)
    ensures
        forall|i: int|
            0 <= i < 4 ==> #[trigger] unpack_u64(m@)[i] == unpack_u64(a@)[i] ^ unpack_u64(b@)[i],
{
    let r = crate::intrinsics::_mm256_xor_si256(u64x4::from_machine(a), u64x4::from_machine(b));
    proof {
        lemma_unpack_pack_u64(r.0@);
    }
    r.to_machine()
}

/// A register of sixteen copies of one byte.
pub fn _mm_set1_epi8(a: i8) -> (m: __m128i)
    ensures
        forall|i: int| 0 <= i < 16 ==> #[trigger] m@[i] == a as u8,
{
    crate::intrinsics::_mm_set1_epi8(a).to_machine()
}

/// A register of thirty-two copies of one byte.
pub fn _mm256_set1_epi8(a: i8) -> (m: __m256i)
    ensures
        forall|i: int| 0 <= i < 32 ==> #[trigger] m@[i] == a as u8,
{
    crate::intrinsics::_mm256_set1_epi8(a).to_machine()
}

/// Shuffles sixteen bytes (`pshufb`): byte `i` of the result is the byte of
/// `a` that byte `i` of `b` picks, modulo 16.
pub fn llvm_x86_ssse3_pshuf_b_128(a: __m128i, b: __m128i) -> (m: __m128i)
    ensures
        forall|i: int|
            0 <= i < 16 ==> #[trigger] m@[i] == a@[spec_pick(b@[i] as int, 16)],
{
    let r = crate::intrinsics::llvm_x86_ssse3_pshuf_b_128(
        u8x16::from_machine(a),
        u8x16::from_machine(b),
    );
    r.to_machine()
}

/// Shuffles thirty-two bytes: byte `i` of the result is the byte of `a`
/// that byte `i` of `b` picks, modulo 32.
pub fn llvm_x86_avx2_pshuf_b(a: __m256i, b: __m256i) -> (m: __m256i)
    ensures
        forall|i: int|
            0 <= i < 32 ==> #[trigger] m@[i] == a@[spec_pick(b@[i] as int, 32)],
{
    let r = crate::intrinsics::llvm_x86_avx2_pshuf_b(
        u8x32::from_machine(a),
        u8x32::from_machine(b),
    );
    r.to_machine()
}

/// Shuffles eight 16-bit lanes: lane `i` of the result is the lane of `a`
/// that lane `i` of `b` picks, modulo 8.
pub fn llvm_x86_ssse3_pshuf_w_128(a: __m128i, b: __m128i) -> (m: __m128i)
    ensures
        forall|i: int|
            0 <= i < 8 ==> #[trigger] unpack_u16(m@)[i]
                == unpack_u16(a@)[spec_pick(unpack_u16(b@)[i] as int, 8)],
{
    let r = crate::intrinsics::llvm_x86_ssse3_pshuf_w_128(
        u16x8::from_machine(a),
        u16x8::from_machine(b),
    );
    proof {
        lemma_unpack_pack_u16(r.0@);
    }
    r.to_machine()
}

/// Loads sixteen bytes of memory into a register, whatever their
/// alignment.
pub fn _mm_loadu_si128(mem_addr: &[u8; 16]) -> (m: __m128i)
    ensures
        m@ == mem_addr@,
{
    crate::intrinsics::_mm_loadu_si128(mem_addr).to_machine()
}

/// Loads thirty-two bytes of memory into a register, whatever their
/// alignment.
pub fn _mm256_loadu_si256(mem_addr: &[u8; 32]) -> (m: __m256i)
    ensures
        m@ == mem_addr@,
{
    crate::intrinsics::_mm256_loadu_si256(mem_addr).to_machine()
}

/// Stores a register to sixteen bytes of memory, whatever their alignment.
pub fn _mm_storeu_si128(mem_addr: &mut [u8; 16], a: __m128i)
    ensures
        final(mem_addr)@ == a@,
{
    crate::intrinsics::_mm_storeu_si128(mem_addr, u8x16::from_machine(a))
}

/// Stores a register to thirty-two bytes of memory, whatever their
/// alignment.
pub fn _mm_storeu_si256(mem_addr: &mut [u8; 32], a: __m256i)
    ensures
        final(mem_addr)@ == a@,
{
    crate::intrinsics::_mm_storeu_si256(mem_addr, u8x32::from_machine(a))
}

/// The lowest four bytes of a register, read as a signed integer (`movd`).
pub fn _mm_cvtsi128_si32(a: __m128i) -> (r: i32)
    ensures
        r == spec_signed32(le_u32(a@, 0)),
{
    crate::intrinsics::_mm_cvtsi128_si32(u32x4::from_machine(a))
}

/// Compares sixteen pairs of bytes for equality, as `pcmpeqb` does: the
/// instruction as a caller of the vector calling convention reaches it.
pub fn veccall_test(a: __m128i, b: __m128i) -> (m: __m128i)
    ensures
        forall|i: int| 0 <= i < 16 ==> #[trigger] m@[i] == spec_cmpeq_u8(a@[i], b@[i]),
{
    llvm_x86_sse2_pcmpeqb_epi8(a, b)
}

} // verus!
