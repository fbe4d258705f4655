//! Single-lane kernels: what one vector instruction does to one element.

use vstd::arithmetic::power2::pow2;
use vstd::bits::{
    lemma_u16_shr_is_div, lemma_u32_shr_is_div, lemma_u64_shr_is_div, lemma_u8_shr_is_div,
};
use vstd::prelude::*;

verus! {

/// The mask that an equality compare yields on 8-bit lanes.
pub open spec fn spec_cmpeq_u8(x: u8, y: u8) -> u8 {
    if x == y {
        0xff
    } else {
        0
    }
}

/// The mask that an equality compare yields on 16-bit lanes.
pub open spec fn spec_cmpeq_u16(x: u16, y: u16) -> u16 {
    if x == y {
        0xffff
    } else {
        0
    }
}

/// Logical right shift of an 8-bit lane; a distance of 8 or more gives 0.
pub open spec fn spec_srl_u8(x: u8, imm8: u8) -> u8 {
    if imm8 > 7 {
        0
    } else {
        x >> imm8
    }
}

/// Logical right shift of a 16-bit lane; a distance of 16 or more gives 0.
pub open spec fn spec_srl_u16(x: u16, imm8: u8) -> u16 {
    if imm8 > 15 {
        0
    } else {
        x >> imm8
    }
}

/// Logical right shift of a 32-bit lane; a distance of 32 or more gives 0.
pub open spec fn spec_srl_u32(x: u32, imm8: u8) -> u32 {
    if imm8 > 31 {
        0
    } else {
        x >> imm8
    }
}

/// Logical right shift of a 64-bit lane; a distance of 64 or more gives 0.
pub open spec fn spec_srl_u64(x: u64, imm8: u8) -> u64 {
    if imm8 > 63 {
        0
    } else {
        x >> imm8
    }
}

/// The top bit of an 8-bit lane, as 0 or 1.
pub open spec fn spec_sign_u8(x: u8) -> int {
    if x >= 0x80 {
        1
    } else {
        0
    }
}

/// Bitwise AND of two 64-bit lanes.
pub fn and64(x: u64, y: u64) -> (r: u64)
    ensures
        r == x & y,
{
    x & y
}

/// Bitwise AND-NOT of two 64-bit lanes: the bits of `x` that `y` lacks.
pub fn andnot64(x: u64, y: u64) -> (r: u64)
    ensures
        r == x & !y,
{
    x & !y
}

/// Bitwise OR of two 64-bit lanes.
pub fn or64(x: u64, y: u64) -> (r: u64)
    ensures
        r == x | y,
{
    x | y
}

/// Bitwise XOR of two 64-bit lanes.
pub fn xor64(x: u64, y: u64) -> (r: u64)
    ensures
        r == x ^ y,
{
    x ^ y
}

/// Equality compare of 8-bit lanes: all ones where equal, zero elsewhere.
pub fn cmpeq_u8(x: u8, y: u8) -> (r: u8)
    ensures
        r == spec_cmpeq_u8(x, y),
        x == y ==> r == u8::MAX,
        x != y ==> r == 0,
{
    if x == y {
        0xff
    } else {
        0x0
    }
}

/// Equality compare of 16-bit lanes: all ones where equal, zero elsewhere.
pub fn cmpeq_u16(x: u16, y: u16) -> (r: u16)
    ensures
        r == spec_cmpeq_u16(x, y),
        x == y ==> r == u16::MAX,
        x != y ==> r == 0,
{
    if x == y {
        0xffff
    } else {
        0x0
    }
}

/// Logical shift right of an 8-bit lane by an immediate distance.
pub fn srl_immed_u8_u8(x: u8, imm8: u8) -> (r: u8)
    ensures
        r == spec_srl_u8(x, imm8),
        imm8 >= 8 ==> r == 0,
        imm8 == 0 ==> r == x,
        imm8 < 8 ==> r == x as nat / pow2(imm8 as nat),
{
    if imm8 > 7 {
        0
    } else {
        assert(x >> 0u8 == x) by (bit_vector);
        proof {
            lemma_u8_shr_is_div(x, imm8 as u8);
        }
        x >> imm8
    }
}

/// Logical shift right of a 16-bit lane by an immediate distance.
pub fn srl_immed_u16_u8(x: u16, imm8: u8) -> (r: u16)
    ensures
        r == spec_srl_u16(x, imm8),
        imm8 >= 16 ==> r == 0,
        imm8 == 0 ==> r == x,
        imm8 < 16 ==> r == x as nat / pow2(imm8 as nat),
{
    if imm8 > 15 {
        0
    } else {
        assert(x >> 0u8 == x) by (bit_vector);
        proof {
            lemma_u16_shr_is_div(x, imm8 as u16);
        }
        x >> imm8
    }
}

/// Logical shift right of a 32-bit lane by an immediate distance.
pub fn srl_immed_u32_u8(x: u32, imm8: u8) -> (r: u32)
    ensures
        r == spec_srl_u32(x, imm8),
        imm8 >= 32 ==> r == 0,
        imm8 == 0 ==> r == x,
        imm8 < 32 ==> r == x as nat / pow2(imm8 as nat),
{
    if imm8 > 31 {
        0
    } else {
        assert(x >> 0u8 == x) by (bit_vector);
        proof {
            lemma_u32_shr_is_div(x, imm8 as u32);
        }
        x >> imm8
    }
}

/// Logical shift right of a 64-bit lane by an immediate distance.
pub fn srl_immed_u64_u8(x: u64, imm8: u8) -> (r: u64)
    ensures
        r == spec_srl_u64(x, imm8),
        imm8 >= 64 ==> r == 0,
        imm8 == 0 ==> r == x,
        imm8 < 64 ==> r == x as nat / pow2(imm8 as nat),
{
    if imm8 > 63 {
        0
    } else {
        assert(x >> 0u8 == x) by (bit_vector);
        proof {
            lemma_u64_shr_is_div(x, imm8 as u64);
        }
        x >> imm8
    }
}

/// Sign bit of an 8-bit lane, as a 32-bit 0 or 1.
pub fn sign_u8_i32(x: u8) -> (r: i32)
    ensures
        r == spec_sign_u8(x),
{
    let top: u8 = (x >> 7) & 1;
    assert(top == (if x >= 0x80u8 { 1u8 } else { 0u8 })) by (bit_vector)
        requires
            top == (x >> 7) & 1,
    ;
    top as i32
}

/// The lane of an `n`-lane vector that a control value picks: the control
/// value modulo `n`, whatever its size.
pub open spec fn spec_pick(control: int, n: int) -> int {
    control % n
}

/// The lane of a 16-lane vector that a control byte picks: the control
/// value modulo 16.
pub fn index16_u8(control: u8) -> (j: usize)
    ensures
        j == spec_pick(control as int, 16),
        j < 16,
{
    let low: u8 = control & 15;
    assert(low == control % 16) by (bit_vector)
        requires
            low == control & 15,
    ;
    low as usize
}

/// The lane of a 32-lane vector that a control byte picks: the control
/// value modulo 32.
pub fn index32_u8(control: u8) -> (j: usize)
    ensures
        j == spec_pick(control as int, 32),
        j < 32,
{
    let low: u8 = control & 31;
    assert(low == control % 32) by (bit_vector)
        requires
            low == control & 31,
    ;
    low as usize
}

/// The lane of an 8-lane vector that a 16-bit control value picks: the
/// control value modulo 8.
pub fn index8_u16(control: u16) -> (j: usize)
    ensures
        j == spec_pick(control as int, 8),
        j < 8,
{
    let low: u16 = control & 7;
    assert(low == control % 8) by (bit_vector)
        requires
            low == control & 7,
    ;
    low as usize
}

} // verus!
