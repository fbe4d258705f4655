//! Deciding which concrete values of an unknown quantity to explore, as a
//! solver hands them out one by one.

use vstd::prelude::*;

verus! {

/// Bit `i` of `x`, as 0 or 1.
pub open spec fn spec_bit(i: u32, x: u32) -> u32 {
    (x >> i) & 1
}

/// A five-bit digest of the low ten bits of `x`: each of its bits is the
/// parity of three chosen bits of `x`.
pub open spec fn spec_hash0(x: u32) -> u32 {
    let x0 = spec_bit(3, x) ^ spec_bit(5, x) ^ spec_bit(6, x);
    let x1 = spec_bit(1, x) ^ spec_bit(2, x) ^ spec_bit(4, x);
    let x2 = spec_bit(0, x) ^ spec_bit(4, x) ^ spec_bit(6, x);
    let x3 = spec_bit(2, x) ^ spec_bit(7, x) ^ spec_bit(8, x);
    let x4 = spec_bit(1, x) ^ spec_bit(3, x) ^ spec_bit(9, x);
    x0 | (x1 << 1) | (x2 << 2) | (x3 << 3) | (x4 << 4)
}

/// One step of a linear congruential generator, modulo two to the 32.
pub open spec fn spec_hash1(x: u32) -> u32 {
    ((x * 1664525 + 1013904223) % 0x1_0000_0000) as u32
}

/// Bit `i` of `x`, as 0 or 1.
pub fn bit(i: u32, x: u32) -> (r: u32)
    requires
        i < 32,
    ensures
        r == spec_bit(i, x),
        r <= 1,
{
    let r: u32 = (x >> i) & 1;
    assert(r <= 1) by (bit_vector)
        requires
            r == (x >> i) & 1,
    ;
    r
}

/// A five-bit digest of the low ten bits of `x`.
pub fn hash0(x: u32) -> (r: u32)
    ensures
        r == spec_hash0(x),
        r < 32,
{
    let x0 = bit(3, x) ^ bit(5, x) ^ bit(6, x);
    let x1 = bit(1, x) ^ bit(2, x) ^ bit(4, x);
    let x2 = bit(0, x) ^ bit(4, x) ^ bit(6, x);
    let x3 = bit(2, x) ^ bit(7, x) ^ bit(8, x);
    let x4 = bit(1, x) ^ bit(3, x) ^ bit(9, x);
    let r: u32 = x0 | (x1 << 1) | (x2 << 2) | (x3 << 3) | (x4 << 4);
    assert(r < 32) by (bit_vector)
        requires
            r == x0 | (x1 << 1) | (x2 << 2) | (x3 << 3) | (x4 << 4),
            x0 == (x >> 3) & 1 ^ (x >> 5) & 1 ^ (x >> 6) & 1,
            x1 == (x >> 1) & 1 ^ (x >> 2) & 1 ^ (x >> 4) & 1,
            x2 == (x >> 0) & 1 ^ (x >> 4) & 1 ^ (x >> 6) & 1,
            x3 == (x >> 2) & 1 ^ (x >> 7) & 1 ^ (x >> 8) & 1,
            x4 == (x >> 1) & 1 ^ (x >> 3) & 1 ^ (x >> 9) & 1,
    ;
    r
}

/// One step of a linear congruential generator, modulo two to the 32.
pub fn hash1(x: u32) -> (r: u32)
    ensures
        r == spec_hash1(x),
{
    let scaled: u32 = x.wrapping_mul(1664525);
    let r: u32 = scaled.wrapping_add(1013904223);
    assert(r == spec_hash1(x)) by {
        let p = x as nat * 1664525;
        assert(scaled == p % 0x1_0000_0000);
        assert((p % 0x1_0000_0000 + 1013904223) % 0x1_0000_0000 == (p + 1013904223)
            % 0x1_0000_0000);
    }
    r
}

/// The bucket, of two to the `log_samples` buckets, that `x` falls into.
pub open spec fn spec_bucket(log_samples: usize, x: u32) -> u32 {
    spec_hash0(x) & (((1u32 << log_samples) - 1) as u32)
}

/// The bucket, of two to the `log_samples` buckets, that `x` falls into:
/// the low `log_samples` bits of its five-bit digest.
pub fn bucket(log_samples: usize, x: u32) -> (h: u32)
    requires
        log_samples < 32,
    ensures
        h == spec_bucket(log_samples, x),
        h < 32,
        h < (1u32 << log_samples),
        log_samples >= 5 ==> h == spec_hash0(x),
{
    let samples: u32 = 1u32 << log_samples;
    let digest: u32 = hash0(x);
    assert(1 <= samples && digest & ((samples - 1) as u32) < samples && digest & ((samples
        - 1) as u32) <= digest && (log_samples >= 5 ==> digest & ((samples - 1) as u32) == digest))
        by (bit_vector)
        requires
            samples == 1u32 << log_samples,
            log_samples < 32,
            digest < 32,
    ;
    digest & (samples - 1)
}

/// What to make of a solver's answer `s` to the question which value `x`
/// can take, when `asked` of at most `samples` questions have been put: the
/// answer stands if it is `x` itself or no question is left; else the
/// solver is to be asked again.
pub fn settle_sample(samples: usize, asked: usize, x: u32, s: u32) -> (r: Option<u32>)
    requires
        1 <= asked <= samples,
    ensures
        r == (if s == x || asked == samples {
            Some(s)
        } else {
            None::<u32>
        }),
{
    if s == x || asked == samples {
        Some(s)
    } else {
        None
    }
}

/// What to make of a solver's answer `s` when every value that `x` can
/// take is to be explored: the answer stands only if it is `x` itself.
pub fn settle_concrete(x: u32, s: u32) -> (r: Option<u32>)
    ensures
        r == (if s == x {
            Some(s)
        } else {
            None::<u32>
        }),
{
    if s == x {
        Some(s)
    } else {
        None
    }
}

/// What to make of a solver's answer `s` when every value that a size `x`
/// can take is to be explored: the answer stands only if it is `x` itself.
pub fn settle_concrete_usize(x: usize, s: usize) -> (r: Option<usize>)
    ensures
        r == (if s == x {
            Some(s)
        } else {
            None::<usize>
        }),
{
    if s == x {
        Some(s)
    } else {
        None
    }
}

/// The choice that a solver points at by its number, if there is one.
pub fn pick<T>(xs: &[T], c: usize) -> (r: Option<&T>)
    ensures
        c < xs@.len() ==> r == Some(&xs@[c as int]),
        c >= xs@.len() ==> r is None,
{
    if c < xs.len() {
        Some(&xs[c])
    } else {
        None
    }
}

} // verus!
