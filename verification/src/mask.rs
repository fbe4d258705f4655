//! Packing one bit per lane into an integer, lane 0 into bit 0.

use crate::lift::{joins, tree_folds};
use crate::scalar::spec_sign_u8;
use vstd::arithmetic::div_mod::lemma_div_denominator;
use vstd::arithmetic::power2::{
    lemma2_to64, lemma_pow2_adds, lemma_pow2_pos, lemma_pow2_unfold, pow2,
};
use vstd::prelude::*;

verus! {

/// The number whose bit `i`, for `i < n`, is the sign bit of lane
/// `l[lo + i]`, and whose other bits are zero.
pub open spec fn sign_mask(l: Seq<u8>, lo: int, n: nat) -> int
    decreases n,
{
    if n == 0 {
        0
    } else {
        spec_sign_u8(l[lo]) + 2 * sign_mask(l, lo + 1, (n - 1) as nat)
    }
}

/// What `place_i32` computes: `y` moved up by `i` bits and laid over `x`.
pub open spec fn spec_place_i32(i: usize, x: i32, y: i32) -> i32 {
    x | (y << i)
}

/// Joins two packed runs of bits: `x` keeps its place and `y` goes `i` bits
/// above it.
pub fn place_i32(i: usize, x: i32, y: i32) -> (r: i32)
    requires
        i < 32,
    ensures
        r == spec_place_i32(i, x, y),
{
    x | (y << i)
}

/// A mask of `n` lanes fits in `n` bits.
pub proof fn lemma_sign_mask_bound(l: Seq<u8>, lo: int, n: nat)
    ensures
        0 <= sign_mask(l, lo, n) < pow2(n),
    decreases n,
{
    lemma2_to64();
    if n > 0 {
        lemma_sign_mask_bound(l, lo + 1, (n - 1) as nat);
        lemma_pow2_adds(1, (n - 1) as nat);
    }
}

/// The mask of `n` lanes is the mask of the first `h` of them plus the mask
/// of the rest moved up by `h` bits.
pub proof fn lemma_sign_mask_split(l: Seq<u8>, lo: int, n: nat, h: nat)
    requires
        h <= n,
    ensures
        sign_mask(l, lo, n) == sign_mask(l, lo, h) + pow2(h) * sign_mask(
            l,
            lo + h,
            (n - h) as nat,
        ),
    decreases h,
{
    lemma2_to64();
    if h == 0 {
        assert(pow2(0) * sign_mask(l, lo, n) == sign_mask(l, lo, n)) by (nonlinear_arith)
            requires
                pow2(0) == 1,
        ;
    } else {
        let rest = sign_mask(l, lo + h, (n - h) as nat);
        let low = sign_mask(l, lo + 1, (h - 1) as nat);
        lemma_sign_mask_split(l, lo + 1, (n - 1) as nat, (h - 1) as nat);
        assert(lo + 1 + (h - 1) == lo + h);
        assert(sign_mask(l, lo + 1, (n - 1) as nat) == low + pow2((h - 1) as nat) * rest);
        lemma_pow2_adds(1, (h - 1) as nat);
        assert(2 * (pow2((h - 1) as nat) * rest) == pow2(h) * rest) by (nonlinear_arith)
            requires
                pow2(h) == 2 * pow2((h - 1) as nat),
        ;
        assert(sign_mask(l, lo, h) == spec_sign_u8(l[lo]) + 2 * low);
        assert(sign_mask(l, lo, n) == spec_sign_u8(l[lo]) + 2 * sign_mask(
            l,
            lo + 1,
            (n - 1) as nat,
        ));
    }
}

/// Laying `y` over `x` from bit `h` up adds `y` times two to the `h`, as
/// long as `x` fits below bit `h` and the sum fits in sixteen bits.
pub proof fn lemma_place_adds(h: usize, x: i32, y: i32)
    requires
        h == 1 || h == 2 || h == 4 || h == 8,
        0 <= x < pow2(h as nat),
        0 <= y < pow2(h as nat),
    ensures
        spec_place_i32(h, x, y) == x + pow2(h as nat) * y,
{
    lemma2_to64();
    let r = spec_place_i32(h, x, y);
    if h == 1 {
        assert(x | (y << 1usize) == x + 2 * y) by (bit_vector)
            requires
                0 <= x < 2,
                0 <= y < 2,
        ;
    } else if h == 2 {
        assert(x | (y << 2usize) == x + 4 * y) by (bit_vector)
            requires
                0 <= x < 4,
                0 <= y < 4,
        ;
    } else if h == 4 {
        assert(x | (y << 4usize) == x + 16 * y) by (bit_vector)
            requires
                0 <= x < 16,
                0 <= y < 16,
        ;
    } else {
        assert(x | (y << 8usize) == x + 256 * y) by (bit_vector)
            requires
                0 <= x < 256,
                0 <= y < 256,
        ;
    }
}

/// Bit `i` of a number that is not negative, as 0 or 1.
pub open spec fn bit_of(m: int, i: nat) -> int {
    (m / (pow2(i) as int)) % 2
}

/// Bit `i` of the mask of `n` lanes is the sign bit of lane `lo + i`.
pub proof fn lemma_sign_mask_bit(l: Seq<u8>, lo: int, n: nat, i: nat)
    requires
        i < n,
    ensures
        bit_of(sign_mask(l, lo, n), i) == spec_sign_u8(l[lo + i]),
    decreases i,
{
    let rest = sign_mask(l, lo + 1, (n - 1) as nat);
    let whole = sign_mask(l, lo, n);
    assert(whole == spec_sign_u8(l[lo]) + 2 * rest);
    lemma_sign_mask_bound(l, lo + 1, (n - 1) as nat);
    lemma2_to64();
    if i > 0 {
        let p = pow2((i - 1) as nat) as int;
        lemma_pow2_unfold(i);
        lemma_pow2_pos((i - 1) as nat);
        lemma_sign_mask_bit(l, lo + 1, (n - 1) as nat, (i - 1) as nat);
        lemma_div_denominator(whole, 2, p);
        assert(whole / 2 == rest);
        assert(lo + 1 + (i - 1) == lo + i);
    }
}

/// Sixteen lanes of which exactly those at even places have their sign bit
/// set give the mask `0x5555`.
pub proof fn lemma_alternating_mask(l: Seq<u8>)
    requires
        l.len() == 16,
        forall|i: int| 0 <= i < 16 ==> (spec_sign_u8(l[i]) == 1 <==> i % 2 == 0),
    ensures
        sign_mask(l, 0, 16) == 0x5555,
{
    reveal_with_fuel(sign_mask, 17);
}

/// Whether `g` joins two packed runs of bits as `place_i32` does.
pub open spec fn places<G>(g: G) -> bool where G: Fn(usize, i32, i32) -> i32 {
    forall|i: usize, x: i32, y: i32, r: i32| #[trigger]
        call_ensures(g, (i, x, y), r) ==> r == spec_place_i32(i, x, y)
}

/// Whatever comes out when the sign bits of `n` lanes are combined in
/// balanced pairwise order, by a `g` that joins as `place_i32` does, is the
/// mask of those lanes.
pub proof fn lemma_fold_is_mask<G>(g: G, l: Seq<u8>, m: Seq<i32>, lo: int, n: nat, r: i32) where
    G: Fn(usize, i32, i32) -> i32,

    requires
        places(g),
        0 <= lo,
        lo + n <= l.len(),
        m.len() == l.len(),
        forall|i: int| 0 <= i < l.len() ==> m[i] == spec_sign_u8(l[i]),
        n == 1 || n == 2 || n == 4 || n == 8 || n == 16,
        tree_folds(g, m, lo, n, r),
    ensures
        r == sign_mask(l, lo, n),
    decreases n,
{
    if n == 1 {
        assert(sign_mask(l, lo, 1) == spec_sign_u8(l[lo]) + 2 * sign_mask(l, lo + 1, 0));
    } else {
        let h = n / 2;
        let (x, y) = choose|x: i32, y: i32|
            {
                &&& tree_folds(g, m, lo, h, x)
                &&& tree_folds(g, m, lo + h, (n - h) as nat, y)
                &&& #[trigger] joins(g, h, x, y, r)
            };
        lemma_fold_is_mask(g, l, m, lo, h, x);
        lemma_fold_is_mask(g, l, m, lo + h, h, y);
        lemma_sign_mask_bound(l, lo, h);
        lemma_sign_mask_bound(l, lo + h, h);
        lemma_sign_mask_split(l, lo, n, h);
        lemma_place_adds(h as usize, x, y);
    }
}

} // verus!
