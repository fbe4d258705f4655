//! Combinators that carry a single-lane operation over whole vectors.

use crate::vector::{Vector, Vector16, Vector2, Vector32, Vector4, Vector8};
use vstd::prelude::*;

verus! {

/// A vector all of whose `N` lanes hold `a`.
pub fn lift_s_v<const N: usize, R>(a: R) -> (r: R::Vec) where R: Vector<N>
    ensures
        R::lanes(r).len() == N,
        forall|i: int| 0 <= i < N ==> R::lanes(r)[i] == a,
{
    R::new([a; N])
}

/// Applies `f` to each lane of `a` together with the scalar `b`.
pub fn lift_vs_v<const N: usize, F, A, B, R>(f: F, a: A::Vec, b: B) -> (r: R::Vec) where
    F: Fn(A, B) -> R,
    A: Vector<N>,
    B: Copy,
    R: Vector<N>,

    requires
        N > 0,
        forall|i: int| 0 <= i < N ==> call_requires(f, (#[trigger] A::lanes(a)[i], b)),
    ensures
        R::lanes(r).len() == N,
        forall|i: int|
            0 <= i < N ==> call_ensures(f, (A::lanes(a)[i], b), #[trigger] R::lanes(r)[i]),
{
    proof {
        A::lemma_lanes(a);
    }
    let first = f(A::get(a, 0), b);
    let mut out: [R; N] = [first; N];
    let mut i: usize = 1;
    while i < N
        invariant
            1 <= i <= N,
            A::lanes(a).len() == N,
            forall|k: int| 0 <= k < N ==> call_requires(f, (#[trigger] A::lanes(a)[k], b)),
            forall|k: int|
                0 <= k < i ==> call_ensures(f, (A::lanes(a)[k], b), #[trigger] out@[k]),
        decreases N - i,
    {
        out[i] = f(A::get(a, i), b);
        i += 1;
    }
    R::new(out)
}

/// Applies `f` to each pair of lanes that `a` and `b` hold at the same place.
pub fn lift_vv_v<const N: usize, F, A, B, R>(f: F, a: A::Vec, b: B::Vec) -> (r: R::Vec) where
    F: Fn(A, B) -> R,
    A: Vector<N>,
    B: Vector<N>,
    R: Vector<N>,

    requires
        N > 0,
        forall|i: int|
            0 <= i < N ==> call_requires(f, (#[trigger] A::lanes(a)[i], #[trigger] B::lanes(b)[i])),
    ensures
        R::lanes(r).len() == N,
        forall|i: int|
            0 <= i < N ==> call_ensures(
                f,
                (A::lanes(a)[i], B::lanes(b)[i]),
                #[trigger] R::lanes(r)[i],
            ),
{
    proof {
        A::lemma_lanes(a);
        B::lemma_lanes(b);
    }
    let first = f(A::get(a, 0), B::get(b, 0));
    let mut out: [R; N] = [first; N];
    let mut i: usize = 1;
    while i < N
        invariant
            1 <= i <= N,
            A::lanes(a).len() == N,
            B::lanes(b).len() == N,
            forall|k: int|
                0 <= k < N ==> call_requires(
                    f,
                    (#[trigger] A::lanes(a)[k], #[trigger] B::lanes(b)[k]),
                ),
            forall|k: int|
                0 <= k < i ==> call_ensures(
                    f,
                    (A::lanes(a)[k], B::lanes(b)[k]),
                    #[trigger] out@[k],
                ),
        decreases N - i,
    {
        out[i] = f(A::get(a, i), B::get(b, i));
        i += 1;
    }
    R::new(out)
}

/// Whether `g`, told that `x` stands for `h` values, can join `x` and `y`
/// into `r`.
pub open spec fn joins<G, R>(g: G, h: nat, x: R, y: R, r: R) -> bool where G: Fn(usize, R, R) -> R {
    call_ensures(g, (h as usize, x, y), r)
}

/// Whether `r` can come out when the `n` values `m[lo]`, .., `m[lo + n - 1]`
/// are combined by `g` in balanced pairwise order: the lower half and the
/// upper half are each combined in this order, and `g` then joins the two
/// results. `g` is told how many values the lower result stands for, which
/// is also how far the first value of the upper half lies from `m[lo]`.
pub open spec fn tree_folds<G, R>(g: G, m: Seq<R>, lo: int, n: nat, r: R) -> bool where
    G: Fn(usize, R, R) -> R,

    decreases n,
{
    if n <= 1 {
        r == m[lo]
    } else {
        let h = n / 2;
        exists|x: R, y: R|
            {
                &&& tree_folds(g, m, lo, h, x)
                &&& tree_folds(g, m, lo + h, (n - h) as nat, y)
                &&& #[trigger] joins(g, h, x, y, r)
            }
    }
}

/// Whether `g`, told that `x` stands for `h` values, may be called to join
/// `x` and `y`.
pub open spec fn joinable<G, R>(g: G, h: nat, x: R, y: R) -> bool where G: Fn(usize, R, R) -> R {
    call_requires(g, (h as usize, x, y))
}

/// Whether `g` may be called at every join that combining `m[lo]`, ..,
/// `m[lo + n - 1]` in balanced pairwise order can come to, whatever the
/// joins below it gave.
pub open spec fn can_fold<G, R>(g: G, m: Seq<R>, lo: int, n: nat) -> bool where
    G: Fn(usize, R, R) -> R,

    decreases n,
{
    if n <= 1 {
        true
    } else {
        let h = n / 2;
        &&& can_fold(g, m, lo, h)
        &&& can_fold(g, m, lo + h, (n - h) as nat)
        &&& forall|x: R, y: R|
            tree_folds(g, m, lo, h, x) && tree_folds(g, m, lo + h, (n - h) as nat, y)
                ==> #[trigger] joinable(g, h, x, y)
    }
}

/// A `g` that may be called on any two values, for every count below
/// `bound`, may be called at every join of fewer than `bound` values.
pub proof fn lemma_total_can_fold<G, R>(g: G, m: Seq<R>, lo: int, n: nat, bound: usize) where
    G: Fn(usize, R, R) -> R,

    requires
        n <= bound,
        forall|k: usize, x: R, y: R| 0 < k < bound ==> call_requires(g, (k, x, y)),
    ensures
        can_fold(g, m, lo, n),
    decreases n,
{
    if n > 1 {
        let h = n / 2;
        lemma_total_can_fold(g, m, lo, h, bound);
        lemma_total_can_fold(g, m, lo + h, (n - h) as nat, bound);
        assert forall|x: R, y: R| #[trigger] joinable(g, h, x, y) by {
            assert(call_requires(g, (h as usize, x, y)));
        }
    }
}

/// Combines `m[lo]`, .., `m[lo + n - 1]` by `g` in balanced pairwise order.
pub fn fold_tree<const N: usize, G, R>(g: &G, m: &[R; N], lo: usize, n: usize) -> (r: R) where
    G: Fn(usize, R, R) -> R,
    R: Copy,

    requires
        1 <= n,
        lo + n <= N,
        can_fold(*g, m@, lo as int, n as nat),
    ensures
        tree_folds(*g, m@, lo as int, n as nat, r),
    decreases n,
{
    if n == 1 {
        m[lo]
    } else {
        let h = n / 2;
        let x = fold_tree(g, m, lo, h);
        let y = fold_tree(g, m, lo + h, n - h);
        assert(joinable(*g, h as nat, x, y));
        let r = g(h, x, y);
        assert(joins(*g, h as nat, x, y, r));
        r
    }
}

/// Whether `m` can come out when `f` is applied to each value of `l`.
pub open spec fn maps_each<F, A, R>(f: F, l: Seq<A>, m: Seq<R>) -> bool where F: Fn(A) -> R {
    &&& m.len() == l.len()
    &&& forall|i: int| 0 <= i < l.len() ==> call_ensures(f, (l[i],), #[trigger] m[i])
}

/// Applies `f` to each lane of `a` and combines the `N` results by `g` in
/// balanced pairwise order.
pub fn lift_v_s<const N: usize, F, G, A, R>(f: F, g: G, a: A::Vec) -> (r: R) where
    F: Fn(A) -> R,
    G: Fn(usize, R, R) -> R,
    A: Vector<N>,
    R: Copy,

    requires
        N > 0,
        forall|i: int| 0 <= i < N ==> call_requires(f, (#[trigger] A::lanes(a)[i],)),
        forall|m: Seq<R>| #[trigger] maps_each(f, A::lanes(a), m) ==> can_fold(g, m, 0, N as nat),
    ensures
        exists|m: Seq<R>| #[trigger]
            maps_each(f, A::lanes(a), m) && tree_folds(g, m, 0, N as nat, r),
{
    proof {
        A::lemma_lanes(a);
    }
    let first = f(A::get(a, 0));
    let mut out: [R; N] = [first; N];
    let mut i: usize = 1;
    while i < N
        invariant
            1 <= i <= N,
            A::lanes(a).len() == N,
            forall|k: int| 0 <= k < N ==> call_requires(f, (#[trigger] A::lanes(a)[k],)),
            forall|k: int| 0 <= k < i ==> call_ensures(f, (A::lanes(a)[k],), #[trigger] out@[k]),
        decreases N - i,
    {
        out[i] = f(A::get(a, i));
        i += 1;
    }
    assert(maps_each(f, A::lanes(a), out@));
    fold_tree(&g, &out, 0, N)
}

/// Applies `f` to each of the two lanes of `a` together with the scalar `b`.
pub fn lift2_vs_v<F, A, B, R>(f: F, a: A::Vec, b: B) -> (r: R::Vec) where
    F: Fn(A, B) -> R,
    A: Vector2,
    B: Copy,
    R: Vector2,

    requires
        forall|i: int| 0 <= i < 2 ==> call_requires(f, (#[trigger] A::lanes(a)[i], b)),
    ensures
        R::lanes(r).len() == 2,
        forall|i: int|
            0 <= i < 2 ==> call_ensures(f, (A::lanes(a)[i], b), #[trigger] R::lanes(r)[i]),
{
    lift_vs_v::<2, F, A, B, R>(f, a, b)
}

/// Applies `f` to each of the two pairs of lanes that `a` and `b` hold at
/// the same place.
pub fn lift2_vv_v<F, A, B, R>(f: F, a: A::Vec, b: B::Vec) -> (r: R::Vec) where
    F: Fn(A, B) -> R,
    A: Vector2,
    B: Vector2,
    R: Vector2,

    requires
        forall|i: int|
            0 <= i < 2 ==> call_requires(f, (#[trigger] A::lanes(a)[i], #[trigger] B::lanes(b)[i])),
    ensures
        R::lanes(r).len() == 2,
        forall|i: int|
            0 <= i < 2 ==> call_ensures(
                f,
                (A::lanes(a)[i], B::lanes(b)[i]),
                #[trigger] R::lanes(r)[i],
            ),
{
    lift_vv_v::<2, F, A, B, R>(f, a, b)
}

/// Applies `f` to each of the two lanes of `a` and combines the results by
/// `g` in balanced pairwise order.
pub fn lift2_v_s<F, G, A, R>(f: F, g: G, a: A::Vec) -> (r: R) where
    F: Fn(A) -> R,
    G: Fn(usize, R, R) -> R,
    A: Vector2,
    R: Copy,

    requires
        forall|i: int| 0 <= i < 2 ==> call_requires(f, (#[trigger] A::lanes(a)[i],)),
        forall|m: Seq<R>| #[trigger] maps_each(f, A::lanes(a), m) ==> can_fold(g, m, 0, 2),
    ensures
        exists|m: Seq<R>| #[trigger]
            maps_each(f, A::lanes(a), m) && tree_folds(g, m, 0, 2, r),
{
    lift_v_s::<2, F, G, A, R>(f, g, a)
}

/// Applies `f` to each of the four lanes of `a` together with the scalar `b`.
pub fn lift4_vs_v<F, A, B, R>(f: F, a: A::Vec, b: B) -> (r: R::Vec) where
    F: Fn(A, B) -> R,
    A: Vector4,
    B: Copy,
    R: Vector4,

    requires
        forall|i: int| 0 <= i < 4 ==> call_requires(f, (#[trigger] A::lanes(a)[i], b)),
    ensures
        R::lanes(r).len() == 4,
        forall|i: int|
            0 <= i < 4 ==> call_ensures(f, (A::lanes(a)[i], b), #[trigger] R::lanes(r)[i]),
{
    lift_vs_v::<4, F, A, B, R>(f, a, b)
}

/// Applies `f` to each of the four pairs of lanes that `a` and `b` hold at
/// the same place.
pub fn lift4_vv_v<F, A, B, R>(f: F, a: A::Vec, b: B::Vec) -> (r: R::Vec) where
    F: Fn(A, B) -> R,
    A: Vector4,
    B: Vector4,
    R: Vector4,

    requires
        forall|i: int|
            0 <= i < 4 ==> call_requires(f, (#[trigger] A::lanes(a)[i], #[trigger] B::lanes(b)[i])),
    ensures
        R::lanes(r).len() == 4,
        forall|i: int|
            0 <= i < 4 ==> call_ensures(
                f,
                (A::lanes(a)[i], B::lanes(b)[i]),
                #[trigger] R::lanes(r)[i],
            ),
{
    lift_vv_v::<4, F, A, B, R>(f, a, b)
}

/// Applies `f` to each of the four lanes of `a` and combines the results by
/// `g` in balanced pairwise order.
pub fn lift4_v_s<F, G, A, R>(f: F, g: G, a: A::Vec) -> (r: R) where
    F: Fn(A) -> R,
    G: Fn(usize, R, R) -> R,
    A: Vector4,
    R: Copy,

    requires
        forall|i: int| 0 <= i < 4 ==> call_requires(f, (#[trigger] A::lanes(a)[i],)),
        forall|m: Seq<R>| #[trigger] maps_each(f, A::lanes(a), m) ==> can_fold(g, m, 0, 4),
    ensures
        exists|m: Seq<R>| #[trigger]
            maps_each(f, A::lanes(a), m) && tree_folds(g, m, 0, 4, r),
{
    lift_v_s::<4, F, G, A, R>(f, g, a)
}

/// Applies `f` to each of the eight lanes of `a` together with the scalar `b`.
pub fn lift8_vs_v<F, A, B, R>(f: F, a: A::Vec, b: B) -> (r: R::Vec) where
    F: Fn(A, B) -> R,
    A: Vector8,
    B: Copy,
    R: Vector8,

    requires
        forall|i: int| 0 <= i < 8 ==> call_requires(f, (#[trigger] A::lanes(a)[i], b)),
    ensures
        R::lanes(r).len() == 8,
        forall|i: int|
            0 <= i < 8 ==> call_ensures(f, (A::lanes(a)[i], b), #[trigger] R::lanes(r)[i]),
{
    lift_vs_v::<8, F, A, B, R>(f, a, b)
}

/// Applies `f` to each of the eight pairs of lanes that `a` and `b` hold at
/// the same place.
pub fn lift8_vv_v<F, A, B, R>(f: F, a: A::Vec, b: B::Vec) -> (r: R::Vec) where
    F: Fn(A, B) -> R,
    A: Vector8,
    B: Vector8,
    R: Vector8,

    requires
        forall|i: int|
            0 <= i < 8 ==> call_requires(f, (#[trigger] A::lanes(a)[i], #[trigger] B::lanes(b)[i])),
    ensures
        R::lanes(r).len() == 8,
        forall|i: int|
            0 <= i < 8 ==> call_ensures(
                f,
                (A::lanes(a)[i], B::lanes(b)[i]),
                #[trigger] R::lanes(r)[i],
            ),
{
    lift_vv_v::<8, F, A, B, R>(f, a, b)
}

/// Applies `f` to each of the eight lanes of `a` and combines the results by
/// `g` in balanced pairwise order.
pub fn lift8_v_s<F, G, A, R>(f: F, g: G, a: A::Vec) -> (r: R) where
    F: Fn(A) -> R,
    G: Fn(usize, R, R) -> R,
    A: Vector8,
    R: Copy,

    requires
        forall|i: int| 0 <= i < 8 ==> call_requires(f, (#[trigger] A::lanes(a)[i],)),
        forall|m: Seq<R>| #[trigger] maps_each(f, A::lanes(a), m) ==> can_fold(g, m, 0, 8),
    ensures
        exists|m: Seq<R>| #[trigger]
            maps_each(f, A::lanes(a), m) && tree_folds(g, m, 0, 8, r),
{
    lift_v_s::<8, F, G, A, R>(f, g, a)
}

/// A vector all of whose sixteen lanes hold `a`.
pub fn lift16_s_v<R>(a: R) -> (r: R::Vec) where R: Vector16
    ensures
        R::lanes(r).len() == 16,
        forall|i: int| 0 <= i < 16 ==> R::lanes(r)[i] == a,
{
    lift_s_v::<16, R>(a)
}

/// Applies `f` to each of the sixteen lanes of `a` together with the scalar `b`.
pub fn lift16_vs_v<F, A, B, R>(f: F, a: A::Vec, b: B) -> (r: R::Vec) where
    F: Fn(A, B) -> R,
    A: Vector16,
    B: Copy,
    R: Vector16,

    requires
        forall|i: int| 0 <= i < 16 ==> call_requires(f, (#[trigger] A::lanes(a)[i], b)),
    ensures
        R::lanes(r).len() == 16,
        forall|i: int|
            0 <= i < 16 ==> call_ensures(f, (A::lanes(a)[i], b), #[trigger] R::lanes(r)[i]),
{
    lift_vs_v::<16, F, A, B, R>(f, a, b)
}

/// Applies `f` to each of the sixteen pairs of lanes that `a` and `b` hold at
/// the same place.
pub fn lift16_vv_v<F, A, B, R>(f: F, a: A::Vec, b: B::Vec) -> (r: R::Vec) where
    F: Fn(A, B) -> R,
    A: Vector16,
    B: Vector16,
    R: Vector16,

    requires
        forall|i: int|
            0 <= i < 16 ==> call_requires(
                f,
                (#[trigger] A::lanes(a)[i], #[trigger] B::lanes(b)[i]),
            ),
    ensures
        R::lanes(r).len() == 16,
        forall|i: int|
            0 <= i < 16 ==> call_ensures(
                f,
                (A::lanes(a)[i], B::lanes(b)[i]),
                #[trigger] R::lanes(r)[i],
            ),
{
    lift_vv_v::<16, F, A, B, R>(f, a, b)
}

/// Applies `f` to each of the sixteen lanes of `a` and combines the results by
/// `g` in balanced pairwise order.
pub fn lift16_v_s<F, G, A, R>(f: F, g: G, a: A::Vec) -> (r: R) where
    F: Fn(A) -> R,
    G: Fn(usize, R, R) -> R,
    A: Vector16,
    R: Copy,

    requires
        forall|i: int| 0 <= i < 16 ==> call_requires(f, (#[trigger] A::lanes(a)[i],)),
        forall|m: Seq<R>| #[trigger] maps_each(f, A::lanes(a), m) ==> can_fold(g, m, 0, 16),
    ensures
        exists|m: Seq<R>| #[trigger]
            maps_each(f, A::lanes(a), m) && tree_folds(g, m, 0, 16, r),
{
    lift_v_s::<16, F, G, A, R>(f, g, a)
}

/// A vector all of whose thirty-two lanes hold `a`.
pub fn lift32_s_v<R>(a: R) -> (r: R::Vec) where R: Vector32
    ensures
        R::lanes(r).len() == 32,
        forall|i: int| 0 <= i < 32 ==> R::lanes(r)[i] == a,
{
    lift_s_v::<32, R>(a)
}

/// Applies `f` to each of the thirty-two lanes of `a` together with the scalar `b`.
pub fn lift32_vs_v<F, A, B, R>(f: F, a: A::Vec, b: B) -> (r: R::Vec) where
    F: Fn(A, B) -> R,
    A: Vector32,
    B: Copy,
    R: Vector32,

    requires
        forall|i: int| 0 <= i < 32 ==> call_requires(f, (#[trigger] A::lanes(a)[i], b)),
    ensures
        R::lanes(r).len() == 32,
        forall|i: int|
            0 <= i < 32 ==> call_ensures(f, (A::lanes(a)[i], b), #[trigger] R::lanes(r)[i]),
{
    lift_vs_v::<32, F, A, B, R>(f, a, b)
}

/// Applies `f` to each of the thirty-two pairs of lanes that `a` and `b` hold at
/// the same place.
pub fn lift32_vv_v<F, A, B, R>(f: F, a: A::Vec, b: B::Vec) -> (r: R::Vec) where
    F: Fn(A, B) -> R,
    A: Vector32,
    B: Vector32,
    R: Vector32,

    requires
        forall|i: int|
            0 <= i < 32 ==> call_requires(
                f,
                (#[trigger] A::lanes(a)[i], #[trigger] B::lanes(b)[i]),
            ),
    ensures
        R::lanes(r).len() == 32,
        forall|i: int|
            0 <= i < 32 ==> call_ensures(
                f,
                (A::lanes(a)[i], B::lanes(b)[i]),
                #[trigger] R::lanes(r)[i],
            ),
{
    lift_vv_v::<32, F, A, B, R>(f, a, b)
}

/// Applies `f` to each of the thirty-two lanes of `a` and combines the results by
/// `g` in balanced pairwise order.
pub fn lift32_v_s<F, G, A, R>(f: F, g: G, a: A::Vec) -> (r: R) where
    F: Fn(A) -> R,
    G: Fn(usize, R, R) -> R,
    A: Vector32,
    R: Copy,

    requires
        forall|i: int| 0 <= i < 32 ==> call_requires(f, (#[trigger] A::lanes(a)[i],)),
        forall|m: Seq<R>| #[trigger] maps_each(f, A::lanes(a), m) ==> can_fold(g, m, 0, 32),
    ensures
        exists|m: Seq<R>| #[trigger]
            maps_each(f, A::lanes(a), m) && tree_folds(g, m, 0, 32, r),
{
    lift_v_s::<32, F, G, A, R>(f, g, a)
}

} // verus!
