//! Counting the houses that a walk over an unbounded grid passes.

use itertools::Itertools;
use vstd::prelude::*;
use vstd::set_lib::lemma_map_size;

verus! {

/// The step that a direction character stands for; any other character
/// stands for no step.
pub open spec fn spec_delta(c: char) -> (int, int) {
    if c == '<' {
        (-1, 0)
    } else if c == '>' {
        (1, 0)
    } else if c == '^' {
        (0, 1)
    } else if c == 'v' {
        (0, -1)
    } else {
        (0, 0)
    }
}

/// Where the walk stands after the first `k` directions, starting at the
/// origin.
pub open spec fn position(dirs: Seq<char>, k: nat) -> (int, int)
    decreases k,
{
    if k == 0 {
        (0, 0)
    } else {
        let p = position(dirs, (k - 1) as nat);
        let d = spec_delta(dirs[k - 1]);
        (p.0 + d.0, p.1 + d.1)
    }
}

/// Every place of the walk in turn: the origin, then the place after each
/// direction.
pub open spec fn path(dirs: Seq<char>) -> Seq<(int, int)> {
    Seq::new(dirs.len() + 1, |k: int| position(dirs, k as nat))
}

/// The values of `s` in the order in which each occurs first.
pub open spec fn first_occurrences<T>(s: Seq<T>) -> Seq<T>
    decreases s.len(),
{
    if s.len() == 0 {
        s
    } else {
        let before = first_occurrences(s.drop_last());
        if before.contains(s.last()) {
            before
        } else {
            before.push(s.last())
        }
    }
}

/// The first occurrences of a sequence hold each of its values exactly
/// once.
pub proof fn lemma_first_occurrences<T>(s: Seq<T>)
    ensures
        first_occurrences(s).no_duplicates(),
        first_occurrences(s).to_set() == s.to_set(),
        first_occurrences(s).len() == s.to_set().len(),
    decreases s.len(),
{
    let f = first_occurrences(s);
    if s.len() == 0 {
        assert(f.to_set() =~= s.to_set());
    } else {
        let init = s.drop_last();
        let before = first_occurrences(init);
        lemma_first_occurrences(init);
        assert forall|x: T| f.to_set().contains(x) <==> s.to_set().contains(x) by {
            if f.to_set().contains(x) {
                let i = choose|i: int| 0 <= i < f.len() && f[i] == x;
                if i < before.len() {
                    assert(before.to_set().contains(x));
                    assert(init.to_set().contains(x));
                    let j = choose|j: int| 0 <= j < init.len() && init[j] == x;
                    assert(s[j] == x);
                } else {
                    assert(s[s.len() - 1] == x);
                }
            }
            if s.to_set().contains(x) {
                let j = choose|j: int| 0 <= j < s.len() && s[j] == x;
                if j < init.len() {
                    assert(init[j] == x);
                    assert(init.to_set().contains(x));
                    assert(before.to_set().contains(x));
                    let i = choose|i: int| 0 <= i < before.len() && before[i] == x;
                    assert(f[i] == x);
                } else {
                    if before.contains(s.last()) {
                    } else {
                        assert(f[f.len() - 1] == x);
                    }
                }
            }
        }
        assert(f.to_set() =~= s.to_set());
    }
    f.unique_seq_to_set();
}

/// The step that a direction character stands for.
pub fn delta(c: char) -> (d: (i32, i32))
    ensures
        (d.0 as int, d.1 as int) == spec_delta(c),
{
    if c == '<' {
        (-1, 0)
    } else if c == '>' {
        (1, 0)
    } else if c == '^' {
        (0, 1)
    } else if c == 'v' {
        (0, -1)
    } else {
        (0, 0)
    }
}

/// `Itertools::unique` over the points of a walk: the points in the order
/// in which each occurs first, every later occurrence left out.
#[verifier::external_body]
fn unique_points(points: Vec<(i32, i32)>) -> (r: Vec<(i32, i32)>)
    ensures
        r@ == first_occurrences(points@),
{
    points.into_iter().unique().collect()
}

/// A grid place as a pair of mathematical integers.
pub open spec fn as_place(p: (i32, i32)) -> (int, int) {
    (p.0 as int, p.1 as int)
}

/// No coordinate of a walk is further from the origin than the walk is long.
pub proof fn lemma_position_bound(dirs: Seq<char>, k: nat)
    ensures
        -k <= position(dirs, k).0 <= k,
        -k <= position(dirs, k).1 <= k,
    decreases k,
{
    if k > 0 {
        lemma_position_bound(dirs, (k - 1) as nat);
    }
}

/// The number of different houses that a walk passes, the house at the
/// origin included.
pub fn num_visited(dirs: &str) -> (n: usize)
    requires
        dirs@.len() <= i32::MAX,
    ensures
        n == path(dirs@).to_set().len(),
{
    let mut pos: (i32, i32) = (0, 0);
    let mut points: Vec<(i32, i32)> = Vec::new();
    points.push(pos);
    for c in it: dirs.chars()
        invariant
            it.seq() == dirs@,
            dirs@.len() <= i32::MAX,
            points@.len() == it.index() + 1,
            as_place(pos) == position(dirs@, it.index() as nat),
            forall|k: int|
                0 <= k <= it.index() ==> as_place(#[trigger] points@[k]) == position(
                    dirs@,
                    k as nat,
                ),
    {
        proof {
            lemma_position_bound(dirs@, it.index() as nat);
        }
        let d = delta(c);
        pos = (pos.0 + d.0, pos.1 + d.1);
        points.push(pos);
    }
    let ghost all = points@;
    let houses = unique_points(points);
    proof {
        lemma_first_occurrences(all);
        let f = |p: (i32, i32)| as_place(p);
        assert(all.to_set().map(f) =~= path(dirs@).to_set()) by {
            assert forall|q: (int, int)| all.to_set().map(f).contains(q) implies path(
                dirs@,
            ).to_set().contains(q) by {
                let p = choose|p: (i32, i32)| all.to_set().contains(p) && f(p) == q;
                let k = choose|k: int| 0 <= k < all.len() && all[k] == p;
                assert(path(dirs@)[k] == q);
            }
            assert forall|q: (int, int)| path(dirs@).to_set().contains(q) implies all.to_set().map(
                f,
            ).contains(q) by {
                let k = choose|k: int| 0 <= k < path(dirs@).len() && path(dirs@)[k] == q;
                assert(all.to_set().contains(all[k]));
                assert(f(all[k]) == q);
            }
        }
        lemma_map_size(all.to_set(), path(dirs@).to_set(), f);
    }
    houses.len()
}

} // verus!
