//! Rules that tell nice strings from naughty ones.

use std::collections::HashMap;
use vstd::prelude::*;
use vstd::std_specs::hash::group_hash_axioms;

verus! {

/// Whether a character is one of the five vowels.
pub open spec fn is_vowel(c: char) -> bool {
    c == 'a' || c == 'e' || c == 'i' || c == 'o' || c == 'u'
}

/// How many of the first `n` characters are vowels, each occurrence
/// counted.
pub open spec fn vowels(s: Seq<char>, n: int) -> int
    decreases n,
{
    if n <= 0 {
        0
    } else {
        vowels(s, n - 1) + if is_vowel(s[n - 1]) {
            1int
        } else {
            0int
        }
    }
}

/// Whether the two characters at `i` are the two characters at `j`.
pub open spec fn same_pair(s: Seq<char>, i: int, j: int) -> bool {
    s[i] == s[j] && s[i + 1] == s[j + 1]
}

/// Whether the two characters at `i` are `a` and `b`.
pub open spec fn pair_is(s: Seq<char>, i: int, a: char, b: char) -> bool {
    s[i] == a && s[i + 1] == b
}

/// Whether the two characters at `i` are one of the pairs `ab`, `cd`, `pq`,
/// `xy`.
pub open spec fn naughty_at(s: Seq<char>, i: int) -> bool {
    pair_is(s, i, 'a', 'b') || pair_is(s, i, 'c', 'd') || pair_is(s, i, 'p', 'q') || pair_is(
        s,
        i,
        'x',
        'y',
    )
}

/// Whether the character at `i` stands again `gap` places on.
pub open spec fn again_at(s: Seq<char>, i: int, gap: int) -> bool {
    s[i] == s[i + gap]
}

/// At least three vowels.
pub open spec fn spec_rule1(s: Seq<char>) -> bool {
    vowels(s, s.len() as int) >= 3
}

/// Some character stands twice in a row.
pub open spec fn spec_rule2(s: Seq<char>) -> bool {
    exists|i: int| 0 <= i && i + 1 < s.len() && #[trigger] again_at(s, i, 1)
}

/// None of the pairs `ab`, `cd`, `pq`, `xy` occurs.
pub open spec fn spec_rule3(s: Seq<char>) -> bool {
    forall|i: int| 0 <= i && i + 1 < s.len() ==> !#[trigger] naughty_at(s, i)
}

/// Some pair of characters stands again at least two places after an
/// earlier stand of the same pair, and not directly after one. (Of three
/// equal characters in a row the second pair overlaps the first; a pair
/// that directly follows its like is judged by that neighbour alone.)
pub open spec fn spec_rule4(s: Seq<char>) -> bool {
    exists|i: int, j: int|
        0 <= j && j + 2 <= i && i + 1 < s.len() && #[trigger] same_pair(s, i, j) && !same_pair(
            s,
            i,
            i - 1,
        )
}

/// Some character stands again two places on, with one character between.
pub open spec fn spec_rule5(s: Seq<char>) -> bool {
    exists|i: int| 0 <= i && i + 2 < s.len() && #[trigger] again_at(s, i, 2)
}

/// The characters of a string, one by one.
pub fn chars_of(text: &str) -> (r: Vec<char>)
    ensures
        r@ == text@,
{
    let mut r: Vec<char> = Vec::new();
    for c in it: text.chars()
        invariant
            it.seq() == text@,
            r@ == text@.take(it.index()),
    {
        r.push(c);
        assert(r@ =~= text@.take(it.index() + 1));
    }
    assert(r@ =~= text@);
    r
}

/// Whether a string holds at least three vowels.
pub fn rule1(x: &str) -> (r: bool)
    ensures
        r == spec_rule1(x@),
{
    let s = chars_of(x);
    let mut count: usize = 0;
    let mut i: usize = 0;
    while i < s.len()
        invariant
            i <= s.len(),
            count == vowels(s@, i as int),
            count <= i,
        decreases s.len() - i,
    {
        let c = s[i];
        if c == 'a' || c == 'e' || c == 'i' || c == 'o' || c == 'u' {
            count += 1;
        }
        i += 1;
    }
    count >= 3
}

/// Whether some character of a string stands twice in a row.
pub fn rule2(x: &str) -> (r: bool)
    ensures
        r == spec_rule2(x@),
{
    let s = chars_of(x);
    let mut i: usize = 1;
    while i < s.len()
        invariant
            s@ == x@,
            1 <= i,
            forall|k: int| 0 <= k && k + 1 < i ==> !#[trigger] again_at(s@, k, 1),
        decreases s.len() - i,
    {
        if s[i - 1] == s[i] {
            assert(again_at(s@, i - 1, 1));
            return true;
        }
        i += 1;
    }
    false
}

/// Whether a string holds none of the pairs `ab`, `cd`, `pq`, `xy`.
pub fn rule3(x: &str) -> (r: bool)
    ensures
        r == spec_rule3(x@),
{
    let s = chars_of(x);
    let mut i: usize = 1;
    while i < s.len()
        invariant
            s@ == x@,
            1 <= i,
            forall|k: int| 0 <= k && k + 1 < i ==> !#[trigger] naughty_at(s@, k),
        decreases s.len() - i,
    {
        let c = s[i - 1];
        let d = s[i];
        if (c == 'a' && d == 'b') || (c == 'c' && d == 'd') || (c == 'p' && d == 'q') || (c == 'x'
            && d == 'y') {
            assert(naughty_at(s@, i - 1));
            return false;
        }
        assert(!naughty_at(s@, i - 1));
        i += 1;
    }
    true
}

/// Whether a string is nice by the first three rules.
pub fn is_nice(x: &str) -> (r: bool)
    ensures
        r == (spec_rule1(x@) && spec_rule2(x@) && spec_rule3(x@)),
{
    let one = rule1(x);
    let two = rule2(x);
    let three = rule3(x);
    one && two && three
}

/// Whether some character of a string stands again two places on.
pub fn rule5(x: &str) -> (r: bool)
    ensures
        r == spec_rule5(x@),
{
    let s = chars_of(x);
    let mut i: usize = 2;
    while i < s.len()
        invariant
            s@ == x@,
            2 <= i,
            forall|k: int| 0 <= k && k + 2 < i ==> !#[trigger] again_at(s@, k, 2),
        decreases s.len() - i,
    {
        if s[i - 2] == s[i] {
            assert(again_at(s@, i - 2, 2));
            return true;
        }
        i += 1;
    }
    false
}

/// The number that stands for a pair of characters: a different number for
/// each pair.
pub open spec fn pair_code(c: char, d: char) -> u64 {
    (c as u64 * 0x1_0000_0000 + d as u64) as u64
}

/// The number that stands for the two characters at `i`.
pub open spec fn code_at(s: Seq<char>, i: int) -> u64 {
    pair_code(s[i], s[i + 1])
}

/// Two pairs have the same number only if they are the same pair.
pub proof fn lemma_pair_code(a: char, b: char, c: char, d: char)
    ensures
        pair_code(a, b) == pair_code(c, d) <==> a == c && b == d,
{
    assert(a as u64 <= 0x10_ffff && b as u64 <= 0x10_ffff && c as u64 <= 0x10_ffff && d as u64
        <= 0x10_ffff);
}

/// The number that stands for a pair of characters.
pub fn code_of(c: char, d: char) -> (k: u64)
    ensures
        k == pair_code(c, d),
{
    (c as u64) * 0x1_0000_0000 + (d as u64)
}

/// Whether some pair of characters of a string stands again at least two
/// places after the nearest earlier stand of the same pair.
pub fn rule4(x: &str) -> (r: bool)
    ensures
        r == spec_rule4(x@),
{
    broadcast use group_hash_axioms;

    let s = chars_of(x);
    let mut last: HashMap<u64, usize> = HashMap::new();
    let mut i: usize = 1;
    while i < s.len()
        invariant
            s@ == x@,
            1 <= i,
            forall|k: u64| #[trigger]
                last@.contains_key(k) ==> last@[k] + 1 < i && code_at(s@, last@[k] as int) == k,
            forall|j: int|
                0 <= j && j + 1 < i ==> last@.contains_key(#[trigger] code_at(s@, j)) && j
                    <= last@[code_at(s@, j)],
            forall|p: int, j: int|
                0 <= j && j + 2 <= p && p + 1 < i && #[trigger] same_pair(s@, p, j) ==> same_pair(
                    s@,
                    p,
                    p - 1,
                ),
        decreases s.len() - i,
    {
        let p: usize = i - 1;
        let k = code_of(s[p], s[i]);
        assert(k == code_at(s@, p as int));
        let before = last.get(&k);
        if let Some(j) = before {
            if p - *j >= 2 {
                proof {
                    let j = *j as int;
                    lemma_pair_code(s@[p as int], s@[p + 1], s@[j], s@[j + 1]);
                    assert(same_pair(s@, p as int, j));
                    if same_pair(s@, p as int, p - 1) {
                        assert(code_at(s@, p - 1) == k);
                    }
                }
                return true;
            }
        }
        proof {
            assert forall|j: int| 0 <= j && j + 2 <= p && #[trigger] same_pair(
                s@,
                p as int,
                j,
            ) implies same_pair(s@, p as int, p - 1) by {
                assert(code_at(s@, j) == k);
                let near = last@[k] as int;
                assert(near == p - 1);
                lemma_pair_code(s@[p as int], s@[p + 1], s@[near], s@[near + 1]);
            }
        }
        last.insert(k, p);
        i += 1;
    }
    false
}

/// Whether a string is nice by the two later rules.
pub fn is_nice2(x: &str) -> (r: bool)
    ensures
        r == (spec_rule4(x@) && spec_rule5(x@)),
{
    let four = rule4(x);
    let five = rule5(x);
    four && five
}

} // verus!
