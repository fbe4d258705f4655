//! Paper and ribbon for box-shaped parcels, and reading a parcel's
//! dimensions from a line of text.

use regex::Regex;
use vstd::prelude::*;

verus! {

/// The least of three numbers.
pub open spec fn min3(a: int, b: int, c: int) -> int {
    if a <= b && a <= c {
        a
    } else if b <= c {
        b
    } else {
        c
    }
}

/// The paper that a parcel needs: its whole surface, and the area of its
/// smallest side once more.
pub open spec fn spec_wrapping(x: int, y: int, z: int) -> int {
    2 * (x * y + x * z + y * z) + min3(x * y, x * z, y * z)
}

/// The ribbon that a parcel needs: the shortest way round it, and its
/// volume for the bow.
pub open spec fn spec_ribbon(x: int, y: int, z: int) -> int {
    2 * min3(x + y, x + z, y + z) + x * y * z
}

/// The least of three numbers.
pub fn least(a: u128, b: u128, c: u128) -> (r: u128)
    ensures
        r == min3(a as int, b as int, c as int),
{
    if a <= b && a <= c {
        a
    } else if b <= c {
        b
    } else {
        c
    }
}

/// The paper that a parcel needs, in arithmetic wide enough for every
/// parcel.
pub fn wrapping_wide(x: u32, y: u32, z: u32) -> (r: u128)
    ensures
        r == spec_wrapping(x as int, y as int, z as int),
{
    let a: u128 = x as u128;
    let b: u128 = y as u128;
    let c: u128 = z as u128;
    assert(a * b <= 0xffff_ffff * 0xffff_ffff && a * c <= 0xffff_ffff * 0xffff_ffff && b * c
        <= 0xffff_ffff * 0xffff_ffff) by (nonlinear_arith)
        requires
            a <= 0xffff_ffff,
            b <= 0xffff_ffff,
            c <= 0xffff_ffff,
    ;
    let ab: u128 = a * b;
    let ac: u128 = a * c;
    let bc: u128 = b * c;
    2 * (ab + ac + bc) + least(ab, ac, bc)
}

/// The ribbon that a parcel needs, in arithmetic wide enough for every
/// parcel.
pub fn ribbon_wide(x: u32, y: u32, z: u32) -> (r: u128)
    ensures
        r == spec_ribbon(x as int, y as int, z as int),
{
    let a: u128 = x as u128;
    let b: u128 = y as u128;
    let c: u128 = z as u128;
    assert(a * b <= 0xffff_ffff * 0xffff_ffff) by (nonlinear_arith)
        requires
            a <= 0xffff_ffff,
            b <= 0xffff_ffff,
    ;
    let ab: u128 = a * b;
    assert(ab * c <= 0xffff_ffff * 0xffff_ffff * 0xffff_ffff) by (nonlinear_arith)
        requires
            ab <= 0xffff_ffff * 0xffff_ffff,
            c <= 0xffff_ffff,
    ;
    2 * least(a + b, a + c, b + c) + ab * c
}

/// The paper that a parcel needs, if the number fits in 32 bits.
pub fn try_wrapping(x: u32, y: u32, z: u32) -> (r: Option<u32>)
    ensures
        r is Some <==> spec_wrapping(x as int, y as int, z as int) <= u32::MAX,
        r is Some ==> r->0 == spec_wrapping(x as int, y as int, z as int),
{
    let total: u128 = wrapping_wide(x, y, z);
    if total <= 0xffff_ffff {
        Some(total as u32)
    } else {
        None
    }
}

/// The paper that a parcel needs.
pub fn wrapping(x: u32, y: u32, z: u32) -> (r: u32)
    requires
        spec_wrapping(x as int, y as int, z as int) <= u32::MAX,
    ensures
        r == spec_wrapping(x as int, y as int, z as int),
{
    wrapping_wide(x, y, z) as u32
}

/// The ribbon that a parcel needs, if the number fits in 32 bits.
pub fn try_ribbon(x: u32, y: u32, z: u32) -> (r: Option<u32>)
    ensures
        r is Some <==> spec_ribbon(x as int, y as int, z as int) <= u32::MAX,
        r is Some ==> r->0 == spec_ribbon(x as int, y as int, z as int),
{
    let total: u128 = ribbon_wide(x, y, z);
    if total <= 0xffff_ffff {
        Some(total as u32)
    } else {
        None
    }
}

/// The ribbon that a parcel needs.
pub fn ribbon(x: u32, y: u32, z: u32) -> (r: u32)
    requires
        spec_ribbon(x as int, y as int, z as int) <= u32::MAX,
    ensures
        r == spec_ribbon(x as int, y as int, z as int),
{
    ribbon_wide(x, y, z) as u32
}

/// A parcel that is flat in two directions needs no paper and no ribbon.
pub proof fn lemma_flat_parcel(z: int)
    requires
        0 <= z,
    ensures
        spec_wrapping(z, 0, 0) == 0,
        spec_ribbon(z, 0, 0) == 0,
{
    assert(z * 0 == 0 && z * 0 * 0 == 0) by (nonlinear_arith);
}

/// A parcel twice as long, wide and high needs four times the paper.
pub proof fn lemma_wrapping_doubles(x: int, y: int, z: int)
    ensures
        spec_wrapping(2 * x, 2 * y, 2 * z) == 4 * spec_wrapping(x, y, z),
{
    assert((2 * x) * (2 * y) == 4 * (x * y)) by (nonlinear_arith);
    assert((2 * x) * (2 * z) == 4 * (x * z)) by (nonlinear_arith);
    assert((2 * y) * (2 * z) == 4 * (y * z)) by (nonlinear_arith);
}

/// Paper and ribbon do not depend on which dimension is given first.
pub proof fn lemma_parcel_reorders(x: int, y: int, z: int)
    ensures
        spec_wrapping(x, y, z) == spec_wrapping(x, z, y),
        spec_wrapping(x, y, z) == spec_wrapping(y, x, z),
        spec_wrapping(x, y, z) == spec_wrapping(y, z, x),
        spec_wrapping(x, y, z) == spec_wrapping(z, x, y),
        spec_wrapping(x, y, z) == spec_wrapping(z, y, x),
        spec_ribbon(x, y, z) == spec_ribbon(x, z, y),
        spec_ribbon(x, y, z) == spec_ribbon(y, x, z),
        spec_ribbon(x, y, z) == spec_ribbon(y, z, x),
        spec_ribbon(x, y, z) == spec_ribbon(z, x, y),
        spec_ribbon(x, y, z) == spec_ribbon(z, y, x),
{
    assert(x * y == y * x && x * z == z * x && y * z == z * y) by (nonlinear_arith);
    assert(x * y * z == x * z * y && x * y * z == y * x * z && x * y * z == y * z * x && x * y * z
        == z * x * y && x * y * z == z * y * x) by (nonlinear_arith);
}

/// A parcel that is no smaller in any direction needs no less paper and no
/// less ribbon.
pub proof fn lemma_parcel_grows(x1: int, y1: int, z1: int, x2: int, y2: int, z2: int)
    requires
        0 <= x1 <= x2,
        0 <= y1 <= y2,
        0 <= z1 <= z2,
    ensures
        spec_wrapping(x1, y1, z1) <= spec_wrapping(x2, y2, z2),
        spec_ribbon(x1, y1, z1) <= spec_ribbon(x2, y2, z2),
{
    assert(x1 * y1 <= x2 * y2 && x1 * z1 <= x2 * z2 && y1 * z1 <= y2 * z2) by (nonlinear_arith)
        requires
            0 <= x1 <= x2,
            0 <= y1 <= y2,
            0 <= z1 <= z2,
    ;
    assert(x1 * y1 * z1 <= x2 * y2 * z2) by (nonlinear_arith)
        requires
            0 <= x1 * y1 <= x2 * y2,
            0 <= z1 <= z2,
    ;
}

/// Whether a character is one of the ten decimal digits.
pub open spec fn is_digit(c: char) -> bool {
    '0' <= c <= '9'
}

/// The number that a run of decimal digits spells.
pub open spec fn digits_value(s: Seq<char>) -> nat
    decreases s.len(),
{
    if s.len() == 0 {
        0
    } else {
        (10 * digits_value(s.drop_last()) + (s.last() as int - '0' as int)) as nat
    }
}

/// The digits of a number's text: the text without a leading plus sign.
pub open spec fn unsigned_part(text: Seq<char>) -> Seq<char> {
    if text.len() > 0 && text[0] == '+' {
        text.skip(1)
    } else {
        text
    }
}

/// The number that a text spells: an optional plus sign, then at least one
/// decimal digit and nothing else, the whole no greater than 32 bits hold.
pub open spec fn spec_parse_u32(text: Seq<char>) -> Option<u32> {
    let digits = unsigned_part(text);
    if digits.len() > 0 && (forall|i: int| 0 <= i < digits.len() ==> is_digit(digits[i]))
        && digits_value(digits) <= u32::MAX {
        Some(digits_value(digits) as u32)
    } else {
        None
    }
}

/// A run of digits spells no less than any run it starts with.
pub proof fn lemma_digits_value_grows(s: Seq<char>, k: int)
    requires
        0 <= k <= s.len(),
        forall|i: int| 0 <= i < s.len() ==> is_digit(s[i]),
    ensures
        digits_value(s.take(k)) <= digits_value(s),
    decreases s.len() - k,
{
    if k < s.len() {
        lemma_digits_value_grows(s, k + 1);
        assert(s.take(k + 1).drop_last() =~= s.take(k));
    } else {
        assert(s.take(k) =~= s);
    }
}

/// Reads a number from its decimal text.
pub fn parse_u32(text: &str) -> (r: Option<u32>)
    ensures
        r == spec_parse_u32(text@),
{
    let ghost digits = unsigned_part(text@);
    let ghost skipped: int = text@.len() - digits.len();
    let ghost mut seen: int = 0;
    let mut value: u32 = 0;
    let mut any: bool = false;
    let mut at_start: bool = true;
    for c in it: text.chars()
        invariant
            it.seq() == text@,
            digits == unsigned_part(text@),
            skipped == text@.len() - digits.len(),
            at_start <==> it.index() == 0,
            at_start ==> seen == 0 && value == 0,
            !at_start ==> seen == it.index() - skipped,
            any <==> seen > 0,
            0 <= seen <= digits.len(),
            forall|i: int| 0 <= i < seen ==> is_digit(digits[i]),
            value == digits_value(digits.take(seen)),
    {
        if at_start && c == '+' {
            at_start = false;
            assert(digits.take(0) =~= Seq::<char>::empty());
        } else {
            at_start = false;
            assert(digits[seen] == c);
            if !('0' <= c && c <= '9') {
                return None;
            }
            let d: u32 = (c as u32) - ('0' as u32);
            assert(digits.take(seen + 1).drop_last() =~= digits.take(seen));
            if value > (u32::MAX - d) / 10 {
                proof {
                    if forall|i: int| 0 <= i < digits.len() ==> is_digit(digits[i]) {
                        lemma_digits_value_grows(digits, seen + 1);
                    }
                }
                return None;
            }
            value = 10 * value + d;
            any = true;
            proof {
                seen = seen + 1;
            }
        }
    }
    assert(digits.take(seen) =~= digits);
    if any {
        Some(value)
    } else {
        None
    }
}

/// The text form of a parcel: three runs of digits with an `x` between
/// them.
pub const DIMENSIONS: &'static str = "(\\d+)x(\\d+)x(\\d+)";

/// What the first three capture groups of a pattern hold at its first match
/// in a line, where the pattern is a regular expression, matches somewhere
/// in the line, and all three groups take part in the match.
pub uninterp spec fn regex_groups(pattern: Seq<char>, line: Seq<char>) -> Option<
    (Seq<char>, Seq<char>, Seq<char>),
>;

/// Compiles the pattern with `Regex::new`, searches the line with
/// `Regex::captures` and reads groups 1 to 3 with `Captures::get`. The
/// result is `None` where any of the three calls gives nothing; else it is
/// whatever text the groups matched.
#[verifier::external_body]
fn three_groups(pattern: &str, line: &str) -> (r: Option<(String, String, String)>)
    ensures
        match r {
            Some(f) => regex_groups(pattern@, line@) == Some((f.0@, f.1@, f.2@)),
            None => regex_groups(pattern@, line@) is None,
        },
{
    let compiled = Regex::new(pattern).ok()?;
    let found = compiled.captures(line)?;
    let first = found.get(1)?.as_str().to_string();
    let second = found.get(2)?.as_str().to_string();
    let third = found.get(3)?.as_str().to_string();
    Some((first, second, third))
}

/// The dimensions that three texts spell, where each spells a number.
pub open spec fn spec_parcel_of_fields(fields: Option<(Seq<char>, Seq<char>, Seq<char>)>) -> Option<
    (u32, u32, u32),
> {
    match fields {
        None => None,
        Some((a, b, c)) => match (spec_parse_u32(a), spec_parse_u32(b), spec_parse_u32(c)) {
            (Some(x), Some(y), Some(z)) => Some((x, y, z)),
            _ => None,
        },
    }
}

/// The dimensions that the three fields of a parcel's text spell: none
/// where a field is missing or does not spell a 32-bit number.
pub fn parcel_of_fields(fields: Option<(String, String, String)>) -> (r: Option<(u32, u32, u32)>)
    ensures
        r == spec_parcel_of_fields(
            match fields {
                None => None,
                Some(f) => Some((f.0@, f.1@, f.2@)),
            },
        ),
{
    match fields {
        None => None,
        Some((a, b, c)) => {
            match (parse_u32(a.as_str()), parse_u32(b.as_str()), parse_u32(c.as_str())) {
                (Some(x), Some(y), Some(z)) => Some((x, y, z)),
                _ => None,
            }
        },
    }
}

/// The dimensions of the first parcel that a line of text names.
pub fn parse_parcel(line: &str) -> (r: Option<(u32, u32, u32)>)
    ensures
        r == spec_parcel_of_fields(regex_groups(DIMENSIONS@, line@)),
{
    parcel_of_fields(three_groups(DIMENSIONS, line))
}

} // verus!
