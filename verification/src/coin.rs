//! Mining for numbers whose MD5 digest, taken together with a key, starts
//! with a run of zeros.

use vstd::prelude::*;
use vstd::string::StringSliceAdditionalSpecFns;

verus! {

/// The 16 bytes of the MD5 digest of a message.
pub uninterp spec fn spec_md5(data: Seq<u8>) -> Seq<u8>;

/// `md5::compute`: the digest of a message, as its sixteen bytes.
#[verifier::external_body]
fn md5_of(data: &[u8]) -> (d: [u8; 16])
    ensures
        d@ == spec_md5(data@),
{
    md5::compute(data).0
}

/// Hexadecimal digit `i` of a run of bytes, the high half of a byte before
/// its low half.
pub open spec fn nibble(d: Seq<u8>, i: int) -> int {
    if i % 2 == 0 {
        d[i / 2] as int / 16
    } else {
        d[i / 2] as int % 16
    }
}

/// Whether the first `n` hexadecimal digits of a run of bytes are all zero.
pub open spec fn zero_prefix(d: Seq<u8>, n: int) -> bool {
    forall|i: int| 0 <= i < n ==> nibble(d, i) == 0
}

/// The decimal digits of a number, as ASCII bytes, without leading zeros.
pub open spec fn spec_decimal(i: nat) -> Seq<u8>
    decreases i,
{
    if i < 10 {
        seq![(48 + i) as u8]
    } else {
        spec_decimal(i / 10).push((48 + i % 10) as u8)
    }
}

/// Whether `suffix` behind `key` is a coin of `n` zeros: the digest of the
/// two together starts with `n` hexadecimal zeros.
pub open spec fn spec_is_coin(key: Seq<u8>, suffix: Seq<u8>, n: int) -> bool {
    zero_prefix(spec_md5(key + suffix), n)
}

/// Whether the first `n` hexadecimal digits of a digest are all zero.
pub fn has_zero_prefix(d: &[u8; 16], n: usize) -> (r: bool)
    requires
        n <= 32,
    ensures
        r == zero_prefix(d@, n as int),
{
    let mut i: usize = 0;
    while i < n
        invariant
            i <= n <= 32,
            forall|k: int| 0 <= k < i ==> nibble(d@, k) == 0,
        decreases n - i,
    {
        let byte: u8 = d[i / 2];
        let digit: u8 = if i % 2 == 0 {
            byte / 16
        } else {
            byte % 16
        };
        if digit != 0 {
            assert(nibble(d@, i as int) != 0);
            return false;
        }
        i += 1;
    }
    true
}

/// The MD5 digest of a key and a suffix taken together.
pub fn hash_bytes(key: &[u8], suffix: &[u8]) -> (d: [u8; 16])
    ensures
        d@ == spec_md5(key@ + suffix@),
{
    let mut message: Vec<u8> = Vec::new();
    message.extend_from_slice(key);
    message.extend_from_slice(suffix);
    assert(message@ =~= key@ + suffix@);
    md5_of(message.as_slice())
}

/// The MD5 digest of a key and a suffix taken together.
pub fn hash(key: &str, suffix: &str) -> (d: [u8; 16])
    ensures
        d@ == spec_md5(key.spec_bytes() + suffix.spec_bytes()),
{
    hash_bytes(key.as_bytes(), suffix.as_bytes())
}

/// Whether `suffix` behind `key` is a coin of `n` zeros.
pub fn is_coin(key: &str, suffix: &str, n: usize) -> (r: bool)
    requires
        n <= 32,
    ensures
        r == spec_is_coin(key.spec_bytes(), suffix.spec_bytes(), n as int),
{
    let d = hash(key, suffix);
    has_zero_prefix(&d, n)
}

/// The decimal digits of a number, as ASCII bytes.
pub fn decimal(i: u64) -> (r: Vec<u8>)
    ensures
        r@ == spec_decimal(i as nat),
    decreases i,
{
    if i < 10 {
        let mut r: Vec<u8> = Vec::new();
        r.push(48 + i as u8);
        assert(r@ =~= seq![(48 + i) as u8]);
        r
    } else {
        let mut r = decimal(i / 10);
        r.push(48 + (i % 10) as u8);
        r
    }
}

/// The least number from 1 on whose decimal digits, behind `key`, are a
/// coin of `n` zeros; none where no 64-bit number is one.
pub fn mine(key: &str, n: usize) -> (r: Option<u64>)
    requires
        n <= 32,
    ensures
        match r {
            Some(i) => {
                &&& 1 <= i
                &&& spec_is_coin(key.spec_bytes(), spec_decimal(i as nat), n as int)
                &&& forall|j: u64|
                    1 <= j < i ==> !spec_is_coin(
                        key.spec_bytes(),
                        #[trigger] spec_decimal(j as nat),
                        n as int,
                    )
            },
            None => forall|j: u64|
                1 <= j ==> !spec_is_coin(
                    key.spec_bytes(),
                    #[trigger] spec_decimal(j as nat),
                    n as int,
                ),
        },
{
    let mut i: u64 = 1;
    loop
        invariant
            1 <= i,
            n <= 32,
            forall|j: u64|
                1 <= j < i ==> !spec_is_coin(
                    key.spec_bytes(),
                    #[trigger] spec_decimal(j as nat),
                    n as int,
                ),
        decreases u64::MAX - i,
    {
        let suffix = decimal(i);
        let d = hash_bytes(key.as_bytes(), suffix.as_slice());
        if has_zero_prefix(&d, n) {
            return Some(i);
        }
        if i == u64::MAX {
            return None;
        }
        i += 1;
    }
}

} // verus!
