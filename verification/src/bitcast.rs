//! Little-endian packing of bytes into wider lanes and back.
//!
//! A lane of 2, 4, 8 or 16 bytes is the pair of its two halves, the low
//! half first. The model is plain arithmetic; the executable functions use
//! shifts and masks and are proved to agree with it.

use vstd::prelude::*;

verus! {

/// The 16-bit value whose low byte is `lo` and whose high byte is `hi`.
pub open spec fn pair_u16(lo: u8, hi: u8) -> u16 {
    (lo + 0x100 * hi) as u16
}

/// The 32-bit value whose low half is `lo` and whose high half is `hi`.
pub open spec fn pair_u32(lo: u16, hi: u16) -> u32 {
    (lo + 0x1_0000 * hi) as u32
}

/// The 64-bit value whose low half is `lo` and whose high half is `hi`.
pub open spec fn pair_u64(lo: u32, hi: u32) -> u64 {
    (lo + 0x1_0000_0000 * hi) as u64
}

/// The 128-bit value whose low half is `lo` and whose high half is `hi`.
pub open spec fn pair_u128(lo: u64, hi: u64) -> u128 {
    (lo + 0x1_0000_0000_0000_0000 * hi) as u128
}

/// The 16-bit lane that the bytes `b[at]`, `b[at + 1]` hold.
pub open spec fn le_u16(b: Seq<u8>, at: int) -> u16 {
    pair_u16(b[at], b[at + 1])
}

/// The 32-bit lane that the four bytes from `b[at]` on hold.
pub open spec fn le_u32(b: Seq<u8>, at: int) -> u32 {
    pair_u32(le_u16(b, at), le_u16(b, at + 2))
}

/// The 64-bit lane that the eight bytes from `b[at]` on hold.
pub open spec fn le_u64(b: Seq<u8>, at: int) -> u64 {
    pair_u64(le_u32(b, at), le_u32(b, at + 4))
}

/// The 128-bit lane that the sixteen bytes from `b[at]` on hold.
pub open spec fn le_u128(b: Seq<u8>, at: int) -> u128 {
    pair_u128(le_u64(b, at), le_u64(b, at + 8))
}

/// Byte `j` of a 16-bit lane, byte 0 being the lowest.
pub open spec fn byte_of_u16(x: u16, j: int) -> u8 {
    if j < 1 {
        (x % 0x100) as u8
    } else {
        (x / 0x100) as u8
    }
}

/// Byte `j` of a 32-bit lane, byte 0 being the lowest.
pub open spec fn byte_of_u32(x: u32, j: int) -> u8 {
    if j < 2 {
        byte_of_u16((x % 0x1_0000) as u16, j)
    } else {
        byte_of_u16((x / 0x1_0000) as u16, j - 2)
    }
}

/// Byte `j` of a 64-bit lane, byte 0 being the lowest.
pub open spec fn byte_of_u64(x: u64, j: int) -> u8 {
    if j < 4 {
        byte_of_u32((x % 0x1_0000_0000) as u32, j)
    } else {
        byte_of_u32((x / 0x1_0000_0000) as u32, j - 4)
    }
}

/// Byte `j` of a 128-bit lane, byte 0 being the lowest.
pub open spec fn byte_of_u128(x: u128, j: int) -> u8 {
    if j < 8 {
        byte_of_u64((x % 0x1_0000_0000_0000_0000) as u64, j)
    } else {
        byte_of_u64((x / 0x1_0000_0000_0000_0000) as u64, j - 8)
    }
}

/// Packs two bytes into a 16-bit lane, `lo` lowest.
pub fn join_u16(lo: u8, hi: u8) -> (r: u16)
    ensures
        r == pair_u16(lo, hi),
{
    let l: u16 = lo as u16;
    let h: u16 = hi as u16;
    assert(l | (h << 8) == l + 0x100 * h) by (bit_vector)
        requires
            l < 0x100,
            h < 0x100,
    ;
    l | (h << 8)
}

/// Packs two 16-bit halves into a 32-bit lane, `lo` lowest.
pub fn join_u32(lo: u16, hi: u16) -> (r: u32)
    ensures
        r == pair_u32(lo, hi),
{
    let l: u32 = lo as u32;
    let h: u32 = hi as u32;
    assert(l | (h << 16) == l + 0x1_0000 * h) by (bit_vector)
        requires
            l < 0x1_0000,
            h < 0x1_0000,
    ;
    l | (h << 16)
}

/// Packs two 32-bit halves into a 64-bit lane, `lo` lowest.
pub fn join_u64(lo: u32, hi: u32) -> (r: u64)
    ensures
        r == pair_u64(lo, hi),
{
    let l: u64 = lo as u64;
    let h: u64 = hi as u64;
    assert(l | (h << 32) == l + 0x1_0000_0000 * h) by (bit_vector)
        requires
            l < 0x1_0000_0000,
            h < 0x1_0000_0000,
    ;
    l | (h << 32)
}

/// Packs two 64-bit halves into a 128-bit lane, `lo` lowest.
pub fn join_u128(lo: u64, hi: u64) -> (r: u128)
    ensures
        r == pair_u128(lo, hi),
{
    let l: u128 = lo as u128;
    let h: u128 = hi as u128;
    assert(l | (h << 64) == l + 0x1_0000_0000_0000_0000 * h) by (bit_vector)
        requires
            l < 0x1_0000_0000_0000_0000,
            h < 0x1_0000_0000_0000_0000,
    ;
    l | (h << 64)
}

/// Splits a 16-bit lane into its low and high byte.
pub fn split_u16(x: u16) -> (r: (u8, u8))
    ensures
        r.0 == x % 0x100,
        r.1 == x / 0x100,
        pair_u16(r.0, r.1) == x,
{
    let l: u16 = x & 0xff;
    let h: u16 = x >> 8;
    assert(l == x % 0x100 && h == x / 0x100) by (bit_vector)
        requires
            l == x & 0xff,
            h == x >> 8,
    ;
    (l as u8, h as u8)
}

/// Splits a 32-bit lane into its low and high half.
pub fn split_u32(x: u32) -> (r: (u16, u16))
    ensures
        r.0 == x % 0x1_0000,
        r.1 == x / 0x1_0000,
        pair_u32(r.0, r.1) == x,
{
    let l: u32 = x & 0xffff;
    let h: u32 = x >> 16;
    assert(l == x % 0x1_0000 && h == x / 0x1_0000) by (bit_vector)
        requires
            l == x & 0xffff,
            h == x >> 16,
    ;
    (l as u16, h as u16)
}

/// Splits a 64-bit lane into its low and high half.
pub fn split_u64(x: u64) -> (r: (u32, u32))
    ensures
        r.0 == x % 0x1_0000_0000,
        r.1 == x / 0x1_0000_0000,
        pair_u64(r.0, r.1) == x,
{
    let l: u64 = x & 0xffff_ffff;
    let h: u64 = x >> 32;
    assert(l == x % 0x1_0000_0000 && h == x / 0x1_0000_0000) by (bit_vector)
        requires
            l == x & 0xffff_ffff,
            h == x >> 32,
    ;
    (l as u32, h as u32)
}

/// Splits a 128-bit lane into its low and high half.
pub fn split_u128(x: u128) -> (r: (u64, u64))
    ensures
        r.0 == x % 0x1_0000_0000_0000_0000,
        r.1 == x / 0x1_0000_0000_0000_0000,
        pair_u128(r.0, r.1) == x,
{
    let l: u128 = x & 0xffff_ffff_ffff_ffff;
    let h: u128 = x >> 64;
    assert(l == x % 0x1_0000_0000_0000_0000 && h == x / 0x1_0000_0000_0000_0000) by (bit_vector)
        requires
            l == x & 0xffff_ffff_ffff_ffff,
            h == x >> 64,
    ;
    (l as u64, h as u64)
}

/// The halves of a paired 16-bit value are the bytes it was made from.
pub proof fn lemma_halves_u16(lo: u8, hi: u8)
    ensures
        pair_u16(lo, hi) % 0x100 == lo,
        pair_u16(lo, hi) / 0x100 == hi,
{
}

/// The halves of a paired 32-bit value are the halves it was made from.
pub proof fn lemma_halves_u32(lo: u16, hi: u16)
    ensures
        pair_u32(lo, hi) % 0x1_0000 == lo,
        pair_u32(lo, hi) / 0x1_0000 == hi,
{
}

/// The halves of a paired 64-bit value are the halves it was made from.
pub proof fn lemma_halves_u64(lo: u32, hi: u32)
    ensures
        pair_u64(lo, hi) % 0x1_0000_0000 == lo,
        pair_u64(lo, hi) / 0x1_0000_0000 == hi,
{
}

/// The halves of a paired 128-bit value are the halves it was made from.
pub proof fn lemma_halves_u128(lo: u64, hi: u64)
    ensures
        pair_u128(lo, hi) % 0x1_0000_0000_0000_0000 == lo,
        pair_u128(lo, hi) / 0x1_0000_0000_0000_0000 == hi,
{
}

/// Reading back byte `j` of the 16-bit lane at `at` gives `b[at + j]`.
pub proof fn lemma_byte_of_le_u16(b: Seq<u8>, at: int, j: int)
    requires
        0 <= at,
        at + 2 <= b.len(),
        0 <= j < 2,
    ensures
        byte_of_u16(le_u16(b, at), j) == b[at + j],
{
    lemma_halves_u16(b[at], b[at + 1]);
}

/// Reading back byte `j` of the 32-bit lane at `at` gives `b[at + j]`.
pub proof fn lemma_byte_of_le_u32(b: Seq<u8>, at: int, j: int)
    requires
        0 <= at,
        at + 4 <= b.len(),
        0 <= j < 4,
    ensures
        byte_of_u32(le_u32(b, at), j) == b[at + j],
{
    lemma_halves_u32(le_u16(b, at), le_u16(b, at + 2));
    if j < 2 {
        lemma_byte_of_le_u16(b, at, j);
    } else {
        lemma_byte_of_le_u16(b, at + 2, j - 2);
    }
}

/// Reading back byte `j` of the 64-bit lane at `at` gives `b[at + j]`.
pub proof fn lemma_byte_of_le_u64(b: Seq<u8>, at: int, j: int)
    requires
        0 <= at,
        at + 8 <= b.len(),
        0 <= j < 8,
    ensures
        byte_of_u64(le_u64(b, at), j) == b[at + j],
{
    lemma_halves_u64(le_u32(b, at), le_u32(b, at + 4));
    if j < 4 {
        lemma_byte_of_le_u32(b, at, j);
    } else {
        lemma_byte_of_le_u32(b, at + 4, j - 4);
    }
}

/// Reading back byte `j` of the 128-bit lane at `at` gives `b[at + j]`.
pub proof fn lemma_byte_of_le_u128(b: Seq<u8>, at: int, j: int)
    requires
        0 <= at,
        at + 16 <= b.len(),
        0 <= j < 16,
    ensures
        byte_of_u128(le_u128(b, at), j) == b[at + j],
{
    lemma_halves_u128(le_u64(b, at), le_u64(b, at + 8));
    if j < 8 {
        lemma_byte_of_le_u64(b, at, j);
    } else {
        lemma_byte_of_le_u64(b, at + 8, j - 8);
    }
}

/// Bytes that spell out a 16-bit lane pack to that lane.
pub proof fn lemma_le_of_bytes_u16(x: u16, b: Seq<u8>, at: int)
    requires
        0 <= at,
        at + 2 <= b.len(),
        forall|j: int| 0 <= j < 2 ==> b[at + j] == byte_of_u16(x, j),
    ensures
        le_u16(b, at) == x,
{
    assert(b[at + 0] == byte_of_u16(x, 0));
    assert(b[at + 1] == byte_of_u16(x, 1));
}

/// Bytes that spell out a 32-bit lane pack to that lane.
pub proof fn lemma_le_of_bytes_u32(x: u32, b: Seq<u8>, at: int)
    requires
        0 <= at,
        at + 4 <= b.len(),
        forall|j: int| 0 <= j < 4 ==> b[at + j] == byte_of_u32(x, j),
    ensures
        le_u32(b, at) == x,
{
    let lo = (x % 0x1_0000) as u16;
    let hi = (x / 0x1_0000) as u16;
    assert forall|j: int| 0 <= j < 2 implies b[at + j] == byte_of_u16(lo, j) by {
        assert(b[at + j] == byte_of_u32(x, j));
    }
    assert forall|j: int| 0 <= j < 2 implies b[at + 2 + j] == byte_of_u16(hi, j) by {
        assert(b[at + (j + 2)] == byte_of_u32(x, j + 2));
    }
    lemma_le_of_bytes_u16(lo, b, at);
    lemma_le_of_bytes_u16(hi, b, at + 2);
}

/// Bytes that spell out a 64-bit lane pack to that lane.
pub proof fn lemma_le_of_bytes_u64(x: u64, b: Seq<u8>, at: int)
    requires
        0 <= at,
        at + 8 <= b.len(),
        forall|j: int| 0 <= j < 8 ==> b[at + j] == byte_of_u64(x, j),
    ensures
        le_u64(b, at) == x,
{
    let lo = (x % 0x1_0000_0000) as u32;
    let hi = (x / 0x1_0000_0000) as u32;
    assert forall|j: int| 0 <= j < 4 implies b[at + j] == byte_of_u32(lo, j) by {
        assert(b[at + j] == byte_of_u64(x, j));
    }
    assert forall|j: int| 0 <= j < 4 implies b[at + 4 + j] == byte_of_u32(hi, j) by {
        assert(b[at + (j + 4)] == byte_of_u64(x, j + 4));
    }
    lemma_le_of_bytes_u32(lo, b, at);
    lemma_le_of_bytes_u32(hi, b, at + 4);
}

/// Bytes that spell out a 128-bit lane pack to that lane.
pub proof fn lemma_le_of_bytes_u128(x: u128, b: Seq<u8>, at: int)
    requires
        0 <= at,
        at + 16 <= b.len(),
        forall|j: int| 0 <= j < 16 ==> b[at + j] == byte_of_u128(x, j),
    ensures
        le_u128(b, at) == x,
{
    let lo = (x % 0x1_0000_0000_0000_0000) as u64;
    let hi = (x / 0x1_0000_0000_0000_0000) as u64;
    assert forall|j: int| 0 <= j < 8 implies b[at + j] == byte_of_u64(lo, j) by {
        assert(b[at + j] == byte_of_u128(x, j));
    }
    assert forall|j: int| 0 <= j < 8 implies b[at + 8 + j] == byte_of_u64(hi, j) by {
        assert(b[at + (j + 8)] == byte_of_u128(x, j + 8));
    }
    lemma_le_of_bytes_u64(lo, b, at);
    lemma_le_of_bytes_u64(hi, b, at + 8);
}

/// Reads the 16-bit lane that starts at byte `at`.
pub fn read_u16(b: &[u8], at: usize) -> (r: u16)
    requires
        at + 2 <= b.len(),
    ensures
        r == le_u16(b@, at as int),
{
    join_u16(b[at], b[at + 1])
}

/// Reads the 32-bit lane that starts at byte `at`.
pub fn read_u32(b: &[u8], at: usize) -> (r: u32)
    requires
        at + 4 <= b.len(),
    ensures
        r == le_u32(b@, at as int),
{
    join_u32(read_u16(b, at), read_u16(b, at + 2))
}

/// Reads the 64-bit lane that starts at byte `at`.
pub fn read_u64(b: &[u8], at: usize) -> (r: u64)
    requires
        at + 8 <= b.len(),
    ensures
        r == le_u64(b@, at as int),
{
    join_u64(read_u32(b, at), read_u32(b, at + 4))
}

/// Reads the 128-bit lane that starts at byte `at`.
pub fn read_u128(b: &[u8], at: usize) -> (r: u128)
    requires
        at + 16 <= b.len(),
    ensures
        r == le_u128(b@, at as int),
{
    join_u128(read_u64(b, at), read_u64(b, at + 8))
}

/// Byte `j` of a 16-bit lane.
pub fn nth_byte_u16(x: u16, j: usize) -> (r: u8)
    requires
        j < 2,
    ensures
        r == byte_of_u16(x, j as int),
{
    let (lo, hi) = split_u16(x);
    if j < 1 {
        lo
    } else {
        hi
    }
}

/// Byte `j` of a 32-bit lane.
pub fn nth_byte_u32(x: u32, j: usize) -> (r: u8)
    requires
        j < 4,
    ensures
        r == byte_of_u32(x, j as int),
{
    let (lo, hi) = split_u32(x);
    if j < 2 {
        nth_byte_u16(lo, j)
    } else {
        nth_byte_u16(hi, j - 2)
    }
}

/// Byte `j` of a 64-bit lane.
pub fn nth_byte_u64(x: u64, j: usize) -> (r: u8)
    requires
        j < 8,
    ensures
        r == byte_of_u64(x, j as int),
{
    let (lo, hi) = split_u64(x);
    if j < 4 {
        nth_byte_u32(lo, j)
    } else {
        nth_byte_u32(hi, j - 4)
    }
}

/// Byte `j` of a 128-bit lane.
pub fn nth_byte_u128(x: u128, j: usize) -> (r: u8)
    requires
        j < 16,
    ensures
        r == byte_of_u128(x, j as int),
{
    let (lo, hi) = split_u128(x);
    if j < 8 {
        nth_byte_u64(lo, j)
    } else {
        nth_byte_u64(hi, j - 8)
    }
}

/// The 16-bit lanes that a run of bytes holds, lane 0 lowest.
pub open spec fn unpack_u16(b: Seq<u8>) -> Seq<u16> {
    Seq::new(b.len() / 2, |i: int| le_u16(b, 2 * i))
}

/// The bytes that hold a run of 16-bit lanes, lane 0 lowest.
pub open spec fn pack_u16(l: Seq<u16>) -> Seq<u8> {
    Seq::new(2 * l.len(), |k: int| byte_of_u16(l[k / 2], k % 2))
}

/// Unpacking bytes into 16-bit lanes and packing them again changes nothing.
pub proof fn lemma_pack_unpack_u16(b: Seq<u8>)
    requires
        b.len() % 2 == 0,
    ensures
        unpack_u16(b).len() * 2 == b.len(),
        pack_u16(unpack_u16(b)) == b,
{
    let p = pack_u16(unpack_u16(b));
    assert forall|k: int| 0 <= k < b.len() implies p[k] == b[k] by {
        lemma_byte_of_le_u16(b, 2 * (k / 2), k % 2);
    }
    assert(p =~= b);
}

/// Packing 16-bit lanes into bytes and unpacking them again changes nothing.
pub proof fn lemma_unpack_pack_u16(l: Seq<u16>)
    ensures
        pack_u16(l).len() == 2 * l.len(),
        unpack_u16(pack_u16(l)) == l,
{
    let p = pack_u16(l);
    let u = unpack_u16(p);
    assert forall|i: int| 0 <= i < l.len() implies u[i] == l[i] by {
        assert forall|j: int| 0 <= j < 2 implies p[2 * i + j] == byte_of_u16(l[i], j) by {
            assert((2 * i + j) / 2 == i && (2 * i + j) % 2 == j);
        }
        lemma_le_of_bytes_u16(l[i], p, 2 * i);
    }
    assert(u =~= l);
}

/// Reinterprets `W` bytes as `N` lanes of 16 bits.
pub fn lanes_u16<const W: usize, const N: usize>(b: &[u8; W]) -> (r: [u16; N])
    requires
        W == 2 * N,
    ensures
        r@ == unpack_u16(b@),
{
    let mut r: [u16; N] = [0; N];
    let mut i: usize = 0;
    while i < N
        invariant
            W == 2 * N,
            i <= N,
            forall|k: int| 0 <= k < i ==> r@[k] == le_u16(b@, 2 * k),
        decreases N - i,
    {
        r[i] = read_u16(b.as_slice(), 2 * i);
        i += 1;
    }
    assert(r@ =~= unpack_u16(b@));
    r
}

/// Reinterprets `N` lanes of 16 bits as `W` bytes.
pub fn bytes_u16<const N: usize, const W: usize>(l: &[u16; N]) -> (r: [u8; W])
    requires
        W == 2 * N,
    ensures
        r@ == pack_u16(l@),
{
    let mut r: [u8; W] = [0; W];
    let mut k: usize = 0;
    while k < W
        invariant
            W == 2 * N,
            k <= W,
            forall|j: int| 0 <= j < k ==> r@[j] == byte_of_u16(l@[j / 2], j % 2),
        decreases W - k,
    {
        r[k] = nth_byte_u16(l[k / 2], k % 2);
        k += 1;
    }
    assert(r@ =~= pack_u16(l@));
    r
}

/// The 32-bit lanes that a run of bytes holds, lane 0 lowest.
pub open spec fn unpack_u32(b: Seq<u8>) -> Seq<u32> {
    Seq::new(b.len() / 4, |i: int| le_u32(b, 4 * i))
}

/// The bytes that hold a run of 32-bit lanes, lane 0 lowest.
pub open spec fn pack_u32(l: Seq<u32>) -> Seq<u8> {
    Seq::new(4 * l.len(), |k: int| byte_of_u32(l[k / 4], k % 4))
}

/// Unpacking bytes into 32-bit lanes and packing them again changes nothing.
pub proof fn lemma_pack_unpack_u32(b: Seq<u8>)
    requires
        b.len() % 4 == 0,
    ensures
        unpack_u32(b).len() * 4 == b.len(),
        pack_u32(unpack_u32(b)) == b,
{
    let p = pack_u32(unpack_u32(b));
    assert forall|k: int| 0 <= k < b.len() implies p[k] == b[k] by {
        lemma_byte_of_le_u32(b, 4 * (k / 4), k % 4);
    }
    assert(p =~= b);
}

/// Packing 32-bit lanes into bytes and unpacking them again changes nothing.
pub proof fn lemma_unpack_pack_u32(l: Seq<u32>)
    ensures
        pack_u32(l).len() == 4 * l.len(),
        unpack_u32(pack_u32(l)) == l,
{
    let p = pack_u32(l);
    let u = unpack_u32(p);
    assert forall|i: int| 0 <= i < l.len() implies u[i] == l[i] by {
        assert forall|j: int| 0 <= j < 4 implies p[4 * i + j] == byte_of_u32(l[i], j) by {
            assert((4 * i + j) / 4 == i && (4 * i + j) % 4 == j);
        }
        lemma_le_of_bytes_u32(l[i], p, 4 * i);
    }
    assert(u =~= l);
}

/// Reinterprets `W` bytes as `N` lanes of 32 bits.
pub fn lanes_u32<const W: usize, const N: usize>(b: &[u8; W]) -> (r: [u32; N])
    requires
        W == 4 * N,
    ensures
        r@ == unpack_u32(b@),
{
    let mut r: [u32; N] = [0; N];
    let mut i: usize = 0;
    while i < N
        invariant
            W == 4 * N,
            i <= N,
            forall|k: int| 0 <= k < i ==> r@[k] == le_u32(b@, 4 * k),
        decreases N - i,
    {
        r[i] = read_u32(b.as_slice(), 4 * i);
        i += 1;
    }
    assert(r@ =~= unpack_u32(b@));
    r
}

/// Reinterprets `N` lanes of 32 bits as `W` bytes.
pub fn bytes_u32<const N: usize, const W: usize>(l: &[u32; N]) -> (r: [u8; W])
    requires
        W == 4 * N,
    ensures
        r@ == pack_u32(l@),
{
    let mut r: [u8; W] = [0; W];
    let mut k: usize = 0;
    while k < W
        invariant
            W == 4 * N,
            k <= W,
            forall|j: int| 0 <= j < k ==> r@[j] == byte_of_u32(l@[j / 4], j % 4),
        decreases W - k,
    {
        r[k] = nth_byte_u32(l[k / 4], k % 4);
        k += 1;
    }
    assert(r@ =~= pack_u32(l@));
    r
}

/// The 64-bit lanes that a run of bytes holds, lane 0 lowest.
pub open spec fn unpack_u64(b: Seq<u8>) -> Seq<u64> {
    Seq::new(b.len() / 8, |i: int| le_u64(b, 8 * i))
}

/// The bytes that hold a run of 64-bit lanes, lane 0 lowest.
pub open spec fn pack_u64(l: Seq<u64>) -> Seq<u8> {
    Seq::new(8 * l.len(), |k: int| byte_of_u64(l[k / 8], k % 8))
}

/// Unpacking bytes into 64-bit lanes and packing them again changes nothing.
pub proof fn lemma_pack_unpack_u64(b: Seq<u8>)
    requires
        b.len() % 8 == 0,
    ensures
        unpack_u64(b).len() * 8 == b.len(),
        pack_u64(unpack_u64(b)) == b,
{
    let p = pack_u64(unpack_u64(b));
    assert forall|k: int| 0 <= k < b.len() implies p[k] == b[k] by {
        lemma_byte_of_le_u64(b, 8 * (k / 8), k % 8);
    }
    assert(p =~= b);
}

/// Packing 64-bit lanes into bytes and unpacking them again changes nothing.
pub proof fn lemma_unpack_pack_u64(l: Seq<u64>)
    ensures
        pack_u64(l).len() == 8 * l.len(),
        unpack_u64(pack_u64(l)) == l,
{
    let p = pack_u64(l);
    let u = unpack_u64(p);
    assert forall|i: int| 0 <= i < l.len() implies u[i] == l[i] by {
        assert forall|j: int| 0 <= j < 8 implies p[8 * i + j] == byte_of_u64(l[i], j) by {
            assert((8 * i + j) / 8 == i && (8 * i + j) % 8 == j);
        }
        lemma_le_of_bytes_u64(l[i], p, 8 * i);
    }
    assert(u =~= l);
}

/// Reinterprets `W` bytes as `N` lanes of 64 bits.
pub fn lanes_u64<const W: usize, const N: usize>(b: &[u8; W]) -> (r: [u64; N])
    requires
        W == 8 * N,
    ensures
        r@ == unpack_u64(b@),
{
    let mut r: [u64; N] = [0; N];
    let mut i: usize = 0;
    while i < N
        invariant
            W == 8 * N,
            i <= N,
            forall|k: int| 0 <= k < i ==> r@[k] == le_u64(b@, 8 * k),
        decreases N - i,
    {
        r[i] = read_u64(b.as_slice(), 8 * i);
        i += 1;
    }
    assert(r@ =~= unpack_u64(b@));
    r
}

/// Reinterprets `N` lanes of 64 bits as `W` bytes.
pub fn bytes_u64<const N: usize, const W: usize>(l: &[u64; N]) -> (r: [u8; W])
    requires
        W == 8 * N,
    ensures
        r@ == pack_u64(l@),
{
    let mut r: [u8; W] = [0; W];
    let mut k: usize = 0;
    while k < W
        invariant
            W == 8 * N,
            k <= W,
            forall|j: int| 0 <= j < k ==> r@[j] == byte_of_u64(l@[j / 8], j % 8),
        decreases W - k,
    {
        r[k] = nth_byte_u64(l[k / 8], k % 8);
        k += 1;
    }
    assert(r@ =~= pack_u64(l@));
    r
}

/// The 128-bit lanes that a run of bytes holds, lane 0 lowest.
pub open spec fn unpack_u128(b: Seq<u8>) -> Seq<u128> {
    Seq::new(b.len() / 16, |i: int| le_u128(b, 16 * i))
}

/// The bytes that hold a run of 128-bit lanes, lane 0 lowest.
pub open spec fn pack_u128(l: Seq<u128>) -> Seq<u8> {
    Seq::new(16 * l.len(), |k: int| byte_of_u128(l[k / 16], k % 16))
}

/// Unpacking bytes into 128-bit lanes and packing them again changes nothing.
pub proof fn lemma_pack_unpack_u128(b: Seq<u8>)
    requires
        b.len() % 16 == 0,
    ensures
        unpack_u128(b).len() * 16 == b.len(),
        pack_u128(unpack_u128(b)) == b,
{
    let p = pack_u128(unpack_u128(b));
    assert forall|k: int| 0 <= k < b.len() implies p[k] == b[k] by {
        lemma_byte_of_le_u128(b, 16 * (k / 16), k % 16);
    }
    assert(p =~= b);
}

/// Packing 128-bit lanes into bytes and unpacking them again changes nothing.
pub proof fn lemma_unpack_pack_u128(l: Seq<u128>)
    ensures
        pack_u128(l).len() == 16 * l.len(),
        unpack_u128(pack_u128(l)) == l,
{
    let p = pack_u128(l);
    let u = unpack_u128(p);
    assert forall|i: int| 0 <= i < l.len() implies u[i] == l[i] by {
        assert forall|j: int| 0 <= j < 16 implies p[16 * i + j] == byte_of_u128(l[i], j) by {
            assert((16 * i + j) / 16 == i && (16 * i + j) % 16 == j);
        }
        lemma_le_of_bytes_u128(l[i], p, 16 * i);
    }
    assert(u =~= l);
}

/// Reinterprets `W` bytes as `N` lanes of 128 bits.
pub fn lanes_u128<const W: usize, const N: usize>(b: &[u8; W]) -> (r: [u128; N])
    requires
        W == 16 * N,
    ensures
        r@ == unpack_u128(b@),
{
    let mut r: [u128; N] = [0; N];
    let mut i: usize = 0;
    while i < N
        invariant
            W == 16 * N,
            i <= N,
            forall|k: int| 0 <= k < i ==> r@[k] == le_u128(b@, 16 * k),
        decreases N - i,
    {
        r[i] = read_u128(b.as_slice(), 16 * i);
        i += 1;
    }
    assert(r@ =~= unpack_u128(b@));
    r
}

/// Reinterprets `N` lanes of 128 bits as `W` bytes.
pub fn bytes_u128<const N: usize, const W: usize>(l: &[u128; N]) -> (r: [u8; W])
    requires
        W == 16 * N,
    ensures
        r@ == pack_u128(l@),
{
    let mut r: [u8; W] = [0; W];
    let mut k: usize = 0;
    while k < W
        invariant
            W == 16 * N,
            k <= W,
            forall|j: int| 0 <= j < k ==> r@[j] == byte_of_u128(l@[j / 16], j % 16),
        decreases W - k,
    {
        r[k] = nth_byte_u128(l[k / 16], k % 16);
        k += 1;
    }
    assert(r@ =~= pack_u128(l@));
    r
}

} // verus!
