//! Vectors in two shapes: the register-shaped byte container and the
//! explicit sequence of lanes, with the lossless conversions between them.

use crate::bitcast::{
    byte_of_u128, bytes_u128, bytes_u16, bytes_u32, bytes_u64, lanes_u128, lanes_u16, lanes_u32,
    lanes_u64, le_u128, lemma_byte_of_le_u128, lemma_le_of_bytes_u128, lemma_pack_unpack_u128,
    lemma_pack_unpack_u16, lemma_pack_unpack_u32, lemma_pack_unpack_u64, lemma_unpack_pack_u128,
    lemma_unpack_pack_u16, lemma_unpack_pack_u32, lemma_unpack_pack_u64, pack_u128, pack_u16,
    pack_u32, pack_u64, read_u128, unpack_u128, unpack_u16, unpack_u32, unpack_u64,
};
use vstd::prelude::*;

verus! {

/// A 128-bit register: sixteen bytes, byte 0 at the lowest offset.
#[allow(non_camel_case_types)]
#[derive(Clone, Copy, Debug)]
pub struct __m128i(pub [u8; 16]);

/// A 256-bit register: thirty-two bytes, byte 0 at the lowest offset.
#[allow(non_camel_case_types)]
#[derive(Clone, Copy, Debug)]
pub struct __m256i(pub [u8; 32]);

impl View for __m128i {
    type V = Seq<u8>;

    open spec fn view(&self) -> Seq<u8> {
        self.0@
    }
}

impl View for __m256i {
    type V = Seq<u8>;

    open spec fn view(&self) -> Seq<u8> {
        self.0@
    }
}

/// A lane type that forms vectors of `N` lanes.
pub trait Vector<const N: usize>: Copy {
    /// The portable vector: `N` lanes, lane 0 first.
    type Vec: Copy;

    /// The register that holds the same bits.
    type Machine: Copy;

    /// The lanes of a portable vector, lane 0 first.
    spec fn lanes(v: Self::Vec) -> Seq<Self>;

    /// The bytes of a register, lowest offset first.
    spec fn bytes(m: Self::Machine) -> Seq<u8>;

    /// How many bytes the register has.
    spec fn width() -> nat;

    /// The lanes that a register of these bytes holds.
    spec fn decode(b: Seq<u8>) -> Seq<Self>;

    /// The bytes of the register that holds these lanes.
    spec fn encode(l: Seq<Self>) -> Seq<u8>;

    /// Every portable vector has exactly `N` lanes, and two with the same
    /// lanes are the same vector.
    proof fn lemma_lanes(v: Self::Vec)
        ensures
            Self::lanes(v).len() == N,
            forall|w: Self::Vec| Self::lanes(w) == Self::lanes(v) ==> w == v,
    ;

    /// Every register has exactly `width()` bytes, and two with the same
    /// bytes are the same register.
    proof fn lemma_bytes(m: Self::Machine)
        ensures
            Self::bytes(m).len() == Self::width(),
            forall|w: Self::Machine| Self::bytes(w) == Self::bytes(m) ==> w == m,
    ;

    /// Decoding a register's bytes and encoding the lanes again gives the
    /// bytes back.
    proof fn lemma_encode_decode(b: Seq<u8>)
        requires
            b.len() == Self::width(),
        ensures
            Self::decode(b).len() == N,
            Self::encode(Self::decode(b)) == b,
    ;

    /// Encoding lanes and decoding the bytes again gives the lanes back.
    proof fn lemma_decode_encode(l: Seq<Self>)
        requires
            l.len() == N,
        ensures
            Self::encode(l).len() == Self::width(),
            Self::decode(Self::encode(l)) == l,
    ;

    /// Builds a vector from its lanes.
    fn new(lanes: [Self; N]) -> (v: Self::Vec)
        ensures
            Self::lanes(v) == lanes@,
    ;

    /// Lane `i` of a vector.
    fn get(v: Self::Vec, i: usize) -> (x: Self)
        requires
            i < N,
        ensures
            x == Self::lanes(v)[i as int],
    ;

    /// The portable view of a register's bits.
    fn to_vec(m: Self::Machine) -> (v: Self::Vec)
        ensures
            Self::lanes(v) == Self::decode(Self::bytes(m)),
    ;

    /// The register that holds a portable vector's bits.
    fn from_vec(v: Self::Vec) -> (m: Self::Machine)
        ensures
            Self::bytes(m) == Self::encode(Self::lanes(v)),
    ;
}

/// Sixteen 8-bit lanes.
#[allow(non_camel_case_types)]
#[derive(Clone, Copy, Debug)]
pub struct u8x16(pub [u8; 16]);

impl u8x16 {
    /// The lanes that a register holds.
    pub fn from_machine(m: __m128i) -> (v: u8x16)
        ensures
            v.0@ == m@,
    {
        u8x16(m.0)
    }

    /// The register that holds these lanes.
    pub fn to_machine(self) -> (m: __m128i)
        ensures
            m@ == self.0@,
    {
        __m128i(self.0)
    }
}

impl Vector<16> for u8 {
    type Vec = u8x16;

    type Machine = __m128i;

    open spec fn lanes(v: u8x16) -> Seq<u8> {
        v.0@
    }

    open spec fn bytes(m: __m128i) -> Seq<u8> {
        m.0@
    }

    open spec fn width() -> nat {
        16
    }

    open spec fn decode(b: Seq<u8>) -> Seq<u8> {
        b
    }

    open spec fn encode(l: Seq<u8>) -> Seq<u8> {
        l
    }

    proof fn lemma_lanes(v: u8x16) {
        assert forall|w: u8x16| w.0@ == v.0@ implies w == v by {
            assert(w.0 =~= v.0);
        }
    }

    proof fn lemma_bytes(m: __m128i) {
        assert forall|w: __m128i| w.0@ == m.0@ implies w == m by {
            assert(w.0 =~= m.0);
        }
    }

    proof fn lemma_encode_decode(b: Seq<u8>) {
    }

    proof fn lemma_decode_encode(l: Seq<u8>) {
    }

    fn new(lanes: [u8; 16]) -> (v: u8x16) {
        u8x16(lanes)
    }

    fn get(v: u8x16, i: usize) -> (x: u8) {
        v.0[i]
    }

    fn to_vec(m: __m128i) -> (v: u8x16) {
        u8x16::from_machine(m)
    }

    fn from_vec(v: u8x16) -> (m: __m128i) {
        v.to_machine()
    }
}

/// Thirty-two 8-bit lanes.
#[allow(non_camel_case_types)]
#[derive(Clone, Copy, Debug)]
pub struct u8x32(pub [u8; 32]);

impl u8x32 {
    /// The lanes that a register holds.
    pub fn from_machine(m: __m256i) -> (v: u8x32)
        ensures
            v.0@ == m@,
    {
        u8x32(m.0)
    }

    /// The register that holds these lanes.
    pub fn to_machine(self) -> (m: __m256i)
        ensures
            m@ == self.0@,
    {
        __m256i(self.0)
    }
}

impl Vector<32> for u8 {
    type Vec = u8x32;

    type Machine = __m256i;

    open spec fn lanes(v: u8x32) -> Seq<u8> {
        v.0@
    }

    open spec fn bytes(m: __m256i) -> Seq<u8> {
        m.0@
    }

    open spec fn width() -> nat {
        32
    }

    open spec fn decode(b: Seq<u8>) -> Seq<u8> {
        b
    }

    open spec fn encode(l: Seq<u8>) -> Seq<u8> {
        l
    }

    proof fn lemma_lanes(v: u8x32) {
        assert forall|w: u8x32| w.0@ == v.0@ implies w == v by {
            assert(w.0 =~= v.0);
        }
    }

    proof fn lemma_bytes(m: __m256i) {
        assert forall|w: __m256i| w.0@ == m.0@ implies w == m by {
            assert(w.0 =~= m.0);
        }
    }

    proof fn lemma_encode_decode(b: Seq<u8>) {
    }

    proof fn lemma_decode_encode(l: Seq<u8>) {
    }

    fn new(lanes: [u8; 32]) -> (v: u8x32) {
        u8x32(lanes)
    }

    fn get(v: u8x32, i: usize) -> (x: u8) {
        v.0[i]
    }

    fn to_vec(m: __m256i) -> (v: u8x32) {
        u8x32::from_machine(m)
    }

    fn from_vec(v: u8x32) -> (m: __m256i) {
        v.to_machine()
    }
}

/// Eight 16-bit lanes.
#[allow(non_camel_case_types)]
#[derive(Clone, Copy, Debug)]
pub struct u16x8(pub [u16; 8]);

impl u16x8 {
    /// The lanes that a register holds.
    pub fn from_machine(m: __m128i) -> (v: u16x8)
        ensures
            v.0@ == unpack_u16(m@),
    {
        u16x8(lanes_u16(&m.0))
    }

    /// The register that holds these lanes.
    pub fn to_machine(self) -> (m: __m128i)
        ensures
            m@ == pack_u16(self.0@),
    {
        __m128i(bytes_u16(&self.0))
    }
}

impl Vector<8> for u16 {
    type Vec = u16x8;

    type Machine = __m128i;

    open spec fn lanes(v: u16x8) -> Seq<u16> {
        v.0@
    }

    open spec fn bytes(m: __m128i) -> Seq<u8> {
        m.0@
    }

    open spec fn width() -> nat {
        16
    }

    open spec fn decode(b: Seq<u8>) -> Seq<u16> {
        unpack_u16(b)
    }

    open spec fn encode(l: Seq<u16>) -> Seq<u8> {
        pack_u16(l)
    }

    proof fn lemma_lanes(v: u16x8) {
        assert forall|w: u16x8| w.0@ == v.0@ implies w == v by {
            assert(w.0 =~= v.0);
        }
    }

    proof fn lemma_bytes(m: __m128i) {
        assert forall|w: __m128i| w.0@ == m.0@ implies w == m by {
            assert(w.0 =~= m.0);
        }
    }

    proof fn lemma_encode_decode(b: Seq<u8>) {
        lemma_pack_unpack_u16(b);
    }

    proof fn lemma_decode_encode(l: Seq<u16>) {
        lemma_unpack_pack_u16(l);
    }

    fn new(lanes: [u16; 8]) -> (v: u16x8) {
        u16x8(lanes)
    }

    fn get(v: u16x8, i: usize) -> (x: u16) {
        v.0[i]
    }

    fn to_vec(m: __m128i) -> (v: u16x8) {
        u16x8::from_machine(m)
    }

    fn from_vec(v: u16x8) -> (m: __m128i) {
        v.to_machine()
    }
}

/// Sixteen 16-bit lanes.
#[allow(non_camel_case_types)]
#[derive(Clone, Copy, Debug)]
pub struct u16x16(pub [u16; 16]);

impl u16x16 {
    /// The lanes that a register holds.
    pub fn from_machine(m: __m256i) -> (v: u16x16)
        ensures
            v.0@ == unpack_u16(m@),
    {
        u16x16(lanes_u16(&m.0))
    }

    /// The register that holds these lanes.
    pub fn to_machine(self) -> (m: __m256i)
        ensures
            m@ == pack_u16(self.0@),
    {
        __m256i(bytes_u16(&self.0))
    }
}

impl Vector<16> for u16 {
    type Vec = u16x16;

    type Machine = __m256i;

    open spec fn lanes(v: u16x16) -> Seq<u16> {
        v.0@
    }

    open spec fn bytes(m: __m256i) -> Seq<u8> {
        m.0@
    }

    open spec fn width() -> nat {
        32
    }

    open spec fn decode(b: Seq<u8>) -> Seq<u16> {
        unpack_u16(b)
    }

    open spec fn encode(l: Seq<u16>) -> Seq<u8> {
        pack_u16(l)
    }

    proof fn lemma_lanes(v: u16x16) {
        assert forall|w: u16x16| w.0@ == v.0@ implies w == v by {
            assert(w.0 =~= v.0);
        }
    }

    proof fn lemma_bytes(m: __m256i) {
        assert forall|w: __m256i| w.0@ == m.0@ implies w == m by {
            assert(w.0 =~= m.0);
        }
    }

    proof fn lemma_encode_decode(b: Seq<u8>) {
        lemma_pack_unpack_u16(b);
    }

    proof fn lemma_decode_encode(l: Seq<u16>) {
        lemma_unpack_pack_u16(l);
    }

    fn new(lanes: [u16; 16]) -> (v: u16x16) {
        u16x16(lanes)
    }

    fn get(v: u16x16, i: usize) -> (x: u16) {
        v.0[i]
    }

    fn to_vec(m: __m256i) -> (v: u16x16) {
        u16x16::from_machine(m)
    }

    fn from_vec(v: u16x16) -> (m: __m256i) {
        v.to_machine()
    }
}

/// Four 32-bit lanes.
#[allow(non_camel_case_types)]
#[derive(Clone, Copy, Debug)]
pub struct u32x4(pub [u32; 4]);

impl u32x4 {
    /// The lanes that a register holds.
    pub fn from_machine(m: __m128i) -> (v: u32x4)
        ensures
            v.0@ == unpack_u32(m@),
    {
        u32x4(lanes_u32(&m.0))
    }

    /// The register that holds these lanes.
    pub fn to_machine(self) -> (m: __m128i)
        ensures
            m@ == pack_u32(self.0@),
    {
        __m128i(bytes_u32(&self.0))
    }
}

impl Vector<4> for u32 {
    type Vec = u32x4;

    type Machine = __m128i;

    open spec fn lanes(v: u32x4) -> Seq<u32> {
        v.0@
    }

    open spec fn bytes(m: __m128i) -> Seq<u8> {
        m.0@
    }

    open spec fn width() -> nat {
        16
    }

    open spec fn decode(b: Seq<u8>) -> Seq<u32> {
        unpack_u32(b)
    }

    open spec fn encode(l: Seq<u32>) -> Seq<u8> {
        pack_u32(l)
    }

    proof fn lemma_lanes(v: u32x4) {
        assert forall|w: u32x4| w.0@ == v.0@ implies w == v by {
            assert(w.0 =~= v.0);
        }
    }

    proof fn lemma_bytes(m: __m128i) {
        assert forall|w: __m128i| w.0@ == m.0@ implies w == m by {
            assert(w.0 =~= m.0);
        }
    }

    proof fn lemma_encode_decode(b: Seq<u8>) {
        lemma_pack_unpack_u32(b);
    }

    proof fn lemma_decode_encode(l: Seq<u32>) {
        lemma_unpack_pack_u32(l);
    }

    fn new(lanes: [u32; 4]) -> (v: u32x4) {
        u32x4(lanes)
    }

    fn get(v: u32x4, i: usize) -> (x: u32) {
        v.0[i]
    }

    fn to_vec(m: __m128i) -> (v: u32x4) {
        u32x4::from_machine(m)
    }

    fn from_vec(v: u32x4) -> (m: __m128i) {
        v.to_machine()
    }
}

/// Eight 32-bit lanes.
#[allow(non_camel_case_types)]
#[derive(Clone, Copy, Debug)]
pub struct u32x8(pub [u32; 8]);

impl u32x8 {
    /// The lanes that a register holds.
    pub fn from_machine(m: __m256i) -> (v: u32x8)
        ensures
            v.0@ == unpack_u32(m@),
    {
        u32x8(lanes_u32(&m.0))
    }

    /// The register that holds these lanes.
    pub fn to_machine(self) -> (m: __m256i)
        ensures
            m@ == pack_u32(self.0@),
    {
        __m256i(bytes_u32(&self.0))
    }
}

impl Vector<8> for u32 {
    type Vec = u32x8;

    type Machine = __m256i;

    open spec fn lanes(v: u32x8) -> Seq<u32> {
        v.0@
    }

    open spec fn bytes(m: __m256i) -> Seq<u8> {
        m.0@
    }

    open spec fn width() -> nat {
        32
    }

    open spec fn decode(b: Seq<u8>) -> Seq<u32> {
        unpack_u32(b)
    }

    open spec fn encode(l: Seq<u32>) -> Seq<u8> {
        pack_u32(l)
    }

    proof fn lemma_lanes(v: u32x8) {
        assert forall|w: u32x8| w.0@ == v.0@ implies w == v by {
            assert(w.0 =~= v.0);
        }
    }

    proof fn lemma_bytes(m: __m256i) {
        assert forall|w: __m256i| w.0@ == m.0@ implies w == m by {
            assert(w.0 =~= m.0);
        }
    }

    proof fn lemma_encode_decode(b: Seq<u8>) {
        lemma_pack_unpack_u32(b);
    }

    proof fn lemma_decode_encode(l: Seq<u32>) {
        lemma_unpack_pack_u32(l);
    }

    fn new(lanes: [u32; 8]) -> (v: u32x8) {
        u32x8(lanes)
    }

    fn get(v: u32x8, i: usize) -> (x: u32) {
        v.0[i]
    }

    fn to_vec(m: __m256i) -> (v: u32x8) {
        u32x8::from_machine(m)
    }

    fn from_vec(v: u32x8) -> (m: __m256i) {
        v.to_machine()
    }
}

/// Two 64-bit lanes.
#[allow(non_camel_case_types)]
#[derive(Clone, Copy, Debug)]
pub struct u64x2(pub [u64; 2]);

impl u64x2 {
    /// The lanes that a register holds.
    pub fn from_machine(m: __m128i) -> (v: u64x2)
        ensures
            v.0@ == unpack_u64(m@),
    {
        u64x2(lanes_u64(&m.0))
    }

    /// The register that holds these lanes.
    pub fn to_machine(self) -> (m: __m128i)
        ensures
            m@ == pack_u64(self.0@),
    {
        __m128i(bytes_u64(&self.0))
    }
}

impl Vector<2> for u64 {
    type Vec = u64x2;

    type Machine = __m128i;

    open spec fn lanes(v: u64x2) -> Seq<u64> {
        v.0@
    }

    open spec fn bytes(m: __m128i) -> Seq<u8> {
        m.0@
    }

    open spec fn width() -> nat {
        16
    }

    open spec fn decode(b: Seq<u8>) -> Seq<u64> {
        unpack_u64(b)
    }

    open spec fn encode(l: Seq<u64>) -> Seq<u8> {
        pack_u64(l)
    }

    proof fn lemma_lanes(v: u64x2) {
        assert forall|w: u64x2| w.0@ == v.0@ implies w == v by {
            assert(w.0 =~= v.0);
        }
    }

    proof fn lemma_bytes(m: __m128i) {
        assert forall|w: __m128i| w.0@ == m.0@ implies w == m by {
            assert(w.0 =~= m.0);
        }
    }

    proof fn lemma_encode_decode(b: Seq<u8>) {
        lemma_pack_unpack_u64(b);
    }

    proof fn lemma_decode_encode(l: Seq<u64>) {
        lemma_unpack_pack_u64(l);
    }

    fn new(lanes: [u64; 2]) -> (v: u64x2) {
        u64x2(lanes)
    }

    fn get(v: u64x2, i: usize) -> (x: u64) {
        v.0[i]
    }

    fn to_vec(m: __m128i) -> (v: u64x2) {
        u64x2::from_machine(m)
    }

    fn from_vec(v: u64x2) -> (m: __m128i) {
        v.to_machine()
    }
}

/// Four 64-bit lanes.
#[allow(non_camel_case_types)]
#[derive(Clone, Copy, Debug)]
pub struct u64x4(pub [u64; 4]);

impl u64x4 {
    /// The lanes that a register holds.
    pub fn from_machine(m: __m256i) -> (v: u64x4)
        ensures
            v.0@ == unpack_u64(m@),
    {
        u64x4(lanes_u64(&m.0))
    }

    /// The register that holds these lanes.
    pub fn to_machine(self) -> (m: __m256i)
        ensures
            m@ == pack_u64(self.0@),
    {
        __m256i(bytes_u64(&self.0))
    }
}

impl Vector<4> for u64 {
    type Vec = u64x4;

    type Machine = __m256i;

    open spec fn lanes(v: u64x4) -> Seq<u64> {
        v.0@
    }

    open spec fn bytes(m: __m256i) -> Seq<u8> {
        m.0@
    }

    open spec fn width() -> nat {
        32
    }

    open spec fn decode(b: Seq<u8>) -> Seq<u64> {
        unpack_u64(b)
    }

    open spec fn encode(l: Seq<u64>) -> Seq<u8> {
        pack_u64(l)
    }

    proof fn lemma_lanes(v: u64x4) {
        assert forall|w: u64x4| w.0@ == v.0@ implies w == v by {
            assert(w.0 =~= v.0);
        }
    }

    proof fn lemma_bytes(m: __m256i) {
        assert forall|w: __m256i| w.0@ == m.0@ implies w == m by {
            assert(w.0 =~= m.0);
        }
    }

    proof fn lemma_encode_decode(b: Seq<u8>) {
        lemma_pack_unpack_u64(b);
    }

    proof fn lemma_decode_encode(l: Seq<u64>) {
        lemma_unpack_pack_u64(l);
    }

    fn new(lanes: [u64; 4]) -> (v: u64x4) {
        u64x4(lanes)
    }

    fn get(v: u64x4, i: usize) -> (x: u64) {
        v.0[i]
    }

    fn to_vec(m: __m256i) -> (v: u64x4) {
        u64x4::from_machine(m)
    }

    fn from_vec(v: u64x4) -> (m: __m256i) {
        v.to_machine()
    }
}

/// Two 128-bit lanes.
#[allow(non_camel_case_types)]
#[derive(Clone, Copy, Debug)]
pub struct u128x2(pub [u128; 2]);

impl u128x2 {
    /// The lanes that a register holds.
    pub fn from_machine(m: __m256i) -> (v: u128x2)
        ensures
            v.0@ == unpack_u128(m@),
    {
        u128x2(lanes_u128(&m.0))
    }

    /// The register that holds these lanes.
    pub fn to_machine(self) -> (m: __m256i)
        ensures
            m@ == pack_u128(self.0@),
    {
        __m256i(bytes_u128(&self.0))
    }
}

impl Vector<2> for u128 {
    type Vec = u128x2;

    type Machine = __m256i;

    open spec fn lanes(v: u128x2) -> Seq<u128> {
        v.0@
    }

    open spec fn bytes(m: __m256i) -> Seq<u8> {
        m.0@
    }

    open spec fn width() -> nat {
        32
    }

    open spec fn decode(b: Seq<u8>) -> Seq<u128> {
        unpack_u128(b)
    }

    open spec fn encode(l: Seq<u128>) -> Seq<u8> {
        pack_u128(l)
    }

    proof fn lemma_lanes(v: u128x2) {
        assert forall|w: u128x2| w.0@ == v.0@ implies w == v by {
            assert(w.0 =~= v.0);
        }
    }

    proof fn lemma_bytes(m: __m256i) {
        assert forall|w: __m256i| w.0@ == m.0@ implies w == m by {
            assert(w.0 =~= m.0);
        }
    }

    proof fn lemma_encode_decode(b: Seq<u8>) {
        lemma_pack_unpack_u128(b);
    }

    proof fn lemma_decode_encode(l: Seq<u128>) {
        lemma_unpack_pack_u128(l);
    }

    fn new(lanes: [u128; 2]) -> (v: u128x2) {
        u128x2(lanes)
    }

    fn get(v: u128x2, i: usize) -> (x: u128) {
        v.0[i]
    }

    fn to_vec(m: __m256i) -> (v: u128x2) {
        u128x2::from_machine(m)
    }

    fn from_vec(v: u128x2) -> (m: __m256i) {
        v.to_machine()
    }
}

/// Lane types that form vectors of two lanes.
pub trait Vector2: Vector<2> {
}

impl<T: Vector<2>> Vector2 for T {
}

/// Lane types that form vectors of four lanes.
pub trait Vector4: Vector<4> {
}

impl<T: Vector<4>> Vector4 for T {
}

/// Lane types that form vectors of eight lanes.
pub trait Vector8: Vector<8> {
}

impl<T: Vector<8>> Vector8 for T {
}

/// Lane types that form vectors of sixteen lanes.
pub trait Vector16: Vector<16> {
}

impl<T: Vector<16>> Vector16 for T {
}

/// Lane types that form vectors of thirty-two lanes.
pub trait Vector32: Vector<32> {
}

impl<T: Vector<32>> Vector32 for T {
}

/// A register turned into lanes and back is the register it was: whatever
/// `to_vec` makes of `m`, `from_vec` makes `m` of it again.
pub proof fn lemma_machine_round_trip<const N: usize, T: Vector<N>>(
    m: T::Machine,
    v: T::Vec,
    back: T::Machine,
)
    requires
        T::lanes(v) == T::decode(T::bytes(m)),
        T::bytes(back) == T::encode(T::lanes(v)),
    ensures
        back == m,
{
    T::lemma_bytes(m);
    T::lemma_encode_decode(T::bytes(m));
}

/// Lanes turned into a register and back are the lanes they were: whatever
/// `from_vec` makes of `v`, `to_vec` makes `v` of it again.
pub proof fn lemma_vec_round_trip<const N: usize, T: Vector<N>>(
    v: T::Vec,
    m: T::Machine,
    back: T::Vec,
)
    requires
        T::bytes(m) == T::encode(T::lanes(v)),
        T::lanes(back) == T::decode(T::bytes(m)),
    ensures
        back == v,
{
    T::lemma_lanes(v);
    T::lemma_decode_encode(T::lanes(v));
}

/// The register that holds a 128-bit integer, lowest byte first.
pub fn from_u128(x: u128) -> (m: __m128i)
    ensures
        forall|j: int| 0 <= j < 16 ==> m@[j] == byte_of_u128(x, j),
{
    let lanes: [u128; 1] = [x];
    assert(lanes@ =~= seq![x]);
    __m128i(bytes_u128(&lanes))
}

/// The 128-bit integer that a register holds, lowest byte first.
pub fn to_u128(m: __m128i) -> (x: u128)
    ensures
        x == le_u128(m@, 0),
{
    read_u128(m.0.as_slice(), 0)
}

/// A 128-bit integer put into a register and read again is the integer it
/// was: whatever `from_u128` makes of `x`, `to_u128` reads `x` from it.
pub proof fn lemma_u128_round_trip(x: u128, m: __m128i)
    requires
        forall|j: int| 0 <= j < 16 ==> m@[j] == byte_of_u128(x, j),
    ensures
        le_u128(m@, 0) == x,
{
    lemma_le_of_bytes_u128(x, m@, 0);
}

/// A register read as a 128-bit integer and made from it again is the
/// register it was: whatever `to_u128` reads from `m`, `from_u128` makes a
/// register with the bytes of `m` of it.
pub proof fn lemma_register_round_trip(m: __m128i, back: __m128i)
    requires
        forall|j: int| 0 <= j < 16 ==> back@[j] == byte_of_u128(le_u128(m@, 0), j),
    ensures
        back == m,
{
    assert forall|j: int| 0 <= j < 16 implies back.0@[j] == m.0@[j] by {
        lemma_byte_of_le_u128(m@, 0, j);
        assert(back@[j] == byte_of_u128(le_u128(m@, 0), j));
    }
    assert(back.0@ =~= m.0@);
    assert(back.0 =~= m.0);
}

} // verus!
