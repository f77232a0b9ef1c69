use vstd::prelude::*;
use byteorder::ByteOrder;

use crate::view::{ByteView, WriteError, overlay};

verus! {

pub const I32_METRIC_TYPE_CODE: u32 = 0;
pub const U32_METRIC_TYPE_CODE: u32 = 1;
pub const I64_METRIC_TYPE_CODE: u32 = 2;
pub const U64_METRIC_TYPE_CODE: u32 = 3;
pub const F32_METRIC_TYPE_CODE: u32 = 4;
pub const F64_METRIC_TYPE_CODE: u32 = 5;
pub const STRING_METRIC_TYPE_CODE: u32 = 6;

/// Byte order of numeric values: one for a whole layout.
#[derive(Debug, Clone, Copy, PartialEq, Eq, Structural)]
pub enum Endian {
    Big,
    Little,
}

/// The byte order of the placeholder region that metrics write into before
/// they are bound to their real layout.
pub const ENDIAN: Endian = Endian::Little;

/// The eight bytes of `n`, least significant first.
pub open spec fn le_bytes(n: u64) -> Seq<u8> {
    seq![
        n as u8,
        (n >> 8u64) as u8,
        (n >> 16u64) as u8,
        (n >> 24u64) as u8,
        (n >> 32u64) as u8,
        (n >> 40u64) as u8,
        (n >> 48u64) as u8,
        (n >> 56u64) as u8,
    ]
}

/// The eight bytes of `n`, most significant first.
pub open spec fn be_bytes(n: u64) -> Seq<u8> {
    seq![
        (n >> 56u64) as u8,
        (n >> 48u64) as u8,
        (n >> 40u64) as u8,
        (n >> 32u64) as u8,
        (n >> 24u64) as u8,
        (n >> 16u64) as u8,
        (n >> 8u64) as u8,
        n as u8,
    ]
}

/// The eight bytes of `n` in byte order `order`.
pub open spec fn u64_bytes(order: Endian, n: u64) -> Seq<u8> {
    match order {
        Endian::Big => be_bytes(n),
        Endian::Little => le_bytes(n),
    }
}

/// The integer that eight bytes stand for, least significant first.
pub open spec fn le_value(b: Seq<u8>) -> u64 {
    (b[0] as u64) | ((b[1] as u64) << 8u64) | ((b[2] as u64) << 16u64) | ((b[3] as u64)
        << 24u64) | ((b[4] as u64) << 32u64) | ((b[5] as u64) << 40u64) | ((b[6] as u64)
        << 48u64) | ((b[7] as u64) << 56u64)
}

/// The integer that the first eight bytes of `b` stand for in byte order `order`.
pub open spec fn u64_value(order: Endian, b: Seq<u8>) -> u64 {
    match order {
        Endian::Big => le_value(seq![b[7], b[6], b[5], b[4], b[3], b[2], b[1], b[0]]),
        Endian::Little => le_value(b),
    }
}

/// The encoding of a text whose UTF-8 bytes are `b`: the bytes and one zero
/// byte, or nothing where `b` already holds a zero byte.
pub open spec fn text_encoding(b: Seq<u8>) -> Option<Seq<u8>> {
    if exists|i: int| 0 <= i < b.len() && b[i] == 0 {
        None
    } else {
        Some(b.push(0u8))
    }
}

/// Relies on byteorder's `LittleEndian::write_u64`: it stores the eight bytes of
/// `n` least significant first.
#[verifier::external_body]
fn le_u64(n: u64) -> (r: [u8; 8])
    ensures
        r@ == le_bytes(n),
{
    let mut b = [0u8; 8];
    byteorder::LittleEndian::write_u64(&mut b, n);
    b
}

/// Relies on byteorder's `BigEndian::write_u64`: it stores the eight bytes of `n`
/// most significant first.
#[verifier::external_body]
fn be_u64(n: u64) -> (r: [u8; 8])
    ensures
        r@ == be_bytes(n),
{
    let mut b = [0u8; 8];
    byteorder::BigEndian::write_u64(&mut b, n);
    b
}

/// Writes the eight bytes of `n` in byte order `order` at the sink's position.
pub fn write_u64(w: &mut ByteView, order: Endian, n: u64) -> (r: Result<(), WriteError>)
    ensures
        old(w)@.1 + 8 <= old(w)@.0.len() ==> {
            &&& r is Ok
            &&& final(w)@.0 == overlay(old(w)@.0, old(w)@.1 as int, u64_bytes(order, n))
            &&& final(w)@.1 == old(w)@.1 + 8
            &&& final(w)@.2 == old(w)@.2
        },
        old(w)@.1 + 8 > old(w)@.0.len() ==> {
            &&& r == Err::<(), WriteError>(WriteError::RegionTooSmall)
            &&& final(w)@ == old(w)@
        },
{
    let b = match order {
        Endian::Big => be_u64(n),
        Endian::Little => le_u64(n),
    };
    w.write_all(&b)
}

/// A 32-bit floating-point value, held as its IEEE 754 bit pattern.
#[derive(Debug, Clone, Copy, PartialEq, Eq, Structural)]
pub struct F32Value {
    pub bits: u32,
}

/// A 64-bit floating-point value, held as its IEEE 754 bit pattern.
#[derive(Debug, Clone, Copy, PartialEq, Eq, Structural)]
pub struct F64Value {
    pub bits: u64,
}

/// A type whose values can be stored in a metric: it has a fixed type code and
/// a fixed on-wire encoding.
pub trait MetricType: Sized {
    /// The type code of every value of the type.
    spec fn code() -> u32;

    /// The on-wire bytes of the value in byte order `order`, or nothing where
    /// the value cannot be encoded.
    spec fn encoding(&self, order: Endian) -> Option<Seq<u8>>;

    /// The 64-bit word that a numeric value is written as; nothing for text.
    spec fn word(&self) -> Option<u64>;

    /// A value with a word is written as that word's eight bytes.
    proof fn lemma_word_encoding(&self, order: Endian)
        ensures
            self.word() is Some ==> self.encoding(order) == Some(u64_bytes(order, self.word()->0)),
    ;

    fn type_code(&self) -> (r: u32)
        ensures
            r == Self::code(),
    ;

    /// Writes the value's encoding at the sink's position. Where the value cannot
    /// be encoded, or the encoding does not fit, nothing is written.
    fn write_to_writer(&self, order: Endian, w: &mut ByteView) -> (r: Result<(), WriteError>)
        ensures
            self.encoding(order) is None ==> {
                &&& r == Err::<(), WriteError>(WriteError::InteriorNul)
                &&& final(w)@ == old(w)@
            },
            self.encoding(order) is Some ==> {
                let e = self.encoding(order)->0;
                if old(w)@.1 + e.len() <= old(w)@.0.len() {
                    &&& r is Ok
                    &&& final(w)@.0 == overlay(old(w)@.0, old(w)@.1 as int, e)
                    &&& final(w)@.1 == old(w)@.1 + e.len()
                    &&& final(w)@.2 == old(w)@.2
                } else {
                    &&& r == Err::<(), WriteError>(WriteError::RegionTooSmall)
                    &&& final(w)@ == old(w)@
                }
            },
    ;

    /// A copy of the value.
    fn copied(&self) -> (r: Self)
        ensures
            r == *self,
    ;
}

impl MetricType for i32 {
    open spec fn word(&self) -> Option<u64> {
        Some(*self as u32 as u64)
    }

    proof fn lemma_word_encoding(&self, order: Endian) {
    }

    open spec fn code() -> u32 {
        I32_METRIC_TYPE_CODE
    }

    open spec fn encoding(&self, order: Endian) -> Option<Seq<u8>> {
        Some(u64_bytes(order, *self as u32 as u64))
    }

    fn type_code(&self) -> (r: u32) {
        I32_METRIC_TYPE_CODE
    }

    fn write_to_writer(&self, order: Endian, w: &mut ByteView) -> (r: Result<(), WriteError>) {
        write_u64(w, order, *self as u32 as u64)
    }

    fn copied(&self) -> (r: Self) {
        *self
    }
}

impl MetricType for u32 {
    open spec fn word(&self) -> Option<u64> {
        Some(*self as u64)
    }

    proof fn lemma_word_encoding(&self, order: Endian) {
    }

    open spec fn code() -> u32 {
        U32_METRIC_TYPE_CODE
    }

    open spec fn encoding(&self, order: Endian) -> Option<Seq<u8>> {
        Some(u64_bytes(order, *self as u64))
    }

    fn type_code(&self) -> (r: u32) {
        U32_METRIC_TYPE_CODE
    }

    fn write_to_writer(&self, order: Endian, w: &mut ByteView) -> (r: Result<(), WriteError>) {
        write_u64(w, order, *self as u64)
    }

    fn copied(&self) -> (r: Self) {
        *self
    }
}

impl MetricType for i64 {
    open spec fn word(&self) -> Option<u64> {
        Some(*self as u64)
    }

    proof fn lemma_word_encoding(&self, order: Endian) {
    }

    open spec fn code() -> u32 {
        I64_METRIC_TYPE_CODE
    }

    open spec fn encoding(&self, order: Endian) -> Option<Seq<u8>> {
        Some(u64_bytes(order, *self as u64))
    }

    fn type_code(&self) -> (r: u32) {
        I64_METRIC_TYPE_CODE
    }

    fn write_to_writer(&self, order: Endian, w: &mut ByteView) -> (r: Result<(), WriteError>) {
        write_u64(w, order, *self as u64)
    }

    fn copied(&self) -> (r: Self) {
        *self
    }
}

impl MetricType for u64 {
    open spec fn word(&self) -> Option<u64> {
        Some(*self)
    }

    proof fn lemma_word_encoding(&self, order: Endian) {
    }

    open spec fn code() -> u32 {
        U64_METRIC_TYPE_CODE
    }

    open spec fn encoding(&self, order: Endian) -> Option<Seq<u8>> {
        Some(u64_bytes(order, *self))
    }

    fn type_code(&self) -> (r: u32) {
        U64_METRIC_TYPE_CODE
    }

    fn write_to_writer(&self, order: Endian, w: &mut ByteView) -> (r: Result<(), WriteError>) {
        write_u64(w, order, *self)
    }

    fn copied(&self) -> (r: Self) {
        *self
    }
}

impl MetricType for F32Value {
    open spec fn word(&self) -> Option<u64> {
        Some(self.bits as u64)
    }

    proof fn lemma_word_encoding(&self, order: Endian) {
    }

    open spec fn code() -> u32 {
        F32_METRIC_TYPE_CODE
    }

    open spec fn encoding(&self, order: Endian) -> Option<Seq<u8>> {
        Some(u64_bytes(order, self.bits as u64))
    }

    fn type_code(&self) -> (r: u32) {
        F32_METRIC_TYPE_CODE
    }

    fn write_to_writer(&self, order: Endian, w: &mut ByteView) -> (r: Result<(), WriteError>) {
        write_u64(w, order, self.bits as u64)
    }

    fn copied(&self) -> (r: Self) {
        *self
    }
}

impl MetricType for F64Value {
    open spec fn word(&self) -> Option<u64> {
        Some(self.bits)
    }

    proof fn lemma_word_encoding(&self, order: Endian) {
    }

    open spec fn code() -> u32 {
        F64_METRIC_TYPE_CODE
    }

    open spec fn encoding(&self, order: Endian) -> Option<Seq<u8>> {
        Some(u64_bytes(order, self.bits))
    }

    fn type_code(&self) -> (r: u32) {
        F64_METRIC_TYPE_CODE
    }

    fn write_to_writer(&self, order: Endian, w: &mut ByteView) -> (r: Result<(), WriteError>) {
        write_u64(w, order, self.bits)
    }

    fn copied(&self) -> (r: Self) {
        *self
    }
}

impl MetricType for String {
    open spec fn word(&self) -> Option<u64> {
        None
    }

    proof fn lemma_word_encoding(&self, order: Endian) {
    }

    open spec fn code() -> u32 {
        STRING_METRIC_TYPE_CODE
    }

    open spec fn encoding(&self, order: Endian) -> Option<Seq<u8>> {
        text_encoding(vstd::utf8::encode_utf8(self@))
    }

    fn type_code(&self) -> (r: u32) {
        STRING_METRIC_TYPE_CODE
    }

    fn write_to_writer(&self, order: Endian, w: &mut ByteView) -> (r: Result<(), WriteError>) {
        let s = self.as_str();
        let b = s.as_bytes();
        let mut data: Vec<u8> = Vec::new();
        let mut i: usize = 0;
        while i < b.len()
            invariant
                i <= b@.len(),
                b@ == vstd::utf8::encode_utf8(self@),
                data@ == b@.subrange(0, i as int),
                forall|j: int| 0 <= j < i ==> b@[j] != 0,
            decreases b@.len() - i,
        {
            if b[i] == 0 {
                assert(b@[i as int] == 0);
                return Err(WriteError::InteriorNul);
            }
            data.push(b[i]);
            i = i + 1;
            assert(data@ =~= b@.subrange(0, i as int));
        }
        data.push(0u8);
        assert(data@ =~= b@.push(0u8));
        w.write_all(data.as_slice())
    }

    fn copied(&self) -> (r: Self) {
        self.clone()
    }
}

/// Every numeric value is written as exactly eight bytes, and reading those
/// bytes back in the same byte order gives the value's bit pattern widened to
/// 64 bits, from which the value itself is recovered at its own width.
pub proof fn lemma_numeric_round_trip(
    order: Endian,
    a: i32,
    b: u32,
    c: i64,
    d: u64,
    f: F32Value,
    g: F64Value,
)
    ensures
        a.encoding(order)->0.len() == 8,
        b.encoding(order)->0.len() == 8,
        c.encoding(order)->0.len() == 8,
        d.encoding(order)->0.len() == 8,
        f.encoding(order)->0.len() == 8,
        g.encoding(order)->0.len() == 8,
        u64_value(order, a.encoding(order)->0) == a as u32 as u64,
        u64_value(order, b.encoding(order)->0) == b as u64,
        u64_value(order, c.encoding(order)->0) == c as u64,
        u64_value(order, d.encoding(order)->0) == d,
        u64_value(order, f.encoding(order)->0) == f.bits as u64,
        u64_value(order, g.encoding(order)->0) == g.bits,
        u64_value(order, a.encoding(order)->0) as u32 as i32 == a,
        u64_value(order, b.encoding(order)->0) as u32 == b,
        u64_value(order, c.encoding(order)->0) as i64 == c,
        u64_value(order, f.encoding(order)->0) as u32 == f.bits,
{
    lemma_u64_round_trip(order, a as u32 as u64);
    lemma_u64_round_trip(order, b as u64);
    lemma_u64_round_trip(order, c as u64);
    lemma_u64_round_trip(order, d);
    lemma_u64_round_trip(order, f.bits as u64);
    lemma_u64_round_trip(order, g.bits);
    assert(a as u32 as u64 as u32 as i32 == a) by (bit_vector);
    assert(c as u64 as i64 == c) by (bit_vector);
}

/// Reading back the eight bytes written for `n`, in the same byte order, gives `n`.
pub proof fn lemma_u64_round_trip(order: Endian, n: u64)
    ensures
        u64_bytes(order, n).len() == 8,
        u64_value(order, u64_bytes(order, n)) == n,
{
    assert(((n as u8) as u64) | ((((n >> 8u64) as u8) as u64) << 8u64) | ((((n >> 16u64) as u8)
        as u64) << 16u64) | ((((n >> 24u64) as u8) as u64) << 24u64) | ((((n >> 32u64) as u8)
        as u64) << 32u64) | ((((n >> 40u64) as u8) as u64) << 40u64) | ((((n >> 48u64) as u8)
        as u64) << 48u64) | ((((n >> 56u64) as u8) as u64) << 56u64) == n) by (bit_vector);
    let le = le_bytes(n);
    let be = be_bytes(n);
    assert(seq![be[7], be[6], be[5], be[4], be[3], be[2], be[1], be[0]] =~= le);
}

/// The seven value types have seven different type codes.
pub proof fn lemma_type_codes_distinct()
    ensures
        seq![
            <i32 as MetricType>::code(),
            <u32 as MetricType>::code(),
            <i64 as MetricType>::code(),
            <u64 as MetricType>::code(),
            <F32Value as MetricType>::code(),
            <F64Value as MetricType>::code(),
            <String as MetricType>::code(),
        ].no_duplicates(),
{
    let s = seq![
        <i32 as MetricType>::code(),
        <u32 as MetricType>::code(),
        <i64 as MetricType>::code(),
        <u64 as MetricType>::code(),
        <F32Value as MetricType>::code(),
        <F64Value as MetricType>::code(),
        <String as MetricType>::code(),
    ];
    assert(s =~= seq![0u32, 1, 2, 3, 4, 5, 6]);
}

} // verus!
