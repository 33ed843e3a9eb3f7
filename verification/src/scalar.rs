//! The fixed-width integers of the protocol as values with a wire format: each
//! is written in little-endian order, signed ones in two's complement.

use vstd::prelude::*;
use crate::codec::{get_u16_le, get_u32_le, put_u16_le, put_u32_le};
use crate::codec::{le_bytes_u16, le_bytes_u32, le_u16_at, le_u32_at, CipCodec};
use crate::codec::{lemma_u16_le_bytes_round_trip, lemma_u16_le_round_trip};
use crate::codec::{lemma_u32_le_bytes_round_trip, lemma_u32_le_read_back};
use crate::codec::lemma_u32_le_round_trip;
use crate::error::{CodecError, Layer};

verus! {

/// The low 32 bits of `v`.
pub open spec fn low_half(v: u64) -> u32 {
    (v % 0x1_0000_0000) as u32
}

/// The high 32 bits of `v`.
pub open spec fn high_half(v: u64) -> u32 {
    (v / 0x1_0000_0000) as u32
}

/// The eight bytes of `v`, low byte first: the bytes of its low half, then
/// those of its high half.
pub open spec fn le_bytes_u64(v: u64) -> Seq<u8> {
    le_bytes_u32(low_half(v)) + le_bytes_u32(high_half(v))
}

/// The number whose little-endian bytes are the eight at offset `at` of
/// `bytes`.
pub open spec fn le_u64_at(bytes: Seq<u8>, at: int) -> u64
    recommends
        0 <= at,
        at + 8 <= bytes.len(),
{
    (le_u32_at(bytes, at) + 0x1_0000_0000 * le_u32_at(bytes, at + 4)) as u64
}

/// A `u64` is made of its two halves.
proof fn lemma_u64_halves(v: u64)
    ensures
        low_half(v) + 0x1_0000_0000 * high_half(v) == v,
{
    assert(v % 0x1_0000_0000 + 0x1_0000_0000 * (v / 0x1_0000_0000) == v && v % 0x1_0000_0000
        < 0x1_0000_0000 && v / 0x1_0000_0000 < 0x1_0000_0000) by (bit_vector);
}

/// The halves of a `u64` made of two halves are the two halves.
proof fn lemma_u64_of_halves(low: u32, high: u32)
    ensures
        ({
            let v = (low + 0x1_0000_0000 * high) as u64;
            &&& v == low + 0x1_0000_0000 * high
            &&& low_half(v) == low
            &&& high_half(v) == high
        }),
{
    let v = (low + 0x1_0000_0000 * high) as u64;
    let wide_low: u64 = low as u64;
    let wide_high: u64 = high as u64;
    assert(v == wide_low + 0x1_0000_0000 * wide_high);
    assert(v % 0x1_0000_0000 == wide_low && v / 0x1_0000_0000 == wide_high) by (bit_vector)
        requires
            wide_low < 0x1_0000_0000,
            wide_high < 0x1_0000_0000,
            v == wide_low + 0x1_0000_0000 * wide_high,
    ;
}

/// Appends the little-endian bytes of `v` to `out`.
pub fn put_u64_le(out: &mut Vec<u8>, v: u64)
    ensures
        final(out)@ == old(out)@ + le_bytes_u64(v),
{
    put_u32_le(out, (v % 0x1_0000_0000) as u32);
    put_u32_le(out, (v / 0x1_0000_0000) as u32);
    assert(out@ =~= old(out)@ + le_bytes_u64(v));
}

/// The `u64` at offset `at` of `bytes`.
pub(crate) fn get_u64_le(bytes: &[u8], at: usize) -> (v: u64)
    requires
        at + 8 <= bytes.len(),
    ensures
        v == le_u64_at(bytes@, at as int),
{
    let low: u64 = get_u32_le(bytes, at) as u64;
    let high: u64 = get_u32_le(bytes, at + 4) as u64;
    low + 0x1_0000_0000 * high
}

/// The number that the 8 bits of `v` stand for as two's complement.
pub open spec fn i8_of_bits(v: u8) -> i8 {
    if v >= 0x80 {
        (v - 0x100) as i8
    } else {
        v as i8
    }
}

/// The 8 bits that stand for `v` as two's complement.
pub open spec fn bits_of_i8(v: i8) -> u8 {
    if v < 0 {
        (v + 0x100) as u8
    } else {
        v as u8
    }
}

/// The number that the 16 bits of `v` stand for as two's complement.
pub open spec fn i16_of_bits(v: u16) -> i16 {
    if v >= 0x8000 {
        (v - 0x1_0000) as i16
    } else {
        v as i16
    }
}

/// The 16 bits that stand for `v` as two's complement.
pub open spec fn bits_of_i16(v: i16) -> u16 {
    if v < 0 {
        (v + 0x1_0000) as u16
    } else {
        v as u16
    }
}

/// The number that the 32 bits of `v` stand for as two's complement.
pub open spec fn i32_of_bits(v: u32) -> i32 {
    if v >= 0x8000_0000 {
        (v - 0x1_0000_0000) as i32
    } else {
        v as i32
    }
}

/// The 32 bits that stand for `v` as two's complement.
pub open spec fn bits_of_i32(v: i32) -> u32 {
    if v < 0 {
        (v + 0x1_0000_0000) as u32
    } else {
        v as u32
    }
}

/// The number that the 64 bits of `v` stand for as two's complement.
pub open spec fn i64_of_bits(v: u64) -> i64 {
    if v >= 0x8000_0000_0000_0000 {
        (v - 0x1_0000_0000_0000_0000) as i64
    } else {
        v as i64
    }
}

/// The 64 bits that stand for `v` as two's complement.
pub open spec fn bits_of_i64(v: i64) -> u64 {
    if v < 0 {
        (v + 0x1_0000_0000_0000_0000) as u64
    } else {
        v as u64
    }
}

/// The 8 bits that stand for `v` as two's complement.
pub fn i8_to_bits(v: i8) -> (bits: u8)
    ensures
        bits == bits_of_i8(v),
        i8_of_bits(bits) == v,
{
    if v < 0 {
        (v as i16 + 0x100) as u8
    } else {
        v as u8
    }
}

/// The number that the 8 bits of `bits` stand for as two's complement.
pub fn i8_from_bits(bits: u8) -> (v: i8)
    ensures
        v == i8_of_bits(bits),
        bits_of_i8(v) == bits,
{
    if bits >= 0x80 {
        (bits as i16 - 0x100) as i8
    } else {
        bits as i8
    }
}

/// The 16 bits that stand for `v` as two's complement.
pub fn i16_to_bits(v: i16) -> (bits: u16)
    ensures
        bits == bits_of_i16(v),
        i16_of_bits(bits) == v,
{
    if v < 0 {
        (v as i32 + 0x1_0000) as u16
    } else {
        v as u16
    }
}

/// The number that the 16 bits of `bits` stand for as two's complement.
pub fn i16_from_bits(bits: u16) -> (v: i16)
    ensures
        v == i16_of_bits(bits),
        bits_of_i16(v) == bits,
{
    if bits >= 0x8000 {
        (bits as i32 - 0x1_0000) as i16
    } else {
        bits as i16
    }
}

/// The 32 bits that stand for `v` as two's complement.
pub fn i32_to_bits(v: i32) -> (bits: u32)
    ensures
        bits == bits_of_i32(v),
        i32_of_bits(bits) == v,
{
    if v < 0 {
        (v as i64 + 0x1_0000_0000) as u32
    } else {
        v as u32
    }
}

/// The number that the 32 bits of `bits` stand for as two's complement.
pub fn i32_from_bits(bits: u32) -> (v: i32)
    ensures
        v == i32_of_bits(bits),
        bits_of_i32(v) == bits,
{
    if bits >= 0x8000_0000 {
        (bits as i64 - 0x1_0000_0000) as i32
    } else {
        bits as i32
    }
}

/// The 64 bits that stand for `v` as two's complement.
pub fn i64_to_bits(v: i64) -> (bits: u64)
    ensures
        bits == bits_of_i64(v),
        i64_of_bits(bits) == v,
{
    if v < 0 {
        (v as i128 + 0x1_0000_0000_0000_0000) as u64
    } else {
        v as u64
    }
}

/// The number that the 64 bits of `bits` stand for as two's complement.
pub fn i64_from_bits(bits: u64) -> (v: i64)
    ensures
        v == i64_of_bits(bits),
        bits_of_i64(v) == bits,
{
    if bits >= 0x8000_0000_0000_0000 {
        (bits as i128 - 0x1_0000_0000_0000_0000) as i64
    } else {
        bits as i64
    }
}

impl CipCodec for u8 {
    open spec fn encode(v: u8) -> Seq<u8> {
        seq![v]
    }

    open spec fn decode(bytes: Seq<u8>) -> Result<(u8, nat), CodecError> {
        if bytes.len() >= 1 {
            Ok((bytes[0], 1nat))
        } else {
            Err(CodecError::short(Layer::Primitive))
        }
    }

    open spec fn canonical(v: u8) -> bool {
        true
    }

    proof fn lemma_decode_sound(bytes: Seq<u8>) {
        if bytes.len() >= 1 {
            assert(seq![bytes[0]] =~= bytes.take(1));
        }
    }

    proof fn lemma_round_trip(v: u8) {
    }

    fn write(&self, out: &mut Vec<u8>) {
        out.push(*self);
    }

    fn read(bytes: &[u8]) -> (r: Result<(u8, usize), CodecError>) {
        if bytes.len() >= 1 {
            Ok((bytes[0], 1))
        } else {
            Err(CodecError::short_read(Layer::Primitive))
        }
    }
}

impl CipCodec for u16 {
    open spec fn encode(v: u16) -> Seq<u8> {
        le_bytes_u16(v)
    }

    open spec fn decode(bytes: Seq<u8>) -> Result<(u16, nat), CodecError> {
        if bytes.len() >= 2 {
            Ok((le_u16_at(bytes, 0), 2nat))
        } else {
            Err(CodecError::short(Layer::Primitive))
        }
    }

    open spec fn canonical(v: u16) -> bool {
        true
    }

    proof fn lemma_decode_sound(bytes: Seq<u8>) {
        if bytes.len() >= 2 {
            lemma_u16_le_bytes_round_trip(bytes[0], bytes[1]);
            assert(seq![bytes[0], bytes[1]] =~= bytes.take(2));
        }
    }

    proof fn lemma_round_trip(v: u16) {
        lemma_u16_le_round_trip(v);
    }

    fn write(&self, out: &mut Vec<u8>) {
        put_u16_le(out, *self);
    }

    fn read(bytes: &[u8]) -> (r: Result<(u16, usize), CodecError>) {
        if bytes.len() >= 2 {
            Ok((get_u16_le(bytes, 0), 2))
        } else {
            Err(CodecError::short_read(Layer::Primitive))
        }
    }
}

impl CipCodec for u32 {
    open spec fn encode(v: u32) -> Seq<u8> {
        le_bytes_u32(v)
    }

    open spec fn decode(bytes: Seq<u8>) -> Result<(u32, nat), CodecError> {
        if bytes.len() >= 4 {
            Ok((le_u32_at(bytes, 0), 4nat))
        } else {
            Err(CodecError::short(Layer::Primitive))
        }
    }

    open spec fn canonical(v: u32) -> bool {
        true
    }

    proof fn lemma_decode_sound(bytes: Seq<u8>) {
        if bytes.len() >= 4 {
            lemma_u32_le_bytes_round_trip(bytes[0], bytes[1], bytes[2], bytes[3]);
            assert(seq![bytes[0], bytes[1], bytes[2], bytes[3]] =~= bytes.take(4));
        }
    }

    proof fn lemma_round_trip(v: u32) {
        lemma_u32_le_round_trip(v);
    }

    fn write(&self, out: &mut Vec<u8>) {
        put_u32_le(out, *self);
    }

    fn read(bytes: &[u8]) -> (r: Result<(u32, usize), CodecError>) {
        if bytes.len() >= 4 {
            Ok((get_u32_le(bytes, 0), 4))
        } else {
            Err(CodecError::short_read(Layer::Primitive))
        }
    }
}

/// Reading back the bytes of a `u64` gives the `u64`.
pub proof fn lemma_u64_le_round_trip(v: u64)
    ensures
        le_bytes_u64(v).len() == 8,
        le_u64_at(le_bytes_u64(v), 0) == v,
{
    let low = low_half(v);
    let high = high_half(v);
    lemma_u64_halves(v);
    let bytes = le_bytes_u64(v);
    lemma_u32_le_read_back(Seq::empty(), low, le_bytes_u32(high));
    lemma_u32_le_read_back(le_bytes_u32(low), high, Seq::empty());
    assert(Seq::<u8>::empty() + le_bytes_u32(low) + le_bytes_u32(high) =~= bytes);
    assert(le_bytes_u32(low) + le_bytes_u32(high) + Seq::<u8>::empty() =~= bytes);
}

/// Writing the `u64` read from eight bytes gives the eight bytes.
pub proof fn lemma_u64_le_bytes_round_trip(bytes: Seq<u8>)
    requires
        bytes.len() >= 8,
    ensures
        le_bytes_u64(le_u64_at(bytes, 0)) == bytes.take(8),
{
    let low = le_u32_at(bytes, 0);
    let high = le_u32_at(bytes, 4);
    lemma_u64_of_halves(low, high);
    lemma_u32_le_bytes_round_trip(bytes[0], bytes[1], bytes[2], bytes[3]);
    lemma_u32_le_bytes_round_trip(bytes[4], bytes[5], bytes[6], bytes[7]);
    assert(le_bytes_u32(low) + le_bytes_u32(high) =~= bytes.take(8));
}

impl CipCodec for u64 {
    open spec fn encode(v: u64) -> Seq<u8> {
        le_bytes_u64(v)
    }

    open spec fn decode(bytes: Seq<u8>) -> Result<(u64, nat), CodecError> {
        if bytes.len() >= 8 {
            Ok((le_u64_at(bytes, 0), 8nat))
        } else {
            Err(CodecError::short(Layer::Primitive))
        }
    }

    open spec fn canonical(v: u64) -> bool {
        true
    }

    proof fn lemma_decode_sound(bytes: Seq<u8>) {
        if bytes.len() >= 8 {
            lemma_u64_le_bytes_round_trip(bytes);
        }
    }

    proof fn lemma_round_trip(v: u64) {
        lemma_u64_le_round_trip(v);
    }

    fn write(&self, out: &mut Vec<u8>) {
        put_u64_le(out, *self);
    }

    fn read(bytes: &[u8]) -> (r: Result<(u64, usize), CodecError>) {
        if bytes.len() >= 8 {
            Ok((get_u64_le(bytes, 0), 8))
        } else {
            Err(CodecError::short_read(Layer::Primitive))
        }
    }
}

impl CipCodec for i8 {
    open spec fn encode(v: i8) -> Seq<u8> {
        seq![bits_of_i8(v)]
    }

    open spec fn decode(bytes: Seq<u8>) -> Result<(i8, nat), CodecError> {
        if bytes.len() >= 1 {
            Ok((i8_of_bits(bytes[0]), 1nat))
        } else {
            Err(CodecError::short(Layer::Primitive))
        }
    }

    open spec fn canonical(v: i8) -> bool {
        true
    }

    proof fn lemma_decode_sound(bytes: Seq<u8>) {
        if bytes.len() >= 1 {
            assert(seq![bytes[0]] =~= bytes.take(1));
        }
    }

    proof fn lemma_round_trip(v: i8) {
    }

    fn write(&self, out: &mut Vec<u8>) {
        out.push(i8_to_bits(*self));
    }

    fn read(bytes: &[u8]) -> (r: Result<(i8, usize), CodecError>) {
        if bytes.len() >= 1 {
            Ok((i8_from_bits(bytes[0]), 1))
        } else {
            Err(CodecError::short_read(Layer::Primitive))
        }
    }
}

impl CipCodec for i16 {
    open spec fn encode(v: i16) -> Seq<u8> {
        le_bytes_u16(bits_of_i16(v))
    }

    open spec fn decode(bytes: Seq<u8>) -> Result<(i16, nat), CodecError> {
        if bytes.len() >= 2 {
            Ok((i16_of_bits(le_u16_at(bytes, 0)), 2nat))
        } else {
            Err(CodecError::short(Layer::Primitive))
        }
    }

    open spec fn canonical(v: i16) -> bool {
        true
    }

    proof fn lemma_decode_sound(bytes: Seq<u8>) {
        if bytes.len() >= 2 {
            lemma_u16_le_bytes_round_trip(bytes[0], bytes[1]);
            assert(seq![bytes[0], bytes[1]] =~= bytes.take(2));
        }
    }

    proof fn lemma_round_trip(v: i16) {
        lemma_u16_le_round_trip(bits_of_i16(v));
    }

    fn write(&self, out: &mut Vec<u8>) {
        put_u16_le(out, i16_to_bits(*self));
    }

    fn read(bytes: &[u8]) -> (r: Result<(i16, usize), CodecError>) {
        if bytes.len() >= 2 {
            Ok((i16_from_bits(get_u16_le(bytes, 0)), 2))
        } else {
            Err(CodecError::short_read(Layer::Primitive))
        }
    }
}

impl CipCodec for i32 {
    open spec fn encode(v: i32) -> Seq<u8> {
        le_bytes_u32(bits_of_i32(v))
    }

    open spec fn decode(bytes: Seq<u8>) -> Result<(i32, nat), CodecError> {
        if bytes.len() >= 4 {
            Ok((i32_of_bits(le_u32_at(bytes, 0)), 4nat))
        } else {
            Err(CodecError::short(Layer::Primitive))
        }
    }

    open spec fn canonical(v: i32) -> bool {
        true
    }

    proof fn lemma_decode_sound(bytes: Seq<u8>) {
        if bytes.len() >= 4 {
            lemma_u32_le_bytes_round_trip(bytes[0], bytes[1], bytes[2], bytes[3]);
            assert(seq![bytes[0], bytes[1], bytes[2], bytes[3]] =~= bytes.take(4));
        }
    }

    proof fn lemma_round_trip(v: i32) {
        lemma_u32_le_round_trip(bits_of_i32(v));
    }

    fn write(&self, out: &mut Vec<u8>) {
        put_u32_le(out, i32_to_bits(*self));
    }

    fn read(bytes: &[u8]) -> (r: Result<(i32, usize), CodecError>) {
        if bytes.len() >= 4 {
            Ok((i32_from_bits(get_u32_le(bytes, 0)), 4))
        } else {
            Err(CodecError::short_read(Layer::Primitive))
        }
    }
}

impl CipCodec for i64 {
    open spec fn encode(v: i64) -> Seq<u8> {
        le_bytes_u64(bits_of_i64(v))
    }

    open spec fn decode(bytes: Seq<u8>) -> Result<(i64, nat), CodecError> {
        if bytes.len() >= 8 {
            Ok((i64_of_bits(le_u64_at(bytes, 0)), 8nat))
        } else {
            Err(CodecError::short(Layer::Primitive))
        }
    }

    open spec fn canonical(v: i64) -> bool {
        true
    }

    proof fn lemma_decode_sound(bytes: Seq<u8>) {
        if bytes.len() >= 8 {
            lemma_u64_le_bytes_round_trip(bytes);
        }
    }

    proof fn lemma_round_trip(v: i64) {
        lemma_u64_le_round_trip(bits_of_i64(v));
    }

    fn write(&self, out: &mut Vec<u8>) {
        put_u64_le(out, i64_to_bits(*self));
    }

    fn read(bytes: &[u8]) -> (r: Result<(i64, usize), CodecError>) {
        if bytes.len() >= 8 {
            Ok((i64_from_bits(get_u64_le(bytes, 0)), 8))
        } else {
            Err(CodecError::short_read(Layer::Primitive))
        }
    }
}

/// A payload of bytes that the library does not look into: it is written as it
/// is, and a reader takes every byte that is left.
impl CipCodec for Vec<u8> {
    open spec fn encode(v: Seq<u8>) -> Seq<u8> {
        v
    }

    open spec fn decode(bytes: Seq<u8>) -> Result<(Seq<u8>, nat), CodecError> {
        Ok((bytes, bytes.len()))
    }

    open spec fn canonical(v: Seq<u8>) -> bool {
        true
    }

    proof fn lemma_decode_sound(bytes: Seq<u8>) {
        assert(bytes.take(bytes.len() as int) =~= bytes);
    }

    proof fn lemma_round_trip(v: Seq<u8>) {
    }

    fn write(&self, out: &mut Vec<u8>) {
        out.extend_from_slice(self.as_slice());
    }

    fn read(bytes: &[u8]) -> (r: Result<(Vec<u8>, usize), CodecError>) {
        Ok((vstd::slice::slice_to_vec(bytes), bytes.len()))
    }
}

} // verus!
