//! Little-endian scalars on the wire, and the capability that every payload of a
//! message-router envelope has: to be written to, and read from, a byte buffer.

use vstd::prelude::*;
use crate::error::CodecError;

verus! {

/// Byte `n` of `v`, counted from the lowest.
#[verifier::opaque]
pub open spec fn byte_of_u16(v: u16, n: int) -> u8 {
    if n == 0 {
        (v % 256) as u8
    } else {
        (v / 256) as u8
    }
}

/// Byte `n` of `v`, counted from the lowest.
#[verifier::opaque]
pub open spec fn byte_of_u32(v: u32, n: int) -> u8 {
    if n == 0 {
        (v % 256) as u8
    } else if n == 1 {
        ((v / 256) % 256) as u8
    } else if n == 2 {
        ((v / 65536) % 256) as u8
    } else {
        (v / 16777216) as u8
    }
}

/// The two bytes of `v`, low byte first.
pub open spec fn le_bytes_u16(v: u16) -> Seq<u8> {
    seq![byte_of_u16(v, 0), byte_of_u16(v, 1)]
}

/// The four bytes of `v`, low byte first.
pub open spec fn le_bytes_u32(v: u32) -> Seq<u8> {
    seq![byte_of_u32(v, 0), byte_of_u32(v, 1), byte_of_u32(v, 2), byte_of_u32(v, 3)]
}

/// The number whose little-endian bytes are `b0`, `b1`.
pub open spec fn u16_of_le(b0: u8, b1: u8) -> u16 {
    (b0 + 256 * b1) as u16
}

/// The number whose little-endian bytes are `b0` to `b3`.
pub open spec fn u32_of_le(b0: u8, b1: u8, b2: u8, b3: u8) -> u32 {
    (b0 + 256 * b1 + 65536 * b2 + 16777216 * b3) as u32
}

/// The `u16` that stands at offset `at` of `bytes`.
pub open spec fn le_u16_at(bytes: Seq<u8>, at: int) -> u16
    recommends
        0 <= at,
        at + 2 <= bytes.len(),
{
    u16_of_le(bytes[at], bytes[at + 1])
}

/// The `u32` that stands at offset `at` of `bytes`.
pub open spec fn le_u32_at(bytes: Seq<u8>, at: int) -> u32
    recommends
        0 <= at,
        at + 4 <= bytes.len(),
{
    u32_of_le(bytes[at], bytes[at + 1], bytes[at + 2], bytes[at + 3])
}

/// Reading back the bytes of a `u16` gives the `u16`.
pub proof fn lemma_u16_le_round_trip(v: u16)
    ensures
        le_bytes_u16(v).len() == 2,
        le_u16_at(le_bytes_u16(v), 0) == v,
{
    reveal(byte_of_u16);
    assert(v % 256 + 256 * (v / 256) == v) by (bit_vector);
}

/// Writing the `u16` read from two bytes gives the two bytes.
pub proof fn lemma_u16_le_bytes_round_trip(b0: u8, b1: u8)
    ensures
        le_bytes_u16(u16_of_le(b0, b1)) == seq![b0, b1],
{
    reveal(byte_of_u16);
    let v = u16_of_le(b0, b1);
    assert(v == b0 + 256 * b1);
    assert(v % 256 == b0 && v / 256 == b1) by (bit_vector)
        requires
            v == b0 + 256 * b1,
    ;
    assert(le_bytes_u16(v) =~= seq![b0, b1]);
}

/// Reading back the bytes of a `u32` gives the `u32`.
pub proof fn lemma_u32_le_round_trip(v: u32)
    ensures
        le_bytes_u32(v).len() == 4,
        le_u32_at(le_bytes_u32(v), 0) == v,
{
    reveal(byte_of_u32);
    assert(v % 256 + 256 * ((v / 256) % 256) + 65536 * ((v / 65536) % 256) + 16777216 * (v
        / 16777216) == v) by (bit_vector);
}

/// Writing the `u32` read from four bytes gives the four bytes.
pub proof fn lemma_u32_le_bytes_round_trip(b0: u8, b1: u8, b2: u8, b3: u8)
    ensures
        le_bytes_u32(u32_of_le(b0, b1, b2, b3)) == seq![b0, b1, b2, b3],
{
    reveal(byte_of_u32);
    let v = u32_of_le(b0, b1, b2, b3);
    assert(v == b0 + 256 * b1 + 65536 * b2 + 16777216 * b3);
    assert(v % 256 == b0 && (v / 256) % 256 == b1 && (v / 65536) % 256 == b2 && v / 16777216
        == b3) by (bit_vector)
        requires
            v == b0 + 256 * b1 + 65536 * b2 + 16777216 * b3,
    ;
    assert(le_bytes_u32(v) =~= seq![b0, b1, b2, b3]);
}

/// A `u16` written between two runs of bytes is read back where it was written.
pub proof fn lemma_u16_le_read_back(before: Seq<u8>, v: u16, after: Seq<u8>)
    ensures
        le_u16_at(before + le_bytes_u16(v) + after, before.len() as int) == v,
{
    let bytes = before + le_bytes_u16(v) + after;
    let at = before.len() as int;
    lemma_u16_le_round_trip(v);
    assert(bytes[at] == le_bytes_u16(v)[0]);
    assert(bytes[at + 1] == le_bytes_u16(v)[1]);
}

/// A `u32` written between two runs of bytes is read back where it was written.
pub proof fn lemma_u32_le_read_back(before: Seq<u8>, v: u32, after: Seq<u8>)
    ensures
        le_u32_at(before + le_bytes_u32(v) + after, before.len() as int) == v,
{
    let bytes = before + le_bytes_u32(v) + after;
    let at = before.len() as int;
    lemma_u32_le_round_trip(v);
    assert(bytes[at] == le_bytes_u32(v)[0]);
    assert(bytes[at + 1] == le_bytes_u32(v)[1]);
    assert(bytes[at + 2] == le_bytes_u32(v)[2]);
    assert(bytes[at + 3] == le_bytes_u32(v)[3]);
}

/// Two bytes that are the bytes of a `u16` are read as that `u16`.
pub proof fn lemma_u16_le_read_at(bytes: Seq<u8>, at: int, v: u16)
    requires
        bytes[at] == byte_of_u16(v, 0),
        bytes[at + 1] == byte_of_u16(v, 1),
    ensures
        le_u16_at(bytes, at) == v,
{
    lemma_u16_le_round_trip(v);
}

/// Four bytes that are the bytes of a `u32` are read as that `u32`.
pub proof fn lemma_u32_le_read_at(bytes: Seq<u8>, at: int, v: u32)
    requires
        bytes[at] == byte_of_u32(v, 0),
        bytes[at + 1] == byte_of_u32(v, 1),
        bytes[at + 2] == byte_of_u32(v, 2),
        bytes[at + 3] == byte_of_u32(v, 3),
    ensures
        le_u32_at(bytes, at) == v,
{
    lemma_u32_le_round_trip(v);
}

/// The bytes of a `u16`, by division: remainder and quotient by 256.
pub proof fn lemma_le_bytes_u16(v: u16)
    ensures
        le_bytes_u16(v) == seq![(v % 256) as u8, (v / 256) as u8],
{
    reveal(byte_of_u16);
    assert(le_bytes_u16(v) =~= seq![(v % 256) as u8, (v / 256) as u8]);
}

/// The bytes of a `u32`, by division: the remainders by 256 of the quotients by
/// 1, 256, 65536 and 16777216.
pub proof fn lemma_le_bytes_u32(v: u32)
    ensures
        le_bytes_u32(v) == seq![
            (v % 256) as u8,
            ((v / 256) % 256) as u8,
            ((v / 65536) % 256) as u8,
            (v / 16777216) as u8,
        ],
{
    reveal(byte_of_u32);
    assert(le_bytes_u32(v) =~= seq![
        (v % 256) as u8,
        ((v / 256) % 256) as u8,
        ((v / 65536) % 256) as u8,
        (v / 16777216) as u8,
    ]);
}

/// The bytes of a number below 256: the number, then zeros.
pub proof fn lemma_le_bytes_small(v: u8)
    ensures
        le_bytes_u16(v as u16) == seq![v, 0u8],
        le_bytes_u32(v as u32) == seq![v, 0u8, 0u8, 0u8],
{
    let narrow = v as u16;
    let wide = v as u32;
    lemma_le_bytes_u16(narrow);
    lemma_le_bytes_u32(wide);
    assert(narrow % 256 == narrow && narrow / 256 == 0) by (bit_vector)
        requires
            narrow < 256,
    ;
    assert(wide % 256 == wide && (wide / 256) % 256 == 0 && (wide / 65536) % 256 == 0 && wide
        / 16777216 == 0) by (bit_vector)
        requires
            wide < 256,
    ;
    assert(le_bytes_u16(narrow) =~= seq![v, 0u8]);
    assert(le_bytes_u32(wide) =~= seq![v, 0u8, 0u8, 0u8]);
}

/// Appends the little-endian bytes of `v` to `out`.
pub fn put_u16_le(out: &mut Vec<u8>, v: u16)
    ensures
        final(out)@ == old(out)@ + le_bytes_u16(v),
{
    out.push((v % 256) as u8);
    out.push((v / 256) as u8);
    proof {
        lemma_le_bytes_u16(v);
    }
    assert(out@ =~= old(out)@ + le_bytes_u16(v));
}

/// Appends the little-endian bytes of `v` to `out`.
pub fn put_u32_le(out: &mut Vec<u8>, v: u32)
    ensures
        final(out)@ == old(out)@ + le_bytes_u32(v),
{
    out.push((v % 256) as u8);
    out.push(((v / 256) % 256) as u8);
    out.push(((v / 65536) % 256) as u8);
    out.push((v / 16777216) as u8);
    proof {
        lemma_le_bytes_u32(v);
    }
    assert(out@ =~= old(out)@ + le_bytes_u32(v));
}

/// The `u16` at offset `at` of `bytes`.
pub(crate) fn get_u16_le(bytes: &[u8], at: usize) -> (v: u16)
    requires
        at + 2 <= bytes.len(),
    ensures
        v == le_u16_at(bytes@, at as int),
{
    let b0: u16 = bytes[at] as u16;
    let b1: u16 = bytes[at + 1] as u16;
    b0 + 256 * b1
}

/// The `u32` at offset `at` of `bytes`.
pub(crate) fn get_u32_le(bytes: &[u8], at: usize) -> (v: u32)
    requires
        at + 4 <= bytes.len(),
    ensures
        v == le_u32_at(bytes@, at as int),
{
    let b0: u32 = bytes[at] as u32;
    let b1: u32 = bytes[at + 1] as u32;
    let b2: u32 = bytes[at + 2] as u32;
    let b3: u32 = bytes[at + 3] as u32;
    b0 + 256 * b1 + 65536 * b2 + 16777216 * b3
}

/// A value with a wire format: it can be written to a byte buffer and read back
/// from one.
///
/// `Self::V` is the mathematical value that a `Self` stands for. The three spec
/// functions define the format; `write` and `read` implement it, and the two
/// lemmas are the laws that every format obeys.
pub trait CipCodec: View + Sized {
    /// The bytes that stand for `v`.
    spec fn encode(v: Self::V) -> Seq<u8>;

    /// What a reader makes of `bytes`: the value at their front and the number of
    /// bytes that it takes up, or the reason why there is none.
    spec fn decode(bytes: Seq<u8>) -> Result<(Self::V, nat), CodecError>;

    /// Whether `v` is one of the values that `decode` gives: the only values that
    /// survive a round trip unchanged.
    spec fn canonical(v: Self::V) -> bool;

    /// A reader never takes more bytes than there are, and gives canonical values.
    proof fn lemma_decode_sound(bytes: Seq<u8>)
        ensures
            Self::decode(bytes) matches Ok((v, n)) ==> n <= bytes.len() && Self::canonical(v)
                && Self::encode(v) == bytes.take(n as int),
    ;

    /// Reading the bytes of a canonical value gives the value, and takes them all.
    proof fn lemma_round_trip(v: Self::V)
        requires
            Self::canonical(v),
        ensures
            Self::decode(Self::encode(v)) == Ok::<(Self::V, nat), CodecError>(
                (v, Self::encode(v).len()),
            ),
    ;

    /// Appends the bytes of `self` to `out`.
    fn write(&self, out: &mut Vec<u8>)
        ensures
            final(out)@ == old(out)@ + Self::encode(self@),
    ;

    /// Reads a value from the front of `bytes`; with it comes the number of bytes
    /// that it took.
    fn read(bytes: &[u8]) -> (r: Result<(Self, usize), CodecError>)
        ensures
            match r {
                Ok((v, n)) => Self::decode(bytes@) == Ok::<(Self::V, nat), CodecError>(
                    (v@, n as nat),
                ),
                Err(e) => Self::decode(bytes@) == Err::<(Self::V, nat), CodecError>(e),
            },
    ;
}

} // verus!
