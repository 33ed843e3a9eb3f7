//! Logical path segments and the paths that name an object: a class and an
//! instance, and in the long form an attribute too.
//!
//! A segment has two forms. The packed form is the number that goes on the wire in
//! little-endian order; the unpacked form names its fields. From the lowest bit
//! up a segment holds the format (2 bits), the logical type (3 bits), the segment
//! type (3 bits), in the wide form a pad byte, and the data.

use vstd::prelude::*;
use vstd::std_specs::convert::FromSpecImpl;
use crate::codec::{get_u16_le, get_u32_le, put_u16_le, put_u32_le, CipCodec};
use crate::codec::{byte_of_u16, byte_of_u32, le_bytes_u16, le_bytes_u32, le_u16_at, le_u32_at};
use crate::codec::{lemma_u16_le_bytes_round_trip, lemma_u32_le_bytes_round_trip};
use crate::codec::{lemma_u16_le_read_back, lemma_u32_le_read_back};
use crate::codec::{lemma_u16_le_round_trip, lemma_u32_le_round_trip};
use crate::codec::{lemma_le_bytes_u16, lemma_le_bytes_u32};
use crate::error::{CodecError, Layer};

verus! {

/// The kind of a path segment, three bits wide.
#[derive(Clone, Copy, Debug, PartialEq, Eq, Structural)]
pub enum SegmentType {
    LogicalSegment,
    /// Any other code, kept as it was read.
    Unknown(u8),
}

impl SegmentType {
    /// An unknown code fits three bits and is not the code of a named variant.
    pub open spec fn wf(self) -> bool {
        match self {
            SegmentType::LogicalSegment => true,
            SegmentType::Unknown(c) => c < 8 && c != 1,
        }
    }

    /// The three bits that stand for `self`.
    pub open spec fn code(self) -> u8 {
        match self {
            SegmentType::LogicalSegment => 1,
            SegmentType::Unknown(c) => c % 8,
        }
    }

    /// The segment type that the low three bits of `code` stand for.
    pub open spec fn of_code(code: u8) -> SegmentType {
        if code % 8 == 1 {
            SegmentType::LogicalSegment
        } else {
            SegmentType::Unknown(code % 8)
        }
    }

    /// The three bits that stand for `self`.
    pub fn bits(self) -> (c: u8)
        ensures
            c == self.code(),
            c < 8,
    {
        match self {
            SegmentType::LogicalSegment => 1,
            SegmentType::Unknown(c) => c % 8,
        }
    }

    /// The segment type that the low three bits of `code` stand for.
    pub fn from_bits(code: u8) -> (s: SegmentType)
        ensures
            s == SegmentType::of_code(code),
            s.wf(),
            s.code() == code % 8,
    {
        if code % 8 == 1 {
            SegmentType::LogicalSegment
        } else {
            SegmentType::Unknown(code % 8)
        }
    }
}

/// What a logical segment names, three bits wide.
#[derive(Clone, Copy, Debug, PartialEq, Eq, Structural)]
pub enum LogicalSegmentType {
    ClassId,
    InstanceId,
    AttributeId,
    /// Any other code, kept as it was read.
    Unknown(u8),
}

impl LogicalSegmentType {
    /// An unknown code fits three bits and is not the code of a named variant.
    pub open spec fn wf(self) -> bool {
        match self {
            LogicalSegmentType::Unknown(c) => c < 8 && c != 0 && c != 1 && c != 4,
            _ => true,
        }
    }

    /// The three bits that stand for `self`.
    pub open spec fn code(self) -> u8 {
        match self {
            LogicalSegmentType::ClassId => 0,
            LogicalSegmentType::InstanceId => 1,
            LogicalSegmentType::AttributeId => 4,
            LogicalSegmentType::Unknown(c) => c % 8,
        }
    }

    /// The logical type that the low three bits of `code` stand for.
    pub open spec fn of_code(code: u8) -> LogicalSegmentType {
        if code % 8 == 0 {
            LogicalSegmentType::ClassId
        } else if code % 8 == 1 {
            LogicalSegmentType::InstanceId
        } else if code % 8 == 4 {
            LogicalSegmentType::AttributeId
        } else {
            LogicalSegmentType::Unknown(code % 8)
        }
    }

    /// The three bits that stand for `self`.
    pub fn bits(self) -> (c: u8)
        ensures
            c == self.code(),
            c < 8,
    {
        match self {
            LogicalSegmentType::ClassId => 0,
            LogicalSegmentType::InstanceId => 1,
            LogicalSegmentType::AttributeId => 4,
            LogicalSegmentType::Unknown(c) => c % 8,
        }
    }

    /// The logical type that the low three bits of `code` stand for.
    pub fn from_bits(code: u8) -> (s: LogicalSegmentType)
        ensures
            s == LogicalSegmentType::of_code(code),
            s.wf(),
            s.code() == code % 8,
    {
        let low: u8 = code % 8;
        if low == 0 {
            LogicalSegmentType::ClassId
        } else if low == 1 {
            LogicalSegmentType::InstanceId
        } else if low == 4 {
            LogicalSegmentType::AttributeId
        } else {
            LogicalSegmentType::Unknown(low)
        }
    }
}

/// The width of a logical segment's data, two bits wide.
#[derive(Clone, Copy, Debug, PartialEq, Eq, Structural)]
pub enum LogicalSegmentFormat {
    FormatAsU8,
    FormatAsU16,
    /// Any other code, kept as it was read.
    Unknown(u8),
}

impl LogicalSegmentFormat {
    /// An unknown code fits two bits and is not the code of a named variant.
    pub open spec fn wf(self) -> bool {
        match self {
            LogicalSegmentFormat::Unknown(c) => c == 2 || c == 3,
            _ => true,
        }
    }

    /// The two bits that stand for `self`.
    pub open spec fn code(self) -> u8 {
        match self {
            LogicalSegmentFormat::FormatAsU8 => 0,
            LogicalSegmentFormat::FormatAsU16 => 1,
            LogicalSegmentFormat::Unknown(c) => c % 4,
        }
    }

    /// The format that the low two bits of `code` stand for.
    pub open spec fn of_code(code: u8) -> LogicalSegmentFormat {
        if code % 4 == 0 {
            LogicalSegmentFormat::FormatAsU8
        } else if code % 4 == 1 {
            LogicalSegmentFormat::FormatAsU16
        } else {
            LogicalSegmentFormat::Unknown(code % 4)
        }
    }

    /// The two bits that stand for `self`.
    pub fn bits(self) -> (c: u8)
        ensures
            c == self.code(),
            c < 4,
    {
        match self {
            LogicalSegmentFormat::FormatAsU8 => 0,
            LogicalSegmentFormat::FormatAsU16 => 1,
            LogicalSegmentFormat::Unknown(c) => c % 4,
        }
    }

    /// The format that the low two bits of `code` stand for.
    pub fn from_bits(code: u8) -> (s: LogicalSegmentFormat)
        ensures
            s == LogicalSegmentFormat::of_code(code),
            s.wf(),
            s.code() == code % 4,
    {
        let low: u8 = code % 4;
        if low == 0 {
            LogicalSegmentFormat::FormatAsU8
        } else if low == 1 {
            LogicalSegmentFormat::FormatAsU16
        } else {
            LogicalSegmentFormat::Unknown(low)
        }
    }
}

/// The byte that opens a segment: format, logical type and segment type packed
/// from the lowest bit up.
pub open spec fn segment_head(
    format: LogicalSegmentFormat,
    logical_type: LogicalSegmentType,
    segment_type: SegmentType,
) -> u8 {
    (format.code() + 4 * logical_type.code() + 32 * segment_type.code()) as u8
}

/// The fields of a wide logical segment: 32 bits with 16 bits of data.
#[derive(Clone, Copy, Debug, PartialEq, Eq, Structural)]
pub struct LogicalPathSegmentBits {
    pub logical_segment_format: LogicalSegmentFormat,
    pub logical_segment_type: LogicalSegmentType,
    pub segment_type: SegmentType,
    pub padded_bytes: u8,
    pub data: u16,
}

impl LogicalPathSegmentBits {
    /// Each field is in its canonical form.
    pub open spec fn wf(self) -> bool {
        &&& self.logical_segment_format.wf()
        &&& self.logical_segment_type.wf()
        &&& self.segment_type.wf()
    }

    /// The packed form of `self`.
    pub open spec fn value(self) -> u32 {
        (segment_head(self.logical_segment_format, self.logical_segment_type, self.segment_type)
            + 256 * self.padded_bytes + 65536 * self.data) as u32
    }

    /// The fields that the packed form `value` holds.
    pub open spec fn of_value(value: u32) -> LogicalPathSegmentBits {
        LogicalPathSegmentBits {
            logical_segment_format: LogicalSegmentFormat::of_code((value % 4) as u8),
            logical_segment_type: LogicalSegmentType::of_code(((value / 4) % 8) as u8),
            segment_type: SegmentType::of_code(((value / 32) % 8) as u8),
            padded_bytes: ((value / 256) % 256) as u8,
            data: (value / 65536) as u16,
        }
    }

    /// A segment from its fields, in the order in which they are packed.
    pub fn new(
        logical_segment_format: LogicalSegmentFormat,
        logical_segment_type: LogicalSegmentType,
        segment_type: SegmentType,
        padded_bytes: u8,
        data: u16,
    ) -> (bits: LogicalPathSegmentBits)
        ensures
            bits == (LogicalPathSegmentBits {
                logical_segment_format,
                logical_segment_type,
                segment_type,
                padded_bytes,
                data,
            }),
    {
        LogicalPathSegmentBits {
            logical_segment_format,
            logical_segment_type,
            segment_type,
            padded_bytes,
            data,
        }
    }

    /// Packs the fields into one number.
    pub fn pack(&self) -> (value: u32)
        ensures
            value == self.value(),
    {
        let format: u32 = self.logical_segment_format.bits() as u32;
        let logical_type: u32 = self.logical_segment_type.bits() as u32;
        let segment_type: u32 = self.segment_type.bits() as u32;
        let pad: u32 = self.padded_bytes as u32;
        let data: u32 = self.data as u32;
        format + 4 * logical_type + 32 * segment_type + 256 * pad + 65536 * data
    }

    /// Splits a packed segment into its fields.
    pub fn unpack(value: u32) -> (bits: LogicalPathSegmentBits)
        ensures
            bits == LogicalPathSegmentBits::of_value(value),
            bits.wf(),
    {
        LogicalPathSegmentBits {
            logical_segment_format: LogicalSegmentFormat::from_bits((value % 4) as u8),
            logical_segment_type: LogicalSegmentType::from_bits(((value / 4) % 8) as u8),
            segment_type: SegmentType::from_bits(((value / 32) % 8) as u8),
            padded_bytes: ((value / 256) % 256) as u8,
            data: (value / 65536) as u16,
        }
    }
}

/// A wide logical segment as it goes on the wire: four bytes, little-endian.
#[derive(Clone, Copy, Debug, PartialEq, Eq, Structural)]
pub struct LogicalPathSegment {
    pub segment_representation: u32,
}

impl View for LogicalPathSegment {
    type V = LogicalPathSegment;

    open spec fn view(&self) -> LogicalPathSegment {
        *self
    }
}

impl From<LogicalPathSegment> for LogicalPathSegmentBits {
    fn from(segment: LogicalPathSegment) -> (bits: LogicalPathSegmentBits)
        ensures
            bits.wf(),
    {
        LogicalPathSegmentBits::unpack(segment.segment_representation)
    }
}

impl FromSpecImpl<LogicalPathSegment> for LogicalPathSegmentBits {
    open spec fn obeys_from_spec() -> bool {
        true
    }

    open spec fn from_spec(segment: LogicalPathSegment) -> LogicalPathSegmentBits {
        LogicalPathSegmentBits::of_value(segment.segment_representation)
    }
}

impl From<LogicalPathSegmentBits> for LogicalPathSegment {
    fn from(segment: LogicalPathSegmentBits) -> (packed: LogicalPathSegment) {
        LogicalPathSegment { segment_representation: segment.pack() }
    }
}

impl FromSpecImpl<LogicalPathSegmentBits> for LogicalPathSegment {
    open spec fn obeys_from_spec() -> bool {
        true
    }

    open spec fn from_spec(segment: LogicalPathSegmentBits) -> LogicalPathSegment {
        LogicalPathSegment { segment_representation: segment.value() }
    }
}

impl CipCodec for LogicalPathSegment {
    open spec fn encode(v: LogicalPathSegment) -> Seq<u8> {
        le_bytes_u32(v.segment_representation)
    }

    open spec fn decode(bytes: Seq<u8>) -> Result<(LogicalPathSegment, nat), CodecError> {
        if bytes.len() >= 4 {
            Ok((LogicalPathSegment { segment_representation: le_u32_at(bytes, 0) }, 4nat))
        } else {
            Err(CodecError::short(Layer::Primitive))
        }
    }

    open spec fn canonical(v: LogicalPathSegment) -> bool {
        true
    }

    proof fn lemma_decode_sound(bytes: Seq<u8>) {
        if bytes.len() >= 4 {
            lemma_u32_le_bytes_round_trip(bytes[0], bytes[1], bytes[2], bytes[3]);
            assert(seq![bytes[0], bytes[1], bytes[2], bytes[3]] =~= bytes.take(4));
        }
    }

    proof fn lemma_round_trip(v: LogicalPathSegment) {
        lemma_u32_le_round_trip(v.segment_representation);
    }

    fn write(&self, out: &mut Vec<u8>) {
        put_u32_le(out, self.segment_representation);
    }

    fn read(bytes: &[u8]) -> (r: Result<(LogicalPathSegment, usize), CodecError>) {
        if bytes.len() >= 4 {
            Ok((LogicalPathSegment { segment_representation: get_u32_le(bytes, 0) }, 4))
        } else {
            Err(CodecError::short_read(Layer::Primitive))
        }
    }
}

/// A 32-bit number is the sum of its bit fields.
proof fn lemma_split_u32(value: u32)
    ensures
        value % 4 + 4 * ((value / 4) % 8) + 32 * ((value / 32) % 8) + 256 * ((value / 256) % 256)
            + 65536 * (value / 65536) == value,
{
    assert(value % 4 + 4 * ((value / 4) % 8) + 32 * ((value / 32) % 8) + 256 * ((value / 256)
        % 256) + 65536 * (value / 65536) == value) by (bit_vector);
}

/// The bit fields of a sum of bit fields are the summands.
proof fn lemma_join_u32(format: u32, logical_type: u32, segment_type: u32, pad: u32, data: u32)
    requires
        format < 4,
        logical_type < 8,
        segment_type < 8,
        pad < 256,
        data < 65536,
    ensures
        ({
            let value = (format + 4 * logical_type + 32 * segment_type + 256 * pad + 65536
                * data) as u32;
            &&& value == format + 4 * logical_type + 32 * segment_type + 256 * pad + 65536 * data
            &&& value % 4 == format
            &&& (value / 4) % 8 == logical_type
            &&& (value / 32) % 8 == segment_type
            &&& (value / 256) % 256 == pad
            &&& value / 65536 == data
        }),
{
    let value = (format + 4 * logical_type + 32 * segment_type + 256 * pad + 65536 * data) as u32;
    assert(value == format + 4 * logical_type + 32 * segment_type + 256 * pad + 65536 * data);
    assert(value % 4 == format && (value / 4) % 8 == logical_type && (value / 32) % 8
        == segment_type && (value / 256) % 256 == pad && value / 65536 == data) by (bit_vector)
        requires
            format < 4,
            logical_type < 8,
            segment_type < 8,
            pad < 256,
            data < 65536,
            value == format + 4 * logical_type + 32 * segment_type + 256 * pad + 65536 * data,
    ;
}

/// Packing the fields of a packed segment gives the same number, whatever its
/// bits are: unknown codes are kept.
pub proof fn lemma_wide_segment_value_round_trip(value: u32)
    ensures
        LogicalPathSegmentBits::of_value(value).wf(),
        LogicalPathSegmentBits::of_value(value).value() == value,
{
    lemma_split_u32(value);
    let bits = LogicalPathSegmentBits::of_value(value);
    assert(bits.logical_segment_format.code() == value % 4);
    assert(bits.logical_segment_type.code() == (value / 4) % 8);
    assert(bits.segment_type.code() == (value / 32) % 8);
}

/// Unpacking the packed form of canonical fields gives the same fields.
pub proof fn lemma_wide_segment_fields_round_trip(bits: LogicalPathSegmentBits)
    requires
        bits.wf(),
    ensures
        LogicalPathSegmentBits::of_value(bits.value()) == bits,
{
    lemma_join_u32(
        bits.logical_segment_format.code() as u32,
        bits.logical_segment_type.code() as u32,
        bits.segment_type.code() as u32,
        bits.padded_bytes as u32,
        bits.data as u32,
    );
}

/// Four bytes, read as a wide segment, split into fields, packed and written
/// again, are the same four bytes.
pub proof fn lemma_wide_segment_bytes_round_trip(b0: u8, b1: u8, b2: u8, b3: u8)
    ensures
        LogicalPathSegment::decode(seq![b0, b1, b2, b3]) matches Ok((segment, n)) && n == 4 && ({
            let bits = LogicalPathSegmentBits::of_value(segment.segment_representation);
            LogicalPathSegment::encode(LogicalPathSegment { segment_representation: bits.value() })
                == seq![b0, b1, b2, b3]
        }),
{
    let bytes = seq![b0, b1, b2, b3];
    let value = le_u32_at(bytes, 0);
    lemma_wide_segment_value_round_trip(value);
    lemma_u32_le_bytes_round_trip(b0, b1, b2, b3);
}

/// The fields of a narrow logical segment: 16 bits with 8 bits of data.
#[derive(Clone, Copy, Debug, PartialEq, Eq, Structural)]
pub struct LogicalFullPathSegmentBits {
    pub logical_segment_format: LogicalSegmentFormat,
    pub logical_segment_type: LogicalSegmentType,
    pub segment_type: SegmentType,
    pub data: u8,
}

impl LogicalFullPathSegmentBits {
    /// Each field is in its canonical form.
    pub open spec fn wf(self) -> bool {
        &&& self.logical_segment_format.wf()
        &&& self.logical_segment_type.wf()
        &&& self.segment_type.wf()
    }

    /// The packed form of `self`.
    pub open spec fn value(self) -> u16 {
        (segment_head(self.logical_segment_format, self.logical_segment_type, self.segment_type)
            + 256 * self.data) as u16
    }

    /// The fields that the packed form `value` holds.
    pub open spec fn of_value(value: u16) -> LogicalFullPathSegmentBits {
        LogicalFullPathSegmentBits {
            logical_segment_format: LogicalSegmentFormat::of_code((value % 4) as u8),
            logical_segment_type: LogicalSegmentType::of_code(((value / 4) % 8) as u8),
            segment_type: SegmentType::of_code(((value / 32) % 8) as u8),
            data: (value / 256) as u8,
        }
    }

    /// A segment from its fields, in the order in which they are packed.
    pub fn new(
        logical_segment_format: LogicalSegmentFormat,
        logical_segment_type: LogicalSegmentType,
        segment_type: SegmentType,
        data: u8,
    ) -> (bits: LogicalFullPathSegmentBits)
        ensures
            bits == (LogicalFullPathSegmentBits {
                logical_segment_format,
                logical_segment_type,
                segment_type,
                data,
            }),
    {
        LogicalFullPathSegmentBits {
            logical_segment_format,
            logical_segment_type,
            segment_type,
            data,
        }
    }

    /// Packs the fields into one number.
    pub fn pack(&self) -> (value: u16)
        ensures
            value == self.value(),
    {
        let format: u16 = self.logical_segment_format.bits() as u16;
        let logical_type: u16 = self.logical_segment_type.bits() as u16;
        let segment_type: u16 = self.segment_type.bits() as u16;
        let data: u16 = self.data as u16;
        format + 4 * logical_type + 32 * segment_type + 256 * data
    }

    /// Splits a packed segment into its fields.
    pub fn unpack(value: u16) -> (bits: LogicalFullPathSegmentBits)
        ensures
            bits == LogicalFullPathSegmentBits::of_value(value),
            bits.wf(),
    {
        LogicalFullPathSegmentBits {
            logical_segment_format: LogicalSegmentFormat::from_bits((value % 4) as u8),
            logical_segment_type: LogicalSegmentType::from_bits(((value / 4) % 8) as u8),
            segment_type: SegmentType::from_bits(((value / 32) % 8) as u8),
            data: (value / 256) as u8,
        }
    }
}

/// A narrow logical segment as it goes on the wire: two bytes, little-endian.
#[derive(Clone, Copy, Debug, PartialEq, Eq, Structural)]
pub struct LogicalFullPathSegment {
    pub segment_representation: u16,
}

impl View for LogicalFullPathSegment {
    type V = LogicalFullPathSegment;

    open spec fn view(&self) -> LogicalFullPathSegment {
        *self
    }
}

impl From<LogicalFullPathSegment> for LogicalFullPathSegmentBits {
    fn from(segment: LogicalFullPathSegment) -> (bits: LogicalFullPathSegmentBits)
        ensures
            bits.wf(),
    {
        LogicalFullPathSegmentBits::unpack(segment.segment_representation)
    }
}

impl FromSpecImpl<LogicalFullPathSegment> for LogicalFullPathSegmentBits {
    open spec fn obeys_from_spec() -> bool {
        true
    }

    open spec fn from_spec(segment: LogicalFullPathSegment) -> LogicalFullPathSegmentBits {
        LogicalFullPathSegmentBits::of_value(segment.segment_representation)
    }
}

impl From<LogicalFullPathSegmentBits> for LogicalFullPathSegment {
    fn from(segment: LogicalFullPathSegmentBits) -> (packed: LogicalFullPathSegment) {
        LogicalFullPathSegment { segment_representation: segment.pack() }
    }
}

impl FromSpecImpl<LogicalFullPathSegmentBits> for LogicalFullPathSegment {
    open spec fn obeys_from_spec() -> bool {
        true
    }

    open spec fn from_spec(segment: LogicalFullPathSegmentBits) -> LogicalFullPathSegment {
        LogicalFullPathSegment { segment_representation: segment.value() }
    }
}

impl CipCodec for LogicalFullPathSegment {
    open spec fn encode(v: LogicalFullPathSegment) -> Seq<u8> {
        le_bytes_u16(v.segment_representation)
    }

    open spec fn decode(bytes: Seq<u8>) -> Result<(LogicalFullPathSegment, nat), CodecError> {
        if bytes.len() >= 2 {
            Ok((LogicalFullPathSegment { segment_representation: le_u16_at(bytes, 0) }, 2nat))
        } else {
            Err(CodecError::short(Layer::Primitive))
        }
    }

    open spec fn canonical(v: LogicalFullPathSegment) -> bool {
        true
    }

    proof fn lemma_decode_sound(bytes: Seq<u8>) {
        if bytes.len() >= 2 {
            lemma_u16_le_bytes_round_trip(bytes[0], bytes[1]);
            assert(seq![bytes[0], bytes[1]] =~= bytes.take(2));
        }
    }

    proof fn lemma_round_trip(v: LogicalFullPathSegment) {
        lemma_u16_le_round_trip(v.segment_representation);
    }

    fn write(&self, out: &mut Vec<u8>) {
        put_u16_le(out, self.segment_representation);
    }

    fn read(bytes: &[u8]) -> (r: Result<(LogicalFullPathSegment, usize), CodecError>) {
        if bytes.len() >= 2 {
            Ok((LogicalFullPathSegment { segment_representation: get_u16_le(bytes, 0) }, 2))
        } else {
            Err(CodecError::short_read(Layer::Primitive))
        }
    }
}

/// A 16-bit number is the sum of its bit fields.
proof fn lemma_split_u16(value: u16)
    ensures
        value % 4 + 4 * ((value / 4) % 8) + 32 * ((value / 32) % 8) + 256 * (value / 256) == value,
{
    assert(value % 4 + 4 * ((value / 4) % 8) + 32 * ((value / 32) % 8) + 256 * (value / 256)
        == value) by (bit_vector);
}

/// The bit fields of a sum of bit fields are the summands.
proof fn lemma_join_u16(format: u16, logical_type: u16, segment_type: u16, data: u16)
    requires
        format < 4,
        logical_type < 8,
        segment_type < 8,
        data < 256,
    ensures
        ({
            let value = (format + 4 * logical_type + 32 * segment_type + 256 * data) as u16;
            &&& value == format + 4 * logical_type + 32 * segment_type + 256 * data
            &&& value % 4 == format
            &&& (value / 4) % 8 == logical_type
            &&& (value / 32) % 8 == segment_type
            &&& value / 256 == data
        }),
{
    let value = (format + 4 * logical_type + 32 * segment_type + 256 * data) as u16;
    assert(value == format + 4 * logical_type + 32 * segment_type + 256 * data);
    assert(value % 4 == format && (value / 4) % 8 == logical_type && (value / 32) % 8
        == segment_type && value / 256 == data) by (bit_vector)
        requires
            format < 4,
            logical_type < 8,
            segment_type < 8,
            data < 256,
            value == format + 4 * logical_type + 32 * segment_type + 256 * data,
    ;
}

/// Packing the fields of a packed segment gives the same number, whatever its
/// bits are: unknown codes are kept.
pub proof fn lemma_narrow_segment_value_round_trip(value: u16)
    ensures
        LogicalFullPathSegmentBits::of_value(value).wf(),
        LogicalFullPathSegmentBits::of_value(value).value() == value,
{
    lemma_split_u16(value);
    let bits = LogicalFullPathSegmentBits::of_value(value);
    assert(bits.logical_segment_format.code() == value % 4);
    assert(bits.logical_segment_type.code() == (value / 4) % 8);
    assert(bits.segment_type.code() == (value / 32) % 8);
}

/// Unpacking the packed form of canonical fields gives the same fields.
pub proof fn lemma_narrow_segment_fields_round_trip(bits: LogicalFullPathSegmentBits)
    requires
        bits.wf(),
    ensures
        LogicalFullPathSegmentBits::of_value(bits.value()) == bits,
{
    lemma_join_u16(
        bits.logical_segment_format.code() as u16,
        bits.logical_segment_type.code() as u16,
        bits.segment_type.code() as u16,
        bits.data as u16,
    );
}

/// Two bytes, read as a narrow segment, split into fields, packed and written
/// again, are the same two bytes.
pub proof fn lemma_narrow_segment_bytes_round_trip(b0: u8, b1: u8)
    ensures
        LogicalFullPathSegment::decode(seq![b0, b1]) matches Ok((segment, n)) && n == 2 && ({
            let bits = LogicalFullPathSegmentBits::of_value(segment.segment_representation);
            LogicalFullPathSegment::encode(
                LogicalFullPathSegment { segment_representation: bits.value() },
            ) == seq![b0, b1]
        }),
{
    let bytes = seq![b0, b1];
    let value = le_u16_at(bytes, 0);
    lemma_narrow_segment_value_round_trip(value);
    lemma_u16_le_bytes_round_trip(b0, b1);
}

/// The wide segment of kind "logical" that names `data` as a `logical_type`.
pub open spec fn wide_segment(logical_type: LogicalSegmentType, data: u16) -> LogicalPathSegment {
    LogicalPathSegment {
        segment_representation: (LogicalPathSegmentBits {
            logical_segment_format: LogicalSegmentFormat::FormatAsU16,
            logical_segment_type: logical_type,
            segment_type: SegmentType::LogicalSegment,
            padded_bytes: 0,
            data,
        }).value(),
    }
}

/// The narrow segment of kind "logical" that names `data` as a `logical_type`.
pub open spec fn narrow_segment(logical_type: LogicalSegmentType, data: u8)
    -> LogicalFullPathSegment {
    LogicalFullPathSegment {
        segment_representation: (LogicalFullPathSegmentBits {
            logical_segment_format: LogicalSegmentFormat::FormatAsU8,
            logical_segment_type: logical_type,
            segment_type: SegmentType::LogicalSegment,
            data,
        }).value(),
    }
}

/// The fields of a short path.
#[derive(Clone, Copy, Debug, PartialEq, Eq, Structural)]
pub struct CipPathBits {
    pub class_id_segment: LogicalPathSegmentBits,
    pub instance_id_segment: LogicalPathSegmentBits,
}

/// A class and an instance, each in a wide segment: eight bytes on the wire.
#[derive(Clone, Copy, Debug, PartialEq, Eq, Structural)]
pub struct CipShortPath {
    pub class_id_segment: LogicalPathSegment,
    pub instance_id_segment: LogicalPathSegment,
}

impl View for CipShortPath {
    type V = CipShortPath;

    open spec fn view(&self) -> CipShortPath {
        *self
    }
}

impl CipShortPath {
    /// The short path to instance `instance_id` of class `class_id`.
    pub open spec fn to(class_id: u16, instance_id: u16) -> CipShortPath {
        CipShortPath {
            class_id_segment: wide_segment(LogicalSegmentType::ClassId, class_id),
            instance_id_segment: wide_segment(LogicalSegmentType::InstanceId, instance_id),
        }
    }

    /// The short path to instance `instance_id` of class `class_id`.
    pub fn new(class_id: u16, instance_id: u16) -> (path: CipShortPath)
        ensures
            path == CipShortPath::to(class_id, instance_id),
    {
        CipShortPath {
            class_id_segment: LogicalPathSegmentBits::new(
                LogicalSegmentFormat::FormatAsU16,
                LogicalSegmentType::ClassId,
                SegmentType::LogicalSegment,
                0x0,
                class_id,
            ).into(),
            instance_id_segment: LogicalPathSegmentBits::new(
                LogicalSegmentFormat::FormatAsU16,
                LogicalSegmentType::InstanceId,
                SegmentType::LogicalSegment,
                0x0,
                instance_id,
            ).into(),
        }
    }
}

impl From<CipShortPath> for CipPathBits {
    fn from(segment: CipShortPath) -> (bits: CipPathBits) {
        CipPathBits {
            class_id_segment: LogicalPathSegmentBits::from(segment.class_id_segment),
            instance_id_segment: LogicalPathSegmentBits::from(segment.instance_id_segment),
        }
    }
}

impl FromSpecImpl<CipShortPath> for CipPathBits {
    open spec fn obeys_from_spec() -> bool {
        true
    }

    open spec fn from_spec(segment: CipShortPath) -> CipPathBits {
        CipPathBits {
            class_id_segment: LogicalPathSegmentBits::of_value(
                segment.class_id_segment.segment_representation,
            ),
            instance_id_segment: LogicalPathSegmentBits::of_value(
                segment.instance_id_segment.segment_representation,
            ),
        }
    }
}

impl From<CipPathBits> for CipShortPath {
    fn from(segment: CipPathBits) -> (path: CipShortPath) {
        CipShortPath {
            class_id_segment: LogicalPathSegment::from(segment.class_id_segment),
            instance_id_segment: LogicalPathSegment::from(segment.instance_id_segment),
        }
    }
}

impl FromSpecImpl<CipPathBits> for CipShortPath {
    open spec fn obeys_from_spec() -> bool {
        true
    }

    open spec fn from_spec(segment: CipPathBits) -> CipShortPath {
        CipShortPath {
            class_id_segment: LogicalPathSegment {
                segment_representation: segment.class_id_segment.value(),
            },
            instance_id_segment: LogicalPathSegment {
                segment_representation: segment.instance_id_segment.value(),
            },
        }
    }
}

impl CipCodec for CipShortPath {
    open spec fn encode(v: CipShortPath) -> Seq<u8> {
        le_bytes_u32(v.class_id_segment.segment_representation) + le_bytes_u32(
            v.instance_id_segment.segment_representation,
        )
    }

    open spec fn decode(bytes: Seq<u8>) -> Result<(CipShortPath, nat), CodecError> {
        if bytes.len() >= 8 {
            Ok(
                (
                    CipShortPath {
                        class_id_segment: LogicalPathSegment {
                            segment_representation: le_u32_at(bytes, 0),
                        },
                        instance_id_segment: LogicalPathSegment {
                            segment_representation: le_u32_at(bytes, 4),
                        },
                    },
                    8nat,
                ),
            )
        } else {
            Err(CodecError::short(Layer::Primitive))
        }
    }

    open spec fn canonical(v: CipShortPath) -> bool {
        true
    }

    proof fn lemma_decode_sound(bytes: Seq<u8>) {
        if bytes.len() >= 8 {
            lemma_u32_le_bytes_round_trip(bytes[0], bytes[1], bytes[2], bytes[3]);
            lemma_u32_le_bytes_round_trip(bytes[4], bytes[5], bytes[6], bytes[7]);
            assert(seq![bytes[0], bytes[1], bytes[2], bytes[3]] + seq![
                bytes[4],
                bytes[5],
                bytes[6],
                bytes[7],
            ] =~= bytes.take(8));
        }
    }

    proof fn lemma_round_trip(v: CipShortPath) {
        let class_bytes = le_bytes_u32(v.class_id_segment.segment_representation);
        let instance_bytes = le_bytes_u32(v.instance_id_segment.segment_representation);
        lemma_u32_le_read_back(
            Seq::empty(),
            v.class_id_segment.segment_representation,
            instance_bytes,
        );
        lemma_u32_le_read_back(
            class_bytes,
            v.instance_id_segment.segment_representation,
            Seq::empty(),
        );
        assert(Seq::<u8>::empty() + class_bytes + instance_bytes =~= Self::encode(v));
        assert(class_bytes + instance_bytes + Seq::<u8>::empty() =~= Self::encode(v));
    }

    fn write(&self, out: &mut Vec<u8>) {
        put_u32_le(out, self.class_id_segment.segment_representation);
        put_u32_le(out, self.instance_id_segment.segment_representation);
        assert(out@ =~= old(out)@ + Self::encode(*self));
    }

    fn read(bytes: &[u8]) -> (r: Result<(CipShortPath, usize), CodecError>) {
        if bytes.len() >= 8 {
            Ok(
                (
                    CipShortPath {
                        class_id_segment: LogicalPathSegment {
                            segment_representation: get_u32_le(bytes, 0),
                        },
                        instance_id_segment: LogicalPathSegment {
                            segment_representation: get_u32_le(bytes, 4),
                        },
                    },
                    8,
                ),
            )
        } else {
            Err(CodecError::short_read(Layer::Primitive))
        }
    }
}

/// The fields of a full path.
#[derive(Clone, Copy, Debug, PartialEq, Eq, Structural)]
pub struct CipFullPathBits {
    pub class_id_segment: LogicalFullPathSegmentBits,
    pub instance_id_segment: LogicalFullPathSegmentBits,
    pub attribute_id_segment: LogicalFullPathSegmentBits,
}

/// A class, an instance and an attribute, each in a narrow segment: six bytes on
/// the wire.
#[derive(Clone, Copy, Debug, PartialEq, Eq, Structural)]
pub struct CipFullPath {
    pub class_id_segment: LogicalFullPathSegment,
    pub instance_id_segment: LogicalFullPathSegment,
    pub attribute_id_segment: LogicalFullPathSegment,
}

impl View for CipFullPath {
    type V = CipFullPath;

    open spec fn view(&self) -> CipFullPath {
        *self
    }
}

impl CipFullPath {
    /// The full path to attribute `attribute_id` of instance `instance_id` of
    /// class `class_id`.
    pub open spec fn to(class_id: u8, instance_id: u8, attribute_id: u8) -> CipFullPath {
        CipFullPath {
            class_id_segment: narrow_segment(LogicalSegmentType::ClassId, class_id),
            instance_id_segment: narrow_segment(LogicalSegmentType::InstanceId, instance_id),
            attribute_id_segment: narrow_segment(LogicalSegmentType::AttributeId, attribute_id),
        }
    }

    /// The full path to attribute `attribute_id` of instance `instance_id` of
    /// class `class_id`.
    pub fn new(class_id: u8, instance_id: u8, attribute_id: u8) -> (path: CipFullPath)
        ensures
            path == CipFullPath::to(class_id, instance_id, attribute_id),
    {
        CipFullPath {
            class_id_segment: LogicalFullPathSegmentBits::new(
                LogicalSegmentFormat::FormatAsU8,
                LogicalSegmentType::ClassId,
                SegmentType::LogicalSegment,
                class_id,
            ).into(),
            instance_id_segment: LogicalFullPathSegmentBits::new(
                LogicalSegmentFormat::FormatAsU8,
                LogicalSegmentType::InstanceId,
                SegmentType::LogicalSegment,
                instance_id,
            ).into(),
            attribute_id_segment: LogicalFullPathSegmentBits::new(
                LogicalSegmentFormat::FormatAsU8,
                LogicalSegmentType::AttributeId,
                SegmentType::LogicalSegment,
                attribute_id,
            ).into(),
        }
    }
}

impl From<CipFullPath> for CipFullPathBits {
    fn from(segment: CipFullPath) -> (bits: CipFullPathBits) {
        CipFullPathBits {
            class_id_segment: LogicalFullPathSegmentBits::from(segment.class_id_segment),
            instance_id_segment: LogicalFullPathSegmentBits::from(segment.instance_id_segment),
            attribute_id_segment: LogicalFullPathSegmentBits::from(segment.attribute_id_segment),
        }
    }
}

impl FromSpecImpl<CipFullPath> for CipFullPathBits {
    open spec fn obeys_from_spec() -> bool {
        true
    }

    open spec fn from_spec(segment: CipFullPath) -> CipFullPathBits {
        CipFullPathBits {
            class_id_segment: LogicalFullPathSegmentBits::of_value(
                segment.class_id_segment.segment_representation,
            ),
            instance_id_segment: LogicalFullPathSegmentBits::of_value(
                segment.instance_id_segment.segment_representation,
            ),
            attribute_id_segment: LogicalFullPathSegmentBits::of_value(
                segment.attribute_id_segment.segment_representation,
            ),
        }
    }
}

impl From<CipFullPathBits> for CipFullPath {
    fn from(segment: CipFullPathBits) -> (path: CipFullPath) {
        CipFullPath {
            class_id_segment: LogicalFullPathSegment::from(segment.class_id_segment),
            instance_id_segment: LogicalFullPathSegment::from(segment.instance_id_segment),
            attribute_id_segment: LogicalFullPathSegment::from(segment.attribute_id_segment),
        }
    }
}

impl FromSpecImpl<CipFullPathBits> for CipFullPath {
    open spec fn obeys_from_spec() -> bool {
        true
    }

    open spec fn from_spec(segment: CipFullPathBits) -> CipFullPath {
        CipFullPath {
            class_id_segment: LogicalFullPathSegment {
                segment_representation: segment.class_id_segment.value(),
            },
            instance_id_segment: LogicalFullPathSegment {
                segment_representation: segment.instance_id_segment.value(),
            },
            attribute_id_segment: LogicalFullPathSegment {
                segment_representation: segment.attribute_id_segment.value(),
            },
        }
    }
}

impl CipCodec for CipFullPath {
    open spec fn encode(v: CipFullPath) -> Seq<u8> {
        le_bytes_u16(v.class_id_segment.segment_representation) + le_bytes_u16(
            v.instance_id_segment.segment_representation,
        ) + le_bytes_u16(v.attribute_id_segment.segment_representation)
    }

    open spec fn decode(bytes: Seq<u8>) -> Result<(CipFullPath, nat), CodecError> {
        if bytes.len() >= 6 {
            Ok(
                (
                    CipFullPath {
                        class_id_segment: LogicalFullPathSegment {
                            segment_representation: le_u16_at(bytes, 0),
                        },
                        instance_id_segment: LogicalFullPathSegment {
                            segment_representation: le_u16_at(bytes, 2),
                        },
                        attribute_id_segment: LogicalFullPathSegment {
                            segment_representation: le_u16_at(bytes, 4),
                        },
                    },
                    6nat,
                ),
            )
        } else {
            Err(CodecError::short(Layer::Primitive))
        }
    }

    open spec fn canonical(v: CipFullPath) -> bool {
        true
    }

    proof fn lemma_decode_sound(bytes: Seq<u8>) {
        if bytes.len() >= 6 {
            lemma_u16_le_bytes_round_trip(bytes[0], bytes[1]);
            lemma_u16_le_bytes_round_trip(bytes[2], bytes[3]);
            lemma_u16_le_bytes_round_trip(bytes[4], bytes[5]);
            assert(seq![bytes[0], bytes[1]] + seq![bytes[2], bytes[3]] + seq![bytes[4], bytes[5]]
                =~= bytes.take(6));
        }
    }

    proof fn lemma_round_trip(v: CipFullPath) {
        let class_bytes = le_bytes_u16(v.class_id_segment.segment_representation);
        let instance_bytes = le_bytes_u16(v.instance_id_segment.segment_representation);
        let attribute_bytes = le_bytes_u16(v.attribute_id_segment.segment_representation);
        lemma_u16_le_read_back(
            Seq::empty(),
            v.class_id_segment.segment_representation,
            instance_bytes + attribute_bytes,
        );
        lemma_u16_le_read_back(
            class_bytes,
            v.instance_id_segment.segment_representation,
            attribute_bytes,
        );
        lemma_u16_le_read_back(
            class_bytes + instance_bytes,
            v.attribute_id_segment.segment_representation,
            Seq::empty(),
        );
        assert(Seq::<u8>::empty() + class_bytes + (instance_bytes + attribute_bytes)
            =~= Self::encode(v));
        assert(class_bytes + instance_bytes + attribute_bytes =~= Self::encode(v));
        assert(class_bytes + instance_bytes + attribute_bytes + Seq::<u8>::empty()
            =~= Self::encode(v));
    }

    fn write(&self, out: &mut Vec<u8>) {
        put_u16_le(out, self.class_id_segment.segment_representation);
        put_u16_le(out, self.instance_id_segment.segment_representation);
        put_u16_le(out, self.attribute_id_segment.segment_representation);
        assert(out@ =~= old(out)@ + Self::encode(*self));
    }

    fn read(bytes: &[u8]) -> (r: Result<(CipFullPath, usize), CodecError>) {
        if bytes.len() >= 6 {
            Ok(
                (
                    CipFullPath {
                        class_id_segment: LogicalFullPathSegment {
                            segment_representation: get_u16_le(bytes, 0),
                        },
                        instance_id_segment: LogicalFullPathSegment {
                            segment_representation: get_u16_le(bytes, 2),
                        },
                        attribute_id_segment: LogicalFullPathSegment {
                            segment_representation: get_u16_le(bytes, 4),
                        },
                    },
                    6,
                ),
            )
        } else {
            Err(CodecError::short_read(Layer::Primitive))
        }
    }
}

/// The path of a request: short or full, as its constructor chose.
///
/// On the wire nothing but the format bits of the first byte tells the two
/// apart: a first segment of 8-bit format opens a full path, any other a short
/// one.
#[derive(Clone, Copy, Debug, PartialEq, Eq, Structural)]
pub enum CipPath {
    Short(CipShortPath),
    Full(CipFullPath),
}

impl View for CipPath {
    type V = CipPath;

    open spec fn view(&self) -> CipPath {
        *self
    }
}

impl CipPath {
    /// The short path to instance `instance_id` of class `class_id`.
    pub open spec fn short(class_id: u16, instance_id: u16) -> CipPath {
        CipPath::Short(CipShortPath::to(class_id, instance_id))
    }

    /// The full path to attribute `attribute_id` of instance `instance_id` of
    /// class `class_id`.
    pub open spec fn full(class_id: u8, instance_id: u8, attribute_id: u8) -> CipPath {
        CipPath::Full(CipFullPath::to(class_id, instance_id, attribute_id))
    }

    /// The number of bytes that the path takes on the wire.
    pub open spec fn wire_len(self) -> nat {
        match self {
            CipPath::Short(_) => 8,
            CipPath::Full(_) => 6,
        }
    }

    /// The short path to instance `instance_id` of class `class_id`.
    pub fn new(class_id: u16, instance_id: u16) -> (path: CipPath)
        ensures
            path == CipPath::short(class_id, instance_id),
            CipPath::canonical(path),
            CipPath::encode(path) == seq![
                0x21u8,
                0x00u8,
                (class_id % 256) as u8,
                (class_id / 256) as u8,
                0x25u8,
                0x00u8,
                (instance_id % 256) as u8,
                (instance_id / 256) as u8,
            ],
    {
        proof {
            lemma_short_path_bytes(class_id, instance_id);
        }
        CipPath::Short(CipShortPath::new(class_id, instance_id))
    }

    /// The full path to attribute `attribute_id` of instance `instance_id` of
    /// class `class_id`.
    pub fn new_full(class_id: u8, instance_id: u8, attribute_id: u8) -> (path: CipPath)
        ensures
            path == CipPath::full(class_id, instance_id, attribute_id),
            CipPath::canonical(path),
            CipPath::encode(path) == seq![
                0x20u8,
                class_id,
                0x24u8,
                instance_id,
                0x30u8,
                attribute_id,
            ],
    {
        proof {
            lemma_full_path_bytes(class_id, instance_id, attribute_id);
        }
        CipPath::Full(CipFullPath::new(class_id, instance_id, attribute_id))
    }

    /// The number of bytes that the path takes on the wire.
    pub fn byte_size(&self) -> (n: usize)
        ensures
            n == self.wire_len(),
            n == Self::encode(*self).len(),
    {
        match self {
            CipPath::Short(_) => 8,
            CipPath::Full(_) => 6,
        }
    }
}

impl CipCodec for CipPath {
    open spec fn encode(v: CipPath) -> Seq<u8> {
        match v {
            CipPath::Short(path) => CipShortPath::encode(path),
            CipPath::Full(path) => CipFullPath::encode(path),
        }
    }

    open spec fn decode(bytes: Seq<u8>) -> Result<(CipPath, nat), CodecError> {
        if bytes.len() < 1 {
            Err(CodecError::short(Layer::Primitive))
        } else if bytes[0] % 4 == 0 {
            match CipFullPath::decode(bytes) {
                Ok((path, n)) => Ok((CipPath::Full(path), n)),
                Err(e) => Err(e),
            }
        } else {
            match CipShortPath::decode(bytes) {
                Ok((path, n)) => Ok((CipPath::Short(path), n)),
                Err(e) => Err(e),
            }
        }
    }

    open spec fn canonical(v: CipPath) -> bool {
        match v {
            CipPath::Short(path) => byte_of_u32(path.class_id_segment.segment_representation, 0)
                % 4 != 0,
            CipPath::Full(path) => byte_of_u16(path.class_id_segment.segment_representation, 0)
                % 4 == 0,
        }
    }

    proof fn lemma_decode_sound(bytes: Seq<u8>) {
        if bytes.len() >= 1 {
            if bytes[0] % 4 == 0 {
                CipFullPath::lemma_decode_sound(bytes);
                if bytes.len() >= 6 {
                    lemma_u16_le_bytes_round_trip(bytes[0], bytes[1]);
                    assert(le_bytes_u16(le_u16_at(bytes, 0))[0] == bytes[0]);
                }
            } else {
                CipShortPath::lemma_decode_sound(bytes);
                if bytes.len() >= 8 {
                    lemma_u32_le_bytes_round_trip(bytes[0], bytes[1], bytes[2], bytes[3]);
                    assert(le_bytes_u32(le_u32_at(bytes, 0))[0] == bytes[0]);
                }
            }
        }
    }

    proof fn lemma_round_trip(v: CipPath) {
        match v {
            CipPath::Short(path) => {
                CipShortPath::lemma_round_trip(path);
                assert(Self::encode(v)[0] == byte_of_u32(
                    path.class_id_segment.segment_representation,
                    0,
                ));
            },
            CipPath::Full(path) => {
                CipFullPath::lemma_round_trip(path);
                assert(Self::encode(v)[0] == byte_of_u16(
                    path.class_id_segment.segment_representation,
                    0,
                ));
            },
        }
    }

    fn write(&self, out: &mut Vec<u8>) {
        match self {
            CipPath::Short(path) => path.write(out),
            CipPath::Full(path) => path.write(out),
        }
    }

    fn read(bytes: &[u8]) -> (r: Result<(CipPath, usize), CodecError>) {
        if bytes.len() < 1 {
            return Err(CodecError::short_read(Layer::Primitive));
        }
        if bytes[0] % 4 == 0 {
            match CipFullPath::read(bytes) {
                Ok((path, n)) => Ok((CipPath::Full(path), n)),
                Err(e) => Err(e),
            }
        } else {
            match CipShortPath::read(bytes) {
                Ok((path, n)) => Ok((CipPath::Short(path), n)),
                Err(e) => Err(e),
            }
        }
    }
}

/// A path takes eight bytes in the short form and six in the full form.
pub proof fn lemma_path_len(path: CipPath)
    ensures
        CipPath::encode(path).len() == path.wire_len(),
        path.wire_len() == 6 || path.wire_len() == 8,
{
}

/// The packed form of a wide segment with a zero pad byte is its head and, above
/// the low 16 bits, its data.
proof fn lemma_wide_segment_bytes(head: u8, data: u16)
    ensures
        le_bytes_u32((head + 65536 * data) as u32) == seq![
            head,
            0x00u8,
            (data % 256) as u8,
            (data / 256) as u8,
        ],
{
    let value = (head + 65536 * data) as u32;
    let wide_head = head as u32;
    let wide_data = data as u32;
    assert(value == wide_head + 65536 * wide_data);
    assert(value % 256 == wide_head && (value / 256) % 256 == 0 && (value / 65536) % 256
        == wide_data % 256 && value / 16777216 == wide_data / 256) by (bit_vector)
        requires
            wide_head < 256,
            wide_data < 65536,
            value == wide_head + 65536 * wide_data,
    ;
    lemma_le_bytes_u32(value);
    assert(le_bytes_u32(value) =~= seq![
        head,
        0x00u8,
        (data % 256) as u8,
        (data / 256) as u8,
    ]);
}

/// The packed form of a narrow segment is its head and, above the low 8 bits,
/// its data.
proof fn lemma_narrow_segment_bytes(head: u8, data: u8)
    ensures
        le_bytes_u16((head + 256 * data) as u16) == seq![head, data],
{
    let value = (head + 256 * data) as u16;
    let wide_head = head as u16;
    let wide_data = data as u16;
    assert(value == wide_head + 256 * wide_data);
    assert(value % 256 == wide_head && value / 256 == wide_data) by (bit_vector)
        requires
            wide_head < 256,
            wide_data < 256,
            value == wide_head + 256 * wide_data,
    ;
    lemma_le_bytes_u16(value);
    assert(le_bytes_u16(value) =~= seq![head, data]);
}

/// The eight bytes of a short path.
pub proof fn lemma_short_path_bytes(class_id: u16, instance_id: u16)
    ensures
        CipPath::encode(CipPath::short(class_id, instance_id)) == seq![
            0x21u8,
            0x00u8,
            (class_id % 256) as u8,
            (class_id / 256) as u8,
            0x25u8,
            0x00u8,
            (instance_id % 256) as u8,
            (instance_id / 256) as u8,
        ],
        CipPath::canonical(CipPath::short(class_id, instance_id)),
{
    let class_value = wide_segment(LogicalSegmentType::ClassId, class_id).segment_representation;
    let instance_value = wide_segment(
        LogicalSegmentType::InstanceId,
        instance_id,
    ).segment_representation;
    assert(class_value == (0x21u8 + 65536 * class_id) as u32);
    assert(instance_value == (0x25u8 + 65536 * instance_id) as u32);
    lemma_wide_segment_bytes(0x21, class_id);
    lemma_wide_segment_bytes(0x25, instance_id);
    assert(le_bytes_u32(class_value)[0] == 0x21u8);
    assert(CipPath::encode(CipPath::short(class_id, instance_id)) =~= seq![
        0x21u8,
        0x00u8,
        (class_id % 256) as u8,
        (class_id / 256) as u8,
        0x25u8,
        0x00u8,
        (instance_id % 256) as u8,
        (instance_id / 256) as u8,
    ]);
}

/// The six bytes of a full path.
pub proof fn lemma_full_path_bytes(class_id: u8, instance_id: u8, attribute_id: u8)
    ensures
        CipPath::encode(CipPath::full(class_id, instance_id, attribute_id)) == seq![
            0x20u8,
            class_id,
            0x24u8,
            instance_id,
            0x30u8,
            attribute_id,
        ],
        CipPath::canonical(CipPath::full(class_id, instance_id, attribute_id)),
{
    let class_value = narrow_segment(LogicalSegmentType::ClassId, class_id).segment_representation;
    let instance_value = narrow_segment(
        LogicalSegmentType::InstanceId,
        instance_id,
    ).segment_representation;
    let attribute_value = narrow_segment(
        LogicalSegmentType::AttributeId,
        attribute_id,
    ).segment_representation;
    assert(class_value == (0x20u8 + 256 * class_id) as u16);
    assert(instance_value == (0x24u8 + 256 * instance_id) as u16);
    assert(attribute_value == (0x30u8 + 256 * attribute_id) as u16);
    lemma_narrow_segment_bytes(0x20, class_id);
    lemma_narrow_segment_bytes(0x24, instance_id);
    lemma_narrow_segment_bytes(0x30, attribute_id);
    assert(le_bytes_u16(class_value)[0] == 0x20u8);
    assert(CipPath::encode(CipPath::full(class_id, instance_id, attribute_id)) =~= seq![
        0x20u8,
        class_id,
        0x24u8,
        instance_id,
        0x30u8,
        attribute_id,
    ]);
}

/// A short path made by its constructor, written and read back, is the same path,
/// and the reader takes every byte.
pub proof fn lemma_short_path_round_trip(class_id: u16, instance_id: u16)
    ensures
        ({
            let path = CipPath::short(class_id, instance_id);
            &&& CipPath::encode(path).len() == 8
            &&& CipPath::decode(CipPath::encode(path)) == Ok::<(CipPath, nat), CodecError>(
                (path, 8nat),
            )
        }),
{
    let path = CipPath::short(class_id, instance_id);
    lemma_short_path_bytes(class_id, instance_id);
    CipPath::lemma_round_trip(path);
}

/// A full path made by its constructor, written and read back, is the same path,
/// and the reader takes every byte.
pub proof fn lemma_full_path_round_trip(class_id: u8, instance_id: u8, attribute_id: u8)
    ensures
        ({
            let path = CipPath::full(class_id, instance_id, attribute_id);
            &&& CipPath::encode(path).len() == 6
            &&& CipPath::decode(CipPath::encode(path)) == Ok::<(CipPath, nat), CodecError>(
                (path, 6nat),
            )
        }),
{
    let path = CipPath::full(class_id, instance_id, attribute_id);
    lemma_full_path_bytes(class_id, instance_id, attribute_id);
    CipPath::lemma_round_trip(path);
}

} // verus!
