//! The scalar types of the protocol, the revision pair and the short string.

use vstd::prelude::*;
use vstd::slice::{slice_subrange, slice_to_vec};
use vstd::std_specs::convert::FromSpecImpl;
use vstd::utf8::{decode_utf8, encode_utf8, valid_utf8};
use vstd::utf8::{encode_utf8_decode_utf8, encode_utf8_valid_utf8};
use crate::codec::CipCodec;
use crate::error::{CodecError, Layer};

verus! {

/// 8-bit value that tags a data type.
pub type CipOctet = u8;

/// Boolean, one byte on the wire.
pub type CipBool = u8;

/// 8-bit string of bits.
pub type CipByte = u8;

/// 16-bit string of bits.
pub type CipWord = u16;

/// 32-bit string of bits.
pub type CipDword = u32;

/// 64-bit string of bits.
pub type CipLword = u64;

/// 8-bit unsigned integer.
pub type CipUsint = u8;

/// 16-bit unsigned integer.
pub type CipUint = u16;

/// 32-bit unsigned integer.
pub type CipUdint = u32;

/// 64-bit unsigned integer.
pub type CipUlint = u64;

/// 8-bit signed integer.
pub type CipSint = i8;

/// 16-bit signed integer.
pub type CipInt = i16;

/// 32-bit signed integer.
pub type CipDint = i32;

/// 64-bit signed integer.
pub type CipLint = i64;

/// A major and a minor revision number, one byte each.
#[derive(Clone, Copy, Debug, PartialEq, Eq, Structural)]
pub struct CipRevision {
    pub major_revision: CipUsint,
    pub minor_revision: CipUsint,
}

impl View for CipRevision {
    type V = CipRevision;

    open spec fn view(&self) -> CipRevision {
        *self
    }
}

impl CipCodec for CipRevision {
    open spec fn encode(v: CipRevision) -> Seq<u8> {
        seq![v.major_revision, v.minor_revision]
    }

    open spec fn decode(bytes: Seq<u8>) -> Result<(CipRevision, nat), CodecError> {
        if bytes.len() >= 2 {
            Ok((CipRevision { major_revision: bytes[0], minor_revision: bytes[1] }, 2nat))
        } else {
            Err(CodecError::short(Layer::Primitive))
        }
    }

    open spec fn canonical(v: CipRevision) -> bool {
        true
    }

    proof fn lemma_decode_sound(bytes: Seq<u8>) {
        if bytes.len() >= 2 {
            assert(seq![bytes[0], bytes[1]] =~= bytes.take(2));
        }
    }

    proof fn lemma_round_trip(v: CipRevision) {
    }

    fn write(&self, out: &mut Vec<u8>) {
        out.push(self.major_revision);
        out.push(self.minor_revision);
        assert(out@ =~= old(out)@ + Self::encode(*self));
    }

    fn read(bytes: &[u8]) -> (r: Result<(CipRevision, usize), CodecError>) {
        if bytes.len() >= 2 {
            Ok((CipRevision { major_revision: bytes[0], minor_revision: bytes[1] }, 2))
        } else {
            Err(CodecError::short_read(Layer::Primitive))
        }
    }
}

/// A string of at most 255 bytes, preceded on the wire by its length in one byte.
#[derive(Clone, Debug, PartialEq, Eq)]
pub struct CipShortString {
    /// The number of bytes in `value`.
    pub length: CipUsint,
    /// The bytes of the text.
    pub value: Vec<CipUsint>,
}

/// What a [`CipShortString`] holds: the length prefix and the bytes.
pub struct ShortStringValue {
    pub length: u8,
    pub value: Seq<u8>,
}

impl View for CipShortString {
    type V = ShortStringValue;

    open spec fn view(&self) -> ShortStringValue {
        ShortStringValue { length: self.length, value: self.value@ }
    }
}

/// The longest text, in bytes, that a short string holds.
pub const SHORT_STRING_MAX: usize = 255;

/// The short string that `bytes` makes: its first 255 bytes, with their number
/// in front.
pub open spec fn short_string_of_bytes(bytes: Seq<u8>) -> ShortStringValue {
    if bytes.len() <= SHORT_STRING_MAX {
        ShortStringValue { length: bytes.len() as u8, value: bytes }
    } else {
        ShortStringValue { length: 255u8, value: bytes.take(255) }
    }
}

impl CipShortString {
    /// The prefix tells the number of bytes that follow it.
    pub open spec fn wf(&self) -> bool {
        self.length == self.value@.len()
    }

    /// The short string that holds `text`. A text of more than 255 bytes is cut
    /// after its first 255 bytes.
    pub fn new(text: String) -> (s: CipShortString)
        ensures
            s@ == short_string_of_bytes(encode_utf8(text@)),
            s.wf(),
    {
        let bytes = text.as_str().as_bytes();
        let kept: usize = if bytes.len() <= SHORT_STRING_MAX {
            bytes.len()
        } else {
            SHORT_STRING_MAX
        };
        let value = slice_to_vec(slice_subrange(bytes, 0, kept));
        assert(value@ =~= short_string_of_bytes(encode_utf8(text@)).value);
        CipShortString { length: kept as u8, value }
    }

    /// The text that the bytes spell, with a substitution character in place of
    /// each run of bytes that is no UTF-8.
    pub fn to_text(&self) -> (text: String)
        ensures
            text@ == utf8_lossy_text(self.value@),
            valid_utf8(self.value@) ==> text@ == decode_utf8(self.value@),
    {
        text_from_utf8_lossy(self.value.as_slice())
    }
}

/// The text that `String::from_utf8_lossy` makes of `bytes`.
pub uninterp spec fn utf8_lossy_text(bytes: Seq<u8>) -> Seq<char>;

/// `String::from_utf8_lossy`, its result made into an owned `String`. The text is a
/// function of the bytes alone; where the bytes are valid UTF-8 it is the text
/// that they encode, with nothing replaced.
#[verifier::external_body]
fn text_from_utf8_lossy(bytes: &[u8]) -> (text: String)
    ensures
        text@ == utf8_lossy_text(bytes@),
        valid_utf8(bytes@) ==> text@ == decode_utf8(bytes@),
{
    String::from_utf8_lossy(bytes).into_owned()
}

impl From<String> for CipShortString {
    /// As [`CipShortString::new`].
    fn from(string_val: String) -> (s: CipShortString)
        ensures
            s@ == short_string_of_bytes(encode_utf8(string_val@)),
            s.wf(),
    {
        CipShortString::new(string_val)
    }
}

impl FromSpecImpl<String> for CipShortString {
    open spec fn obeys_from_spec() -> bool {
        false
    }

    open spec fn from_spec(string_val: String) -> CipShortString {
        arbitrary()
    }
}

impl From<CipShortString> for String {
    /// As [`CipShortString::to_text`].
    fn from(short_string_val: CipShortString) -> (text: String)
        ensures
            text@ == utf8_lossy_text(short_string_val.value@),
            valid_utf8(short_string_val.value@) ==> text@ == decode_utf8(short_string_val.value@),
    {
        short_string_val.to_text()
    }
}

impl FromSpecImpl<CipShortString> for String {
    open spec fn obeys_from_spec() -> bool {
        false
    }

    open spec fn from_spec(short_string_val: CipShortString) -> String {
        arbitrary()
    }
}

impl CipCodec for CipShortString {
    open spec fn encode(v: ShortStringValue) -> Seq<u8> {
        seq![v.length] + v.value
    }

    open spec fn decode(bytes: Seq<u8>) -> Result<(ShortStringValue, nat), CodecError> {
        if bytes.len() >= 1 && bytes.len() >= 1 + bytes[0] {
            Ok(
                (
                    ShortStringValue { length: bytes[0], value: bytes.subrange(1, 1 + bytes[0]) },
                    (1 + bytes[0]) as nat,
                ),
            )
        } else {
            Err(CodecError::short(Layer::Primitive))
        }
    }

    open spec fn canonical(v: ShortStringValue) -> bool {
        v.length == v.value.len()
    }

    proof fn lemma_decode_sound(bytes: Seq<u8>) {
        if bytes.len() >= 1 && bytes.len() >= 1 + bytes[0] {
            let n = 1 + bytes[0];
            assert(seq![bytes[0]] + bytes.subrange(1, n) =~= bytes.take(n));
        }
    }

    proof fn lemma_round_trip(v: ShortStringValue) {
        let bytes = Self::encode(v);
        assert(bytes.subrange(1, 1 + bytes[0]) =~= v.value);
    }

    fn write(&self, out: &mut Vec<u8>) {
        out.push(self.length);
        out.extend_from_slice(self.value.as_slice());
        assert(out@ =~= old(out)@ + Self::encode(self@));
    }

    fn read(bytes: &[u8]) -> (r: Result<(CipShortString, usize), CodecError>) {
        if bytes.len() < 1 {
            return Err(CodecError::short_read(Layer::Primitive));
        }
        let length: u8 = bytes[0];
        let count: usize = length as usize;
        if bytes.len() - 1 < count {
            return Err(CodecError::short_read(Layer::Primitive));
        }
        let value = slice_to_vec(slice_subrange(bytes, 1, 1 + count));
        Ok((CipShortString { length, value }, 1 + count))
    }
}

/// A text of at most 255 bytes, put into a short string and taken out again, is
/// the same text.
pub proof fn lemma_short_string_keeps_text(text: Seq<char>)
    requires
        encode_utf8(text).len() <= SHORT_STRING_MAX,
    ensures
        short_string_of_bytes(encode_utf8(text)).value == encode_utf8(text),
        valid_utf8(encode_utf8(text)),
        decode_utf8(short_string_of_bytes(encode_utf8(text)).value) == text,
        CipShortString::canonical(short_string_of_bytes(encode_utf8(text))),
{
    encode_utf8_valid_utf8(text);
    encode_utf8_decode_utf8(text);
}

} // verus!
