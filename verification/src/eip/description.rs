//! The items of the common packet format: each is announced by a descriptor that
//! holds its type and the number of bytes that it takes.

use vstd::prelude::*;
use crate::cip::types::CipUint;
use crate::codec::{get_u16_le, put_u16_le, CipCodec};
use crate::codec::{le_bytes_u16, le_u16_at};
use crate::codec::{lemma_u16_le_bytes_round_trip, lemma_u16_le_read_back, lemma_u16_le_round_trip};
use crate::error::{CodecError, Layer};

verus! {

/// The type of an item of the common packet format.
#[derive(Clone, Copy, Debug, PartialEq, Eq, Structural)]
pub enum CommonPacketItemId {
    NullAddr,
    ListIdentity,
    ConnectionAddressItem,
    ConnectedTransportPacket,
    UnconnectedMessage,
    O2TSockAddrInfo,
    T2OSockAddrInfo,
    SequencedAddressItem,
}

impl View for CommonPacketItemId {
    type V = CommonPacketItemId;

    open spec fn view(&self) -> CommonPacketItemId {
        *self
    }
}

impl CommonPacketItemId {
    /// The number that stands for `self` on the wire.
    pub open spec fn code(self) -> u16 {
        match self {
            CommonPacketItemId::NullAddr => 0x0000,
            CommonPacketItemId::ListIdentity => 0x000C,
            CommonPacketItemId::ConnectionAddressItem => 0x00A1,
            CommonPacketItemId::ConnectedTransportPacket => 0x00B1,
            CommonPacketItemId::UnconnectedMessage => 0x00B2,
            CommonPacketItemId::O2TSockAddrInfo => 0x8000,
            CommonPacketItemId::T2OSockAddrInfo => 0x8001,
            CommonPacketItemId::SequencedAddressItem => 0x8002,
        }
    }

    /// The item type that `code` stands for, if it stands for one.
    pub open spec fn of_code(code: u16) -> Option<CommonPacketItemId> {
        if code == 0x0000 {
            Some(CommonPacketItemId::NullAddr)
        } else if code == 0x000C {
            Some(CommonPacketItemId::ListIdentity)
        } else if code == 0x00A1 {
            Some(CommonPacketItemId::ConnectionAddressItem)
        } else if code == 0x00B1 {
            Some(CommonPacketItemId::ConnectedTransportPacket)
        } else if code == 0x00B2 {
            Some(CommonPacketItemId::UnconnectedMessage)
        } else if code == 0x8000 {
            Some(CommonPacketItemId::O2TSockAddrInfo)
        } else if code == 0x8001 {
            Some(CommonPacketItemId::T2OSockAddrInfo)
        } else if code == 0x8002 {
            Some(CommonPacketItemId::SequencedAddressItem)
        } else {
            None
        }
    }

    /// The number that stands for `self` on the wire.
    pub fn to_code(self) -> (code: u16)
        ensures
            code == self.code(),
            Self::of_code(code) == Some(self),
    {
        match self {
            CommonPacketItemId::NullAddr => 0x0000,
            CommonPacketItemId::ListIdentity => 0x000C,
            CommonPacketItemId::ConnectionAddressItem => 0x00A1,
            CommonPacketItemId::ConnectedTransportPacket => 0x00B1,
            CommonPacketItemId::UnconnectedMessage => 0x00B2,
            CommonPacketItemId::O2TSockAddrInfo => 0x8000,
            CommonPacketItemId::T2OSockAddrInfo => 0x8001,
            CommonPacketItemId::SequencedAddressItem => 0x8002,
        }
    }

    /// The item type that `code` stands for, if it stands for one.
    pub fn from_code(code: u16) -> (id: Option<CommonPacketItemId>)
        ensures
            id == Self::of_code(code),
            id matches Some(known) ==> known.code() == code,
    {
        match code {
            0x0000 => Some(CommonPacketItemId::NullAddr),
            0x000C => Some(CommonPacketItemId::ListIdentity),
            0x00A1 => Some(CommonPacketItemId::ConnectionAddressItem),
            0x00B1 => Some(CommonPacketItemId::ConnectedTransportPacket),
            0x00B2 => Some(CommonPacketItemId::UnconnectedMessage),
            0x8000 => Some(CommonPacketItemId::O2TSockAddrInfo),
            0x8001 => Some(CommonPacketItemId::T2OSockAddrInfo),
            0x8002 => Some(CommonPacketItemId::SequencedAddressItem),
            _ => None,
        }
    }
}

/// A code and the item type that it stands for name each other.
pub proof fn lemma_item_id_codes(id: CommonPacketItemId, code: u16)
    ensures
        CommonPacketItemId::of_code(id.code()) == Some(id),
        CommonPacketItemId::of_code(code) matches Some(known) ==> known.code() == code,
{
}

impl CipCodec for CommonPacketItemId {
    open spec fn encode(v: CommonPacketItemId) -> Seq<u8> {
        le_bytes_u16(v.code())
    }

    open spec fn decode(bytes: Seq<u8>) -> Result<(CommonPacketItemId, nat), CodecError> {
        if bytes.len() < 2 {
            Err(CodecError::short(Layer::Encapsulation))
        } else {
            match CommonPacketItemId::of_code(le_u16_at(bytes, 0)) {
                Some(id) => Ok((id, 2nat)),
                None => Err(CodecError::violation(Layer::Encapsulation)),
            }
        }
    }

    open spec fn canonical(v: CommonPacketItemId) -> bool {
        true
    }

    proof fn lemma_decode_sound(bytes: Seq<u8>) {
        if bytes.len() >= 2 {
            lemma_u16_le_bytes_round_trip(bytes[0], bytes[1]);
            assert(seq![bytes[0], bytes[1]] =~= bytes.take(2));
        }
    }

    proof fn lemma_round_trip(v: CommonPacketItemId) {
        lemma_u16_le_round_trip(v.code());
    }

    fn write(&self, out: &mut Vec<u8>) {
        put_u16_le(out, self.to_code());
    }

    fn read(bytes: &[u8]) -> (r: Result<(CommonPacketItemId, usize), CodecError>) {
        if bytes.len() < 2 {
            return Err(CodecError::short_read(Layer::Encapsulation));
        }
        match CommonPacketItemId::from_code(get_u16_le(bytes, 0)) {
            Some(id) => Ok((id, 2)),
            None => Err(CodecError::invariant_violation(Layer::Encapsulation)),
        }
    }
}

/// The descriptor of an item: its type and the number of bytes that it takes.
#[derive(Clone, Copy, Debug, PartialEq, Eq, Structural)]
pub struct CommonPacketDescriptor {
    pub type_id: CommonPacketItemId,
    /// The length as it was read. When a descriptor is written the length is
    /// handed to the writer; what is stored here is not looked at.
    pub packet_length: CipUint,
}

/// The length that a descriptor is written with: the one provided, or 0 where
/// none is.
pub open spec fn provided_length(provided_packet_length: Option<u16>) -> u16 {
    match provided_packet_length {
        Some(value) => value,
        None => 0,
    }
}

impl CommonPacketDescriptor {
    /// The bytes that stand for `self` when it is written with
    /// `provided_packet_length`.
    pub open spec fn wire(self, provided_packet_length: Option<u16>) -> Seq<u8> {
        le_bytes_u16(self.type_id.code()) + le_bytes_u16(provided_length(provided_packet_length))
    }

    /// What a reader makes of `bytes`, field by field: the type must be a known
    /// one.
    pub open spec fn decode(bytes: Seq<u8>) -> Result<(CommonPacketDescriptor, nat), CodecError> {
        if bytes.len() < 2 {
            Err(CodecError::short(Layer::Encapsulation))
        } else {
            match CommonPacketItemId::of_code(le_u16_at(bytes, 0)) {
                None => Err(CodecError::violation(Layer::Encapsulation)),
                Some(type_id) => if bytes.len() < 4 {
                    Err(CodecError::short(Layer::Encapsulation))
                } else {
                    Ok(
                        (
                            CommonPacketDescriptor { type_id, packet_length: le_u16_at(bytes, 2) },
                            4nat,
                        ),
                    )
                },
            }
        }
    }

    /// Appends the bytes of `self` to `out`, with `provided_packet_length` as the
    /// length, or 0 where none is provided.
    pub fn write(&self, provided_packet_length: Option<u16>, out: &mut Vec<u8>)
        ensures
            final(out)@ == old(out)@ + self.wire(provided_packet_length),
    {
        let write_value: u16 = match provided_packet_length {
            Some(value) => value,
            None => 0,
        };
        put_u16_le(out, self.type_id.to_code());
        put_u16_le(out, write_value);
        assert(out@ =~= old(out)@ + self.wire(provided_packet_length));
    }

    /// Reads a descriptor from the front of `bytes`; with it comes the number of
    /// bytes that it took.
    pub fn read(bytes: &[u8]) -> (r: Result<(CommonPacketDescriptor, usize), CodecError>)
        ensures
            match r {
                Ok((v, n)) => Self::decode(bytes@) == Ok::<
                    (CommonPacketDescriptor, nat),
                    CodecError,
                >((v, n as nat)) && n == 4 && n <= bytes.len(),
                Err(e) => Self::decode(bytes@) == Err::<(CommonPacketDescriptor, nat), CodecError>(
                    e,
                ),
            },
    {
        if bytes.len() < 2 {
            return Err(CodecError::short_read(Layer::Encapsulation));
        }
        let type_id = match CommonPacketItemId::from_code(get_u16_le(bytes, 0)) {
            Some(id) => id,
            None => {
                return Err(CodecError::invariant_violation(Layer::Encapsulation));
            },
        };
        if bytes.len() < 4 {
            return Err(CodecError::short_read(Layer::Encapsulation));
        }
        Ok((CommonPacketDescriptor { type_id, packet_length: get_u16_le(bytes, 2) }, 4))
    }
}

/// A descriptor written with a length is read back with that length, whatever
/// follows it.
pub proof fn lemma_descriptor_round_trip(
    descriptor: CommonPacketDescriptor,
    provided_packet_length: Option<u16>,
    after: Seq<u8>,
)
    ensures
        descriptor.wire(provided_packet_length).len() == 4,
        CommonPacketDescriptor::decode(descriptor.wire(provided_packet_length) + after) == Ok::<
            (CommonPacketDescriptor, nat),
            CodecError,
        >(
            (
                CommonPacketDescriptor {
                    type_id: descriptor.type_id,
                    packet_length: provided_length(provided_packet_length),
                },
                4nat,
            ),
        ),
{
    let type_bytes = le_bytes_u16(descriptor.type_id.code());
    let length_bytes = le_bytes_u16(provided_length(provided_packet_length));
    let bytes = descriptor.wire(provided_packet_length) + after;
    lemma_u16_le_read_back(Seq::empty(), descriptor.type_id.code(), length_bytes + after);
    lemma_u16_le_read_back(type_bytes, provided_length(provided_packet_length), after);
    assert(Seq::<u8>::empty() + type_bytes + (length_bytes + after) =~= bytes);
    assert(type_bytes + length_bytes + after =~= bytes);
}

} // verus!
