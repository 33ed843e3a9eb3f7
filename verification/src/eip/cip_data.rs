//! The two items of a request or reply together with what the data item
//! carries.

use vstd::prelude::*;
use crate::cip::types::CipUint;
use crate::codec::CipCodec;
use crate::eip::constants::DESCRIPTOR_SIZE;
use crate::eip::description::CommonPacketItemId;
use crate::error::{CodecError, Layer};

verus! {

/// An item of the common packet format: its type, the number of bytes of its
/// data, and the data if it has any.
#[derive(Debug, PartialEq)]
pub struct CommonPacketItem<T> {
    pub type_id: CommonPacketItemId,
    pub length: CipUint,
    pub data: Option<T>,
}

/// The items of a request or reply: an address item, then a data item.
#[derive(Debug, PartialEq)]
pub struct CipDataPacket<T> {
    pub items: [CommonPacketItem<T>; 2],
}

impl<T: CipCodec> CipDataPacket<T> {
    /// The address item of an unconnected message: a null address without data.
    pub open spec fn empty_item() -> CommonPacketItem<T> {
        CommonPacketItem { type_id: CommonPacketItemId::NullAddr, length: 0, data: None }
    }

    /// The data item that carries `cip_object`: its length is the number of
    /// bytes that the object takes on the wire, and an object of no bytes is
    /// left out.
    pub open spec fn data_item(cip_object: T) -> CommonPacketItem<T> {
        let length = T::encode(cip_object@).len() as u16;
        CommonPacketItem {
            type_id: CommonPacketItemId::UnconnectedMessage,
            length,
            data: if length > 0 {
                Some(cip_object)
            } else {
                None
            },
        }
    }

    /// The number of bytes that the descriptors of the items take on the wire:
    /// a type and a length for each.
    pub fn get_size(&self) -> (n: usize)
        ensures
            n == 2 * DESCRIPTOR_SIZE,
    {
        let mut size: usize = 0;
        let mut i: usize = 0;
        while i < 2
            invariant
                i <= 2,
                size == i * DESCRIPTOR_SIZE,
            decreases 2 - i,
        {
            size = size + DESCRIPTOR_SIZE;
            i += 1;
        }
        size
    }

    /// The items of a message that carries `cip_object`, which takes
    /// `cip_object_byte_length` bytes on the wire.
    fn with_length(cip_object: T, cip_object_byte_length: CipUint) -> (packet: CipDataPacket<T>)
        requires
            T::encode(cip_object@).len() == cip_object_byte_length,
        ensures
            packet.items[0] == Self::empty_item(),
            packet.items[1] == Self::data_item(cip_object),
    {
        let empty_packet = CommonPacketItem {
            type_id: CommonPacketItemId::NullAddr,
            length: 0,
            data: None,
        };

        let data_packet = CommonPacketItem {
            type_id: CommonPacketItemId::UnconnectedMessage,
            length: cip_object_byte_length,
            data: if cip_object_byte_length > 0 {
                Some(cip_object)
            } else {
                None
            },
        };

        CipDataPacket { items: [empty_packet, data_packet] }
    }

    /// The items of a message that carries `cip_object`: a null address, then
    /// the object as unconnected data. The object is written to a scratch
    /// buffer to learn its length, which has to fit the 16 bits of the length
    /// field.
    pub fn new(cip_object: T) -> (packet: CipDataPacket<T>)
        requires
            T::encode(cip_object@).len() <= u16::MAX,
        ensures
            packet.items[0] == Self::empty_item(),
            packet.items[1] == Self::data_item(cip_object),
    {
        let mut scratch: Vec<u8> = Vec::new();
        cip_object.write(&mut scratch);
        let cip_object_byte_length: CipUint = scratch.len() as CipUint;
        Self::with_length(cip_object, cip_object_byte_length)
    }

    /// As [`CipDataPacket::new`], for an object of any length: one whose length
    /// does not fit the length field is refused.
    pub fn try_new(cip_object: T) -> (r: Result<CipDataPacket<T>, CodecError>)
        ensures
            match r {
                Ok(packet) => T::encode(cip_object@).len() <= u16::MAX && packet.items[0]
                    == Self::empty_item() && packet.items[1] == Self::data_item(cip_object),
                Err(e) => T::encode(cip_object@).len() > u16::MAX && e == CodecError::overflow(
                    Layer::Encapsulation,
                ),
            },
    {
        let mut scratch: Vec<u8> = Vec::new();
        cip_object.write(&mut scratch);
        if scratch.len() > u16::MAX as usize {
            return Err(CodecError::serialization_overflow(Layer::Encapsulation));
        }
        let cip_object_byte_length: CipUint = scratch.len() as CipUint;
        Ok(Self::with_length(cip_object, cip_object_byte_length))
    }
}

} // verus!
