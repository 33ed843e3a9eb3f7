//! The identity object: what a device tells of itself in answer to "get all
//! attributes" on instance 1 of class 1.

use vstd::prelude::*;
use vstd::slice::slice_subrange;
use crate::cip::types::{CipRevision, CipShortString, ShortStringValue};
use crate::cip::types::{CipUdint, CipUint, CipWord};
use crate::codec::{get_u16_le, get_u32_le, put_u16_le, put_u32_le, CipCodec};
use crate::codec::{le_bytes_u16, le_bytes_u32, le_u16_at, le_u32_at};
use crate::codec::{lemma_u16_le_bytes_round_trip, lemma_u16_le_read_at};
use crate::codec::{lemma_u32_le_bytes_round_trip, lemma_u32_le_read_at};
use crate::error::{CodecError, Layer};

verus! {

/// The attributes of the identity object, in the order of the wire.
#[derive(Clone, Debug, PartialEq, Eq)]
pub struct IdentityObject {
    pub vendor_id: CipUint,
    pub device_type: CipUint,
    pub product_code: CipUint,
    pub revision: CipRevision,
    pub status: CipWord,
    pub serial_number: CipUdint,
    pub product_name: CipShortString,
}

/// What an [`IdentityObject`] holds.
pub struct IdentityValue {
    pub vendor_id: u16,
    pub device_type: u16,
    pub product_code: u16,
    pub revision: CipRevision,
    pub status: u16,
    pub serial_number: u32,
    pub product_name: ShortStringValue,
}

impl View for IdentityObject {
    type V = IdentityValue;

    open spec fn view(&self) -> IdentityValue {
        IdentityValue {
            vendor_id: self.vendor_id,
            device_type: self.device_type,
            product_code: self.product_code,
            revision: self.revision,
            status: self.status,
            serial_number: self.serial_number,
            product_name: self.product_name@,
        }
    }
}

/// The number of bytes in front of the product name.
pub const IDENTITY_FIXED_SIZE: usize = 14;

/// The bytes of the attributes in front of the product name.
pub open spec fn identity_fixed_bytes(v: IdentityValue) -> Seq<u8> {
    le_bytes_u16(v.vendor_id) + le_bytes_u16(v.device_type) + le_bytes_u16(v.product_code)
        + CipRevision::encode(v.revision) + le_bytes_u16(v.status) + le_bytes_u32(v.serial_number)
}

impl CipCodec for IdentityObject {
    open spec fn encode(v: IdentityValue) -> Seq<u8> {
        identity_fixed_bytes(v) + CipShortString::encode(v.product_name)
    }

    open spec fn decode(bytes: Seq<u8>) -> Result<(IdentityValue, nat), CodecError> {
        if bytes.len() < IDENTITY_FIXED_SIZE {
            Err(CodecError::short(Layer::Primitive))
        } else {
            match CipShortString::decode(
                bytes.subrange(IDENTITY_FIXED_SIZE as int, bytes.len() as int),
            ) {
                Err(e) => Err(e),
                Ok((product_name, n)) => Ok(
                    (
                        IdentityValue {
                            vendor_id: le_u16_at(bytes, 0),
                            device_type: le_u16_at(bytes, 2),
                            product_code: le_u16_at(bytes, 4),
                            revision: CipRevision {
                                major_revision: bytes[6],
                                minor_revision: bytes[7],
                            },
                            status: le_u16_at(bytes, 8),
                            serial_number: le_u32_at(bytes, 10),
                            product_name,
                        },
                        IDENTITY_FIXED_SIZE as nat + n,
                    ),
                ),
            }
        }
    }

    open spec fn canonical(v: IdentityValue) -> bool {
        CipShortString::canonical(v.product_name)
    }

    proof fn lemma_decode_sound(bytes: Seq<u8>) {
        if bytes.len() >= IDENTITY_FIXED_SIZE {
            let rest = bytes.subrange(IDENTITY_FIXED_SIZE as int, bytes.len() as int);
            CipShortString::lemma_decode_sound(rest);
            if let Ok((v, n)) = Self::decode(bytes) {
                let name_len = (n - IDENTITY_FIXED_SIZE) as int;
                lemma_u16_le_bytes_round_trip(bytes[0], bytes[1]);
                lemma_u16_le_bytes_round_trip(bytes[2], bytes[3]);
                lemma_u16_le_bytes_round_trip(bytes[4], bytes[5]);
                lemma_u16_le_bytes_round_trip(bytes[8], bytes[9]);
                lemma_u32_le_bytes_round_trip(bytes[10], bytes[11], bytes[12], bytes[13]);
                assert(identity_fixed_bytes(v) =~= bytes.take(14));
                assert(rest.take(name_len) =~= bytes.subrange(14, n as int));
                assert(bytes.take(14) + bytes.subrange(14, n as int) =~= bytes.take(n as int));
            }
        }
    }

    proof fn lemma_round_trip(v: IdentityValue) {
        let vendor = le_bytes_u16(v.vendor_id);
        let device = le_bytes_u16(v.device_type);
        let product = le_bytes_u16(v.product_code);
        let revision = CipRevision::encode(v.revision);
        let status = le_bytes_u16(v.status);
        let serial = le_bytes_u32(v.serial_number);
        let name = CipShortString::encode(v.product_name);
        let bytes = Self::encode(v);
        let fixed = identity_fixed_bytes(v);
        assert(fixed.len() == 14);
        assert(bytes =~= fixed + name);
        assert forall|i: int| 0 <= i < 14 implies bytes[i] == fixed[i] by {}
        assert(fixed[0] == vendor[0] && fixed[1] == vendor[1]);
        assert(fixed[2] == device[0] && fixed[3] == device[1]);
        assert(fixed[4] == product[0] && fixed[5] == product[1]);
        assert(fixed[6] == revision[0] && fixed[7] == revision[1]);
        assert(fixed[8] == status[0] && fixed[9] == status[1]);
        assert(fixed[10] == serial[0] && fixed[11] == serial[1] && fixed[12] == serial[2]
            && fixed[13] == serial[3]);
        lemma_u16_le_read_at(bytes, 0, v.vendor_id);
        lemma_u16_le_read_at(bytes, 2, v.device_type);
        lemma_u16_le_read_at(bytes, 4, v.product_code);
        lemma_u16_le_read_at(bytes, 8, v.status);
        lemma_u32_le_read_at(bytes, 10, v.serial_number);
        assert(bytes.subrange(IDENTITY_FIXED_SIZE as int, bytes.len() as int) =~= name);
        CipShortString::lemma_round_trip(v.product_name);
    }

    fn write(&self, out: &mut Vec<u8>) {
        put_u16_le(out, self.vendor_id);
        put_u16_le(out, self.device_type);
        put_u16_le(out, self.product_code);
        self.revision.write(out);
        put_u16_le(out, self.status);
        put_u32_le(out, self.serial_number);
        self.product_name.write(out);
        assert(out@ =~= old(out)@ + Self::encode(self@));
    }

    fn read(bytes: &[u8]) -> (r: Result<(IdentityObject, usize), CodecError>) {
        if bytes.len() < IDENTITY_FIXED_SIZE {
            return Err(CodecError::short_read(Layer::Primitive));
        }
        let rest = slice_subrange(bytes, IDENTITY_FIXED_SIZE, bytes.len());
        proof {
            CipShortString::lemma_decode_sound(rest@);
        }
        match CipShortString::read(rest) {
            Err(e) => Err(e),
            Ok((product_name, n)) => Ok(
                (
                    IdentityObject {
                        vendor_id: get_u16_le(bytes, 0),
                        device_type: get_u16_le(bytes, 2),
                        product_code: get_u16_le(bytes, 4),
                        revision: CipRevision {
                            major_revision: bytes[6],
                            minor_revision: bytes[7],
                        },
                        status: get_u16_le(bytes, 8),
                        serial_number: get_u32_le(bytes, 10),
                        product_name,
                    },
                    IDENTITY_FIXED_SIZE + n,
                ),
            ),
        }
    }
}

} // verus!
