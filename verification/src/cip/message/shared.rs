//! The service byte that opens every message-router envelope: a service code in
//! the low seven bits, and the response bit above them.

use vstd::prelude::*;
use vstd::std_specs::convert::FromSpecImpl;
use crate::codec::CipCodec;
use crate::error::{CodecError, Layer};

verus! {

/// The operation that a message asks for, seven bits wide.
#[derive(Clone, Copy, Debug, PartialEq, Eq, Structural)]
pub enum ServiceCode {
    /// Code zero: no service.
    NoService,
    GetAttributeAll,
    SetAttributeAll,
    GetAttributeList,
    SetAttributeList,
    Reset,
    Start,
    Stop,
    CreateObjectInstance,
    DeleteObjectInstance,
    MultipleServicePacket,
    ApplyAttributes,
    GetAttributeSingle,
    SetAttributeSingle,
    FindNextObjectInstance,
    /// DeviceNet only.
    ErrorResponse,
    Restore,
    Save,
    NoOperation,
    GetMember,
    SetMember,
    InsertMember,
    RemoveMember,
    GroupSync,
    /// Any other code, kept as it was read.
    Unknown(u8),
}

/// Whether `code` is the code of a named service.
pub open spec fn is_named_service(code: u8) -> bool {
    code <= 0x0A || code == 0x0D || code == 0x0E || code == 0x10 || code == 0x11 || (0x14 <= code
        <= 0x1C)
}

impl ServiceCode {
    /// An unknown code fits seven bits and is not the code of a named service.
    pub open spec fn wf(self) -> bool {
        match self {
            ServiceCode::Unknown(c) => c < 128 && !is_named_service(c),
            _ => true,
        }
    }

    /// The seven bits that stand for `self`.
    pub open spec fn code(self) -> u8 {
        match self {
            ServiceCode::NoService => 0x00,
            ServiceCode::GetAttributeAll => 0x01,
            ServiceCode::SetAttributeAll => 0x02,
            ServiceCode::GetAttributeList => 0x03,
            ServiceCode::SetAttributeList => 0x04,
            ServiceCode::Reset => 0x05,
            ServiceCode::Start => 0x06,
            ServiceCode::Stop => 0x07,
            ServiceCode::CreateObjectInstance => 0x08,
            ServiceCode::DeleteObjectInstance => 0x09,
            ServiceCode::MultipleServicePacket => 0x0A,
            ServiceCode::ApplyAttributes => 0x0D,
            ServiceCode::GetAttributeSingle => 0x0E,
            ServiceCode::SetAttributeSingle => 0x10,
            ServiceCode::FindNextObjectInstance => 0x11,
            ServiceCode::ErrorResponse => 0x14,
            ServiceCode::Restore => 0x15,
            ServiceCode::Save => 0x16,
            ServiceCode::NoOperation => 0x17,
            ServiceCode::GetMember => 0x18,
            ServiceCode::SetMember => 0x19,
            ServiceCode::InsertMember => 0x1A,
            ServiceCode::RemoveMember => 0x1B,
            ServiceCode::GroupSync => 0x1C,
            ServiceCode::Unknown(c) => c % 128,
        }
    }

    /// The service that the low seven bits of `code` stand for.
    pub open spec fn of_code(code: u8) -> ServiceCode {
        let low = code % 128;
        if low == 0x00 {
            ServiceCode::NoService
        } else if low == 0x01 {
            ServiceCode::GetAttributeAll
        } else if low == 0x02 {
            ServiceCode::SetAttributeAll
        } else if low == 0x03 {
            ServiceCode::GetAttributeList
        } else if low == 0x04 {
            ServiceCode::SetAttributeList
        } else if low == 0x05 {
            ServiceCode::Reset
        } else if low == 0x06 {
            ServiceCode::Start
        } else if low == 0x07 {
            ServiceCode::Stop
        } else if low == 0x08 {
            ServiceCode::CreateObjectInstance
        } else if low == 0x09 {
            ServiceCode::DeleteObjectInstance
        } else if low == 0x0A {
            ServiceCode::MultipleServicePacket
        } else if low == 0x0D {
            ServiceCode::ApplyAttributes
        } else if low == 0x0E {
            ServiceCode::GetAttributeSingle
        } else if low == 0x10 {
            ServiceCode::SetAttributeSingle
        } else if low == 0x11 {
            ServiceCode::FindNextObjectInstance
        } else if low == 0x14 {
            ServiceCode::ErrorResponse
        } else if low == 0x15 {
            ServiceCode::Restore
        } else if low == 0x16 {
            ServiceCode::Save
        } else if low == 0x17 {
            ServiceCode::NoOperation
        } else if low == 0x18 {
            ServiceCode::GetMember
        } else if low == 0x19 {
            ServiceCode::SetMember
        } else if low == 0x1A {
            ServiceCode::InsertMember
        } else if low == 0x1B {
            ServiceCode::RemoveMember
        } else if low == 0x1C {
            ServiceCode::GroupSync
        } else {
            ServiceCode::Unknown(low)
        }
    }

    /// The seven bits that stand for `self`.
    pub fn bits(self) -> (c: u8)
        ensures
            c == self.code(),
            c < 128,
    {
        match self {
            ServiceCode::NoService => 0x00,
            ServiceCode::GetAttributeAll => 0x01,
            ServiceCode::SetAttributeAll => 0x02,
            ServiceCode::GetAttributeList => 0x03,
            ServiceCode::SetAttributeList => 0x04,
            ServiceCode::Reset => 0x05,
            ServiceCode::Start => 0x06,
            ServiceCode::Stop => 0x07,
            ServiceCode::CreateObjectInstance => 0x08,
            ServiceCode::DeleteObjectInstance => 0x09,
            ServiceCode::MultipleServicePacket => 0x0A,
            ServiceCode::ApplyAttributes => 0x0D,
            ServiceCode::GetAttributeSingle => 0x0E,
            ServiceCode::SetAttributeSingle => 0x10,
            ServiceCode::FindNextObjectInstance => 0x11,
            ServiceCode::ErrorResponse => 0x14,
            ServiceCode::Restore => 0x15,
            ServiceCode::Save => 0x16,
            ServiceCode::NoOperation => 0x17,
            ServiceCode::GetMember => 0x18,
            ServiceCode::SetMember => 0x19,
            ServiceCode::InsertMember => 0x1A,
            ServiceCode::RemoveMember => 0x1B,
            ServiceCode::GroupSync => 0x1C,
            ServiceCode::Unknown(c) => c % 128,
        }
    }

    /// The service that the low seven bits of `code` stand for.
    pub fn from_bits(code: u8) -> (s: ServiceCode)
        ensures
            s == ServiceCode::of_code(code),
            s.wf(),
            s.code() == code % 128,
    {
        let low: u8 = code % 128;
        match low {
            0x00 => ServiceCode::NoService,
            0x01 => ServiceCode::GetAttributeAll,
            0x02 => ServiceCode::SetAttributeAll,
            0x03 => ServiceCode::GetAttributeList,
            0x04 => ServiceCode::SetAttributeList,
            0x05 => ServiceCode::Reset,
            0x06 => ServiceCode::Start,
            0x07 => ServiceCode::Stop,
            0x08 => ServiceCode::CreateObjectInstance,
            0x09 => ServiceCode::DeleteObjectInstance,
            0x0A => ServiceCode::MultipleServicePacket,
            0x0D => ServiceCode::ApplyAttributes,
            0x0E => ServiceCode::GetAttributeSingle,
            0x10 => ServiceCode::SetAttributeSingle,
            0x11 => ServiceCode::FindNextObjectInstance,
            0x14 => ServiceCode::ErrorResponse,
            0x15 => ServiceCode::Restore,
            0x16 => ServiceCode::Save,
            0x17 => ServiceCode::NoOperation,
            0x18 => ServiceCode::GetMember,
            0x19 => ServiceCode::SetMember,
            0x1A => ServiceCode::InsertMember,
            0x1B => ServiceCode::RemoveMember,
            0x1C => ServiceCode::GroupSync,
            _ => ServiceCode::Unknown(low),
        }
    }
}

/// The fields of a service byte.
#[derive(Clone, Copy, Debug, PartialEq, Eq, Structural)]
pub struct ServiceContainerBits {
    pub service: ServiceCode,
    pub response: bool,
}

impl ServiceContainerBits {
    /// The service code is in its canonical form.
    pub open spec fn wf(self) -> bool {
        self.service.wf()
    }

    /// The packed form of `self`: the response bit is the highest of the byte.
    pub open spec fn value(self) -> u8 {
        if self.response {
            (self.service.code() + 128) as u8
        } else {
            self.service.code()
        }
    }

    /// The fields that the byte `value` holds.
    pub open spec fn of_value(value: u8) -> ServiceContainerBits {
        ServiceContainerBits { service: ServiceCode::of_code(value), response: value >= 128 }
    }

    /// A service byte from its fields.
    pub fn new(service: ServiceCode, response: bool) -> (bits: ServiceContainerBits)
        ensures
            bits == (ServiceContainerBits { service, response }),
    {
        ServiceContainerBits { service, response }
    }

    /// Packs the fields into one byte.
    pub fn pack(&self) -> (value: u8)
        ensures
            value == self.value(),
    {
        let code: u8 = self.service.bits();
        if self.response {
            code + 128
        } else {
            code
        }
    }

    /// Splits a service byte into its fields.
    pub fn unpack(value: u8) -> (bits: ServiceContainerBits)
        ensures
            bits == ServiceContainerBits::of_value(value),
            bits.wf(),
    {
        ServiceContainerBits { service: ServiceCode::from_bits(value), response: value >= 128 }
    }
}

/// A service byte as it goes on the wire.
#[derive(Clone, Copy, Debug, PartialEq, Eq, Structural)]
pub struct ServiceContainer {
    pub service_representation: u8,
}

impl View for ServiceContainer {
    type V = ServiceContainer;

    open spec fn view(&self) -> ServiceContainer {
        *self
    }
}

impl ServiceContainer {
    /// The service byte of `service`, with the response bit as `response` says.
    pub open spec fn of(service: ServiceCode, response: bool) -> ServiceContainer {
        ServiceContainer {
            service_representation: (ServiceContainerBits { service, response }).value(),
        }
    }

    /// Whether the response bit is set.
    pub open spec fn is_response(self) -> bool {
        self.service_representation >= 128
    }

    /// The service that the low seven bits name.
    pub open spec fn service_code(self) -> ServiceCode {
        ServiceCode::of_code(self.service_representation)
    }

    /// The service byte of `service`, with the response bit as `response` says.
    pub fn new(service: ServiceCode, response: bool) -> (container: ServiceContainer)
        ensures
            container == ServiceContainer::of(service, response),
    {
        ServiceContainer::from(ServiceContainerBits::new(service, response))
    }

    /// Whether the response bit is set.
    pub fn response(&self) -> (set: bool)
        ensures
            set == self.is_response(),
    {
        self.service_representation >= 128
    }

    /// The service that the low seven bits name.
    pub fn service(&self) -> (code: ServiceCode)
        ensures
            code == self.service_code(),
            code.wf(),
    {
        ServiceCode::from_bits(self.service_representation)
    }
}

impl From<ServiceContainer> for ServiceContainerBits {
    fn from(container: ServiceContainer) -> (bits: ServiceContainerBits)
        ensures
            bits.wf(),
    {
        ServiceContainerBits::unpack(container.service_representation)
    }
}

impl FromSpecImpl<ServiceContainer> for ServiceContainerBits {
    open spec fn obeys_from_spec() -> bool {
        true
    }

    open spec fn from_spec(container: ServiceContainer) -> ServiceContainerBits {
        ServiceContainerBits::of_value(container.service_representation)
    }
}

impl From<ServiceContainerBits> for ServiceContainer {
    fn from(container: ServiceContainerBits) -> (packed: ServiceContainer) {
        ServiceContainer { service_representation: container.pack() }
    }
}

impl FromSpecImpl<ServiceContainerBits> for ServiceContainer {
    open spec fn obeys_from_spec() -> bool {
        true
    }

    open spec fn from_spec(container: ServiceContainerBits) -> ServiceContainer {
        ServiceContainer { service_representation: container.value() }
    }
}

impl CipCodec for ServiceContainer {
    open spec fn encode(v: ServiceContainer) -> Seq<u8> {
        seq![v.service_representation]
    }

    open spec fn decode(bytes: Seq<u8>) -> Result<(ServiceContainer, nat), CodecError> {
        if bytes.len() >= 1 {
            Ok((ServiceContainer { service_representation: bytes[0] }, 1nat))
        } else {
            Err(CodecError::short(Layer::Primitive))
        }
    }

    open spec fn canonical(v: ServiceContainer) -> bool {
        true
    }

    proof fn lemma_decode_sound(bytes: Seq<u8>) {
        if bytes.len() >= 1 {
            assert(seq![bytes[0]] =~= bytes.take(1));
        }
    }

    proof fn lemma_round_trip(v: ServiceContainer) {
    }

    fn write(&self, out: &mut Vec<u8>) {
        out.push(self.service_representation);
    }

    fn read(bytes: &[u8]) -> (r: Result<(ServiceContainer, usize), CodecError>) {
        if bytes.len() >= 1 {
            Ok((ServiceContainer { service_representation: bytes[0] }, 1))
        } else {
            Err(CodecError::short_read(Layer::Primitive))
        }
    }
}

/// Packing the fields of a service byte gives the same byte, whatever its bits
/// are: unknown codes are kept.
pub proof fn lemma_service_byte_round_trip(value: u8)
    ensures
        ServiceContainerBits::of_value(value).wf(),
        ServiceContainerBits::of_value(value).value() == value,
{
}

/// Unpacking the packed form of canonical fields gives the same fields.
pub proof fn lemma_service_fields_round_trip(bits: ServiceContainerBits)
    requires
        bits.wf(),
    ensures
        ServiceContainerBits::of_value(bits.value()) == bits,
{
}

} // verus!
