//! Whole frames: a packet description together with the message that it carries.
//!
//! A request is written from the inside out, so that each length field knows
//! what follows it: first the message, to a scratch buffer; then the packet
//! description, which is told the length of the message; then the message.

use vstd::prelude::*;
use vstd::slice::slice_subrange;
use crate::cip::message::request::MessageRouterRequest;
use crate::cip::message::response::lemma_response_bit_clear_is_refused;
use crate::cip::message::response::{option_view, MessageRouterResponse};
use crate::cip::message::shared::ServiceCode;
use crate::cip::path::{lemma_short_path_bytes, CipPath};
use crate::cip::types::CipUdint;
use crate::codec::{le_bytes_u16, le_bytes_u32, le_u16_at, lemma_le_bytes_small, CipCodec};
use crate::eip::command::{CommandSpecificData, EnIpCommand};
use crate::eip::constants::HEADER_SIZE;
use crate::eip::packet::{lemma_packet_description_round_trip, lemma_unknown_command_is_refused};
use crate::eip::packet::{EnIpPacketDescription, EncapsulationHeader};
use crate::error::{CodecError, Layer};

verus! {

/// A frame to send: a packet description and, for a request, the message.
#[derive(Debug, PartialEq)]
pub struct RequestObjectAssembly<T> {
    pub packet_description: EnIpPacketDescription,
    pub cip_message: Option<MessageRouterRequest<T>>,
}

/// The bytes of an optional message: none where there is no message.
pub open spec fn message_bytes<T: CipCodec>(message: Option<MessageRouterRequest<T>>) -> Seq<u8> {
    match message {
        Some(request) => request.wire(),
        None => Seq::empty(),
    }
}

impl RequestObjectAssembly<u8> {
    /// The frame that asks for a session.
    pub open spec fn registration() -> RequestObjectAssembly<u8> {
        RequestObjectAssembly {
            packet_description: EnIpPacketDescription::registration(),
            cip_message: None,
        }
    }

    /// The frame that ends the session `session_handle`.
    pub open spec fn unregistration(session_handle: CipUdint) -> RequestObjectAssembly<u8> {
        RequestObjectAssembly {
            packet_description: EnIpPacketDescription::unregistration(session_handle),
            cip_message: None,
        }
    }

    /// The frame that asks, in the session `session_handle`, for all attributes
    /// of the identity object: instance 1 of class 1.
    pub open spec fn identity(session_handle: CipUdint) -> RequestObjectAssembly<u8> {
        RequestObjectAssembly::<u8>::service_request(
            session_handle,
            CipPath::short(0x1, 0x1),
            ServiceCode::GetAttributeAll,
            None,
        )
    }

    /// The frame that asks for a session: 28 fixed bytes on the wire.
    pub fn new_registration() -> (assembly: RequestObjectAssembly<u8>)
        ensures
            assembly == RequestObjectAssembly::registration(),
            assembly.fits(),
            assembly.wire() == registration_frame(),
    {
        proof {
            lemma_registration_frame();
        }
        RequestObjectAssembly {
            packet_description: EnIpPacketDescription::new_registration_description(),
            cip_message: None,
        }
    }

    /// The frame that ends the session `session_handle`: a header of 24 bytes
    /// with nothing behind it.
    pub fn new_unregistration(session_handle: CipUdint) -> (assembly: RequestObjectAssembly<u8>)
        ensures
            assembly == RequestObjectAssembly::unregistration(session_handle),
            assembly.fits(),
            assembly.wire() == unregistration_frame(session_handle),
    {
        proof {
            lemma_unregistration_frame(session_handle);
        }
        RequestObjectAssembly {
            packet_description: EnIpPacketDescription::new_unregistration_description(
                session_handle,
            ),
            cip_message: None,
        }
    }

    /// The frame that asks, in the session `session_handle`, for all attributes
    /// of the identity object: instance 1 of class 1. It takes 50 bytes on the
    /// wire.
    pub fn new_identity(session_handle: CipUdint) -> (assembly: RequestObjectAssembly<u8>)
        ensures
            assembly == RequestObjectAssembly::identity(session_handle),
            assembly.fits(),
            assembly.wire() == identity_frame(session_handle),
    {
        proof {
            lemma_identity_frame(session_handle);
        }
        Self::new_service_request(
            session_handle,
            CipPath::new(0x1, 0x1),
            ServiceCode::GetAttributeAll,
            None,
        )
    }
}

impl<T: CipCodec> RequestObjectAssembly<T> {
    /// The frame that asks, in the session `session_handle`, for the service
    /// `service_code` on `request_path`, with the payload `data`.
    pub open spec fn service_request(
        session_handle: CipUdint,
        request_path: CipPath,
        service_code: ServiceCode,
        data: Option<T>,
    ) -> RequestObjectAssembly<T> {
        RequestObjectAssembly {
            packet_description: EnIpPacketDescription::cip(session_handle, 0),
            cip_message: Some(MessageRouterRequest::of(service_code, request_path, data)),
        }
    }

    /// The bytes of the message, none where there is no message.
    pub open spec fn cip_bytes(&self) -> Seq<u8> {
        message_bytes(self.cip_message)
    }

    /// Whether the length fields can hold what they have to: the length of the
    /// message in the descriptor of the data item, and the number of bytes behind
    /// the header in the header.
    pub open spec fn fits(&self) -> bool {
        self.packet_description.command_specific_data.wire_len() + self.cip_bytes().len()
            <= u16::MAX
    }

    /// The bytes that stand for `self`: the packet description, told the length
    /// of the message, then the message.
    pub open spec fn wire(&self) -> Seq<u8> {
        self.packet_description.wire(self.cip_bytes().len() as u16) + self.cip_bytes()
    }

    /// The frame that asks, in the session `session_handle`, for one attribute:
    /// the service is "get attribute single".
    pub fn new_single_request(
        session_handle: CipUdint,
        request_path: CipPath,
        data: Option<T>,
    ) -> (assembly: RequestObjectAssembly<T>)
        ensures
            assembly == RequestObjectAssembly::service_request(
                session_handle,
                request_path,
                ServiceCode::GetAttributeSingle,
                data,
            ),
    {
        Self::new_service_request(
            session_handle,
            request_path,
            ServiceCode::GetAttributeSingle,
            data,
        )
    }

    /// The frame that asks, in the session `session_handle`, for the service
    /// `service_code` on `request_path`, with the payload `data`.
    pub fn new_service_request(
        session_handle: CipUdint,
        request_path: CipPath,
        service_code: ServiceCode,
        data: Option<T>,
    ) -> (assembly: RequestObjectAssembly<T>)
        ensures
            assembly == RequestObjectAssembly::service_request(
                session_handle,
                request_path,
                service_code,
                data,
            ),
    {
        RequestObjectAssembly {
            packet_description: EnIpPacketDescription::new_cip_description(session_handle, 0),
            cip_message: Some(MessageRouterRequest::new_data(service_code, request_path, data)),
        }
    }

    /// Appends the bytes of `self` to `out`. Where a length does not fit its
    /// field nothing is written: the error names the assembly where the message
    /// is longer than a descriptor can tell, and the encapsulation where the
    /// bytes behind the header are more than the header can tell.
    pub fn write(&self, out: &mut Vec<u8>) -> (r: Result<(), CodecError>)
        ensures
            match r {
                Ok(_) => self.fits() && final(out)@ == old(out)@ + self.wire(),
                Err(e) => !self.fits() && final(out)@ == old(out)@ && e == if self.cip_bytes().len()
                    > u16::MAX {
                    CodecError::overflow(Layer::Assembly)
                } else {
                    CodecError::overflow(Layer::Encapsulation)
                },
            },
    {
        let mut scratch: Vec<u8> = Vec::new();
        match &self.cip_message {
            Some(request) => {
                request.write(&mut scratch);
            },
            None => {},
        }
        assert(scratch@ =~= self.cip_bytes());
        if scratch.len() > u16::MAX as usize {
            return Err(CodecError::serialization_overflow(Layer::Assembly));
        }
        let packet_byte_size: u16 = scratch.len() as u16;
        match self.packet_description.write(packet_byte_size, out) {
            Ok(_) => {},
            Err(e) => {
                return Err(e);
            },
        }
        out.extend_from_slice(scratch.as_slice());
        assert(out@ =~= old(out)@ + self.wire());
        Ok(())
    }

    /// The bytes that stand for `self`, where every length fits its field.
    pub fn to_bytes(&self) -> (r: Result<Vec<u8>, CodecError>)
        ensures
            match r {
                Ok(bytes) => self.fits() && bytes@ == self.wire(),
                Err(e) => !self.fits() && e == if self.cip_bytes().len() > u16::MAX {
                    CodecError::overflow(Layer::Assembly)
                } else {
                    CodecError::overflow(Layer::Encapsulation)
                },
            },
    {
        let mut bytes: Vec<u8> = Vec::new();
        match self.write(&mut bytes) {
            Ok(_) => Ok(bytes),
            Err(e) => Err(e),
        }
    }
}

/// A frame that was received: a packet description and, where the frame
/// announces a message that can be read, the message.
#[derive(Debug, PartialEq)]
pub struct ResponseObjectAssembly<T> {
    pub packet_description: EnIpPacketDescription,
    pub cip_message: Option<MessageRouterResponse<T>>,
}

impl<T: View> View for ResponseObjectAssembly<T> {
    type V = ResponseObjectAssembly<T::V>;

    open spec fn view(&self) -> ResponseObjectAssembly<T::V> {
        ResponseObjectAssembly {
            packet_description: self.packet_description,
            cip_message: option_view(self.cip_message),
        }
    }
}

/// The number of bytes of message that a packet description announces: the
/// length in the descriptor of the data item, and none where there are no items.
pub open spec fn advertised_length(description: EnIpPacketDescription) -> u16 {
    match description.command_specific_data {
        CommandSpecificData::SendRrData(data) => data.unconnected_data_packet.packet_length,
        _ => 0,
    }
}

impl<T: CipCodec> ResponseObjectAssembly<T> {
    /// What a reader makes of `bytes`. The packet description is read first. Its
    /// two lengths must agree: the header must announce as many bytes as the data
    /// of the command and the announced message take together; and the buffer
    /// must hold the message. Then the message is read from the bytes announced
    /// for it: where none are announced, or the message cannot be read, the frame
    /// stands without one.
    pub open spec fn decode(bytes: Seq<u8>) -> Result<
        (ResponseObjectAssembly<T::V>, nat),
        CodecError,
    > {
        match EnIpPacketDescription::decode(bytes) {
            Err(e) => Err(e),
            Ok((packet_description, n)) => {
                let advertised = advertised_length(packet_description);
                if packet_description.header.length
                    != packet_description.command_specific_data.wire_len() + advertised {
                    Err(CodecError::violation(Layer::Assembly))
                } else if bytes.len() < n + advertised {
                    Err(CodecError::short(Layer::Assembly))
                } else {
                    Ok(
                        (
                            ResponseObjectAssembly {
                                packet_description,
                                cip_message: if advertised == 0 {
                                    None
                                } else {
                                    match MessageRouterResponse::<T>::decode(
                                        bytes.subrange(n as int, n + advertised),
                                    ) {
                                        Ok((message, _)) => Some(message),
                                        Err(_) => None,
                                    }
                                },
                            },
                            n + advertised as nat,
                        ),
                    )
                }
            },
        }
    }

    /// Reads a frame from the front of `bytes`; with it comes the number of
    /// bytes that it took.
    pub fn read(bytes: &[u8]) -> (r: Result<(ResponseObjectAssembly<T>, usize), CodecError>)
        ensures
            match r {
                Ok((v, n)) => Self::decode(bytes@) == Ok::<
                    (ResponseObjectAssembly<T::V>, nat),
                    CodecError,
                >((v@, n as nat)) && n <= bytes.len() && n == HEADER_SIZE
                    + v.packet_description.header.length,
                Err(e) => Self::decode(bytes@) == Err::<
                    (ResponseObjectAssembly<T::V>, nat),
                    CodecError,
                >(e),
            },
    {
        let (packet_description, n) = match EnIpPacketDescription::read(bytes) {
            Ok(read) => read,
            Err(e) => {
                return Err(e);
            },
        };
        let advertised: usize = match packet_description.command_specific_data {
            CommandSpecificData::SendRrData(data) => {
                data.unconnected_data_packet.packet_length as usize
            },
            _ => 0,
        };
        if packet_description.header.length as usize
            != packet_description.command_specific_data.byte_size() + advertised {
            return Err(CodecError::invariant_violation(Layer::Assembly));
        }
        if bytes.len() - n < advertised {
            return Err(CodecError::short_read(Layer::Assembly));
        }
        let cip_message = if advertised == 0 {
            None
        } else {
            match MessageRouterResponse::<T>::read(slice_subrange(bytes, n, n + advertised)) {
                Ok((message, _)) => Some(message),
                Err(_) => None,
            }
        };
        Ok((ResponseObjectAssembly { packet_description, cip_message }, n + advertised))
    }
}

/// The 28 bytes of the frame that asks for a session.
pub open spec fn registration_frame() -> Seq<u8> {
    seq![
        0x65u8, 0x00u8, 0x04u8, 0x00u8, 0x00u8, 0x00u8, 0x00u8, 0x00u8,
        0x00u8, 0x00u8, 0x00u8, 0x00u8, 0x00u8, 0x00u8, 0x00u8, 0x00u8,
        0x00u8, 0x00u8, 0x00u8, 0x00u8, 0x00u8, 0x00u8, 0x00u8, 0x00u8,
        0x01u8, 0x00u8, 0x00u8, 0x00u8,
    ]
}

/// The 24 bytes of the frame that ends the session `session_handle`.
pub open spec fn unregistration_frame(session_handle: u32) -> Seq<u8> {
    seq![0x66u8, 0x00u8, 0x00u8, 0x00u8] + le_bytes_u32(session_handle) + seq![
        0x00u8, 0x00u8, 0x00u8, 0x00u8, 0x00u8, 0x00u8, 0x00u8, 0x00u8,
        0x00u8, 0x00u8, 0x00u8, 0x00u8, 0x00u8, 0x00u8, 0x00u8, 0x00u8,
    ]
}

/// The 50 bytes of the frame that asks for the identity object in the session
/// `session_handle`.
pub open spec fn identity_frame(session_handle: u32) -> Seq<u8> {
    seq![0x6Fu8, 0x00u8, 0x1Au8, 0x00u8] + le_bytes_u32(session_handle) + seq![
        0x00u8, 0x00u8, 0x00u8, 0x00u8, 0x00u8, 0x00u8, 0x00u8, 0x00u8,
        0x00u8, 0x00u8, 0x00u8, 0x00u8, 0x00u8, 0x00u8, 0x00u8, 0x00u8,
        0x00u8, 0x00u8, 0x00u8, 0x00u8, 0x00u8, 0x00u8, 0x02u8, 0x00u8,
        0x00u8, 0x00u8, 0x00u8, 0x00u8, 0xB2u8, 0x00u8, 0x0Au8, 0x00u8,
        0x01u8, 0x04u8, 0x21u8, 0x00u8, 0x01u8, 0x00u8, 0x25u8, 0x00u8,
        0x01u8, 0x00u8,
    ]
}

/// The bytes of the header of a request for `command` in the session
/// `session_handle`, when `length` bytes follow it.
proof fn lemma_request_header_bytes(command: EnIpCommand, session_handle: u32, length: u8)
    ensures
        EncapsulationHeader::of(command, session_handle).wire(length as u16) == le_bytes_u16(
            command.code(),
        ) + seq![length, 0x00u8] + le_bytes_u32(session_handle) + seq![
            0x00u8, 0x00u8, 0x00u8, 0x00u8, 0x00u8, 0x00u8, 0x00u8, 0x00u8,
            0x00u8, 0x00u8, 0x00u8, 0x00u8, 0x00u8, 0x00u8, 0x00u8, 0x00u8,
        ],
{
    let header = EncapsulationHeader::of(command, session_handle);
    lemma_le_bytes_small(length);
    lemma_le_bytes_small(0);
    assert(header.sender_context@ =~= seq![
        0x00u8, 0x00u8, 0x00u8, 0x00u8, 0x00u8, 0x00u8, 0x00u8, 0x00u8,
    ]);
    assert(header.wire(length as u16) =~= le_bytes_u16(command.code()) + seq![length, 0x00u8]
        + le_bytes_u32(session_handle) + seq![
        0x00u8, 0x00u8, 0x00u8, 0x00u8, 0x00u8, 0x00u8, 0x00u8, 0x00u8,
        0x00u8, 0x00u8, 0x00u8, 0x00u8, 0x00u8, 0x00u8, 0x00u8, 0x00u8,
    ]);
}

/// The frame that asks for a session is 28 fixed bytes.
pub proof fn lemma_registration_frame()
    ensures
        RequestObjectAssembly::registration().fits(),
        RequestObjectAssembly::registration().wire() == registration_frame(),
{
    let assembly = RequestObjectAssembly::registration();
    lemma_request_header_bytes(EnIpCommand::RegisterSession, 0, 4);
    lemma_le_bytes_small(0x65);
    lemma_le_bytes_small(0);
    lemma_le_bytes_small(1);
    assert(assembly.cip_bytes() =~= Seq::<u8>::empty());
    assert(assembly.wire() =~= registration_frame());
}

/// The frame that ends a session is 24 bytes that depend on nothing but the
/// session handle.
pub proof fn lemma_unregistration_frame(session_handle: u32)
    ensures
        RequestObjectAssembly::unregistration(session_handle).fits(),
        RequestObjectAssembly::unregistration(session_handle).wire() == unregistration_frame(
            session_handle,
        ),
        unregistration_frame(session_handle).len() == 24,
{
    let assembly = RequestObjectAssembly::unregistration(session_handle);
    lemma_request_header_bytes(EnIpCommand::UnRegisterSession, session_handle, 0);
    lemma_le_bytes_small(0x66);
    assert(assembly.cip_bytes() =~= Seq::<u8>::empty());
    assert(assembly.wire() =~= unregistration_frame(session_handle));
}

/// The frame that asks for the identity object is 50 bytes that depend on
/// nothing but the session handle.
pub proof fn lemma_identity_frame(session_handle: u32)
    ensures
        RequestObjectAssembly::identity(session_handle).fits(),
        RequestObjectAssembly::identity(session_handle).wire() == identity_frame(session_handle),
        identity_frame(session_handle).len() == 50,
{
    let assembly = RequestObjectAssembly::identity(session_handle);
    lemma_short_path_bytes(0x1, 0x1);
    let message = assembly.cip_bytes();
    assert(message =~= seq![
        0x01u8, 0x04u8, 0x21u8, 0x00u8, 0x01u8, 0x00u8, 0x25u8, 0x00u8, 0x01u8, 0x00u8,
    ]);
    lemma_request_header_bytes(EnIpCommand::SendRrData, session_handle, 26);
    lemma_le_bytes_small(0x6F);
    lemma_le_bytes_small(0);
    lemma_le_bytes_small(2);
    lemma_le_bytes_small(0xB2);
    lemma_le_bytes_small(10);
    let body = assembly.packet_description.command_specific_data.wire(10);
    assert(body =~= seq![
        0x00u8, 0x00u8, 0x00u8, 0x00u8, 0x00u8, 0x00u8, 0x02u8, 0x00u8,
        0x00u8, 0x00u8, 0x00u8, 0x00u8, 0xB2u8, 0x00u8, 0x0Au8, 0x00u8,
    ]);
    assert(assembly.wire() =~= identity_frame(session_handle));
}

/// In every well-formed request that fits its length fields, the lengths on the
/// wire are those of what follows them: read back, the header announces the
/// bytes of the command data and of the message together, the descriptor of the
/// data item announces the bytes of the message, and the message stands behind
/// the packet description.
pub proof fn lemma_request_lengths<T: CipCodec>(assembly: RequestObjectAssembly<T>)
    requires
        assembly.packet_description.wf(),
        assembly.fits(),
    ensures
        ({
            let description = assembly.packet_description;
            let message = assembly.cip_bytes();
            let taken = HEADER_SIZE as nat + description.command_specific_data.wire_len();
            &&& assembly.wire().len() == taken + message.len()
            &&& assembly.wire().subrange(taken as int, assembly.wire().len() as int) == message
            &&& EnIpPacketDescription::decode(assembly.wire()) matches Ok((read, n))
            &&& n == taken
            &&& read == description.with_length(message.len() as u16)
            &&& read.header.length == description.command_specific_data.wire_len() + message.len()
            &&& description.command_specific_data is SendRrData ==> advertised_length(read)
                == message.len()
        }),
{
    let description = assembly.packet_description;
    let message = assembly.cip_bytes();
    lemma_packet_description_round_trip(description, message.len() as u16, message);
    let taken = HEADER_SIZE as nat + description.command_specific_data.wire_len();
    assert(assembly.wire().subrange(taken as int, assembly.wire().len() as int) =~= message);
}

/// A frame that is read takes the header and as many bytes behind it as the
/// header announces, and the buffer holds them all.
pub proof fn lemma_frame_takes_what_its_header_announces<T: CipCodec>(bytes: Seq<u8>)
    ensures
        ResponseObjectAssembly::<T>::decode(bytes) matches Ok((frame, n)) ==> n == HEADER_SIZE
            + frame.packet_description.header.length && n <= bytes.len(),
{
}

/// A frame that opens with a header that names no command is refused as a
/// violation of the format.
pub proof fn lemma_frame_with_unknown_command_is_refused<T: CipCodec>(bytes: Seq<u8>)
    requires
        bytes.len() >= 2,
        EnIpCommand::of_code(le_u16_at(bytes, 0)) is None,
    ensures
        ResponseObjectAssembly::<T>::decode(bytes) == Err::<
            (ResponseObjectAssembly<T::V>, nat),
            CodecError,
        >(CodecError::violation(Layer::Encapsulation)),
{
    lemma_unknown_command_is_refused(bytes);
}

/// A well-formed request that was written is accepted by the reader of frames:
/// its lengths agree. The reader takes every byte and gives the packet
/// description with the lengths that it was written with. It gives no message,
/// for the message of a request has the response bit clear.
pub proof fn lemma_written_frame_is_accepted<T: CipCodec, U: CipCodec>(
    assembly: RequestObjectAssembly<T>,
)
    requires
        assembly.packet_description.wf(),
        assembly.fits(),
        assembly.cip_message is Some ==> assembly.packet_description.command_specific_data
            is SendRrData,
    ensures
        ResponseObjectAssembly::<U>::decode(assembly.wire()) == Ok::<
            (ResponseObjectAssembly<U::V>, nat),
            CodecError,
        >(
            (
                ResponseObjectAssembly {
                    packet_description: assembly.packet_description.with_length(
                        assembly.cip_bytes().len() as u16,
                    ),
                    cip_message: None,
                },
                assembly.wire().len(),
            ),
        ),
{
    lemma_request_lengths(assembly);
    let description = assembly.packet_description;
    let message = assembly.cip_bytes();
    let taken = HEADER_SIZE as nat + description.command_specific_data.wire_len();
    let read = description.with_length(message.len() as u16);
    match assembly.cip_message {
        Some(request) => {
            assert(advertised_length(read) == message.len());
            assert(message[0] < 128);
            lemma_response_bit_clear_is_refused::<U>(message);
            assert(assembly.wire().subrange(taken as int, (taken + message.len()) as int)
                =~= message);
        },
        None => {
            assert(message.len() == 0);
            assert(advertised_length(read) == 0);
        },
    }
}

/// The bytes of the frame that asks for a session.
pub fn get_registration_object_bytes() -> (bytes: Vec<u8>)
    ensures
        bytes@ == registration_frame(),
{
    let registration = RequestObjectAssembly::new_registration();
    match registration.to_bytes() {
        Ok(bytes) => bytes,
        Err(_) => Vec::new(),
    }
}

/// The bytes of the frame that ends the session `session_handle`.
pub fn get_unregistration_object_bytes(session_handle: CipUdint) -> (bytes: Vec<u8>)
    ensures
        bytes@ == unregistration_frame(session_handle),
{
    let unregistration = RequestObjectAssembly::new_unregistration(session_handle);
    match unregistration.to_bytes() {
        Ok(bytes) => bytes,
        Err(_) => Vec::new(),
    }
}

/// The bytes of the frame that asks for the identity object in the session
/// `session_handle`.
pub fn get_identity_object_bytes(session_handle: CipUdint) -> (bytes: Vec<u8>)
    ensures
        bytes@ == identity_frame(session_handle),
{
    let identity_object = RequestObjectAssembly::new_identity(session_handle);
    match identity_object.to_bytes() {
        Ok(bytes) => bytes,
        Err(_) => Vec::new(),
    }
}

} // verus!
