//! The response envelope: the service byte with the response bit set, a reserved
//! byte, the general status, the size of the additional status, and the payload
//! if one can be read.

use vstd::prelude::*;
use vstd::slice::slice_subrange;
use crate::cip::message::request::payload_bytes;
use crate::cip::message::request::MessageRouterRequest;
use crate::cip::message::shared::lemma_service_fields_round_trip;
use crate::cip::message::shared::{ServiceCode, ServiceContainer, ServiceContainerBits};
use crate::cip::path::{lemma_path_len, CipPath};
use crate::codec::CipCodec;
use crate::error::{CodecError, Layer};

verus! {

/// The general status codes that have a name.
#[derive(Clone, Copy, Debug, PartialEq, Eq, Structural)]
pub enum ResponseStatusCode {
    Success,
}

/// The view of an optional value: the view of what it holds.
pub open spec fn option_view<T: View>(value: Option<T>) -> Option<T::V> {
    match value {
        Some(inner) => Some(inner@),
        None => None,
    }
}

/// What follows the service byte and the reserved byte of a response.
#[derive(Debug, PartialEq)]
pub struct ResponseData<T> {
    /// The general status as the device sent it; 0 is success.
    pub status: u8,
    /// The number of 16-bit words of additional status that the device announced.
    pub additional_status_size: u8,
    /// The payload, absent where none could be read.
    pub data: Option<T>,
}

impl<T: View> View for ResponseData<T> {
    type V = ResponseData<T::V>;

    open spec fn view(&self) -> ResponseData<T::V> {
        ResponseData {
            status: self.status,
            additional_status_size: self.additional_status_size,
            data: option_view(self.data),
        }
    }
}

impl<T> ResponseData<T> {
    /// The name of the general status, where it has one.
    pub fn status_code(&self) -> (code: Option<ResponseStatusCode>)
        ensures
            code == if self.status == 0 {
                Some(ResponseStatusCode::Success)
            } else {
                None
            },
    {
        if self.status == 0 {
            Some(ResponseStatusCode::Success)
        } else {
            None
        }
    }
}

/// A response of the message router.
#[derive(Debug, PartialEq)]
pub struct MessageRouterResponse<T> {
    pub service_container: ServiceContainer,
    pub response_data: ResponseData<T>,
}

impl<T: View> View for MessageRouterResponse<T> {
    type V = MessageRouterResponse<T::V>;

    open spec fn view(&self) -> MessageRouterResponse<T::V> {
        MessageRouterResponse {
            service_container: self.service_container,
            response_data: self.response_data@,
        }
    }
}

/// The number of bytes in front of the payload of a response.
pub const RESPONSE_HEADER_SIZE: usize = 4;

impl<T: CipCodec> MessageRouterResponse<T> {
    /// What a reader makes of `bytes`. The first byte must have the response bit
    /// set; the second is skipped; a payload that cannot be read is absent, and
    /// the response stands without it.
    pub open spec fn decode(bytes: Seq<u8>) -> Result<
        (MessageRouterResponse<T::V>, nat),
        CodecError,
    > {
        if bytes.len() < 1 {
            Err(CodecError::short(Layer::MessageRouter))
        } else if bytes[0] < 128 {
            Err(CodecError::violation(Layer::MessageRouter))
        } else if bytes.len() < RESPONSE_HEADER_SIZE {
            Err(CodecError::short(Layer::MessageRouter))
        } else {
            let payload = T::decode(
                bytes.subrange(RESPONSE_HEADER_SIZE as int, bytes.len() as int),
            );
            Ok(
                (
                    MessageRouterResponse {
                        service_container: ServiceContainer { service_representation: bytes[0] },
                        response_data: ResponseData {
                            status: bytes[2],
                            additional_status_size: bytes[3],
                            data: match payload {
                                Ok((data, _)) => Some(data),
                                Err(_) => None,
                            },
                        },
                    },
                    match payload {
                        Ok((_, n)) => RESPONSE_HEADER_SIZE as nat + n,
                        Err(_) => RESPONSE_HEADER_SIZE as nat,
                    },
                ),
            )
        }
    }

    /// Reads a response from the front of `bytes`; with it comes the number of
    /// bytes that it took.
    pub fn read(bytes: &[u8]) -> (r: Result<(MessageRouterResponse<T>, usize), CodecError>)
        ensures
            match r {
                Ok((v, n)) => Self::decode(bytes@) == Ok::<
                    (MessageRouterResponse<T::V>, nat),
                    CodecError,
                >((v@, n as nat)) && n <= bytes.len(),
                Err(e) => Self::decode(bytes@) == Err::<
                    (MessageRouterResponse<T::V>, nat),
                    CodecError,
                >(e),
            },
    {
        if bytes.len() < 1 {
            return Err(CodecError::short_read(Layer::MessageRouter));
        }
        let service_container = ServiceContainer { service_representation: bytes[0] };
        if !service_container.response() {
            return Err(CodecError::invariant_violation(Layer::MessageRouter));
        }
        if bytes.len() < RESPONSE_HEADER_SIZE {
            return Err(CodecError::short_read(Layer::MessageRouter));
        }
        let status: u8 = bytes[2];
        let additional_status_size: u8 = bytes[3];
        let rest = slice_subrange(bytes, RESPONSE_HEADER_SIZE, bytes.len());
        proof {
            T::lemma_decode_sound(rest@);
        }
        match T::read(rest) {
            Ok((data, n)) => Ok(
                (
                    MessageRouterResponse {
                        service_container,
                        response_data: ResponseData {
                            status,
                            additional_status_size,
                            data: Some(data),
                        },
                    },
                    RESPONSE_HEADER_SIZE + n,
                ),
            ),
            Err(_) => Ok(
                (
                    MessageRouterResponse {
                        service_container,
                        response_data: ResponseData { status, additional_status_size, data: None },
                    },
                    RESPONSE_HEADER_SIZE,
                ),
            ),
        }
    }
}

/// A response whose first byte has the response bit clear is refused as a
/// violation of the format, whatever follows the byte.
pub proof fn lemma_response_bit_clear_is_refused<T: CipCodec>(bytes: Seq<u8>)
    requires
        bytes.len() >= 1,
        bytes[0] < 128,
    ensures
        MessageRouterResponse::<T>::decode(bytes) == Err::<
            (MessageRouterResponse<T::V>, nat),
            CodecError,
        >(CodecError::violation(Layer::MessageRouter)),
{
}

/// `bytes` with the response bit of the first byte set.
pub open spec fn with_response_bit(bytes: Seq<u8>) -> Seq<u8>
    recommends
        bytes.len() >= 1,
{
    bytes.update(0, (bytes[0] % 128 + 128) as u8)
}

/// The bytes of a request, with the response bit set, read as a response: the
/// reader accepts them, and what it gives has the service code of the request.
/// The bytes behind the service byte fall to the fields of a response one by one:
/// the size byte is skipped as the reserved byte, the first two bytes of the path
/// are taken as the general status and the size of the additional status, and
/// the payload is whatever `U` reads from the rest of the path and the payload of
/// the request.
pub proof fn lemma_request_read_as_response<T: CipCodec, U: CipCodec>(
    request: MessageRouterRequest<T>,
)
    ensures
        ({
            let path = CipPath::encode(request.request_data.cip_path);
            let sent = with_response_bit(request.wire());
            let rest = path.subrange(2, path.len() as int) + payload_bytes(
                request.request_data.additional_data,
            );
            &&& path.len() >= 6
            &&& MessageRouterResponse::<U>::decode(sent) matches Ok((response, n))
            &&& response.service_container.is_response()
            &&& response.service_container.service_code()
                == request.service_container.service_code()
            &&& response.response_data.status == path[0]
            &&& response.response_data.additional_status_size == path[1]
            &&& response.response_data.data == match U::decode(rest) {
                Ok((data, _)) => Some(data),
                Err(_) => None,
            }
            &&& n == match U::decode(rest) {
                Ok((_, used)) => 4 + used,
                Err(_) => 4nat,
            }
        }),
{
    let path = CipPath::encode(request.request_data.cip_path);
    let sent = with_response_bit(request.wire());
    let rest = path.subrange(2, path.len() as int) + payload_bytes(
        request.request_data.additional_data,
    );
    lemma_path_len(request.request_data.cip_path);
    assert(sent.subrange(4, sent.len() as int) =~= rest);
    let byte = request.service_container.service_representation;
    assert((byte % 128) % 128 == byte % 128 && ((byte % 128) % 128 + 128) as u8 >= 128 && ((byte
        % 128) % 128 + 128) as u8 % 128 == byte % 128) by (bit_vector);
}

/// For a request made by its constructor the service byte that is read back is
/// the service byte of the request with the response bit set, and names the
/// same service.
pub proof fn lemma_constructed_request_read_as_response<T: CipCodec, U: CipCodec>(
    service_code: ServiceCode,
    path: CipPath,
    request_data_content: Option<T>,
)
    requires
        service_code.wf(),
    ensures
        ({
            let request = MessageRouterRequest::of(service_code, path, request_data_content);
            &&& MessageRouterResponse::<U>::decode(with_response_bit(request.wire())) matches Ok(
                (response, _),
            )
            &&& response.service_container == ServiceContainer::of(service_code, true)
            &&& response.service_container.service_code() == service_code
        }),
{
    let request = MessageRouterRequest::of(service_code, path, request_data_content);
    lemma_request_read_as_response::<T, U>(request);
    lemma_service_fields_round_trip(
        ServiceContainerBits { service: service_code, response: false },
    );
    lemma_service_fields_round_trip(
        ServiceContainerBits { service: service_code, response: true },
    );
    let code = service_code.code();
    assert(code < 128);
    assert(code % 128 == code && ((code % 128 + 128) as u8) == code + 128) by (bit_vector)
        requires
            code < 128,
    ;
}

} // verus!
