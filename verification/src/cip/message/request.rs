//! The request envelope: the service byte, the size of the path in 16-bit words,
//! the path, and the payload with nothing between them.

use vstd::prelude::*;
use crate::cip::message::shared::{ServiceCode, ServiceContainer};
use crate::cip::path::{lemma_path_len, CipPath};
use crate::cip::types::CipUsint;
use crate::codec::CipCodec;

verus! {

/// The number of 16-bit words that the size byte and a path of `path_len` bytes
/// fill together. A half word left over is not counted, so for a path of an even
/// number of bytes this is the length of the path in words: 4 for the eight
/// bytes of a short path, 3 for the six of a full one.
pub open spec fn path_word_size(path_len: nat) -> nat {
    (1 + path_len) / 2
}

/// The bytes of an optional payload: none where there is no payload.
pub open spec fn payload_bytes<T: CipCodec>(payload: Option<T>) -> Seq<u8> {
    match payload {
        Some(data) => T::encode(data@),
        None => Seq::empty(),
    }
}

/// What follows the service byte of a request.
#[derive(Debug, PartialEq)]
pub struct RequestData<T> {
    /// The size of the path in words. It is computed when the request is written;
    /// what is stored here is not looked at.
    pub total_word_size: CipUsint,
    pub cip_path: CipPath,
    pub additional_data: Option<T>,
}

impl<T: CipCodec> RequestData<T> {
    /// The data of a request on `path` with the payload `request_data_content`.
    pub open spec fn of(path: CipPath, request_data_content: Option<T>) -> RequestData<T> {
        RequestData { total_word_size: 0, cip_path: path, additional_data: request_data_content }
    }

    /// The bytes that stand for `self`: the size byte, the path, the payload.
    pub open spec fn wire(&self) -> Seq<u8> {
        seq![path_word_size(CipPath::encode(self.cip_path).len()) as u8] + CipPath::encode(
            self.cip_path,
        ) + payload_bytes(self.additional_data)
    }

    /// The data of a request on `path` with the payload `request_data_content`.
    pub fn new(path: CipPath, request_data_content: Option<T>) -> (data: RequestData<T>)
        ensures
            data == RequestData::of(path, request_data_content),
    {
        RequestData { total_word_size: 0, cip_path: path, additional_data: request_data_content }
    }

    /// Appends the bytes of `self` to `out`. The path and the payload are first
    /// written to a scratch buffer, so that the size byte can go in front of them.
    pub fn write(&self, out: &mut Vec<u8>)
        ensures
            final(out)@ == old(out)@ + self.wire(),
    {
        let mut scratch: Vec<u8> = Vec::new();
        self.cip_path.write(&mut scratch);
        let path_byte_size: usize = scratch.len();
        assert(path_byte_size == self.cip_path.wire_len()) by {
            lemma_path_len(self.cip_path);
        }
        match &self.additional_data {
            Some(data) => {
                data.write(&mut scratch);
            },
            None => {},
        }
        let header_byte_size: usize = 1;
        let total_packet_word_size: usize = (header_byte_size + path_byte_size) / 2;
        out.push(total_packet_word_size as u8);
        out.extend_from_slice(scratch.as_slice());
        assert(out@ =~= old(out)@ + self.wire());
    }
}

/// A request to the message router.
#[derive(Debug, PartialEq)]
pub struct MessageRouterRequest<T> {
    pub service_container: ServiceContainer,
    pub request_data: RequestData<T>,
}

impl MessageRouterRequest<u8> {
    /// The request for `service_code` on `path`, without a payload.
    pub fn new(service_code: ServiceCode, path: CipPath) -> (request: MessageRouterRequest<u8>)
        ensures
            request == MessageRouterRequest::<u8>::of(service_code, path, None),
    {
        Self::new_data(service_code, path, None)
    }
}

impl<T: CipCodec> MessageRouterRequest<T> {
    /// The request for `service_code` on `path` with the payload
    /// `request_data_content`.
    pub open spec fn of(
        service_code: ServiceCode,
        path: CipPath,
        request_data_content: Option<T>,
    ) -> MessageRouterRequest<T> {
        MessageRouterRequest {
            service_container: ServiceContainer::of(service_code, false),
            request_data: RequestData::of(path, request_data_content),
        }
    }

    /// The bytes that stand for `self`: the service byte with the response bit
    /// cleared, then the request data.
    pub open spec fn wire(&self) -> Seq<u8> {
        seq![(self.service_container.service_representation % 128) as u8]
            + self.request_data.wire()
    }

    /// The request for `service_code` on `path` with the payload
    /// `request_data_content`.
    pub fn new_data(
        service_code: ServiceCode,
        path: CipPath,
        request_data_content: Option<T>,
    ) -> (request: MessageRouterRequest<T>)
        ensures
            request == MessageRouterRequest::of(service_code, path, request_data_content),
    {
        MessageRouterRequest {
            service_container: ServiceContainer::new(service_code, false),
            request_data: RequestData::new(path, request_data_content),
        }
    }

    /// Appends the bytes of `self` to `out`.
    pub fn write(&self, out: &mut Vec<u8>)
        ensures
            final(out)@ == old(out)@ + self.wire(),
    {
        out.push(self.service_container.service_representation % 128);
        self.request_data.write(out);
        assert(out@ =~= old(out)@ + self.wire());
    }

    /// The bytes that stand for `self`.
    pub fn to_bytes(&self) -> (bytes: Vec<u8>)
        ensures
            bytes@ == self.wire(),
    {
        let mut bytes: Vec<u8> = Vec::new();
        self.write(&mut bytes);
        bytes
    }

    /// The number of bytes that `self` takes on the wire.
    pub fn byte_size(&self) -> (n: usize)
        ensures
            n == self.wire().len(),
    {
        self.to_bytes().len()
    }
}

/// The second byte of a written request is the number of 16-bit words that the
/// byte itself and the path fill, a half word left over not counted: the length
/// of the path in words.
pub proof fn lemma_request_path_word_size<T: CipCodec>(request: MessageRouterRequest<T>)
    ensures
        request.wire().len() >= 2,
        request.wire()[1] == path_word_size(CipPath::encode(request.request_data.cip_path).len()),
        2 * request.wire()[1] == CipPath::encode(request.request_data.cip_path).len(),
        request.wire().len() == 2 + 2 * request.wire()[1] + payload_bytes(
            request.request_data.additional_data,
        ).len(),
{
    lemma_path_len(request.request_data.cip_path);
}

} // verus!
