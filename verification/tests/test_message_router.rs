use eipscanne_rs::cip::message::request::{MessageRouterRequest, RequestData};
use eipscanne_rs::cip::message::response::{
    MessageRouterResponse, ResponseData, ResponseStatusCode,
};
use eipscanne_rs::cip::message::shared::{ServiceCode, ServiceContainer, ServiceContainerBits};
use eipscanne_rs::cip::path::CipPath;
use eipscanne_rs::cip::types::CipByte;
use eipscanne_rs::codec::CipCodec;
use eipscanne_rs::error::{ErrorKind, Layer};

#[test]
fn test_serialize_service_container() {
    let expected_byte_array: Vec<CipByte> = vec![0x01];

    let service_container_bits = ServiceContainerBits::new(ServiceCode::GetAttributeAll, false);
    let service_container = ServiceContainer::from(service_container_bits);

    let mut service_container_bytes: Vec<u8> = Vec::new();
    service_container.write(&mut service_container_bytes);

    assert_eq!(expected_byte_array, service_container_bytes);
}

#[test]
fn test_deserialize_request_service_container() {
    let expected_service_container = ServiceContainerBits::new(ServiceCode::GetAttributeAll, false);

    let raw_byte_array: Vec<CipByte> = vec![0x1];

    let (deserialized_service_container, _) = ServiceContainer::read(&raw_byte_array).unwrap();

    let deserialized_service_container_bits =
        ServiceContainerBits::from(deserialized_service_container);

    assert_eq!(expected_service_container, deserialized_service_container_bits);
}

#[test]
fn test_deserialize_response_service_container() {
    let expected_service_container = ServiceContainerBits::new(ServiceCode::Reset, true);

    let raw_byte_array: Vec<CipByte> = vec![0b10000101];

    let (deserialized_service_container, _) = ServiceContainer::read(&raw_byte_array).unwrap();

    let deserialized_service_container_bits =
        ServiceContainerBits::from(deserialized_service_container);

    assert_eq!(expected_service_container, deserialized_service_container_bits);
}

#[test]
fn test_serialize_get_attributes_all_request() {
    let expected_byte_array: Vec<CipByte> =
        vec![0x01, 0x04, 0x21, 0x00, 0x01, 0x00, 0x25, 0x00, 0x01, 0x00];

    let message_router_request =
        MessageRouterRequest::new(ServiceCode::GetAttributeAll, CipPath::new(0x1, 0x1));

    let mut message_router_bytes: Vec<u8> = Vec::new();
    message_router_request.write(&mut message_router_bytes);

    assert_eq!(expected_byte_array, message_router_bytes);
}

#[test]
fn test_deserialize_get_attributes_all_response() {
    // These are the bytes of a request: the response bit of the first byte is
    // clear, so a reader of responses refuses them.
    let raw_byte_array: Vec<CipByte> =
        vec![0x01, 0x04, 0x21, 0x00, 0x01, 0x00, 0x25, 0x00, 0x01, 0x00];

    let refused = MessageRouterResponse::<CipPath>::read(&raw_byte_array).unwrap_err();
    assert_eq!(refused.kind, ErrorKind::InvariantViolation);
    assert_eq!(refused.layer, Layer::MessageRouter);

    // With the response bit set the same bytes are read as a response to the
    // same service.
    let mut forced = raw_byte_array.clone();
    forced[0] |= 0x80;
    let (message_router_response, consumed) =
        MessageRouterResponse::<CipPath>::read(&forced).unwrap();

    assert_eq!(
        message_router_response.service_container,
        ServiceContainer::from(ServiceContainerBits::new(ServiceCode::GetAttributeAll, true))
    );
    assert_eq!(message_router_response.response_data.status, 0x21);
    assert_eq!(message_router_response.response_data.additional_status_size, 0x0);
    assert_eq!(message_router_response.response_data.data, None);
    assert_eq!(consumed, 4);
}

#[test]
fn test_deserialize_empty_response() {
    let raw_byte_array: Vec<CipByte> = vec![0x81, 0x00, 0x00, 0x00, 0x04];

    let (message_router_response, consumed) =
        MessageRouterResponse::<u8>::read(&raw_byte_array).unwrap();

    let expected_message_router_response = MessageRouterResponse {
        service_container: ServiceContainer::from(ServiceContainerBits::new(
            ServiceCode::GetAttributeAll,
            true,
        )),
        response_data: ResponseData { status: 0x0, additional_status_size: 0x0, data: Some(0x4) },
    };

    assert_eq!(expected_message_router_response, message_router_response);
    assert_eq!(consumed, 5);
}

#[test]
fn test_message_cip_path_byte_size() {
    let message_router_request = MessageRouterRequest::<u8> {
        service_container: ServiceContainer::from(ServiceContainerBits::new(
            ServiceCode::GetAttributeAll,
            false,
        )),
        request_data: RequestData {
            total_word_size: 4,
            cip_path: CipPath::new(0x1, 0x1),
            additional_data: None,
        },
    };

    assert_eq!(10, message_router_request.byte_size());
}

#[test]
fn test_message_cip_path_request_byte_size() {
    let message_router_request =
        MessageRouterRequest::new(ServiceCode::GetAttributeAll, CipPath::new(0x1, 0x1));

    assert_eq!(10, message_router_request.byte_size());
}

#[test]
fn path_word_size_counts_the_words_of_the_path() {
    let short = MessageRouterRequest::new(ServiceCode::GetAttributeAll, CipPath::new(0x1, 0x1));
    assert_eq!(short.to_bytes()[1], 4);

    let full =
        MessageRouterRequest::new(ServiceCode::GetAttributeSingle, CipPath::new_full(4, 0x70, 3));
    assert_eq!(full.to_bytes()[1], 3);
    assert_eq!(full.to_bytes(), vec![0x0e, 0x03, 0x20, 0x04, 0x24, 0x70, 0x30, 0x03]);

    // The payload is not counted.
    let with_payload = MessageRouterRequest::new_data(
        ServiceCode::SetAttributeSingle,
        CipPath::new_full(4, 0x70, 3),
        Some(0xDEADBEEFu32),
    );
    assert_eq!(
        with_payload.to_bytes(),
        vec![0x10, 0x03, 0x20, 0x04, 0x24, 0x70, 0x30, 0x03, 0xEF, 0xBE, 0xAD, 0xDE]
    );
    assert_eq!(with_payload.byte_size(), 12);
}

#[test]
fn stored_word_size_is_not_written() {
    let request = MessageRouterRequest::<u8> {
        service_container: ServiceContainer::new(ServiceCode::GetAttributeAll, false),
        request_data: RequestData {
            total_word_size: 99,
            cip_path: CipPath::new(0x1, 0x1),
            additional_data: None,
        },
    };
    assert_eq!(request.to_bytes()[1], 4);
}

#[test]
fn request_is_written_with_the_response_bit_clear() {
    let request = MessageRouterRequest::<u8> {
        service_container: ServiceContainer::new(ServiceCode::Reset, true),
        request_data: RequestData::new(CipPath::new(0x1, 0x1), None),
    };
    assert_eq!(request.to_bytes()[0], 0x05);
}

#[test]
fn new_request_has_no_payload_and_a_clear_response_bit() {
    let request = MessageRouterRequest::new(ServiceCode::GetAttributeAll, CipPath::new(2, 3));
    assert_eq!(request.service_container.service_representation, 0x01);
    assert_eq!(request.request_data.cip_path, CipPath::new(2, 3));
    assert_eq!(request.request_data.additional_data, None);
    assert_eq!(request.request_data.total_word_size, 0);
}

#[test]
fn response_with_clear_response_bit_is_refused() {
    for first in [0x00u8, 0x01, 0x0E, 0x7F] {
        let bytes = vec![first, 0x00, 0x00, 0x00, 0x04];
        let error = MessageRouterResponse::<u8>::read(&bytes).unwrap_err();
        assert_eq!(error.kind, ErrorKind::InvariantViolation);
        assert_eq!(error.layer, Layer::MessageRouter);
        // The check comes before the rest of the envelope is asked for.
        let error = MessageRouterResponse::<u8>::read(&bytes[..1]).unwrap_err();
        assert_eq!(error.kind, ErrorKind::InvariantViolation);
    }
}

#[test]
fn response_that_ends_early_is_a_short_read() {
    let no_bytes: Vec<u8> = Vec::new();
    let error = MessageRouterResponse::<u8>::read(&no_bytes).unwrap_err();
    assert_eq!(error.kind, ErrorKind::ShortRead);
    assert_eq!(error.layer, Layer::MessageRouter);
    for cut in 1..4 {
        let bytes = vec![0x81, 0x00, 0x00, 0x00];
        let error = MessageRouterResponse::<u8>::read(&bytes[..cut]).unwrap_err();
        assert_eq!(error.kind, ErrorKind::ShortRead);
    }
}

#[test]
fn response_without_payload_stands() {
    let bytes = vec![0x90, 0xAA, 0x00, 0x00];
    let (response, consumed) = MessageRouterResponse::<u16>::read(&bytes).unwrap();
    assert_eq!(consumed, 4);
    assert_eq!(response.response_data.data, None);
    assert_eq!(response.service_container.service(), ServiceCode::SetAttributeSingle);
    assert!(response.service_container.response());

    // A payload that cannot be read is absent too.
    let bytes = vec![0x90, 0x00, 0x00, 0x00, 0x01];
    let (response, consumed) = MessageRouterResponse::<u16>::read(&bytes).unwrap();
    assert_eq!(consumed, 4);
    assert_eq!(response.response_data.data, None);
}

#[test]
fn response_status_is_handed_on_as_it_is() {
    let bytes = vec![0x8E, 0x00, 0x08, 0x00];
    let (response, _) = MessageRouterResponse::<u8>::read(&bytes).unwrap();
    assert_eq!(response.response_data.status, 0x08);
    assert_eq!(response.response_data.status_code(), None);

    let bytes = vec![0x8E, 0x00, 0x00, 0x00];
    let (response, _) = MessageRouterResponse::<u8>::read(&bytes).unwrap();
    assert_eq!(response.response_data.status_code(), Some(ResponseStatusCode::Success));
}

#[test]
fn request_with_response_bit_forced_reads_as_response() {
    let request = MessageRouterRequest::new_data(
        ServiceCode::SetAttributeSingle,
        CipPath::new_full(4, 0x70, 3),
        Some(0x1234u16),
    );
    let mut bytes = request.to_bytes();
    bytes[0] |= 0x80;
    let (response, consumed) = MessageRouterResponse::<Vec<u8>>::read(&bytes).unwrap();
    assert_eq!(response.service_container.service(), ServiceCode::SetAttributeSingle);
    assert!(response.service_container.response());
    assert_eq!(response.response_data.status, 0x20);
    assert_eq!(response.response_data.additional_status_size, 0x04);
    assert_eq!(response.response_data.data, Some(vec![0x24, 0x70, 0x30, 0x03, 0x34, 0x12]));
    assert_eq!(consumed, bytes.len());
}

#[test]
fn service_codes_keep_their_numbers() {
    let named: [(ServiceCode, u8); 24] = [
        (ServiceCode::NoService, 0x00),
        (ServiceCode::GetAttributeAll, 0x01),
        (ServiceCode::SetAttributeAll, 0x02),
        (ServiceCode::GetAttributeList, 0x03),
        (ServiceCode::SetAttributeList, 0x04),
        (ServiceCode::Reset, 0x05),
        (ServiceCode::Start, 0x06),
        (ServiceCode::Stop, 0x07),
        (ServiceCode::CreateObjectInstance, 0x08),
        (ServiceCode::DeleteObjectInstance, 0x09),
        (ServiceCode::MultipleServicePacket, 0x0A),
        (ServiceCode::ApplyAttributes, 0x0D),
        (ServiceCode::GetAttributeSingle, 0x0E),
        (ServiceCode::SetAttributeSingle, 0x10),
        (ServiceCode::FindNextObjectInstance, 0x11),
        (ServiceCode::ErrorResponse, 0x14),
        (ServiceCode::Restore, 0x15),
        (ServiceCode::Save, 0x16),
        (ServiceCode::NoOperation, 0x17),
        (ServiceCode::GetMember, 0x18),
        (ServiceCode::SetMember, 0x19),
        (ServiceCode::InsertMember, 0x1A),
        (ServiceCode::RemoveMember, 0x1B),
        (ServiceCode::GroupSync, 0x1C),
    ];
    for (service, code) in named {
        assert_eq!(service.bits(), code);
        assert_eq!(ServiceCode::from_bits(code), service);
        assert_eq!(ServiceCode::from_bits(code | 0x80), service);
    }
    assert_eq!(ServiceCode::from_bits(0x0B), ServiceCode::Unknown(0x0B));
    assert_eq!(ServiceCode::from_bits(0x4C), ServiceCode::Unknown(0x4C));
    assert_eq!(ServiceCode::Unknown(0x4C).bits(), 0x4C);
}

#[test]
fn every_service_byte_is_reproduced() {
    for byte in 0u8..=255 {
        let fields = ServiceContainerBits::unpack(byte);
        assert_eq!(fields.response, byte >= 0x80);
        assert_eq!(fields.pack(), byte);
        assert_eq!(ServiceContainerBits::unpack(fields.pack()), fields);
    }
}
