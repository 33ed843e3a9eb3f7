use eipscanne_rs::cip::message::request::MessageRouterRequest;
use eipscanne_rs::cip::message::shared::ServiceCode;
use eipscanne_rs::cip::path::CipPath;
use eipscanne_rs::cip::types::{CipByte, CipUint};
use eipscanne_rs::codec::CipCodec;
use eipscanne_rs::eip::command::{
    CommandSpecificData, EnIpCommand, EncapsStatusCode, RRPacketData, RegisterData,
};
use eipscanne_rs::eip::description::{CommonPacketDescriptor, CommonPacketItemId};
use eipscanne_rs::eip::packet::{EnIpPacketDescription, EncapsulationHeader};
use eipscanne_rs::error::{ErrorKind, Layer};

#[test]
fn test_cast_encaps_command() {
    let command = EnIpCommand::RegisterSession;

    let expected_value: CipUint = 0x0065;

    assert_eq!(expected_value, command.to_code());
}

#[test]
fn test_serialize_encaps_command() {
    let command = EnIpCommand::RegisterSession;

    let mut command_byte_array: Vec<u8> = Vec::new();
    command.write(&mut command_byte_array);

    let expected_byte_array = vec![0x65, 0x00];

    assert_eq!(expected_byte_array, command_byte_array);
}

#[test]
fn test_serialize_identity_ethernet_ip_component_request() {
    let expected_eip_byte_array: Vec<CipByte> = vec![
        0x6f, 0x00, 0x1a, 0x00, 0x06, 0x00, 0x00, 0x00, 0x00, 0x00, 0x00, 0x00, 0x00, 0x00, 0x00,
        0x00, 0x00, 0x00, 0x00, 0x00, 0x00, 0x00, 0x00, 0x00, 0x00, 0x00, 0x00, 0x00, 0x00, 0x00,
        0x02, 0x00, 0x00, 0x00, 0x00, 0x00, 0xb2, 0x00, 0x0a, 0x00,
    ];

    let identity_request_packet = EnIpPacketDescription {
        header: EncapsulationHeader {
            command: EnIpCommand::SendRrData,
            length: 0,
            session_handle: 0x06,
            status_code: EncapsStatusCode::Success,
            sender_context: [0x00; 8],
            options: 0x00,
        },
        command_specific_data: CommandSpecificData::SendRrData(RRPacketData::new(0x0, 0)),
    };

    let mut identity_byte_array: Vec<u8> = Vec::new();

    // The length of the message is handed in by the assembly.
    identity_request_packet.write(10, &mut identity_byte_array).unwrap();

    assert_eq!(expected_eip_byte_array, identity_byte_array);
}

#[test]
fn test_serialize_message_router_generated_identity_ethernet_ip_component_request() {
    let expected_eip_byte_array: Vec<CipByte> = vec![
        0x6f, 0x00, 0x1a, 0x00, 0x06, 0x00, 0x00, 0x00, 0x00, 0x00, 0x00, 0x00, 0x00, 0x00, 0x00,
        0x00, 0x00, 0x00, 0x00, 0x00, 0x00, 0x00, 0x00, 0x00, 0x00, 0x00, 0x00, 0x00, 0x00, 0x00,
        0x02, 0x00, 0x00, 0x00, 0x00, 0x00, 0xb2, 0x00, 0x0a, 0x00,
    ];

    let identity_cip_path = CipPath::new(0x1, 0x1);

    let message_router_request =
        MessageRouterRequest::new(ServiceCode::GetAttributeAll, identity_cip_path);

    let mut message_request_buffer: Vec<u8> = Vec::new();
    message_router_request.write(&mut message_request_buffer);

    let cip_request_packet = EnIpPacketDescription::new_cip_description(0x06, 0);

    let mut identity_byte_array: Vec<u8> = Vec::new();

    cip_request_packet
        .write(message_request_buffer.len() as u16, &mut identity_byte_array)
        .unwrap();

    assert_eq!(expected_eip_byte_array, identity_byte_array);
}

#[test]
fn test_deserialize_identity_object_response_encapsulated_packet() {
    let raw_bytes = vec![
        0x6f, 0x00, 0x2c, 0x00, 0x06, 0x00, 0x00, 0x00, 0x00, 0x00, 0x00, 0x00, 0x00, 0x00, 0x00,
        0x00, 0x00, 0x00, 0x00, 0x00, 0x00, 0x00, 0x00, 0x00, 0x00, 0x00, 0x00, 0x00, 0x00, 0x00,
        0x02, 0x00, 0x00, 0x00, 0x00, 0x00, 0xb2, 0x00, 0x1c, 0x00, 0x81, 0x00, 0x00, 0x00, 0xa8,
        0x01, 0x2b, 0x00, 0x01, 0x00, 0x02, 0x5d, 0x00, 0x00, 0x32, 0x3d, 0xff, 0x01, 0x09, 0x43,
        0x6c, 0x65, 0x61, 0x72, 0x4c, 0x69, 0x6e, 0x6b,
    ];

    let (packet_description, consumed) = EnIpPacketDescription::read(&raw_bytes).unwrap();

    // What was read holds the two lengths of the frame: 44 bytes behind the
    // header, 28 of them the message.
    let expected_packet_description = EnIpPacketDescription {
        header: EncapsulationHeader {
            command: EnIpCommand::SendRrData,
            length: 44,
            session_handle: 0x06,
            status_code: EncapsStatusCode::Success,
            sender_context: [0x00; 8],
            options: 0x00,
        },
        command_specific_data: CommandSpecificData::SendRrData(RRPacketData::new_with_size(
            0x0,
            0,
            Some(28),
        )),
    };

    assert_eq!(expected_packet_description, packet_description);
    assert_eq!(consumed, 40);
}

#[test]
fn test_deserialize_identity_object_response() {
    let raw_bytes = vec![
        0x6f, 0x00, 0x2c, 0x00, 0x06, 0x00, 0x00, 0x00, 0x00, 0x00, 0x00, 0x00, 0x00, 0x00, 0x00,
        0x00, 0x00, 0x00, 0x00, 0x00, 0x00, 0x00, 0x00, 0x00, 0x00, 0x00, 0x00, 0x00, 0x00, 0x00,
        0x02, 0x00, 0x00, 0x00, 0x00, 0x00, 0xb2, 0x00, 0x1c, 0x00,
    ];

    let (packet_description, consumed) = EnIpPacketDescription::read(&raw_bytes).unwrap();

    let expected_packet_description = EnIpPacketDescription {
        header: EncapsulationHeader {
            command: EnIpCommand::SendRrData,
            length: 44,
            session_handle: 0x06,
            status_code: EncapsStatusCode::Success,
            sender_context: [0x00; 8],
            options: 0x00,
        },
        command_specific_data: CommandSpecificData::SendRrData(RRPacketData::test_with_size(
            0x0,
            0,
            Some(28),
        )),
    };

    assert_eq!(expected_packet_description, packet_description);
    assert_eq!(consumed, 40);
}

#[test]
fn header_is_24_bytes_in_field_order() {
    let header = EncapsulationHeader {
        command: EnIpCommand::SendRrData,
        length: 0xFFFF,
        session_handle: 0x11223344,
        status_code: EncapsStatusCode::InvalidSessionHandle,
        sender_context: [1, 2, 3, 4, 5, 6, 7, 8],
        options: 0xA1B2C3D4,
    };
    let mut bytes = Vec::new();
    // The stored length is not looked at: the one handed in is written.
    header.write(0x0102, &mut bytes);
    assert_eq!(
        bytes,
        vec![
            0x6f, 0x00, 0x02, 0x01, 0x44, 0x33, 0x22, 0x11, 0x64, 0x00, 0x00, 0x00, 1, 2, 3, 4, 5,
            6, 7, 8, 0xD4, 0xC3, 0xB2, 0xA1,
        ]
    );
    let (read, consumed) = EncapsulationHeader::read(&bytes).unwrap();
    assert_eq!(consumed, 24);
    assert_eq!(read, EncapsulationHeader { length: 0x0102, ..header });
}

#[test]
fn header_with_unknown_command_is_refused() {
    for code in [0x0001u16, 0x0005, 0x0062, 0x0067, 0x0071, 0x0074, 0xFFFF] {
        let mut bytes = vec![0u8; 24];
        bytes[0] = (code & 0xFF) as u8;
        bytes[1] = (code >> 8) as u8;
        let error = EncapsulationHeader::read(&bytes).unwrap_err();
        assert_eq!(error.kind, ErrorKind::InvariantViolation);
        assert_eq!(error.layer, Layer::Encapsulation);
        // The command is judged as soon as it is read.
        let error = EncapsulationHeader::read(&bytes[..2]).unwrap_err();
        assert_eq!(error.kind, ErrorKind::InvariantViolation);
        let error = EnIpPacketDescription::read(&bytes).unwrap_err();
        assert_eq!(error.kind, ErrorKind::InvariantViolation);
    }
}

#[test]
fn header_with_unknown_status_is_refused() {
    let mut bytes = vec![0u8; 24];
    bytes[0] = 0x65;
    bytes[8] = 0x04;
    let error = EncapsulationHeader::read(&bytes).unwrap_err();
    assert_eq!(error.kind, ErrorKind::InvariantViolation);
    assert_eq!(error.layer, Layer::Encapsulation);
}

#[test]
fn header_that_ends_early_is_a_short_read() {
    let mut bytes = vec![0u8; 24];
    bytes[0] = 0x65;
    for cut in [0usize, 1, 2, 11, 12, 23] {
        let error = EncapsulationHeader::read(&bytes[..cut]).unwrap_err();
        assert_eq!(error.kind, ErrorKind::ShortRead);
        assert_eq!(error.layer, Layer::Encapsulation);
    }
    assert!(EncapsulationHeader::read(&bytes).is_ok());
}

#[test]
fn command_and_status_codes_keep_their_numbers() {
    let commands: [(EnIpCommand, u16); 10] = [
        (EnIpCommand::NOP, 0x0000),
        (EnIpCommand::ListServices, 0x0004),
        (EnIpCommand::ListIdentity, 0x0063),
        (EnIpCommand::ListInterfaces, 0x0064),
        (EnIpCommand::RegisterSession, 0x0065),
        (EnIpCommand::UnRegisterSession, 0x0066),
        (EnIpCommand::SendRrData, 0x006F),
        (EnIpCommand::SendUnitData, 0x0070),
        (EnIpCommand::IndicateStatus, 0x0072),
        (EnIpCommand::Cancel, 0x0073),
    ];
    for (command, code) in commands {
        assert_eq!(command.to_code(), code);
        assert_eq!(EnIpCommand::from_code(code), Some(command));
    }
    assert_eq!(EnIpCommand::from_code(0x0071), None);

    let statuses: [(EncapsStatusCode, u32); 6] = [
        (EncapsStatusCode::Success, 0x0000),
        (EncapsStatusCode::UnsupportedCommand, 0x0001),
        (EncapsStatusCode::InsufficientMemory, 0x0002),
        (EncapsStatusCode::InvalidFormatOrData, 0x0003),
        (EncapsStatusCode::InvalidSessionHandle, 0x0064),
        (EncapsStatusCode::UnsupportedProtocolVersion, 0x0069),
    ];
    for (status, code) in statuses {
        assert_eq!(status.to_code(), code);
        assert_eq!(EncapsStatusCode::from_code(code), Some(status));
        let mut bytes = Vec::new();
        status.write(&mut bytes);
        assert_eq!(EncapsStatusCode::read(&bytes), Ok((status, 4)));
    }
    assert_eq!(EncapsStatusCode::from_code(0x0065), None);
    assert_eq!(EncapsStatusCode::from_code(0x0001_0000), None);

    let items: [(CommonPacketItemId, u16); 8] = [
        (CommonPacketItemId::NullAddr, 0x0000),
        (CommonPacketItemId::ListIdentity, 0x000C),
        (CommonPacketItemId::ConnectionAddressItem, 0x00A1),
        (CommonPacketItemId::ConnectedTransportPacket, 0x00B1),
        (CommonPacketItemId::UnconnectedMessage, 0x00B2),
        (CommonPacketItemId::O2TSockAddrInfo, 0x8000),
        (CommonPacketItemId::T2OSockAddrInfo, 0x8001),
        (CommonPacketItemId::SequencedAddressItem, 0x8002),
    ];
    for (item, code) in items {
        assert_eq!(item.to_code(), code);
        assert_eq!(CommonPacketItemId::from_code(code), Some(item));
        let mut bytes = Vec::new();
        item.write(&mut bytes);
        assert_eq!(CommonPacketItemId::read(&bytes), Ok((item, 2)));
    }
    assert_eq!(CommonPacketItemId::from_code(0x00B3), None);
    assert_eq!(
        CommonPacketItemId::read(&[0xB3, 0x00]).unwrap_err().kind,
        ErrorKind::InvariantViolation
    );
    assert_eq!(EnIpCommand::read(&[0x65]).unwrap_err().kind, ErrorKind::ShortRead);
    assert_eq!(EnIpCommand::read(&[0x01, 0x00]).unwrap_err().kind, ErrorKind::InvariantViolation);
    assert_eq!(EncapsStatusCode::read(&[0, 0, 0]).unwrap_err().kind, ErrorKind::ShortRead);
    assert_eq!(
        EncapsStatusCode::read(&[4, 0, 0, 0]).unwrap_err().kind,
        ErrorKind::InvariantViolation
    );
}

#[test]
fn descriptor_is_written_with_the_length_provided() {
    let descriptor = CommonPacketDescriptor {
        type_id: CommonPacketItemId::UnconnectedMessage,
        packet_length: 7,
    };
    let mut bytes = Vec::new();
    descriptor.write(Some(0x011C), &mut bytes);
    assert_eq!(bytes, vec![0xB2, 0x00, 0x1C, 0x01]);
    assert_eq!(
        CommonPacketDescriptor::read(&bytes),
        Ok((CommonPacketDescriptor { packet_length: 0x011C, ..descriptor }, 4))
    );

    let mut bytes = Vec::new();
    descriptor.write(None, &mut bytes);
    assert_eq!(bytes, vec![0xB2, 0x00, 0x00, 0x00]);
}

#[test]
fn descriptor_errors_come_field_by_field() {
    assert_eq!(CommonPacketDescriptor::read(&[0xB2]).unwrap_err().kind, ErrorKind::ShortRead);
    assert_eq!(
        CommonPacketDescriptor::read(&[0xB3, 0x00]).unwrap_err().kind,
        ErrorKind::InvariantViolation
    );
    assert_eq!(
        CommonPacketDescriptor::read(&[0xB2, 0x00, 0x01]).unwrap_err().kind,
        ErrorKind::ShortRead
    );
}

#[test]
fn rr_data_is_16_bytes_with_two_items() {
    let data = RRPacketData::new(0x01020304, 0x0506);
    assert_eq!(data, RRPacketData::new_with_size(0x01020304, 0x0506, None));
    assert_eq!(data.empty_data_packet.type_id, CommonPacketItemId::NullAddr);
    assert_eq!(data.empty_data_packet.packet_length, 0);
    assert_eq!(data.unconnected_data_packet.type_id, CommonPacketItemId::UnconnectedMessage);
    assert_eq!(data.unconnected_data_packet.packet_length, 0);

    let mut bytes = Vec::new();
    data.write(0x0A, &mut bytes);
    assert_eq!(
        bytes,
        vec![
            0x04, 0x03, 0x02, 0x01, 0x06, 0x05, 0x02, 0x00, 0x00, 0x00, 0x00, 0x00, 0xB2, 0x00,
            0x0A, 0x00,
        ]
    );
    assert_eq!(
        RRPacketData::read(&bytes),
        Ok((RRPacketData::new_with_size(0x01020304, 0x0506, Some(0x0A)), 16))
    );
}

#[test]
fn rr_data_with_another_item_count_is_refused() {
    let mut bytes = vec![
        0x00, 0x00, 0x00, 0x00, 0x00, 0x00, 0x03, 0x00, 0x00, 0x00, 0x00, 0x00, 0xB2, 0x00, 0x0A,
        0x00,
    ];
    let error = RRPacketData::read(&bytes).unwrap_err();
    assert_eq!(error.kind, ErrorKind::InvariantViolation);
    assert_eq!(error.layer, Layer::Encapsulation);
    bytes[6] = 0x02;
    assert!(RRPacketData::read(&bytes).is_ok());
    bytes[12] = 0xB3;
    assert_eq!(RRPacketData::read(&bytes).unwrap_err().kind, ErrorKind::InvariantViolation);
    bytes[12] = 0xB2;
    for cut in [0usize, 7, 8, 11, 12, 15] {
        assert_eq!(RRPacketData::read(&bytes[..cut]).unwrap_err().kind, ErrorKind::ShortRead);
    }
}

#[test]
fn command_data_is_chosen_by_the_command() {
    let register = vec![0x01, 0x00, 0x00, 0x00];
    assert_eq!(
        CommandSpecificData::read(EnIpCommand::RegisterSession, &register),
        Ok((CommandSpecificData::new_registration(), 4))
    );
    assert_eq!(
        CommandSpecificData::new_registration(),
        CommandSpecificData::RegisterSession(RegisterData { protocol_version: 1, option_flags: 0 })
    );
    assert_eq!(
        CommandSpecificData::read(EnIpCommand::UnRegisterSession, &register),
        Ok((CommandSpecificData::UnregisterSession, 0))
    );
    assert_eq!(
        CommandSpecificData::read(EnIpCommand::SendRrData, &register).unwrap_err().kind,
        ErrorKind::ShortRead
    );
    for command in [
        EnIpCommand::NOP,
        EnIpCommand::ListServices,
        EnIpCommand::ListIdentity,
        EnIpCommand::ListInterfaces,
        EnIpCommand::SendUnitData,
        EnIpCommand::IndicateStatus,
        EnIpCommand::Cancel,
    ] {
        let error = CommandSpecificData::read(command, &register).unwrap_err();
        assert_eq!(error.kind, ErrorKind::InvariantViolation);
        assert_eq!(error.layer, Layer::Encapsulation);
    }
    assert_eq!(CommandSpecificData::UnregisterSession.byte_size(), 0);
    assert_eq!(CommandSpecificData::new_registration().byte_size(), 4);
    assert_eq!(CommandSpecificData::new_request(0, 0).byte_size(), 16);
    assert_eq!(
        CommandSpecificData::new_request(3, 4),
        CommandSpecificData::SendRrData(RRPacketData::new(3, 4))
    );
}

#[test]
fn packet_description_constructors_fill_the_header() {
    let registration = EnIpPacketDescription::new_registration_description();
    assert_eq!(registration.header.command, EnIpCommand::RegisterSession);
    assert_eq!(registration.header.session_handle, 0);
    assert_eq!(registration.header.status_code, EncapsStatusCode::Success);
    assert_eq!(registration.header.sender_context, [0u8; 8]);
    assert_eq!(registration.header.options, 0);
    assert_eq!(registration.command_specific_data, CommandSpecificData::new_registration());

    let unregistration = EnIpPacketDescription::new_unregistration_description(6);
    assert_eq!(unregistration.header.command, EnIpCommand::UnRegisterSession);
    assert_eq!(unregistration.header.session_handle, 6);
    assert_eq!(unregistration.command_specific_data, CommandSpecificData::UnregisterSession);

    let request = EnIpPacketDescription::new_cip_description(6, 9);
    assert_eq!(request.header.command, EnIpCommand::SendRrData);
    assert_eq!(request.command_specific_data, CommandSpecificData::new_request(0, 9));
    assert_eq!(
        request,
        EnIpPacketDescription::new(
            EnIpCommand::SendRrData,
            6,
            CommandSpecificData::new_request(0, 9)
        )
    );
}

#[test]
fn packet_description_refuses_a_length_that_does_not_fit() {
    let request = EnIpPacketDescription::new_cip_description(6, 0);
    let mut bytes = vec![0xEE];
    // 16 bytes of command data and 65519 of message are 65535: the most.
    assert!(request.write(65519, &mut bytes).is_ok());
    assert_eq!(bytes.len(), 1 + 40);
    assert_eq!(&bytes[3..5], &[0xFF, 0xFF]);

    let mut bytes = vec![0xEE];
    let error = request.write(65520, &mut bytes).unwrap_err();
    assert_eq!(error.kind, ErrorKind::SerializationOverflow);
    assert_eq!(error.layer, Layer::Encapsulation);
    assert_eq!(bytes, vec![0xEE]);
}

#[test]
fn packet_description_survives_a_round_trip() {
    let request = EnIpPacketDescription::new_cip_description(0xCAFE, 5);
    let mut bytes = Vec::new();
    request.write(300, &mut bytes).unwrap();
    bytes.extend_from_slice(&[0xAA, 0xBB]);
    let (read, consumed) = EnIpPacketDescription::read(&bytes).unwrap();
    assert_eq!(consumed, 40);
    assert_eq!(read.header.length, 316);
    assert_eq!(read.header.session_handle, 0xCAFE);
    assert_eq!(
        read.command_specific_data,
        CommandSpecificData::SendRrData(RRPacketData::new_with_size(0, 5, Some(300)))
    );
}
