use eipscanne_rs::cip::types::CipByte;
use eipscanne_rs::eip::command::{
    CommandSpecificData, EnIpCommand, EncapsStatusCode, RegisterData,
};
use eipscanne_rs::eip::packet::{EnIpPacketDescription, EncapsulationHeader};
use eipscanne_rs::object_assembly::{
    get_registration_object_bytes, get_unregistration_object_bytes, RequestObjectAssembly,
    ResponseObjectAssembly,
};

#[test]
fn test_serialize_register_session_request() {
    let expected_byte_array: Vec<CipByte> = vec![
        0x65, 0x00, 0x04, 0x00, 0x00, 0x00, 0x00, 0x00, 0x00, 0x00, 0x00, 0x00, 0x00, 0x00, 0x00,
        0x00, 0x00, 0x00, 0x00, 0x00, 0x00, 0x00, 0x00, 0x00, 0x01, 0x00, 0x00, 0x00,
    ];

    let registration_packet = RequestObjectAssembly::new_registration();

    let registration_byte_array = registration_packet.to_bytes().unwrap();

    assert_eq!(expected_byte_array, registration_byte_array);
    assert_eq!(expected_byte_array, get_registration_object_bytes());
}

#[test]
fn test_deserialize_register_session_response() {
    let raw_response: Vec<CipByte> = vec![
        0x65, 0x00, 0x04, 0x00, 0x06, 0x00, 0x00, 0x00, 0x00, 0x00, 0x00, 0x00, 0x00, 0x00, 0x00,
        0x00, 0x00, 0x00, 0x00, 0x00, 0x00, 0x00, 0x00, 0x00, 0x01, 0x00, 0x00, 0x00,
    ];

    let (session_response, consumed) = EnIpPacketDescription::read(&raw_response).unwrap();
    assert_eq!(consumed, 28);

    let expected_session_header = EncapsulationHeader {
        command: EnIpCommand::RegisterSession,
        length: 0x04,
        session_handle: 0x006,
        status_code: EncapsStatusCode::Success,
        sender_context: [0x00, 0x00, 0x00, 0x00, 0x00, 0x00, 0x00, 0x00],
        options: 0x00,
    };

    assert_eq!(expected_session_header, session_response.header);

    let expected_session_command_data = CommandSpecificData::RegisterSession(RegisterData {
        protocol_version: 0x1,
        option_flags: 0x00,
    });

    assert_eq!(expected_session_command_data, session_response.command_specific_data);

    let expected_packet = EnIpPacketDescription {
        header: expected_session_header,
        command_specific_data: expected_session_command_data,
    };

    assert_eq!(expected_packet, session_response);

    let (whole_frame, consumed) = ResponseObjectAssembly::<u8>::read(&raw_response).unwrap();
    assert_eq!(consumed, 28);
    assert_eq!(whole_frame.packet_description, expected_packet);
    assert_eq!(whole_frame.cip_message, None);
}

#[test]
fn test_serialize_unregister_session_request() {
    let expected_byte_array: Vec<CipByte> = vec![
        0x66, 0x00, 0x00, 0x00, 0x06, 0x00, 0x00, 0x00, 0x00, 0x00, 0x00, 0x00, 0x00, 0x00, 0x00,
        0x00, 0x00, 0x00, 0x00, 0x00, 0x00, 0x00, 0x00, 0x00,
    ];

    let unregistration_packet = RequestObjectAssembly::new_unregistration(0x6);

    assert_eq!(expected_byte_array, unregistration_packet.to_bytes().unwrap());
    assert_eq!(expected_byte_array, get_unregistration_object_bytes(0x6));

    assert_eq!(0x0, 0x0);
}

#[test]
fn frames_depend_on_nothing_but_the_session_handle() {
    for handle in [0u32, 6, 0x01020304, 0xFFFFFFFF] {
        let unregistration = get_unregistration_object_bytes(handle);
        assert_eq!(unregistration.len(), 24);
        assert_eq!(&unregistration[..4], &[0x66, 0x00, 0x00, 0x00]);
        assert_eq!(&unregistration[4..8], &handle.to_le_bytes());
        assert_eq!(&unregistration[8..], &[0u8; 16]);

        let identity =
            eipscanne_rs::object_assembly::get_identity_object_bytes(handle);
        assert_eq!(identity.len(), 50);
        assert_eq!(&identity[..4], &[0x6f, 0x00, 0x1a, 0x00]);
        assert_eq!(&identity[4..8], &handle.to_le_bytes());
        assert_eq!(
            &identity[24..],
            &[
                0x00, 0x00, 0x00, 0x00, 0x00, 0x00, 0x02, 0x00, 0x00, 0x00, 0x00, 0x00, 0xb2, 0x00,
                0x0a, 0x00, 0x01, 0x04, 0x21, 0x00, 0x01, 0x00, 0x25, 0x00, 0x01, 0x00,
            ]
        );
    }
}

#[test]
fn unregistration_read_back_has_an_empty_body() {
    let bytes = get_unregistration_object_bytes(0x6);
    let (read, consumed) = ResponseObjectAssembly::<u8>::read(&bytes).unwrap();
    assert_eq!(consumed, 24);
    assert_eq!(read.packet_description.header.command, EnIpCommand::UnRegisterSession);
    assert_eq!(read.packet_description.header.length, 0);
    assert_eq!(read.packet_description.header.session_handle, 6);
    assert_eq!(
        read.packet_description.command_specific_data,
        CommandSpecificData::UnregisterSession
    );
    assert_eq!(read.cip_message, None);
}
