use eipscanne_rs::cip::message::request::MessageRouterRequest;
use eipscanne_rs::cip::message::shared::ServiceCode;
use eipscanne_rs::cip::path::CipPath;
use eipscanne_rs::eip::cip_data::{CipDataPacket, CommonPacketItem};
use eipscanne_rs::eip::description::CommonPacketItemId;
use eipscanne_rs::error::{ErrorKind, Layer};

#[test]
fn data_packet_announces_the_bytes_of_its_object() {
    let request =
        MessageRouterRequest::new(ServiceCode::GetAttributeAll, CipPath::new(0x1, 0x1));
    let message: Vec<u8> = request.to_bytes();
    assert_eq!(message, vec![0x01, 0x04, 0x21, 0x00, 0x01, 0x00, 0x25, 0x00, 0x01, 0x00]);

    let cip_data_packet = CipDataPacket::new(message.clone());

    assert_eq!(
        cip_data_packet.items[0],
        CommonPacketItem { type_id: CommonPacketItemId::NullAddr, length: 0, data: None }
    );
    assert_eq!(
        cip_data_packet.items[1],
        CommonPacketItem {
            type_id: CommonPacketItemId::UnconnectedMessage,
            length: 10,
            data: Some(message),
        }
    );
    assert_eq!(cip_data_packet.get_size(), 8);
}

#[test]
fn data_packet_counts_wire_bytes() {
    let packet = CipDataPacket::new(0x11223344u32);
    assert_eq!(packet.items[1].length, 4);
    assert_eq!(packet.items[1].data, Some(0x11223344));

    let packet = CipDataPacket::new(CipPath::new_full(4, 0x70, 3));
    assert_eq!(packet.items[1].length, 6);
}

#[test]
fn data_packet_leaves_out_an_object_of_no_bytes() {
    let packet = CipDataPacket::new(Vec::<u8>::new());
    assert_eq!(packet.items[1].type_id, CommonPacketItemId::UnconnectedMessage);
    assert_eq!(packet.items[1].length, 0);
    assert_eq!(packet.items[1].data, None);
    assert_eq!(packet.get_size(), 8);
}

#[test]
fn data_packet_refuses_an_object_that_is_too_long() {
    let longest = CipDataPacket::try_new(vec![0u8; 65535]).unwrap();
    assert_eq!(longest.items[1].length, 65535);
    assert_eq!(longest, CipDataPacket::new(vec![0u8; 65535]));

    let error = CipDataPacket::try_new(vec![0u8; 65536]).unwrap_err();
    assert_eq!(error.kind, ErrorKind::SerializationOverflow);
    assert_eq!(error.layer, Layer::Encapsulation);
}
