use sase::common::{new_packet_buffer, PacketError, PacketType, VpnPacket, PROTOCOL_MAGIC, TUN_MTU};

#[test]
fn test_buffer_size() {
    let buf = new_packet_buffer();
    assert_eq!(buf.len(), TUN_MTU);
}

#[test]
fn header_roundtrip() {
    let p = VpnPacket::new(PacketType::KeepAlive, 0x01020304, 7, 1400);
    let bytes = p.to_bytes();
    assert_eq!(
        bytes,
        [0x53, 0x41, 0x53, 0x45, 0x03, 0x01, 0x02, 0x03, 0x04, 0, 0, 0, 7, 0x05, 0x78]
    );
    let mut with_payload = bytes.to_vec();
    with_payload.extend_from_slice(&[9, 9, 9]);
    assert_eq!(VpnPacket::from_bytes(&with_payload), Ok(p));
    assert_eq!(p.magic, PROTOCOL_MAGIC);
}

#[test]
fn header_errors() {
    assert_eq!(VpnPacket::from_bytes(&[0u8; 14]), Err(PacketError::TooShort));
    assert_eq!(VpnPacket::from_bytes(&[0u8; 15]), Err(PacketError::InvalidMagic));
    let mut bytes = VpnPacket::new(PacketType::Data, 1, 1, 1).to_bytes();
    bytes[4] = 9;
    assert_eq!(VpnPacket::from_bytes(&bytes), Err(PacketError::InvalidPacketType));
    assert_eq!(PacketError::InvalidMagic.to_string(), "Invalid magic number");
}

#[test]
fn packet_type_numbers() {
    assert_eq!(PacketType::from_u8(1), Some(PacketType::Data));
    assert_eq!(PacketType::from_u8(2), Some(PacketType::Handshake));
    assert_eq!(PacketType::from_u8(3), Some(PacketType::KeepAlive));
    assert_eq!(PacketType::from_u8(4), Some(PacketType::Disconnect));
    assert_eq!(PacketType::from_u8(0), None);
    assert_eq!(PacketType::Disconnect.to_u8(), 4);
}
