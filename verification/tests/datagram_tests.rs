use sase::common::{PacketError, PacketType, VpnPacket};
use sase::datagram::{DatagramClient, DatagramOutcome, DatagramServer};
use sase::peer::PeerAddr;

fn addr(port: u16) -> PeerAddr {
    PeerAddr::V4 { ip: 0xC0A8_0001, port }
}

fn header(t: PacketType, id: u32, seq: u32, len: u16) -> Vec<u8> {
    VpnPacket::new(t, id, seq, len).to_bytes().to_vec()
}

#[test]
fn handshakes_register_new_addresses() {
    let mut s = DatagramServer::new();
    match s.on_datagram(&header(PacketType::Handshake, 0, 0, 0), addr(1)) {
        DatagramOutcome::Registered { client_id, reply } => {
            assert_eq!(client_id, 1);
            assert_eq!(VpnPacket::from_bytes(&reply), Ok(VpnPacket::new(PacketType::Handshake, 1, 0, 0)));
        }
        other => panic!("unexpected {:?}", other),
    }
    assert!(matches!(
        s.on_datagram(&header(PacketType::Handshake, 0, 0, 0), addr(1)),
        DatagramOutcome::AlreadyRegistered
    ));
    match s.on_datagram(&header(PacketType::Handshake, 0, 0, 0), addr(2)) {
        DatagramOutcome::Registered { client_id, .. } => assert_eq!(client_id, 2),
        other => panic!("unexpected {:?}", other),
    }
    assert_eq!(s.sequence_of(1), Some(0));
    assert_eq!(s.sequence_of(2), Some(0));
    assert_eq!(s.sequence_of(3), None);
}

#[test]
fn malformed_datagrams_change_nothing() {
    let mut s = DatagramServer::new();
    assert!(matches!(s.on_datagram(&[1, 2, 3], addr(1)), DatagramOutcome::TooShort));
    assert!(matches!(
        s.on_datagram(&[0u8; 15], addr(1)),
        DatagramOutcome::Malformed(PacketError::InvalidMagic)
    ));
    let mut bad_type = header(PacketType::Data, 1, 1, 1);
    bad_type[4] = 0;
    assert!(matches!(
        s.on_datagram(&bad_type, addr(1)),
        DatagramOutcome::Malformed(PacketError::InvalidPacketType)
    ));
    assert_eq!(s.sequence_of(1), None);
}

#[test]
fn keepalive_and_data() {
    let mut s = DatagramServer::new();
    match s.on_datagram(&header(PacketType::KeepAlive, 7, 41, 0), addr(1)) {
        DatagramOutcome::KeepAliveReply(reply) => {
            assert_eq!(VpnPacket::from_bytes(&reply), Ok(VpnPacket::new(PacketType::KeepAlive, 7, 41, 0)));
        }
        other => panic!("unexpected {:?}", other),
    }
    let mut data = header(PacketType::Data, 7, 1, 3);
    data.extend_from_slice(&[1, 2, 3]);
    assert!(matches!(
        s.on_datagram(&data, addr(1)),
        DatagramOutcome::DataReceived { client_id: 7, length: 3 }
    ));
}

#[test]
fn disconnect_forgets_the_client() {
    let mut s = DatagramServer::new();
    s.on_datagram(&header(PacketType::Handshake, 0, 0, 0), addr(1));
    s.on_datagram(&header(PacketType::Handshake, 0, 0, 0), addr(2));
    match s.on_datagram(&header(PacketType::Disconnect, 1, 0, 0), addr(9)) {
        DatagramOutcome::Disconnected(removed) => {
            assert_eq!(removed, Some(DatagramClient { addr: addr(1), client_id: 1, sequence: 0 }))
        }
        other => panic!("unexpected {:?}", other),
    }
    assert_eq!(s.sequence_of(1), None);
    assert!(matches!(
        s.on_datagram(&header(PacketType::Disconnect, 1, 0, 0), addr(9)),
        DatagramOutcome::Disconnected(None)
    ));
    match s.on_datagram(&header(PacketType::Handshake, 0, 0, 0), addr(1)) {
        DatagramOutcome::Registered { client_id, .. } => assert_eq!(client_id, 3),
        other => panic!("unexpected {:?}", other),
    }
}

#[test]
fn tunnel_packets_are_framed_for_every_client() {
    let mut s = DatagramServer::new();
    s.on_datagram(&header(PacketType::Handshake, 0, 0, 0), addr(1));
    s.on_datagram(&header(PacketType::Handshake, 0, 0, 0), addr(2));
    s.mark_sent(2);
    s.mark_sent(2);
    let frames = s.tun_frames(&[0xAB, 0xCD]);
    assert_eq!(frames.len(), 2);
    assert_eq!(frames[0].0, addr(1));
    assert_eq!(frames[0].1, 1);
    let mut expect = header(PacketType::Data, 1, 0, 2);
    expect.extend_from_slice(&[0xAB, 0xCD]);
    assert_eq!(frames[0].2, expect);
    let mut expect = header(PacketType::Data, 2, 2, 2);
    expect.extend_from_slice(&[0xAB, 0xCD]);
    assert_eq!(frames[1].2, expect);
    assert_eq!(s.sequence_of(2), Some(2));
    s.mark_sent(99);
    assert_eq!(s.sequence_of(1), Some(0));
}
