use sase::codec::{Data, Disconnect, Handshake, KeepAlive, Message, MessageType as Kind, TunConfig};
use sase::peer::PeerAddr;
use sase::server::{
    get_destination_ip, reply_message, server_action, validate_token, HandshakeReply,
    ServerAction, ServerState, Session,
};

const HOUR_NS: u128 = 3_600_000_000_000;

fn peer(last: u8, port: u16) -> PeerAddr {
    PeerAddr::V4 { ip: 0xC0A8_0100 | last as u32, port }
}

fn ipv4_to(dst: [u8; 4]) -> Vec<u8> {
    let mut p = vec![0x45, 0, 0, 20, 0, 0, 0, 0, 64, 17, 0, 0, 10, 0, 0, 9];
    p.extend_from_slice(&dst);
    p
}

fn granted(reply: HandshakeReply) -> (String, u32, TunConfig) {
    match reply {
        HandshakeReply::Granted { session_id, virtual_ip, tun_config } => (session_id, virtual_ip, tun_config),
        HandshakeReply::Rejected => panic!("handshake was rejected"),
    }
}

fn session(id: &str, addr: PeerAddr, virtual_ip: u32, tun_config: TunConfig, last_seen: u128) -> Session<u8> {
    Session { session_id: id.to_string(), addr, virtual_ip, tx: 0, tun_config, last_seen }
}

#[test]
fn token_checks() {
    assert!(validate_token("anything", ""));
    assert!(validate_token("", ""));
    assert!(validate_token("secret", "secret"));
    assert!(!validate_token("secreT", "secret"));
    assert!(!validate_token("", "secret"));
}

#[test]
fn destination_of_ipv4_packets() {
    assert_eq!(get_destination_ip(&ipv4_to([10, 0, 0, 7])), Some(0x0A00_0007));
    assert_eq!(get_destination_ip(&[0x45; 19]), None);
    let mut v6 = ipv4_to([10, 0, 0, 7]);
    v6[0] = 0x60;
    assert_eq!(get_destination_ip(&v6), None);
}

#[test]
fn actions_for_each_message_kind() {
    let h = Message::handshake(Handshake { token: String::new(), session_id: "abc".to_string(), tun_config: None });
    match server_action(h) {
        ServerAction::Handshake { session_id, token } => {
            assert_eq!(session_id, Some("abc".to_string()));
            assert_eq!(token, None);
        }
        other => panic!("unexpected {:?}", other),
    }
    match server_action(Message::data(Data { payload: vec![1, 2, 3] })) {
        ServerAction::Forward(p) => assert_eq!(p, vec![1, 2, 3]),
        other => panic!("unexpected {:?}", other),
    }
    match server_action(Message::keepalive(KeepAlive { timestamp: -5 })) {
        ServerAction::ReplyKeepAlive(t) => assert_eq!(t, -5),
        other => panic!("unexpected {:?}", other),
    }
    match server_action(Message { msg: Some(Kind::Disconnect(Disconnect { reason: "bye".to_string() })) }) {
        ServerAction::Disconnect(r) => assert_eq!(r, "bye"),
        other => panic!("unexpected {:?}", other),
    }
    assert!(matches!(server_action(Message { msg: None }), ServerAction::Unknown));
}

#[test]
fn session_ids_are_url_safe() {
    let mut state: ServerState<u8> = ServerState::new();
    let (a, _, _) = granted(state.handshake("", None, None));
    let (b, _, _) = granted(state.handshake("", None, None));
    assert_eq!(a.chars().count(), 21);
    assert!(a.chars().all(|c| c.is_ascii_alphanumeric() || c == '_' || c == '-'));
    assert_ne!(a, b);
}

#[test]
fn new_clients_get_numbered_addresses() {
    let mut state: ServerState<u8> = ServerState::new();
    let (id1, ip1, cfg1) = granted(state.handshake("tok", None, Some("tok")));
    assert_eq!(id1.chars().count(), 21);
    assert_eq!(ip1, 0x0A00_0001);
    assert_eq!(cfg1.name, "tun1");
    assert_eq!(cfg1.address, "10.0.0.1");
    assert_eq!(cfg1.netmask, "255.255.255.0");
    assert_eq!(cfg1.dns, vec!["114.114.114.114".to_string(), "8.8.8.8".to_string()]);
    assert_eq!(cfg1.mtu, 1400);
    let (_, ip2, cfg2) = granted(state.handshake("tok", Some("unknown"), None));
    assert_eq!(ip2, 0x0A00_0002);
    assert_eq!(cfg2.name, "tun2");
    assert_eq!(state.session_count(), 0);
}

#[test]
fn refused_tokens_are_rejected() {
    let mut state: ServerState<u8> = ServerState::new();
    assert!(matches!(state.handshake("tok", None, Some("wrong")), HandshakeReply::Rejected));
    let (_, ip, _) = granted(state.handshake("tok", None, None));
    assert_eq!(ip, 0x0A00_0001);
    let (_, ip, _) = granted(state.handshake("", None, Some("whatever")));
    assert_eq!(ip, 0x0A00_0002);
}

#[test]
fn resumed_session_keeps_its_address() {
    let mut state: ServerState<u8> = ServerState::new();
    let (sid, ip, cfg) = granted(state.handshake("tok", None, Some("tok")));
    state.register(session(&sid, peer(5, 4000), ip, cfg, 10));
    assert_eq!(state.session_count(), 1);
    assert_eq!(state.find_session(&sid).unwrap().virtual_ip, ip);
    let (sid2, ip2, cfg2) = granted(state.handshake("tok", Some(&sid), Some("tok")));
    assert_eq!(sid2, sid);
    assert_eq!(ip2, ip);
    assert_eq!(cfg2.address, "10.0.0.1");
    let (_, ip3, _) = granted(state.handshake("tok", None, Some("tok")));
    assert_eq!(ip3, 0x0A00_0002);
    assert!(matches!(state.handshake("tok", Some(&sid), Some("bad")), HandshakeReply::Rejected));
}

#[test]
fn register_replaces_same_id() {
    let mut state: ServerState<u8> = ServerState::new();
    let (_, _, cfg) = granted(state.handshake("", None, None));
    state.register(session("s1", peer(1, 1), 1, cfg.clone(), 0));
    state.register(session("s2", peer(2, 2), 2, cfg.clone(), 0));
    state.register(session("s1", peer(3, 3), 3, cfg, 0));
    assert_eq!(state.session_count(), 2);
    assert_eq!(state.index_of("s1"), Some(0));
    assert_eq!(state.index_of("s2"), Some(1));
    assert_eq!(state.index_of("s3"), None);
    assert_eq!(state.find_session("s1").unwrap().virtual_ip, 3);
    assert!(state.find_session("nope").is_none());
}

#[test]
fn packets_reach_the_session_with_their_destination() {
    let mut state: ServerState<u8> = ServerState::new();
    let (_, _, cfg) = granted(state.handshake("", None, None));
    state.register(session("a", peer(1, 1), 0x0A00_0001, cfg.clone(), 0));
    state.register(session("b", peer(2, 2), 0x0A00_0002, cfg, 0));
    assert_eq!(state.session_for_packet(&ipv4_to([10, 0, 0, 2])).unwrap().session_id, "b");
    assert!(state.session_for_packet(&ipv4_to([10, 0, 0, 3])).is_none());
    assert!(state.session_for_packet(&[0x45, 0, 0]).is_none());
}

#[test]
fn disconnect_drops_the_peers_session() {
    let mut state: ServerState<u8> = ServerState::new();
    let (_, _, cfg) = granted(state.handshake("", None, None));
    state.register(session("a", peer(1, 1), 1, cfg.clone(), 0));
    state.register(session("b", peer(2, 2), 2, cfg, 0));
    let gone = state.disconnect(peer(1, 1)).unwrap();
    assert_eq!(gone.session_id, "a");
    assert_eq!(state.session_count(), 1);
    assert!(state.disconnect(peer(9, 9)).is_none());
    assert_eq!(state.session_count(), 1);
    assert_eq!(state.index_of("b"), Some(0));
}

#[test]
fn cleanup_drops_sessions_idle_for_an_hour() {
    let mut state: ServerState<u8> = ServerState::new();
    let (_, _, cfg) = granted(state.handshake("", None, None));
    let now = 10 * HOUR_NS;
    state.register(session("old", peer(1, 1), 1, cfg.clone(), now - HOUR_NS));
    state.register(session("fresh", peer(2, 2), 2, cfg.clone(), now - HOUR_NS + 1));
    state.register(session("future", peer(3, 3), 3, cfg.clone(), now + 1));
    state.register(session("now", peer(4, 4), 4, cfg, now));
    assert_eq!(state.cleanup_expired(now), 2);
    assert_eq!(state.session_count(), 2);
    assert_eq!(state.index_of("fresh"), Some(0));
    assert_eq!(state.index_of("now"), Some(1));
    assert_eq!(state.cleanup_expired(now), 0);
}

#[test]
fn client_ids_wrap() {
    let mut state: ServerState<u8> = ServerState::new();
    assert_eq!(state.allocate_client_id(), 1);
    assert_eq!(state.allocate_client_id(), 2);
    let (ip, cfg) = state.new_client_plan();
    assert_eq!(ip, 0x0A00_0003);
    assert_eq!(cfg.name, "tun3");
}

#[test]
fn handshake_replies() {
    match reply_message("tok", &HandshakeReply::Rejected).msg {
        Some(Kind::Handshake(h)) => {
            assert_eq!(h.token, "");
            assert_eq!(h.session_id, "");
            assert!(h.tun_config.is_none());
        }
        other => panic!("unexpected {:?}", other),
    }
    let mut state: ServerState<u8> = ServerState::new();
    let reply = state.handshake("tok", None, Some("tok"));
    let (sid, _, _) = match &reply {
        HandshakeReply::Granted { session_id, virtual_ip, tun_config } => {
            (session_id.clone(), *virtual_ip, tun_config.clone())
        }
        HandshakeReply::Rejected => panic!("rejected"),
    };
    match reply_message("tok", &reply).msg {
        Some(Kind::Handshake(h)) => {
            assert_eq!(h.token, "tok");
            assert_eq!(h.session_id, sid);
            assert_eq!(h.tun_config.unwrap().address, "10.0.0.1");
        }
        other => panic!("unexpected {:?}", other),
    }
}
