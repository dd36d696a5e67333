use sase::client::{
    client_action, keepalive_latency, keepalive_message, next_retry_delay, parse_handshake_reply, ClientAction,
    HandshakeError, TransportKind, MAX_RETRY_DELAY_SECS,
};
use sase::codec::message::{Message, MessageType};
use sase::common::{ArgError, ClientConfig, ServerConfig, TUN_MTU};
use sase::peer::PeerAddr;
use sase::transport::{copy_to_buffer, parse_ws_url, try_read_from_buffer, UrlError, MAX_TCP_MESSAGE};

const SERVER: PeerAddr = PeerAddr::V4 { ip: 0x7F00_0001, port: 12345 };
const OTHER: PeerAddr = PeerAddr::V4 { ip: 0x7F00_0001, port: 12346 };

#[test]
fn transport_names() {
    assert_eq!(TransportKind::parse("tcp"), Some(TransportKind::Tcp));
    assert_eq!(TransportKind::parse("UDP"), Some(TransportKind::Udp));
    assert_eq!(TransportKind::parse("Ws"), Some(TransportKind::Ws));
    assert_eq!(TransportKind::parse("wss"), Some(TransportKind::Wss));
    assert_eq!(TransportKind::parse("quic"), None);
}

#[test]
fn handshake_reply_is_read() {
    let reply = Message::handshake(vec![0, 0, 1, 2, 9, 8]);
    assert_eq!(parse_handshake_reply(&reply, SERVER, SERVER), Ok((258, vec![9, 8])));
    assert_eq!(parse_handshake_reply(&Message::handshake(vec![0, 0, 0, 7]), SERVER, SERVER), Ok((7, vec![])));
    assert_eq!(parse_handshake_reply(&reply, OTHER, SERVER), Err(HandshakeError::UnexpectedAddress));
    assert_eq!(
        parse_handshake_reply(&Message::data(vec![0, 0, 0, 1]), SERVER, SERVER),
        Err(HandshakeError::UnexpectedType(2))
    );
    assert_eq!(
        parse_handshake_reply(&Message { message_type: 9, data: vec![] }, SERVER, SERVER),
        Err(HandshakeError::UnexpectedType(9))
    );
    assert_eq!(parse_handshake_reply(&Message::handshake(vec![1, 2, 3]), SERVER, SERVER), Err(HandshakeError::TooShort));
}

#[test]
fn received_messages_become_actions() {
    assert!(matches!(client_action(Message::data(vec![1]), OTHER, SERVER), ClientAction::Ignore));
    match client_action(Message::data(vec![4, 5]), SERVER, SERVER) {
        ClientAction::ToTun(p) => assert_eq!(p, vec![4, 5]),
        other => panic!("unexpected {:?}", other),
    }
    match client_action(Message::keepalive(vec![0, 0, 0, 0, 0, 0, 1, 0, 77]), SERVER, SERVER) {
        ClientAction::KeepAlive(t) => assert_eq!(t, Some(256)),
        other => panic!("unexpected {:?}", other),
    }
    match client_action(Message::keepalive(vec![1, 2]), SERVER, SERVER) {
        ClientAction::KeepAlive(t) => assert_eq!(t, None),
        other => panic!("unexpected {:?}", other),
    }
    assert!(matches!(
        client_action(Message::new(MessageType::Disconnect, vec![]), SERVER, SERVER),
        ClientAction::Stop
    ));
    assert!(matches!(client_action(Message::handshake(vec![]), SERVER, SERVER), ClientAction::Unknown(1)));
    assert!(matches!(client_action(Message { message_type: 0, data: vec![] }, SERVER, SERVER), ClientAction::Unknown(0)));
}

#[test]
fn keepalives() {
    let m = keepalive_message(0x0102_0304_0506_0708);
    assert_eq!(m.message_type, 3);
    assert_eq!(m.data, vec![1, 2, 3, 4, 5, 6, 7, 8]);
    match client_action(m, SERVER, SERVER) {
        ClientAction::KeepAlive(t) => assert_eq!(t, Some(0x0102_0304_0506_0708)),
        other => panic!("unexpected {:?}", other),
    }
    assert_eq!(keepalive_latency(1000, 1250), 250);
    assert_eq!(keepalive_latency(5, 5), 0);
}

#[test]
fn retry_delay_doubles_up_to_five_minutes() {
    assert_eq!(next_retry_delay(1), 2);
    assert_eq!(next_retry_delay(150), 300);
    assert_eq!(next_retry_delay(151), MAX_RETRY_DELAY_SECS);
    assert_eq!(next_retry_delay(300), 300);
    let mut d = 1;
    for _ in 0..20 {
        let next = next_retry_delay(d);
        assert!(next >= d && next <= MAX_RETRY_DELAY_SECS);
        d = next;
    }
    assert_eq!(d, 300);
}

#[test]
fn websocket_urls() {
    assert_eq!(parse_ws_url("ws://example.com:8080/tunnel").unwrap(), ("example.com".to_string(), 8080, false));
    assert_eq!(parse_ws_url("wss://example.com/tunnel").unwrap(), ("example.com".to_string(), 443, true));
    assert_eq!(parse_ws_url("ws://10.0.0.1").unwrap(), ("10.0.0.1".to_string(), 80, false));
    assert!(matches!(parse_ws_url("not a url"), Err(UrlError::Parse(_))));
    assert!(matches!(parse_ws_url("unix:/run/sock"), Err(UrlError::MissingHost)));
    assert!(matches!(parse_ws_url("foo://host"), Err(UrlError::MissingPort)));
}

#[test]
fn read_buffer_frames() {
    let mut buf = vec![0, 0, 0, 3, 7, 8, 9, 0, 0];
    assert_eq!(try_read_from_buffer(&mut buf), Ok(Some(vec![7, 8, 9])));
    assert_eq!(buf, vec![0, 0]);
    assert_eq!(try_read_from_buffer(&mut buf), Ok(None));
    buf.extend_from_slice(&[0, 2, 1]);
    assert_eq!(try_read_from_buffer(&mut buf), Ok(None));
    assert_eq!(buf, vec![0, 0, 0, 2, 1]);
    buf.push(2);
    assert_eq!(try_read_from_buffer(&mut buf), Ok(Some(vec![1, 2])));
    assert!(buf.is_empty());

    let too_long = (MAX_TCP_MESSAGE as u32 + 1).to_be_bytes().to_vec();
    let mut big = too_long.clone();
    assert_eq!(try_read_from_buffer(&mut big), Err(MAX_TCP_MESSAGE + 1));
    assert_eq!(big, too_long);
    assert_eq!(MAX_TCP_MESSAGE, TUN_MTU + 15);
}

#[test]
fn copy_truncates_to_the_buffer() {
    let mut buf = [0u8; 4];
    assert_eq!(copy_to_buffer(&[1, 2], &mut buf), 2);
    assert_eq!(buf, [1, 2, 0, 0]);
    assert_eq!(copy_to_buffer(&[5, 6, 7, 8, 9], &mut buf), 4);
    assert_eq!(buf, [5, 6, 7, 8]);
}

#[test]
fn client_config_defaults_and_arguments() {
    let c = ClientConfig::default();
    assert_eq!(c.transport_type, "tcp");
    assert_eq!(c.server_addr, "127.0.0.1:12345");
    assert_eq!(c.ca_cert_path, "certs/ca-cert.pem");
    assert!(c.session_id.is_empty() && c.token.is_empty() && c.rules_path.is_none());
    let c = c.with_args(Some("wss".to_string()), None, Some("ca.pem".to_string()), None, None);
    assert_eq!(c.transport_type, "wss");
    assert_eq!(c.server_addr, "127.0.0.1:12345");
    assert_eq!(c.ca_cert_path, "ca.pem");
    assert!(c.token.is_empty());
    let c = c.with_args(None, Some("10.1.1.1:9".to_string()), None, Some("tok".to_string()), Some("r.toml".to_string()));
    assert_eq!(c.transport_type, "wss");
    assert_eq!(c.server_addr, "10.1.1.1:9");
    assert_eq!(c.token, "tok");
    assert_eq!(c.rules_path, Some("r.toml".to_string()));
}

#[test]
fn server_config_defaults_and_arguments() {
    let s = ServerConfig::default();
    assert_eq!(s.transport_type, "tcp");
    assert_eq!(s.bind_addr, "0.0.0.0:12345");
    assert_eq!(s.tun_name, "tun0");
    assert_eq!(s.tun_addr, 0x0A00_0001);
    assert_eq!(s.tun_netmask, 0xFFFF_FF00);
    assert_eq!(s.mtu, 1500);
    let t = s
        .clone()
        .with_args(
            Some("tcp".to_string()),
            None,
            Some("tun9".to_string()),
            Some("10.8.0.1".to_string()),
            Some("255.255.0.0".to_string()),
            Some(1400),
            None,
            None,
            Some("secret".to_string()),
            Some("rules.toml".to_string()),
        )
        .unwrap();
    assert_eq!(t.transport_type, "tcp");
    assert_eq!(t.tun_name, "tun9");
    assert_eq!(t.tun_addr, 0x0A08_0001);
    assert_eq!(t.tun_netmask, 0xFFFF_0000);
    assert_eq!(t.mtu, 1400);
    assert_eq!(t.token, "secret");
    assert_eq!(t.rules_path, Some("rules.toml".to_string()));
    assert_eq!(t.cert_path, "certs/server-cert.pem");
    let bad = s.clone().with_args(None, None, None, Some("10.0.0".to_string()), None, None, None, None, None, None);
    assert!(matches!(bad, Err(ArgError::InvalidAddress(ref a)) if a == "10.0.0"));
    let bad = s.with_args(None, None, None, None, Some("mask".to_string()), None, None, None, None, None);
    assert!(matches!(bad, Err(ArgError::InvalidNetmask(ref m)) if m == "mask"));
}
