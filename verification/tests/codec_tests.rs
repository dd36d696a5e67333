use bytes::BytesMut;
use sase::codec::codec::{DecodeState, HEADER_SIZE, DEFAULT_MAX_FRAME_SIZE};
use sase::codec::message::{Message as TypedMessage, MessageType};
use sase::codec::{ByteCodec, Data, FrameError, Handshake, KeepAlive, Message, MessageType as Kind, TunConfig};

#[test]
fn encode_writes_little_endian_prefix() {
    let mut codec = ByteCodec::new();
    let mut dst = BytesMut::new();
    codec.encode(&[0xAA, 0xBB, 0xCC], &mut dst).unwrap();
    assert_eq!(&dst[..], &[3, 0, 0, 0, 0xAA, 0xBB, 0xCC]);
    codec.encode(&[], &mut dst).unwrap();
    assert_eq!(&dst[..], &[3, 0, 0, 0, 0xAA, 0xBB, 0xCC, 0, 0, 0, 0]);
}

#[test]
fn frame_roundtrip_in_sequence() {
    let mut codec = ByteCodec::new();
    let mut buf = BytesMut::new();
    codec.encode(b"hello", &mut buf).unwrap();
    codec.encode(b"world!", &mut buf).unwrap();
    assert_eq!(codec.decode(&mut buf).unwrap(), Some(b"hello".to_vec()));
    assert_eq!(codec.decode(&mut buf).unwrap(), Some(b"world!".to_vec()));
    assert_eq!(codec.decode(&mut buf).unwrap(), None);
    assert!(buf.is_empty());
}

#[test]
fn decode_waits_for_whole_frame() {
    let mut codec = ByteCodec::new();
    let mut buf = BytesMut::from(&[5u8, 0][..]);
    assert_eq!(codec.decode(&mut buf).unwrap(), None);
    assert_eq!(buf.len(), 2);
    buf.extend_from_slice(&[0, 0, 1, 2]);
    assert_eq!(codec.decode(&mut buf).unwrap(), None);
    assert_eq!(buf.len(), 2);
    buf.extend_from_slice(&[3, 4, 5, 9]);
    assert_eq!(codec.decode(&mut buf).unwrap(), Some(vec![1, 2, 3, 4, 5]));
    assert_eq!(&buf[..], &[9]);
}

#[test]
fn frame_size_limits() {
    let mut codec = ByteCodec::with_max_frame_size(8);
    let mut dst = BytesMut::new();
    assert_eq!(codec.encode(&[1, 2, 3, 4], &mut dst), Ok(()));
    assert_eq!(
        codec.encode(&[1, 2, 3, 4, 5], &mut dst),
        Err(FrameError::FrameTooLarge { size: 9, max: 8 })
    );
    assert_eq!(dst.len(), 8);

    let mut src = BytesMut::from(&[9u8, 0, 0, 0, 1][..]);
    assert_eq!(codec.decode(&mut src), Err(FrameError::DataTooLarge { length: 9, max: 8 }));
    assert_eq!(&src[..], &[1]);
    assert_eq!(
        FrameError::DataTooLarge { length: 9, max: 8 }.to_string(),
        "Data length 9 exceeds maximum 8"
    );
    assert_eq!(
        FrameError::FrameTooLarge { size: 9, max: 8 }.to_string(),
        "Frame size 9 exceeds maximum 8"
    );
}

#[test]
fn codec_defaults() {
    assert_eq!(HEADER_SIZE, 4);
    assert_eq!(DEFAULT_MAX_FRAME_SIZE, 1024 * 1024);
    assert!(matches!(DecodeState::default(), DecodeState::Head));
    let mut codec = ByteCodec::default();
    let mut dst = BytesMut::new();
    let big = vec![0u8; DEFAULT_MAX_FRAME_SIZE - HEADER_SIZE];
    assert!(codec.encode(&big, &mut dst).is_ok());
    assert!(codec.encode(&[0u8; DEFAULT_MAX_FRAME_SIZE - HEADER_SIZE + 1], &mut dst).is_err());
}

#[test]
fn message_constructors() {
    let h = Message::handshake(Handshake { token: "t".to_string(), session_id: String::new(), tun_config: None });
    assert!(matches!(h.msg, Some(Kind::Handshake(ref x)) if x.token == "t"));
    let d = Message::data(Data { payload: vec![1, 2] });
    assert!(matches!(d.msg, Some(Kind::Data(ref x)) if x.payload == vec![1, 2]));
    let k = Message::keepalive(KeepAlive { timestamp: 42 });
    assert!(matches!(k.msg, Some(Kind::Keepalive(KeepAlive { timestamp: 42 }))));
}

#[test]
fn tun_config_clone_keeps_fields() {
    let c = TunConfig {
        name: "tun1".to_string(),
        address: "10.0.0.2".to_string(),
        netmask: "255.255.255.0".to_string(),
        dns: vec!["8.8.8.8".to_string()],
        mtu: 1400,
    };
    let d = c.clone();
    assert_eq!(d.name, c.name);
    assert_eq!(d.dns, c.dns);
    assert_eq!(d.mtu, 1400);
}

#[test]
fn typed_message_numbers() {
    assert_eq!(u8::from(MessageType::Handshake), 1);
    assert_eq!(u8::from(MessageType::Data), 2);
    assert_eq!(u8::from(MessageType::KeepAlive), 3);
    assert_eq!(u8::from(MessageType::Disconnect), 4);
    assert_eq!(MessageType::try_from(3u8), Ok(MessageType::KeepAlive));
    assert_eq!(MessageType::try_from(0u8), Err(()));
    assert_eq!(MessageType::try_from(5u8), Err(()));
    for t in [MessageType::Handshake, MessageType::Data, MessageType::KeepAlive, MessageType::Disconnect] {
        assert_eq!(MessageType::try_from(u8::from(t)), Ok(t));
    }
    let m = TypedMessage::new(MessageType::Disconnect, vec![7]);
    assert_eq!(m.message_type, 4);
    assert_eq!(m.data, vec![7]);
    assert_eq!(TypedMessage::handshake(vec![]).message_type, 1);
    assert_eq!(TypedMessage::data(vec![1]).message_type, 2);
    assert_eq!(TypedMessage::keepalive(vec![2]).message_type, 3);
}

#[test]
fn frame_split_after_prefix() {
    let mut codec = ByteCodec::new();
    let mut whole = BytesMut::new();
    codec.encode(b"abcdef", &mut whole).unwrap();
    let second = whole.split_off(7);
    let mut buf = whole;
    assert_eq!(codec.decode(&mut buf).unwrap(), None);
    assert_eq!(&buf[..], b"abc");
    buf.extend_from_slice(&second);
    assert_eq!(codec.decode(&mut buf).unwrap(), Some(b"abcdef".to_vec()));
    assert!(buf.is_empty());
}
