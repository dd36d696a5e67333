//! The client's decisions: which transport to use, reading the server's
//! handshake answer, what each received message asks for, keep-alives and
//! the reconnection back-off.
use crate::codec::message::{spec_type_from_number, Message, MessageType};
use crate::endian::{be32, be64, be64_bytes, lemma_be64_roundtrip, u32_from_be_bytes, u64_from_be_bytes, u64_to_be_bytes};
use crate::peer::PeerAddr;
use crate::text::{spec_to_lowercase, text_eq, to_lowercase};
use vstd::prelude::*;

verus! {

/// The transports a client or server can use.
#[derive(Debug, Clone, Copy, PartialEq, Eq, Structural)]
pub enum TransportKind {
    Tcp,
    Udp,
    Ws,
    Wss,
}

/// The transport a lower-case name denotes.
pub open spec fn spec_transport_from_lower(s: Seq<char>) -> Option<TransportKind> {
    if s == "tcp"@ {
        Some(TransportKind::Tcp)
    } else if s == "udp"@ {
        Some(TransportKind::Udp)
    } else if s == "ws"@ {
        Some(TransportKind::Ws)
    } else if s == "wss"@ {
        Some(TransportKind::Wss)
    } else {
        None
    }
}

impl TransportKind {
    /// Reads "tcp", "udp", "ws" or "wss", in any case.
    pub fn parse(s: &str) -> (r: Option<Self>)
        ensures
            r == spec_transport_from_lower(spec_to_lowercase(s@)),
    {
        let lower = to_lowercase(s);
        let l = lower.as_str();
        if text_eq(l, "tcp") {
            Some(TransportKind::Tcp)
        } else if text_eq(l, "udp") {
            Some(TransportKind::Udp)
        } else if text_eq(l, "ws") {
            Some(TransportKind::Ws)
        } else if text_eq(l, "wss") {
            Some(TransportKind::Wss)
        } else {
            None
        }
    }
}

/// Why the server's handshake answer is refused.
#[derive(Debug, Clone, Copy, PartialEq, Eq, Structural)]
pub enum HandshakeError {
    /// It came from another address than the server's.
    UnexpectedAddress,
    /// It is no handshake; the message's type number.
    UnexpectedType(u8),
    /// It carries fewer than 4 bytes.
    TooShort,
}

/// The server's handshake answer read: the client id in the first four
/// bytes (most significant first) and the tunnel plan's bytes after them.
pub open spec fn spec_handshake_reply(msg: Message, src: PeerAddr, server: PeerAddr) -> Result<(u32, Seq<u8>), HandshakeError> {
    if src != server {
        Err(HandshakeError::UnexpectedAddress)
    } else if spec_type_from_number(msg.message_type) != Some(MessageType::Handshake) {
        Err(HandshakeError::UnexpectedType(msg.message_type))
    } else if msg.data@.len() < 4 {
        Err(HandshakeError::TooShort)
    } else {
        let d = msg.data@;
        Ok((be32([d[0], d[1], d[2], d[3]]), d.skip(4)))
    }
}

/// Reads the server's answer to the client's handshake.
pub fn parse_handshake_reply(msg: &Message, src: PeerAddr, server: PeerAddr) -> (r: Result<(u32, Vec<u8>), HandshakeError>)
    ensures
        match spec_handshake_reply(*msg, src, server) {
            Ok((id, rest)) => r matches Ok((i, v)) && i == id && v@ == rest,
            Err(e) => r == Err::<(u32, Vec<u8>), HandshakeError>(e),
        },
{
    if src != server {
        return Err(HandshakeError::UnexpectedAddress);
    }
    match MessageType::try_from(msg.message_type) {
        Ok(MessageType::Handshake) => {},
        _ => {
            return Err(HandshakeError::UnexpectedType(msg.message_type));
        },
    }
    let d = &msg.data;
    if d.len() < 4 {
        return Err(HandshakeError::TooShort);
    }
    let client_id = u32_from_be_bytes([d[0], d[1], d[2], d[3]]);
    let mut rest: Vec<u8> = Vec::new();
    let n = d.len();
    let mut i: usize = 4;
    while i < n
        invariant
            n == d@.len(),
            4 <= i <= n,
            rest@ == d@.subrange(4, i as int),
        decreases n - i,
    {
        rest.push(d[i]);
        assert(d@.subrange(4, i + 1) =~= d@.subrange(4, i as int).push(d@[i as int]));
        i = i + 1;
    }
    assert(d@.skip(4) =~= d@.subrange(4, n as int));
    Ok((client_id, rest))
}

/// What the client does with a received message.
#[derive(Debug, Clone)]
pub enum ClientAction {
    /// It came from another address than the server's.
    Ignore,
    /// Hand the payload to the tunnel device.
    ToTun(Vec<u8>),
    /// A keep-alive; the server's clock in milliseconds when it carries one.
    KeepAlive(Option<u64>),
    /// The server disconnected: stop.
    Stop,
    /// Any other message; its type number.
    Unknown(u8),
}

pub open spec fn spec_client_action(msg: Message, src: PeerAddr, server: PeerAddr) -> ClientAction {
    if src != server {
        ClientAction::Ignore
    } else {
        match spec_type_from_number(msg.message_type) {
            Some(MessageType::Data) => ClientAction::ToTun(msg.data),
            Some(MessageType::KeepAlive) => ClientAction::KeepAlive(
                if msg.data@.len() >= 8 { Some(be64(msg.data@.take(8))) } else { None },
            ),
            Some(MessageType::Disconnect) => ClientAction::Stop,
            _ => ClientAction::Unknown(msg.message_type),
        }
    }
}

/// What a received message asks of the client.
pub fn client_action(msg: Message, src: PeerAddr, server: PeerAddr) -> (r: ClientAction)
    ensures
        r == spec_client_action(msg, src, server),
{
    if src != server {
        return ClientAction::Ignore;
    }
    match MessageType::try_from(msg.message_type) {
        Ok(MessageType::Data) => ClientAction::ToTun(msg.data),
        Ok(MessageType::KeepAlive) => {
            let d = &msg.data;
            if d.len() >= 8 {
                let sent = u64_from_be_bytes([d[0], d[1], d[2], d[3], d[4], d[5], d[6], d[7]]);
                proof {
                    let b: [u8; 8] = [d[0], d[1], d[2], d[3], d[4], d[5], d[6], d[7]];
                    assert(b@ =~= d@.take(8));
                }
                ClientAction::KeepAlive(Some(sent))
            } else {
                ClientAction::KeepAlive(None)
            }
        },
        Ok(MessageType::Disconnect) => ClientAction::Stop,
        _ => ClientAction::Unknown(msg.message_type),
    }
}

/// The round-trip time of a keep-alive sent at `sent` and answered at `now`
/// (milliseconds). A clock that went backwards is left out.
pub fn keepalive_latency(sent: u64, now: u64) -> (r: u64)
    requires
        sent <= now,
    ensures
        r == now - sent,
{
    now - sent
}

/// The keep-alive a client sends: its clock in milliseconds, as eight bytes
/// most significant first.
pub fn keepalive_message(now_ms: u64) -> (r: Message)
    ensures
        r.message_type == 3,
        r.data@ == be64_bytes(now_ms),
{
    let b = u64_to_be_bytes(now_ms);
    let mut data: Vec<u8> = Vec::new();
    data.extend_from_slice(&b);
    Message::keepalive(data)
}

/// A keep-alive as the client sends it, when it comes back from the server,
/// is read as the clock value it carried.
pub proof fn lemma_keepalive_roundtrip(now_ms: u64, msg: Message, server: PeerAddr)
    requires
        msg.message_type == 3,
        msg.data@ == be64_bytes(now_ms),
    ensures
        spec_client_action(msg, server, server) == ClientAction::KeepAlive(Some(now_ms)),
{
    lemma_be64_roundtrip(now_ms);
    assert(msg.data@.take(8) =~= be64_bytes(now_ms));
}

/// The longest wait between reconnection attempts, in seconds.
pub const MAX_RETRY_DELAY_SECS: u64 = 300;

/// The wait before the next reconnection attempt: double the last, at most
/// five minutes.
pub fn next_retry_delay(delay_secs: u64) -> (r: u64)
    requires
        delay_secs <= u64::MAX / 2,
    ensures
        r == if delay_secs * 2 <= MAX_RETRY_DELAY_SECS { delay_secs * 2 } else { MAX_RETRY_DELAY_SECS as int },
{
    let doubled = delay_secs * 2;
    if doubled <= MAX_RETRY_DELAY_SECS {
        doubled
    } else {
        MAX_RETRY_DELAY_SECS
    }
}

/// Starting from one second, the waits grow and never exceed five minutes.
pub proof fn lemma_retry_delay_bounded(delay_secs: u64)
    requires
        1 <= delay_secs <= MAX_RETRY_DELAY_SECS,
    ensures
        ({
            let next = if delay_secs * 2 <= MAX_RETRY_DELAY_SECS { delay_secs * 2 } else { MAX_RETRY_DELAY_SECS as int };
            delay_secs <= next <= MAX_RETRY_DELAY_SECS
        }),
{
}

} // verus!
