//! Transport-level logic that does not touch sockets: reading WebSocket
//! URLs and cutting length-prefixed frames out of a TCP read buffer.
use crate::common::{VpnPacket, TUN_MTU};
use crate::endian::{be32, u32_from_be_bytes};
use crate::text::text_eq;
use vstd::prelude::*;

verus! {

/// What the url crate's `Url::parse` gives for a text: the host
/// (`host_str`), the port or the scheme's known default
/// (`port_or_known_default`) and the scheme; or the parse error's text.
pub uninterp spec fn spec_url_parts(s: Seq<char>) -> Result<(Option<Seq<char>>, Option<u16>, Seq<char>), Seq<char>>;

/// The parts of a parsed URL that the client uses.
pub struct UrlParts {
    pub host: Option<String>,
    pub port: Option<u16>,
    pub scheme: String,
}

/// Trusted: url's `Url::parse`, followed by `host_str`,
/// `port_or_known_default` and `scheme` on the result (an error is given by
/// its `Display` text). The result is named: URL syntax is the url crate's.
#[verifier::external_body]
pub(crate) fn url_parts(s: &str) -> (r: Result<UrlParts, String>)
    ensures
        match r {
            Ok(p) => spec_url_parts(s@) matches Ok((h, port, scheme)) && port == p.port && scheme == p.scheme@
                && match p.host {
                    Some(x) => h == Some(x@),
                    None => h is None,
                },
            Err(e) => spec_url_parts(s@) == Err::<(Option<Seq<char>>, Option<u16>, Seq<char>), Seq<char>>(e@),
        },
{
    match url::Url::parse(s) {
        Ok(u) => Ok(UrlParts {
            host: u.host_str().map(|h| h.to_string()),
            port: u.port_or_known_default(),
            scheme: u.scheme().to_string(),
        }),
        Err(e) => Err(e.to_string()),
    }
}

/// Why a WebSocket URL is refused.
#[derive(Debug, Clone)]
pub enum UrlError {
    /// The URL does not parse; the parser's message.
    Parse(String),
    MissingHost,
    MissingPort,
}

/// A WebSocket URL read: host, port (or the scheme's default), and whether
/// the scheme is "wss".
pub fn parse_ws_url(url: &str) -> (r: Result<(String, u16, bool), UrlError>)
    ensures
        match spec_url_parts(url@) {
            Err(e) => r matches Err(UrlError::Parse(m)) && m@ == e,
            Ok((host, port, scheme)) => match (host, port) {
                (None, _) => r matches Err(UrlError::MissingHost),
                (Some(_), None) => r matches Err(UrlError::MissingPort),
                (Some(h), Some(p)) => r matches Ok((rh, rp, tls)) && rh@ == h && rp == p
                    && tls == (scheme == "wss"@),
            },
        },
{
    let parts = match url_parts(url) {
        Ok(p) => p,
        Err(e) => {
            return Err(UrlError::Parse(e));
        },
    };
    let host = match parts.host {
        Some(h) => h,
        None => {
            return Err(UrlError::MissingHost);
        },
    };
    let port = match parts.port {
        Some(p) => p,
        None => {
            return Err(UrlError::MissingPort);
        },
    };
    let use_tls = text_eq(parts.scheme.as_str(), "wss");
    Ok((host, port, use_tls))
}

/// The largest frame body a TCP read buffer may announce: one tunnel packet
/// and a header.
pub const MAX_TCP_MESSAGE: usize = TUN_MTU + VpnPacket::HEADER_SIZE;

/// Cutting the next frame (a four-byte big-endian length, then the body) out
/// of a read buffer: the buffer left and the outcome (`Err` carries an
/// announced length above the limit, and leaves the buffer as it was).
pub open spec fn spec_read_frame(buf: Seq<u8>) -> (Seq<u8>, Result<Option<Seq<u8>>, usize>) {
    if buf.len() < 4 {
        (buf, Ok(None))
    } else {
        let len = be32([buf[0], buf[1], buf[2], buf[3]]) as usize;
        if len > MAX_TCP_MESSAGE {
            (buf, Err(len))
        } else if buf.len() < 4 + len {
            (buf, Ok(None))
        } else {
            (buf.skip(4 + len), Ok(Some(buf.subrange(4, 4 + len))))
        }
    }
}

/// Takes the next complete frame's body out of the read buffer, if it holds one.
pub fn try_read_from_buffer(buffer: &mut Vec<u8>) -> (r: Result<Option<Vec<u8>>, usize>)
    ensures
        ({
            let (rest, outcome) = spec_read_frame(old(buffer)@);
            &&& final(buffer)@ == rest
            &&& match outcome {
                Ok(None) => r == Ok::<Option<Vec<u8>>, usize>(None),
                Ok(Some(body)) => r matches Ok(Some(v)) && v@ == body,
                Err(len) => r == Err::<Option<Vec<u8>>, usize>(len),
            }
        }),
{
    if buffer.len() < 4 {
        return Ok(None);
    }
    let msg_len = u32_from_be_bytes([buffer[0], buffer[1], buffer[2], buffer[3]]) as usize;
    if msg_len > MAX_TCP_MESSAGE {
        return Err(msg_len);
    }
    if buffer.len() < 4 + msg_len {
        return Ok(None);
    }
    let ghost old_buf = buffer@;
    let rest = buffer.split_off(4 + msg_len);
    let message = buffer.split_off(4);
    *buffer = rest;
    assert(message@ =~= old_buf.subrange(4, 4 + msg_len as int));
    assert(buffer@ =~= old_buf.skip(4 + msg_len as int));
    Ok(Some(message))
}

/// Copies as much of a message as fits into the caller's buffer.
pub fn copy_to_buffer(message: &[u8], buf: &mut [u8]) -> (r: usize)
    ensures
        r == if message@.len() < old(buf)@.len() { message@.len() } else { old(buf)@.len() },
        final(buf)@.len() == old(buf)@.len(),
        final(buf)@.take(r as int) == message@.take(r as int),
        final(buf)@.skip(r as int) == old(buf)@.skip(r as int),
{
    let len = if message.len() < buf.len() { message.len() } else { buf.len() };
    let mut i: usize = 0;
    while i < len
        invariant
            len <= message@.len(),
            len <= buf@.len(),
            buf@.len() == old(buf)@.len(),
            i <= len,
            forall|k: int| 0 <= k < i ==> buf@[k] == message@[k],
            forall|k: int| i <= k < buf@.len() ==> buf@[k] == old(buf)@[k],
        decreases len - i,
    {
        buf[i] = message[i];
        i = i + 1;
    }
    assert(buf@.take(len as int) =~= message@.take(len as int));
    assert(buf@.skip(len as int) =~= old(buf)@.skip(len as int));
    len
}

} // verus!
