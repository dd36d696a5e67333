//! Length-prefixed framing of protocol messages, and the protocol's messages.
//!
//! A frame is the body's length as four little-endian bytes, then the body
//! (the message's protobuf encoding, produced and read outside the library).
use super::buffer::{
    buffer_contents, buffer_extend_from_slice, buffer_get_u32_le, buffer_len, buffer_put_u32_le,
    buffer_reserve, buffer_split_to_vec,
};
use crate::endian::{le32, le32_bytes, lemma_le32_roundtrip};
use crate::text::{decimal, usize_to_text};
use bytes::BytesMut;
use vstd::prelude::*;

verus! {

/// Size of the length prefix.
pub const HEADER_SIZE: usize = 4;

/// The largest frame accepted unless another limit is chosen (1 MiB).
pub const DEFAULT_MAX_FRAME_SIZE: usize = 1048576;

/// Where the decoder is within the current frame.
#[derive(Debug, Clone, Copy, PartialEq, Eq, Structural)]
pub enum DecodeState {
    /// Waiting for a length prefix.
    Head,
    /// The prefix has been read; waiting for `data_len` body bytes.
    Body { data_len: usize },
}

impl Default for DecodeState {
    fn default() -> (r: Self)
        ensures
            r == DecodeState::Head,
    {
        DecodeState::Head
    }
}

/// Why a frame is refused.
#[derive(Debug, Clone, Copy, PartialEq, Eq, Structural)]
pub enum FrameError {
    /// Encoding: prefix and body together exceed the limit.
    FrameTooLarge { size: usize, max: usize },
    /// Decoding: the announced body length exceeds the limit.
    DataTooLarge { length: usize, max: usize },
}

impl FrameError {
    pub open spec fn spec_text(self) -> Seq<char> {
        match self {
            FrameError::FrameTooLarge { size, max } => "Frame size "@ + decimal(size as nat)
                + " exceeds maximum "@ + decimal(max as nat),
            FrameError::DataTooLarge { length, max } => "Data length "@ + decimal(length as nat)
                + " exceeds maximum "@ + decimal(max as nat),
        }
    }

    /// The error's message.
    pub fn to_string(&self) -> (s: String)
        ensures
            s@ == self.spec_text(),
    {
        let (mut s, a, b) = match self {
            FrameError::FrameTooLarge { size, max } => ("Frame size ".to_string(), *size, *max),
            FrameError::DataTooLarge { length, max } => ("Data length ".to_string(), *length, *max),
        };
        let a_text = usize_to_text(a);
        s.append(a_text.as_str());
        s.append(" exceeds maximum ");
        let b_text = usize_to_text(b);
        s.append(b_text.as_str());
        s
    }
}

/// The bytes of one frame.
pub open spec fn frame_bytes(body: Seq<u8>) -> Seq<u8> {
    le32_bytes(body.len() as u32) + body
}

/// What one decoding step yields.
pub enum DecodeOutcome {
    /// More bytes are needed.
    Pending,
    /// A complete body.
    Frame(Seq<u8>),
    /// A prefix announcing more than the limit.
    TooLarge(usize),
}

/// Reading a body of `len` bytes from `buf`.
pub open spec fn decode_body(len: usize, buf: Seq<u8>) -> (DecodeState, Seq<u8>, DecodeOutcome) {
    if buf.len() < len {
        (DecodeState::Body { data_len: len }, buf, DecodeOutcome::Pending)
    } else {
        (DecodeState::Head, buf.skip(len as int), DecodeOutcome::Frame(buf.take(len as int)))
    }
}

/// One decoding step: the next state, the bytes left, and the outcome. A
/// length prefix above the limit is consumed and reported, the state staying
/// `Head`.
pub open spec fn decode_step(state: DecodeState, max: usize, buf: Seq<u8>) -> (DecodeState, Seq<u8>, DecodeOutcome) {
    match state {
        DecodeState::Head => if buf.len() < HEADER_SIZE {
            (DecodeState::Head, buf, DecodeOutcome::Pending)
        } else {
            let len = le32(buf.take(4)) as usize;
            if len > max {
                (DecodeState::Head, buf.skip(4), DecodeOutcome::TooLarge(len))
            } else {
                decode_body(len, buf.skip(4))
            }
        },
        DecodeState::Body { data_len } => decode_body(data_len, buf),
    }
}

/// Frames messages on a byte stream, with a limit on frame size.
#[derive(Debug)]
pub struct ByteCodec {
    state: DecodeState,
    max_frame_size: usize,
}

impl Default for ByteCodec {
    fn default() -> (r: Self)
        ensures
            r.spec_state() == DecodeState::Head,
            r.spec_max_frame_size() == DEFAULT_MAX_FRAME_SIZE,
    {
        ByteCodec { state: DecodeState::Head, max_frame_size: DEFAULT_MAX_FRAME_SIZE }
    }
}

impl ByteCodec {
    pub closed spec fn spec_state(&self) -> DecodeState {
        self.state
    }

    pub closed spec fn spec_max_frame_size(&self) -> usize {
        self.max_frame_size
    }

    /// A codec with the default limit.
    pub fn new() -> (r: Self)
        ensures
            r.spec_state() == DecodeState::Head,
            r.spec_max_frame_size() == DEFAULT_MAX_FRAME_SIZE,
    {
        Self::default()
    }

    /// A codec with the given limit.
    pub fn with_max_frame_size(max_frame_size: usize) -> (r: Self)
        ensures
            r.spec_state() == DecodeState::Head,
            r.spec_max_frame_size() == max_frame_size,
    {
        ByteCodec { state: DecodeState::Head, max_frame_size }
    }

    /// Appends the frame of `body` to `dst`, unless prefix and body together
    /// exceed the limit.
    pub fn encode(&mut self, body: &[u8], dst: &mut BytesMut) -> (r: Result<(), FrameError>)
        requires
            buffer_contents(*old(dst)).len() + HEADER_SIZE + body@.len() <= isize::MAX,
        ensures
            *final(self) == *old(self),
            r is Ok <==> HEADER_SIZE + body@.len() <= old(self).spec_max_frame_size(),
            r is Ok ==> buffer_contents(*final(dst)) == buffer_contents(*old(dst)) + frame_bytes(body@),
            r matches Err(e) ==> e == (FrameError::FrameTooLarge {
                size: (HEADER_SIZE + body@.len()) as usize,
                max: old(self).spec_max_frame_size(),
            }) && buffer_contents(*final(dst)) == buffer_contents(*old(dst)),
    {
        let required = HEADER_SIZE + body.len();
        if required > self.max_frame_size {
            return Err(FrameError::FrameTooLarge { size: required, max: self.max_frame_size });
        }
        buffer_reserve(dst, required);
        buffer_put_u32_le(dst, body.len() as u32);
        buffer_extend_from_slice(dst, body);
        Ok(())
    }

    /// Takes the next complete frame's body from `src`, if there is one.
    pub fn decode(&mut self, src: &mut BytesMut) -> (r: Result<Option<Vec<u8>>, FrameError>)
        ensures
            final(self).spec_max_frame_size() == old(self).spec_max_frame_size(),
            ({
                let (state, rest, outcome) = decode_step(
                    old(self).spec_state(),
                    old(self).spec_max_frame_size(),
                    buffer_contents(*old(src)),
                );
                &&& final(self).spec_state() == state
                &&& buffer_contents(*final(src)) == rest
                &&& match outcome {
                    DecodeOutcome::Pending => r == Ok::<Option<Vec<u8>>, FrameError>(None),
                    DecodeOutcome::Frame(body) => r matches Ok(Some(v)) && v@ == body,
                    DecodeOutcome::TooLarge(len) => r == Err::<Option<Vec<u8>>, FrameError>(
                        FrameError::DataTooLarge { length: len, max: old(self).spec_max_frame_size() },
                    ),
                }
            }),
        decreases
            match old(self).spec_state() {
                DecodeState::Head => 1int,
                DecodeState::Body { .. } => 0int,
            },
    {
        match self.state {
            DecodeState::Head => {
                if buffer_len(src) < HEADER_SIZE {
                    return Ok(None);
                }
                let data_len = buffer_get_u32_le(src) as usize;
                if data_len > self.max_frame_size {
                    return Err(FrameError::DataTooLarge { length: data_len, max: self.max_frame_size });
                }
                self.state = DecodeState::Body { data_len };
                self.decode(src)
            },
            DecodeState::Body { data_len } => {
                if buffer_len(src) < data_len {
                    return Ok(None);
                }
                let data = buffer_split_to_vec(src, data_len);
                self.state = DecodeState::Head;
                Ok(Some(data))
            },
        }
    }
}

/// Decoding what encoding wrote gives back the body, and leaves whatever
/// followed the frame, for a decoder waiting for a frame and a body that the
/// limit admits and whose length fits the four-byte prefix.
pub proof fn lemma_frame_roundtrip(max: usize, body: Seq<u8>, rest: Seq<u8>)
    requires
        HEADER_SIZE + body.len() <= max,
        body.len() <= u32::MAX,
    ensures
        decode_step(DecodeState::Head, max, frame_bytes(body) + rest) == (
            DecodeState::Head,
            rest,
            DecodeOutcome::Frame(body),
        ),
{
    let buf = frame_bytes(body) + rest;
    lemma_le32_roundtrip(body.len() as u32);
    assert(buf.take(4) =~= le32_bytes(body.len() as u32));
    assert(buf.skip(4) =~= body + rest);
    assert((body + rest).take(body.len() as int) =~= body);
    assert((body + rest).skip(body.len() as int) =~= rest);
}

/// Frames that follow one another decode one after the other: decoding a
/// frame followed by more bytes leaves exactly those bytes, ready for the next.
pub proof fn lemma_frames_in_sequence(max: usize, first: Seq<u8>, second: Seq<u8>)
    requires
        HEADER_SIZE + first.len() <= max,
        HEADER_SIZE + second.len() <= max,
        first.len() <= u32::MAX,
        second.len() <= u32::MAX,
    ensures
        decode_step(DecodeState::Head, max, frame_bytes(first) + frame_bytes(second)).1 == frame_bytes(second),
        decode_step(DecodeState::Head, max, frame_bytes(second)) == (
            DecodeState::Head,
            Seq::<u8>::empty(),
            DecodeOutcome::Frame(second),
        ),
{
    lemma_frame_roundtrip(max, first, frame_bytes(second));
    lemma_frame_roundtrip(max, second, Seq::<u8>::empty());
    assert(frame_bytes(second) + Seq::<u8>::empty() =~= frame_bytes(second));
}

/// A frame that arrives in two pieces, split anywhere, is decoded once the
/// second piece is there: the first step waits (remembering the body's
/// length once the prefix is complete), the second gives the body and
/// leaves nothing behind.
pub proof fn lemma_frame_in_two_pieces(max: usize, body: Seq<u8>, k: int)
    requires
        HEADER_SIZE + body.len() <= max,
        body.len() <= u32::MAX,
        0 <= k < frame_bytes(body).len(),
    ensures
        ({
            let f = frame_bytes(body);
            let (state, rest, outcome) = decode_step(DecodeState::Head, max, f.take(k));
            &&& outcome == DecodeOutcome::Pending
            &&& k < HEADER_SIZE ==> state == DecodeState::Head
            &&& k >= HEADER_SIZE ==> state == (DecodeState::Body { data_len: body.len() as usize })
            &&& decode_step(state, max, rest + f.skip(k)) == (
                DecodeState::Head,
                Seq::<u8>::empty(),
                DecodeOutcome::Frame(body),
            )
        }),
{
    let f = frame_bytes(body);
    let first = f.take(k);
    if k < HEADER_SIZE {
        assert(first + f.skip(k) =~= f);
        lemma_frame_roundtrip(max, body, Seq::<u8>::empty());
        assert(f + Seq::<u8>::empty() =~= f);
    } else {
        lemma_le32_roundtrip(body.len() as u32);
        assert(first.take(4) =~= le32_bytes(body.len() as u32));
        assert(first.skip(4) + f.skip(k) =~= body);
        assert(body.take(body.len() as int) =~= body);
        assert(body.skip(body.len() as int) =~= Seq::<u8>::empty());
    }
}

/// A decoder waiting for a frame refuses it exactly when its length prefix
/// announces more than the limit, and reports the announced length.
pub proof fn lemma_decode_limit(max: usize, buf: Seq<u8>)
    ensures
        decode_step(DecodeState::Head, max, buf).2 is TooLarge <==> (buf.len() >= HEADER_SIZE
            && le32(buf.take(4)) as usize > max),
        decode_step(DecodeState::Head, max, buf).2 matches DecodeOutcome::TooLarge(n) ==> n == le32(buf.take(4)) as usize,
{
}

/// The address plan the server hands a client in its handshake reply.
#[derive(Debug)]
pub struct TunConfig {
    pub name: String,
    pub address: String,
    pub netmask: String,
    pub dns: Vec<String>,
    pub mtu: u32,
}

impl TunConfig {
    /// Equal field by field (the lists of resolvers by their entries).
    pub open spec fn same_as(&self, other: &TunConfig) -> bool {
        &&& self.name == other.name
        &&& self.address == other.address
        &&& self.netmask == other.netmask
        &&& self.dns@ == other.dns@
        &&& self.mtu == other.mtu
    }
}

impl Clone for TunConfig {
    fn clone(&self) -> (r: Self)
        ensures
            r.same_as(self),
    {
        let dns = self.dns.clone();
        proof {
            assert forall|i: int| 0 <= i < self.dns@.len() implies dns@[i] == self.dns@[i] by {
                assert(vstd::pervasive::cloned(self.dns[i], dns[i]));
            }
            assert(self.dns@ =~= dns@);
        }
        TunConfig {
            name: self.name.clone(),
            address: self.address.clone(),
            netmask: self.netmask.clone(),
            dns,
            mtu: self.mtu,
        }
    }
}

/// A client's request to join, or the server's reply.
#[derive(Debug, Clone)]
pub struct Handshake {
    pub token: String,
    pub session_id: String,
    pub tun_config: Option<TunConfig>,
}

/// A tunnelled IP packet.
#[derive(Debug, Clone)]
pub struct Data {
    pub payload: Vec<u8>,
}

/// A liveness probe carrying the sender's clock in milliseconds.
#[derive(Debug, Clone, Copy, PartialEq, Eq, Structural)]
pub struct KeepAlive {
    pub timestamp: i64,
}

/// Notice that the peer leaves.
#[derive(Debug, Clone)]
pub struct Disconnect {
    pub reason: String,
}

/// The kinds of message.
#[derive(Debug, Clone)]
pub enum Msg {
    Handshake(Handshake),
    Data(Data),
    Keepalive(KeepAlive),
    Disconnect(Disconnect),
}

/// One protocol message; `msg` is `None` for a message of unknown kind.
#[derive(Debug, Clone)]
pub struct Message {
    pub msg: Option<Msg>,
}

impl Message {
    pub fn handshake(handshake: Handshake) -> (r: Self)
        ensures
            r.msg == Some(Msg::Handshake(handshake)),
    {
        Message { msg: Some(Msg::Handshake(handshake)) }
    }

    pub fn data(data: Data) -> (r: Self)
        ensures
            r.msg == Some(Msg::Data(data)),
    {
        Message { msg: Some(Msg::Data(data)) }
    }

    pub fn keepalive(keepalive: KeepAlive) -> (r: Self)
        ensures
            r.msg == Some(Msg::Keepalive(keepalive)),
    {
        Message { msg: Some(Msg::Keepalive(keepalive)) }
    }
}

} // verus!
