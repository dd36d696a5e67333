//! The wire protocol: messages and their length-prefixed framing.
pub mod buffer;
pub mod codec;
pub mod message;

pub use codec::{
    ByteCodec, Data, DecodeState, Disconnect, FrameError, Handshake, KeepAlive, Message, Msg as MessageType,
    TunConfig,
};
