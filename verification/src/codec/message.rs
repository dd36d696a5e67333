//! A simpler message form: a type byte and a payload.
use vstd::prelude::*;

verus! {

/// The kinds of message, numbered 1 to 4 on the wire.
#[derive(Debug, Clone, Copy, PartialEq, Eq, Structural)]
pub enum MessageType {
    Handshake,
    Data,
    KeepAlive,
    Disconnect,
}

/// The wire number of a message kind.
pub open spec fn spec_type_number(t: MessageType) -> u8 {
    match t {
        MessageType::Handshake => 1,
        MessageType::Data => 2,
        MessageType::KeepAlive => 3,
        MessageType::Disconnect => 4,
    }
}

/// The message kind with a wire number, if any.
pub open spec fn spec_type_from_number(v: u8) -> Option<MessageType> {
    if v == 1 {
        Some(MessageType::Handshake)
    } else if v == 2 {
        Some(MessageType::Data)
    } else if v == 3 {
        Some(MessageType::KeepAlive)
    } else if v == 4 {
        Some(MessageType::Disconnect)
    } else {
        None
    }
}

impl vstd::std_specs::convert::FromSpecImpl<MessageType> for u8 {
    open spec fn obeys_from_spec() -> bool {
        true
    }

    open spec fn from_spec(t: MessageType) -> u8 {
        spec_type_number(t)
    }
}

impl From<MessageType> for u8 {
    fn from(t: MessageType) -> (r: u8) {
        match t {
            MessageType::Handshake => 1,
            MessageType::Data => 2,
            MessageType::KeepAlive => 3,
            MessageType::Disconnect => 4,
        }
    }
}

impl vstd::std_specs::convert::TryFromSpecImpl<u8> for MessageType {
    open spec fn obeys_try_from_spec() -> bool {
        true
    }

    open spec fn try_from_spec(v: u8) -> Result<Self, ()> {
        match spec_type_from_number(v) {
            Some(t) => Ok(t),
            None => Err(()),
        }
    }
}

impl TryFrom<u8> for MessageType {
    type Error = ();

    fn try_from(value: u8) -> (r: Result<Self, ()>) {
        if value == 1 {
            Ok(MessageType::Handshake)
        } else if value == 2 {
            Ok(MessageType::Data)
        } else if value == 3 {
            Ok(MessageType::KeepAlive)
        } else if value == 4 {
            Ok(MessageType::Disconnect)
        } else {
            Err(())
        }
    }
}

/// Reading back the number of a kind gives the kind.
pub proof fn lemma_type_number_roundtrip(t: MessageType)
    ensures
        spec_type_from_number(spec_type_number(t)) == Some(t),
{
}

/// A message: its kind's wire number and its payload.
#[derive(Debug, Clone, PartialEq)]
pub struct Message {
    pub message_type: u8,
    pub data: Vec<u8>,
}

impl Message {
    pub fn new(message_type: MessageType, data: Vec<u8>) -> (r: Self)
        ensures
            r.message_type == spec_type_number(message_type),
            r.data == data,
    {
        Message { message_type: message_type.into(), data }
    }

    pub fn handshake(data: Vec<u8>) -> (r: Self)
        ensures
            r.message_type == 1,
            r.data == data,
    {
        Self::new(MessageType::Handshake, data)
    }

    pub fn data(data: Vec<u8>) -> (r: Self)
        ensures
            r.message_type == 2,
            r.data == data,
    {
        Self::new(MessageType::Data, data)
    }

    pub fn keepalive(data: Vec<u8>) -> (r: Self)
        ensures
            r.message_type == 3,
            r.data == data,
    {
        Self::new(MessageType::KeepAlive, data)
    }
}

} // verus!
