//! RTMP messages and the protocol control messages a server sends.

use vstd::prelude::*;

use crate::bytes::{be16_bytes, be32_bytes, copy_range, push_all, push_be16, push_be32};
use crate::error::RtmpError;
use crate::rtmp::constants::{CONTROL_MESSAGE_STREAM_ID, MAX_MESSAGE_PAYLOAD_LENGTH};
use crate::rtmp::message_type::{user_control_event_code, MessageType, UserControlMessageEvent};

verus! {

/// The header of a whole RTMP message.
#[derive(Clone, Copy, Debug, PartialEq, Eq, Structural)]
pub struct MessageHeader {
    pub message_type: MessageType,
    pub payload_length: u32,
    pub timestamp: u32,
    pub stream_id: u32,
}

/// A message as a value: its header and its payload bytes.
pub struct MessageView {
    pub header: MessageHeader,
    pub payload: Seq<u8>,
}

/// A message is well formed when its header gives its payload's length and
/// that length fits in 24 bits.
pub open spec fn message_view_wf(m: MessageView) -> bool {
    &&& m.payload.len() == m.header.payload_length
    &&& m.payload.len() <= MAX_MESSAGE_PAYLOAD_LENGTH
}

/// The message that `Message::new` builds from its arguments.
pub open spec fn new_message_view(
    message_type: MessageType,
    timestamp: u32,
    stream_id: u32,
    payload: Seq<u8>,
) -> MessageView {
    MessageView {
        header: MessageHeader {
            message_type,
            payload_length: payload.len() as u32,
            timestamp,
            stream_id,
        },
        payload,
    }
}

/// An RTMP message: a header and a payload of at most 2^24 - 1 bytes.
#[derive(Debug)]
pub struct Message {
    header: MessageHeader,
    payload: Vec<u8>,
}

impl View for Message {
    type V = MessageView;

    closed spec fn view(&self) -> MessageView {
        MessageView { header: self.header, payload: self.payload@ }
    }
}

impl Message {
    #[verifier::type_invariant]
    spec fn well_formed(self) -> bool {
        message_view_wf(self@)
    }

    /// A message of the given type, timestamp and stream with a copy of
    /// `payload`; refused when the payload does not fit in 24 bits of length.
    pub fn new(message_type: MessageType, timestamp: u32, stream_id: u32, payload: &[u8]) -> (r:
        Result<Self, RtmpError>)
        ensures
            payload@.len() <= MAX_MESSAGE_PAYLOAD_LENGTH <==> r is Ok,
            r matches Ok(m) ==> m@ == new_message_view(message_type, timestamp, stream_id, payload@),
            r matches Err(e) ==> e == RtmpError::PayloadTooBig,
    {
        let payload_length = payload.len();
        // <= u24::MAX
        if payload_length > 16_777_215 {
            return Err(RtmpError::PayloadTooBig);
        }
        let payload_length = payload_length as u32;
        let copy = copy_range(payload, 0, payload.len());
        assert(copy@ == payload@.subrange(0, payload@.len() as int));
        assert(copy@ =~= payload@);
        Ok(Self { header: MessageHeader { message_type, payload_length, timestamp, stream_id }, payload: copy })
    }

    /// The message's header.
    pub fn header(&self) -> (r: &MessageHeader)
        ensures
            *r == self@.header,
            message_view_wf(self@),
    {
        proof {
            use_type_invariant(self);
        }
        &self.header
    }

    /// The message's payload.
    pub fn payload(&self) -> (r: &[u8])
        ensures
            r@ == self@.payload,
            message_view_wf(self@),
    {
        proof {
            use_type_invariant(self);
        }
        self.payload.as_slice()
    }
}

/// A `Window Acknowledgement Size` control message announcing `value`.
pub fn window_acknowledgement_size(value: u32) -> (r: Message)
    ensures
        r@ == new_message_view(
            MessageType::WindowAcknowledgementSize,
            0,
            CONTROL_MESSAGE_STREAM_ID,
            be32_bytes(value),
        ),
{
    let mut bytes: Vec<u8> = Vec::new();
    push_be32(&mut bytes, value);
    match Message::new(
        MessageType::WindowAcknowledgementSize,
        0,  // Ignored
        CONTROL_MESSAGE_STREAM_ID,
        bytes.as_slice(),
    ) {
        Ok(m) => m,
        Err(_) => vstd::pervasive::unreached(),
    }
}

/// A `Set Peer Bandwidth` control message with a window of `value` and the
/// limit type `priority`.
pub fn set_peer_bandwidth(value: u32, priority: u8) -> (r: Message)
    ensures
        r@ == new_message_view(
            MessageType::SetPeerBandwidth,
            0,
            CONTROL_MESSAGE_STREAM_ID,
            be32_bytes(value).push(priority),
        ),
{
    let mut bytes: Vec<u8> = Vec::new();
    push_be32(&mut bytes, value);
    bytes.push(priority);
    match Message::new(
        MessageType::SetPeerBandwidth,
        0,  // Ignored
        CONTROL_MESSAGE_STREAM_ID,
        bytes.as_slice(),
    ) {
        Ok(m) => m,
        Err(_) => vstd::pervasive::unreached(),
    }
}

/// A `User Control Message` of the given event with `event_data`; refused
/// when the payload does not fit in 24 bits of length.
pub fn user_control_message(event: UserControlMessageEvent, event_data: &[u8]) -> (r: Result<
    Message,
    RtmpError,
>)
    ensures
        2 + event_data@.len() <= MAX_MESSAGE_PAYLOAD_LENGTH <==> r is Ok,
        r matches Ok(m) ==> m@ == new_message_view(
            MessageType::UserControlMessage,
            0,
            CONTROL_MESSAGE_STREAM_ID,
            be16_bytes(user_control_event_code(event)) + event_data@,
        ),
        r matches Err(e) ==> e == RtmpError::PayloadTooBig,
{
    let mut bytes: Vec<u8> = Vec::new();
    push_be16(&mut bytes, event.to_u16());
    push_all(&mut bytes, event_data);
    Message::new(
        MessageType::UserControlMessage,
        0,  // Ignored
        CONTROL_MESSAGE_STREAM_ID,
        bytes.as_slice(),
    )
}

} // verus!
