//! RTMP message type ids and user control event types.

use vstd::prelude::*;

use crate::error::RtmpError;

verus! {

/// The type of an RTMP message, carried as one byte in chunk headers.
#[derive(Clone, Copy, Debug, PartialEq, Eq, Structural)]
pub enum MessageType {
    SetChunkSize,
    AbortMessage,
    Acknowledgement,
    WindowAcknowledgementSize,
    SetPeerBandwidth,
    VirtualControl,
    AudioPacket,
    VideoPacket,
    UserControlMessage,
    DataExt,
    ContainerExt,
    CommandExt,
    Data,
    Container,
    Command,
    Udp,
    Aggregate,
    Present,
}

/// The byte that stands for a message type on the wire.
pub open spec fn message_type_code(t: MessageType) -> u8 {
    match t {
        MessageType::SetChunkSize => 0x01,
        MessageType::AbortMessage => 0x02,
        MessageType::Acknowledgement => 0x03,
        MessageType::UserControlMessage => 0x04,
        MessageType::WindowAcknowledgementSize => 0x05,
        MessageType::SetPeerBandwidth => 0x06,
        MessageType::VirtualControl => 0x07,
        MessageType::AudioPacket => 0x08,
        MessageType::VideoPacket => 0x09,
        MessageType::DataExt => 0x0F,
        MessageType::ContainerExt => 0x10,
        MessageType::CommandExt => 0x11,
        MessageType::Data => 0x12,
        MessageType::Container => 0x13,
        MessageType::Command => 0x14,
        MessageType::Udp => 0x15,
        MessageType::Aggregate => 0x16,
        MessageType::Present => 0x17,
    }
}

/// The message type that a byte stands for, if any.
pub open spec fn message_type_of_code(b: u8) -> Option<MessageType> {
    if b == 0x01 {
        Some(MessageType::SetChunkSize)
    } else if b == 0x02 {
        Some(MessageType::AbortMessage)
    } else if b == 0x03 {
        Some(MessageType::Acknowledgement)
    } else if b == 0x04 {
        Some(MessageType::UserControlMessage)
    } else if b == 0x05 {
        Some(MessageType::WindowAcknowledgementSize)
    } else if b == 0x06 {
        Some(MessageType::SetPeerBandwidth)
    } else if b == 0x07 {
        Some(MessageType::VirtualControl)
    } else if b == 0x08 {
        Some(MessageType::AudioPacket)
    } else if b == 0x09 {
        Some(MessageType::VideoPacket)
    } else if b == 0x0F {
        Some(MessageType::DataExt)
    } else if b == 0x10 {
        Some(MessageType::ContainerExt)
    } else if b == 0x11 {
        Some(MessageType::CommandExt)
    } else if b == 0x12 {
        Some(MessageType::Data)
    } else if b == 0x13 {
        Some(MessageType::Container)
    } else if b == 0x14 {
        Some(MessageType::Command)
    } else if b == 0x15 {
        Some(MessageType::Udp)
    } else if b == 0x16 {
        Some(MessageType::Aggregate)
    } else if b == 0x17 {
        Some(MessageType::Present)
    } else {
        None
    }
}

/// Every message type is read back from its own byte.
pub proof fn lemma_message_type_code_roundtrip(t: MessageType)
    ensures
        message_type_of_code(message_type_code(t)) == Some(t),
{
}

/// A byte that names a message type is that type's byte.
pub proof fn lemma_message_type_code_unique(b: u8)
    ensures
        message_type_of_code(b) matches Some(t) ==> message_type_code(t) == b,
{
}

/// The wire ids of the message types, as RTMP assigns them: the protocol
/// control and user control messages 1 to 7, audio 8, video 9, the AMF3
/// data, shared object and command messages 15 to 17, the AMF0 data
/// message 18, shared object message 19 and command message 20, then 21 to
/// 23; no other byte names a message type.
pub proof fn lemma_message_type_wire_ids(b: u8)
    ensures
        message_type_code(MessageType::SetChunkSize) == 1,
        message_type_code(MessageType::AbortMessage) == 2,
        message_type_code(MessageType::Acknowledgement) == 3,
        message_type_code(MessageType::UserControlMessage) == 4,
        message_type_code(MessageType::WindowAcknowledgementSize) == 5,
        message_type_code(MessageType::SetPeerBandwidth) == 6,
        message_type_code(MessageType::VirtualControl) == 7,
        message_type_code(MessageType::AudioPacket) == 8,
        message_type_code(MessageType::VideoPacket) == 9,
        message_type_code(MessageType::DataExt) == 15,
        message_type_code(MessageType::ContainerExt) == 16,
        message_type_code(MessageType::CommandExt) == 17,
        message_type_code(MessageType::Data) == 18,
        message_type_code(MessageType::Container) == 19,
        message_type_code(MessageType::Command) == 20,
        message_type_code(MessageType::Udp) == 21,
        message_type_code(MessageType::Aggregate) == 22,
        message_type_code(MessageType::Present) == 23,
        message_type_of_code(b) is None <==> (b == 0 || 10 <= b <= 14 || b >= 24),
{
}

impl MessageType {
    /// The message type that `value` stands for.
    pub fn try_from(value: u8) -> (r: Result<MessageType, RtmpError>)
        ensures
            r == (match message_type_of_code(value) {
                Some(t) => Ok(t),
                None => Err(RtmpError::UnknownMessageType(value)),
            }),
    {
        if value == 0x01 {
            Ok(MessageType::SetChunkSize)
        } else if value == 0x02 {
            Ok(MessageType::AbortMessage)
        } else if value == 0x03 {
            Ok(MessageType::Acknowledgement)
        } else if value == 0x04 {
            Ok(MessageType::UserControlMessage)
        } else if value == 0x05 {
            Ok(MessageType::WindowAcknowledgementSize)
        } else if value == 0x06 {
            Ok(MessageType::SetPeerBandwidth)
        } else if value == 0x07 {
            Ok(MessageType::VirtualControl)
        } else if value == 0x08 {
            Ok(MessageType::AudioPacket)
        } else if value == 0x09 {
            Ok(MessageType::VideoPacket)
        } else if value == 0x0F {
            Ok(MessageType::DataExt)
        } else if value == 0x10 {
            Ok(MessageType::ContainerExt)
        } else if value == 0x11 {
            Ok(MessageType::CommandExt)
        } else if value == 0x12 {
            Ok(MessageType::Data)
        } else if value == 0x13 {
            Ok(MessageType::Container)
        } else if value == 0x14 {
            Ok(MessageType::Command)
        } else if value == 0x15 {
            Ok(MessageType::Udp)
        } else if value == 0x16 {
            Ok(MessageType::Aggregate)
        } else if value == 0x17 {
            Ok(MessageType::Present)
        } else {
            Err(RtmpError::UnknownMessageType(value))
        }
    }

    /// The byte that stands for this message type.
    pub fn to_u8(self) -> (r: u8)
        ensures
            r == message_type_code(self),
    {
        match self {
            MessageType::SetChunkSize => 0x01,
            MessageType::AbortMessage => 0x02,
            MessageType::Acknowledgement => 0x03,
            MessageType::UserControlMessage => 0x04,
            MessageType::WindowAcknowledgementSize => 0x05,
            MessageType::SetPeerBandwidth => 0x06,
            MessageType::VirtualControl => 0x07,
            MessageType::AudioPacket => 0x08,
            MessageType::VideoPacket => 0x09,
            MessageType::DataExt => 0x0F,
            MessageType::ContainerExt => 0x10,
            MessageType::CommandExt => 0x11,
            MessageType::Data => 0x12,
            MessageType::Container => 0x13,
            MessageType::Command => 0x14,
            MessageType::Udp => 0x15,
            MessageType::Aggregate => 0x16,
            MessageType::Present => 0x17,
        }
    }
}

/// The event type of a user control message.
#[derive(Clone, Copy, Debug, PartialEq, Eq, Structural)]
pub enum UserControlMessageEvent {
    StreamBegin,
}

/// The 16-bit code of a user control event.
pub open spec fn user_control_event_code(e: UserControlMessageEvent) -> u16 {
    match e {
        UserControlMessageEvent::StreamBegin => 0,
    }
}

impl UserControlMessageEvent {
    /// The event that `value` stands for.
    pub fn try_from(value: u16) -> (r: Option<UserControlMessageEvent>)
        ensures
            r == (if value == 0 {
                Some(UserControlMessageEvent::StreamBegin)
            } else {
                None::<UserControlMessageEvent>
            }),
    {
        if value == 0 {
            Some(UserControlMessageEvent::StreamBegin)
        } else {
            None
        }
    }

    /// The 16-bit code of this event.
    pub fn to_u16(self) -> (r: u16)
        ensures
            r == user_control_event_code(self),
    {
        match self {
            UserControlMessageEvent::StreamBegin => 0,
        }
    }
}

} // verus!
