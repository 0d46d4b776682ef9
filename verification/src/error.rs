//! Errors of the library.

use vstd::prelude::*;

verus! {

/// Why an AMF0 value could not be read or built.
#[derive(Clone, Copy, Debug, PartialEq, Eq, Structural)]
pub enum AmfError {
    /// The input ended before the value did.
    NotEnoughData,
    /// A string is longer than a 16-bit length can describe.
    StringTooLong,
    /// A string's bytes are not UTF-8.
    InvalidUtf8,
    /// A boolean's byte is neither 0 nor 1.
    InvalidBoolean(u8),
    /// The type marker is one this library does not read.
    UnhandledType(u8),
    /// The value is not of the requested type.
    TypeMismatch,
}

/// Why an FLV tag could not be built.
#[derive(Clone, Copy, Debug, PartialEq, Eq, Structural)]
pub enum FlvError {
    /// The payload is longer than a 32-bit length can describe.
    PayloadTooLong,
}

/// Why an RTMP operation failed.
#[derive(Clone, Copy, Debug, PartialEq, Eq, Structural)]
pub enum RtmpError {
    /// The input ended before the item did.
    NotEnoughData,
    /// A message type byte names no known message type.
    UnknownMessageType(u8),
    /// Neither the chunk header nor the chunk stream gives a message type.
    NoMessageType,
    /// Neither the chunk header nor the chunk stream gives a payload length.
    NoPayloadLength,
    /// Neither the chunk header nor the chunk stream gives a timestamp.
    NoTimestamp,
    /// Neither the chunk header nor the chunk stream gives a message stream id.
    NoMessageStreamId,
    /// The chunk stream already buffers more than the message's length.
    ReadTooMuch,
    /// A message payload does not fit in 24 bits of length.
    PayloadTooBig,
    /// The client's first handshake byte is not protocol version 3.
    WrongVersion(u8),
    /// The client did not echo the server's handshake signature.
    SignatureMismatch,
    /// The first command of a connection is not `connect`.
    UnexpectedCommand,
    /// The `connect` command carries no `app` field.
    NoAppField,
    /// A set-chunk-size payload is not exactly four bytes.
    InvalidChunkSize,
    /// An AMF0 value in a message payload could not be read.
    Amf(AmfError),
}

} // verus!
