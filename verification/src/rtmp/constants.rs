//! Protocol constants.

use vstd::prelude::*;

verus! {

/// The message stream id of protocol control messages.
pub const CONTROL_MESSAGE_STREAM_ID: u32 = 0;

/// The chunk stream id on which protocol control messages travel.
pub const CONTROL_CHUNK_STREAM_ID: u32 = 2;

/// The chunk payload size a connection starts with.
pub const DEFAULT_MAX_CHUNK_PAYLOAD_SIZE: u32 = 128;

/// The largest payload length a message header can carry (24 bits).
pub const MAX_MESSAGE_PAYLOAD_LENGTH: usize = 16_777_215;

} // verus!
