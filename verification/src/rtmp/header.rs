//! The chunk header as read field by field, with its format named by what
//! the header carries.

use vstd::prelude::*;

use crate::bytes::{be_value, le_value};
use crate::error::RtmpError;
use crate::rtmp::message_type::{message_type_of_code, MessageType};
use crate::rtmp::util::{raw_u32_be, raw_u32_le};

verus! {

/// The format of a chunk header, by what it carries.
#[derive(Clone, Copy, Debug, PartialEq, Eq, Structural)]
pub enum ChunkHeaderType {
    Full,
    Semi,
    BasicTimestamp,
    Basic,
}

/// The format that the two high bits of `raw` select.
pub open spec fn spec_header(raw: u8) -> ChunkHeaderType {
    if raw / 64 == 0 {
        ChunkHeaderType::Full
    } else if raw / 64 == 1 {
        ChunkHeaderType::Semi
    } else if raw / 64 == 2 {
        ChunkHeaderType::BasicTimestamp
    } else {
        ChunkHeaderType::Basic
    }
}

/// The format that the two most significant bits of `raw` select.
pub fn header(raw: u8) -> (r: ChunkHeaderType)
    ensures
        r == spec_header(raw),
{
    // Get two most significant bits
    let value = raw / 64;
    if value == 0 {
        ChunkHeaderType::Full
    } else if value == 1 {
        ChunkHeaderType::Semi
    } else if value == 2 {
        ChunkHeaderType::BasicTimestamp
    } else {
        ChunkHeaderType::Basic
    }
}

/// A chunk header's fields; those its format does not carry are `None`.
#[derive(Clone, Copy, Debug, PartialEq, Eq, Structural)]
pub struct Header {
    pub header_length: u32,
    pub chunk_header_type: ChunkHeaderType,
    pub chunk_stream_id: u32,
    pub timestamp_delta: Option<u32>,
    pub packet_length: Option<u32>,
    pub message_type: Option<MessageType>,
    pub message_stream_id: Option<u32>,
}

/// Whether `read_from` can read the bytes `s`: the two-byte and three-byte
/// chunk stream id forms are not read.
pub open spec fn header_readable(s: Seq<u8>) -> bool {
    s.len() >= 1 ==> s[0] % 64 != 2 && !(s[0] % 64 == 1 && s.len() >= 3)
}

/// The length a format's header announces.
pub open spec fn header_length_of(t: ChunkHeaderType) -> u32 {
    match t {
        ChunkHeaderType::Full => 12,
        ChunkHeaderType::Semi => 8,
        ChunkHeaderType::BasicTimestamp => 4,
        ChunkHeaderType::Basic => 1,
    }
}

/// The header at the start of `s` and the bytes it takes: the format and
/// chunk stream id byte, a 3-byte big-endian timestamp delta (all but the
/// basic format), a 3-byte big-endian packet length and a message type byte
/// (full and semi), and a 4-byte little-endian message stream id (full).
pub open spec fn spec_read_header(s: Seq<u8>) -> Result<(Header, int), RtmpError> {
    if s.len() < 1 {
        Err(RtmpError::NotEnoughData)
    } else {
        let t = spec_header(s[0]);
        let with_length = t == ChunkHeaderType::Full || t == ChunkHeaderType::Semi;
        if s[0] % 64 == 1 || (t != ChunkHeaderType::Basic && s.len() < 4) {
            Err(RtmpError::NotEnoughData)
        } else if with_length && s.len() < 8 {
            Err(RtmpError::NotEnoughData)
        } else if with_length && message_type_of_code(s[7]) is None {
            Err(RtmpError::UnknownMessageType(s[7]))
        } else if t == ChunkHeaderType::Full && s.len() < 12 {
            Err(RtmpError::NotEnoughData)
        } else {
            let n = header_length_of(t) as int;
            Ok(
                (
                    Header {
                        header_length: header_length_of(t),
                        chunk_header_type: t,
                        chunk_stream_id: (s[0] % 64) as u32,
                        timestamp_delta: if t != ChunkHeaderType::Basic {
                            Some(be_value(s.subrange(1, 4)) as u32)
                        } else {
                            None
                        },
                        packet_length: if with_length {
                            Some(be_value(s.subrange(4, 7)) as u32)
                        } else {
                            None
                        },
                        message_type: if with_length {
                            message_type_of_code(s[7])
                        } else {
                            None
                        },
                        message_stream_id: if t == ChunkHeaderType::Full {
                            Some(le_value(s.subrange(8, 12)) as u32)
                        } else {
                            None
                        },
                    },
                    n,
                ),
            )
        }
    }
}

impl Header {
    /// Reads a chunk header from the front of `stream` and advances
    /// `stream` past it; on an error `stream` is left as it was.
    pub fn read_from(stream: &mut &[u8]) -> (r: Result<Self, RtmpError>)
        requires
            header_readable(old(stream)@),
        ensures
            match spec_read_header(old(stream)@) {
                Ok((h, n)) => r == Ok::<_, RtmpError>(h) && final(stream)@ == old(stream)@.skip(n),
                Err(e) => r == Err::<Header, _>(e) && final(stream)@ == old(stream)@,
            },
    {
        let data: &[u8] = *stream;
        // Byte #1 (1 byte)
        if data.len() < 1 {
            return Err(RtmpError::NotEnoughData);
        }
        let chunk_header_type = header(data[0]);
        let least = data[0] % 64;
        if least == 1 {
            // additional 2 bytes after this one, which are not there
            return Err(RtmpError::NotEnoughData);
        }
        let chunk_stream_id: u32 = least as u32;
        let mut pos: usize = 1;

        // Byte #2-4 (3 bytes)
        let timestamp_delta = if chunk_header_type == ChunkHeaderType::Basic {
            None
        } else {
            if data.len() < 4 {
                return Err(RtmpError::NotEnoughData);
            }
            pos = 4;
            let bytes = data.split_at(1).1.split_at(3).0;
            assert(bytes@ =~= data@.subrange(1, 4));
            Some(raw_u32_be(bytes))
        };
        let with_length = chunk_header_type == ChunkHeaderType::Full || chunk_header_type
            == ChunkHeaderType::Semi;

        // Byte #5-7 (3 bytes)
        let packet_length = if with_length {
            if data.len() < 7 {
                return Err(RtmpError::NotEnoughData);
            }
            pos = 7;
            let bytes = data.split_at(4).1.split_at(3).0;
            assert(bytes@ =~= data@.subrange(4, 7));
            Some(raw_u32_be(bytes))
        } else {
            None
        };

        // Byte #8 (1 byte)
        let message_type = if with_length {
            if data.len() < 8 {
                return Err(RtmpError::NotEnoughData);
            }
            pos = 8;
            match MessageType::try_from(data[7]) {
                Ok(t) => Some(t),
                Err(e) => return Err(e),
            }
        } else {
            None
        };

        // Byte #9-12 (4 bytes)
        let message_stream_id = if chunk_header_type == ChunkHeaderType::Full {
            if data.len() < 12 {
                return Err(RtmpError::NotEnoughData);
            }
            pos = 12;
            let bytes = data.split_at(8).1.split_at(4).0;
            assert(bytes@ =~= data@.subrange(8, 12));
            Some(raw_u32_le(bytes))
        } else {
            None
        };

        let header_length: u32 = match chunk_header_type {
            ChunkHeaderType::Full => 12,
            ChunkHeaderType::Semi => 8,
            ChunkHeaderType::BasicTimestamp => 4,
            ChunkHeaderType::Basic => 1,
        };
        assert(pos == header_length);
        *stream = data.split_at(pos).1;
        Ok(
            Self {
                header_length,
                chunk_header_type,
                chunk_stream_id,
                timestamp_delta,
                packet_length,
                message_type,
                message_stream_id,
            },
        )
    }
}

/// Three bytes read big-endian.
proof fn lemma_be_value_3(t: Seq<u8>)
    requires
        t.len() == 3,
    ensures
        be_value(t) == t[0] * 65536 + t[1] * 256 + t[2],
{
    let t2 = t.drop_last();
    let t1 = t2.drop_last();
    assert(t1.drop_last() =~= Seq::<u8>::empty());
    assert(t1.last() == t[0] && t2.last() == t[1] && t.last() == t[2]);
    assert(be_value(t1.drop_last()) == 0);
    assert(be_value(t1) == t[0]);
    assert(be_value(t2) == t[0] * 256 + t[1]);
}

/// Four bytes read little-endian.
proof fn lemma_le_value_4(t: Seq<u8>)
    requires
        t.len() == 4,
    ensures
        le_value(t) == t[0] + t[1] * 256 + t[2] * 65536 + t[3] * 16777216,
{
    let t1 = t.drop_first();
    let t2 = t1.drop_first();
    let t3 = t2.drop_first();
    assert(t3.drop_first() =~= Seq::<u8>::empty());
    assert(t1[0] == t[1] && t2[0] == t[2] && t3[0] == t[3]);
    assert(le_value(t3.drop_first()) == 0);
    assert(le_value(t3) == t[3]);
    assert(le_value(t2) == t[2] + 256 * t[3]);
    assert(le_value(t1) == t[1] + 256 * (t[2] + 256 * t[3]));
}

/// A header is read field by field from its bytes. A full header (format
/// bits 00) takes twelve bytes: the chunk stream id in the low six bits of
/// the first, a 3-byte big-endian timestamp delta, a 3-byte big-endian
/// packet length, the message type byte and a 4-byte little-endian message
/// stream id. A semi header (01) takes the first eight of those, a header
/// with a timestamp only (10) the first four, and a basic header (11) one.
pub proof fn lemma_header_fields(s: Seq<u8>)
    requires
        s.len() >= 12,
        s[0] % 64 != 1,
        message_type_of_code(s[7]) is Some,
    ensures
        spec_read_header(s) matches Ok((h, n)) && {
            &&& h.chunk_stream_id == s[0] % 64
            &&& s[0] / 64 == 0 ==> {
                &&& n == 12 && h.chunk_header_type == ChunkHeaderType::Full
                &&& h.timestamp_delta == Some((s[1] * 65536 + s[2] * 256 + s[3]) as u32)
                &&& h.packet_length == Some((s[4] * 65536 + s[5] * 256 + s[6]) as u32)
                &&& h.message_type == message_type_of_code(s[7])
                &&& h.message_stream_id == Some(
                    (s[8] + s[9] * 256 + s[10] * 65536 + s[11] * 16777216) as u32,
                )
            }
            &&& s[0] / 64 == 1 ==> {
                &&& n == 8 && h.chunk_header_type == ChunkHeaderType::Semi
                &&& h.timestamp_delta == Some((s[1] * 65536 + s[2] * 256 + s[3]) as u32)
                &&& h.packet_length == Some((s[4] * 65536 + s[5] * 256 + s[6]) as u32)
                &&& h.message_type == message_type_of_code(s[7])
                &&& h.message_stream_id is None
            }
            &&& s[0] / 64 == 2 ==> {
                &&& n == 4 && h.chunk_header_type == ChunkHeaderType::BasicTimestamp
                &&& h.timestamp_delta == Some((s[1] * 65536 + s[2] * 256 + s[3]) as u32)
                &&& h.packet_length is None && h.message_type is None
                &&& h.message_stream_id is None
            }
            &&& s[0] / 64 == 3 ==> {
                &&& n == 1 && h.chunk_header_type == ChunkHeaderType::Basic
                &&& h.timestamp_delta is None && h.packet_length is None
                &&& h.message_type is None && h.message_stream_id is None
            }
        },
{
    lemma_be_value_3(s.subrange(1, 4));
    lemma_be_value_3(s.subrange(4, 7));
    lemma_le_value_4(s.subrange(8, 12));
}

} // verus!
