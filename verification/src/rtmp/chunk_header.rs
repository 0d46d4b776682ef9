//! RTMP chunk headers: the basic header (format and chunk stream id) and
//! the four formats of the chunk message header.

use vstd::prelude::*;

use crate::bytes::{
    be16, be24, be24_bytes, le32, le32_bytes, lemma_be24_bytes_of_value, lemma_be24_roundtrip,
    lemma_le32_bytes_of_value, lemma_le32_roundtrip, push_all, push_be24, push_le32, read_be16,
    read_be24, read_le32,
};
use crate::error::RtmpError;
use crate::rtmp::message_type::{
    lemma_message_type_code_roundtrip, lemma_message_type_code_unique, message_type_code,
    message_type_of_code, MessageType,
};

verus! {

/// The format of a chunk message header: which fields it carries.
#[derive(Clone, Copy, Debug, PartialEq, Eq, Structural)]
pub enum ChunkMessageHeaderType {
    /// Full: `timestamp`, `message_length`, `message_type`, `message_stream_id`
    Type0,
    /// Without stream id: `timestamp`, `message_length`, `message_type`
    Type1,
    /// Only `timestamp`
    Type2,
    /// Empty
    Type3,
}

/// A chunk message header in one of its four formats.
#[derive(Clone, Copy, Debug, PartialEq, Eq, Structural)]
pub enum ChunkMessageHeader {
    Type0 { timestamp: u32, message_length: u32, message_type: MessageType, message_stream_id: u32 },
    Type1 { timestamp: u32, message_length: u32, message_type: MessageType },
    Type2 { timestamp: u32 },
    Type3,
}

/// A chunk header: the chunk stream id and the chunk message header.
#[derive(Clone, Copy, Debug, PartialEq, Eq, Structural)]
pub struct ChunkHeader {
    pub chunk_stream_id: u32,
    pub chunk_message_header: ChunkMessageHeader,
}

/// The format that the two high bits of a basic header's first byte select.
pub open spec fn header_type_of_bits(bits: u8) -> ChunkMessageHeaderType {
    if bits == 0 {
        ChunkMessageHeaderType::Type0
    } else if bits == 1 {
        ChunkMessageHeaderType::Type1
    } else if bits == 2 {
        ChunkMessageHeaderType::Type2
    } else {
        ChunkMessageHeaderType::Type3
    }
}

/// The two high bits that stand for a format.
pub open spec fn header_type_bits(t: ChunkMessageHeaderType) -> u8 {
    match t {
        ChunkMessageHeaderType::Type0 => 0,
        ChunkMessageHeaderType::Type1 => 1,
        ChunkMessageHeaderType::Type2 => 2,
        ChunkMessageHeaderType::Type3 => 3,
    }
}

/// The chunk message header of format `t` at the start of `s`, and how many
/// bytes it takes.
pub open spec fn spec_parse_message_header(s: Seq<u8>, t: ChunkMessageHeaderType) -> Result<
    (ChunkMessageHeader, int),
    RtmpError,
> {
    if t == ChunkMessageHeaderType::Type3 {
        Ok((ChunkMessageHeader::Type3, 0))
    } else if s.len() < 3 {
        Err(RtmpError::NotEnoughData)
    } else {
        let timestamp = be24(s[0], s[1], s[2]) as u32;
        if t == ChunkMessageHeaderType::Type2 {
            Ok((ChunkMessageHeader::Type2 { timestamp }, 3))
        } else if s.len() < 7 {
            Err(RtmpError::NotEnoughData)
        } else {
            let message_length = be24(s[3], s[4], s[5]) as u32;
            match message_type_of_code(s[6]) {
                None => Err(RtmpError::UnknownMessageType(s[6])),
                Some(message_type) => if t == ChunkMessageHeaderType::Type1 {
                    Ok((ChunkMessageHeader::Type1 { timestamp, message_length, message_type }, 7))
                } else if s.len() < 11 {
                    Err(RtmpError::NotEnoughData)
                } else {
                    let message_stream_id = le32(s[7], s[8], s[9], s[10]) as u32;
                    Ok(
                        (
                            ChunkMessageHeader::Type0 {
                                timestamp,
                                message_length,
                                message_type,
                                message_stream_id,
                            },
                            11,
                        ),
                    )
                },
            }
        }
    }
}

/// The bytes of a chunk message header.
pub open spec fn spec_serialize_message_header(h: ChunkMessageHeader) -> Seq<u8> {
    match h {
        ChunkMessageHeader::Type0 { timestamp, message_length, message_type, message_stream_id } =>
            be24_bytes(timestamp) + be24_bytes(message_length) + seq![message_type_code(message_type)]
            + le32_bytes(message_stream_id),
        ChunkMessageHeader::Type1 { timestamp, message_length, message_type } => be24_bytes(timestamp)
            + be24_bytes(message_length) + seq![message_type_code(message_type)],
        ChunkMessageHeader::Type2 { timestamp } => be24_bytes(timestamp),
        ChunkMessageHeader::Type3 => Seq::empty(),
    }
}

/// The chunk stream id of a basic header at the start of `s`, and how many
/// bytes the basic header takes.
pub open spec fn spec_parse_chunk_stream_id(s: Seq<u8>) -> Option<(u32, int)> {
    if s.len() < 1 {
        None
    } else if s[0] % 64 == 0 {
        if s.len() < 2 {
            None
        } else {
            Some(((s[1] + 64) as u32, 2))
        }
    } else if s[0] % 64 == 1 {
        if s.len() < 3 {
            None
        } else {
            Some(((be16(s[1], s[2]) + 64) as u32, 3))
        }
    } else {
        Some(((s[0] % 64) as u32, 1))
    }
}

/// The chunk header at the start of `s`, and how many bytes it takes.
pub open spec fn spec_parse_chunk_header(s: Seq<u8>) -> Result<(ChunkHeader, int), RtmpError> {
    match spec_parse_chunk_stream_id(s) {
        None => Err(RtmpError::NotEnoughData),
        Some((chunk_stream_id, n)) => match spec_parse_message_header(
            s.skip(n),
            header_type_of_bits(s[0] / 64),
        ) {
            Err(e) => Err(e),
            Ok((chunk_message_header, m)) => Ok(
                (ChunkHeader { chunk_stream_id, chunk_message_header }, n + m),
            ),
        },
    }
}

/// The bytes of a chunk header whose chunk stream id fits in six bits.
pub open spec fn spec_serialize_chunk_header(h: ChunkHeader) -> Seq<u8> {
    seq![
        (header_type_bits(h.chunk_message_header.get_type()) * 64 + h.chunk_stream_id) as u8,
    ] + spec_serialize_message_header(h.chunk_message_header)
}

/// The fields of a chunk message header fit in the widths the wire gives them.
pub open spec fn message_header_fits(h: ChunkMessageHeader) -> bool {
    &&& h.timestamp() matches Some(t) ==> t <= 0xFF_FFFF
    &&& h.message_length() matches Some(l) ==> l <= 0xFF_FFFF
}

impl ChunkMessageHeader {
    pub open spec fn spec_get_type(&self) -> ChunkMessageHeaderType {
        match *self {
            ChunkMessageHeader::Type0 { .. } => ChunkMessageHeaderType::Type0,
            ChunkMessageHeader::Type1 { .. } => ChunkMessageHeaderType::Type1,
            ChunkMessageHeader::Type2 { .. } => ChunkMessageHeaderType::Type2,
            ChunkMessageHeader::Type3 => ChunkMessageHeaderType::Type3,
        }
    }

    pub open spec fn spec_timestamp(&self) -> Option<u32> {
        match *self {
            ChunkMessageHeader::Type0 { timestamp, .. } => Some(timestamp),
            ChunkMessageHeader::Type1 { timestamp, .. } => Some(timestamp),
            ChunkMessageHeader::Type2 { timestamp } => Some(timestamp),
            ChunkMessageHeader::Type3 => None,
        }
    }

    pub open spec fn spec_message_length(&self) -> Option<u32> {
        match *self {
            ChunkMessageHeader::Type0 { message_length, .. } => Some(message_length),
            ChunkMessageHeader::Type1 { message_length, .. } => Some(message_length),
            _ => None,
        }
    }

    pub open spec fn spec_message_type(&self) -> Option<MessageType> {
        match *self {
            ChunkMessageHeader::Type0 { message_type, .. } => Some(message_type),
            ChunkMessageHeader::Type1 { message_type, .. } => Some(message_type),
            _ => None,
        }
    }

    pub open spec fn spec_message_stream_id(&self) -> Option<u32> {
        match *self {
            ChunkMessageHeader::Type0 { message_stream_id, .. } => Some(message_stream_id),
            _ => None,
        }
    }

    /// Reads a chunk message header of format `header_type` from the front
    /// of `iter` and advances `iter` past it; on an error `iter` is left as
    /// it was.
    pub fn deserialize(iter: &mut &[u8], header_type: ChunkMessageHeaderType) -> (r: Result<
        Self,
        RtmpError,
    >)
        ensures
            match spec_parse_message_header(old(iter)@, header_type) {
                Ok((h, n)) => r == Ok::<_, RtmpError>(h) && final(iter)@ == old(iter)@.skip(n),
                Err(e) => r == Err::<ChunkMessageHeader, _>(e) && final(iter)@ == old(iter)@,
            },
    {
        let data: &[u8] = *iter;
        match Self::parse(data, header_type) {
            Ok((h, n)) => {
                *iter = data.split_at(n).1;
                Ok(h)
            },
            Err(e) => Err(e),
        }
    }

    /// Reads a chunk message header of format `header_type` from the start
    /// of `data`; also gives the number of bytes read.
    fn parse(data: &[u8], header_type: ChunkMessageHeaderType) -> (r: Result<(Self, usize), RtmpError>)
        ensures
            r matches Ok((h, n)) ==> spec_parse_message_header(data@, header_type) == Ok::<
                _,
                RtmpError,
            >((h, n as int)) && n <= data@.len(),
            r matches Err(e) ==> spec_parse_message_header(data@, header_type) == Err::<
                (ChunkMessageHeader, int),
                _,
            >(e),
    {
        if header_type == ChunkMessageHeaderType::Type3 {
            return Ok((ChunkMessageHeader::Type3, 0));
        }
        // Timestamp

        if data.len() < 3 {
            return Err(RtmpError::NotEnoughData);
        }
        let timestamp = read_be24(data, 0);
        if header_type == ChunkMessageHeaderType::Type2 {
            return Ok((ChunkMessageHeader::Type2 { timestamp }, 3));
        }
        // Message length

        if data.len() < 7 {
            return Err(RtmpError::NotEnoughData);
        }
        let message_length = read_be24(data, 3);
        // Message type
        let message_type = match MessageType::try_from(data[6]) {
            Ok(t) => t,
            Err(e) => return Err(e),
        };
        if header_type == ChunkMessageHeaderType::Type1 {
            return Ok((ChunkMessageHeader::Type1 { timestamp, message_length, message_type }, 7));
        }
        // Message stream ID

        if data.len() < 11 {
            return Err(RtmpError::NotEnoughData);
        }
        let message_stream_id = read_le32(data, 7);
        Ok(
            (
                ChunkMessageHeader::Type0 {
                    timestamp,
                    message_length,
                    message_type,
                    message_stream_id,
                },
                11,
            ),
        )
    }

    /// The bytes of this chunk message header; timestamps and lengths keep
    /// their low 24 bits.
    pub fn serialize(&self) -> (r: Vec<u8>)
        ensures
            r@ == spec_serialize_message_header(*self),
    {
        let mut buf: Vec<u8> = Vec::new();
        match *self {
            ChunkMessageHeader::Type0 {
                timestamp,
                message_length,
                message_type,
                message_stream_id,
            } => {
                push_be24(&mut buf, timestamp);
                push_be24(&mut buf, message_length);
                buf.push(message_type.to_u8());
                push_le32(&mut buf, message_stream_id);
            },
            ChunkMessageHeader::Type1 { timestamp, message_length, message_type } => {
                push_be24(&mut buf, timestamp);
                push_be24(&mut buf, message_length);
                buf.push(message_type.to_u8());
            },
            ChunkMessageHeader::Type2 { timestamp } => {
                push_be24(&mut buf, timestamp);
            },
            ChunkMessageHeader::Type3 => {},
        }
        assert(buf@ =~= spec_serialize_message_header(*self));
        buf
    }

    /// The format of this header.
    #[verifier::when_used_as_spec(spec_get_type)]
    pub fn get_type(&self) -> (r: ChunkMessageHeaderType)
        ensures
            r == self.spec_get_type(),
    {
        match self {
            ChunkMessageHeader::Type0 { .. } => ChunkMessageHeaderType::Type0,
            ChunkMessageHeader::Type1 { .. } => ChunkMessageHeaderType::Type1,
            ChunkMessageHeader::Type2 { .. } => ChunkMessageHeaderType::Type2,
            ChunkMessageHeader::Type3 => ChunkMessageHeaderType::Type3,
        }
    }

    /// The timestamp field, where the format has one.
    #[verifier::when_used_as_spec(spec_timestamp)]
    pub fn timestamp(&self) -> (r: Option<u32>)
        ensures
            r == self.spec_timestamp(),
    {
        match self {
            ChunkMessageHeader::Type0 { timestamp, .. } => Some(*timestamp),
            ChunkMessageHeader::Type1 { timestamp, .. } => Some(*timestamp),
            ChunkMessageHeader::Type2 { timestamp } => Some(*timestamp),
            _ => None,
        }
    }

    /// The message length field, where the format has one.
    #[verifier::when_used_as_spec(spec_message_length)]
    pub fn message_length(&self) -> (r: Option<u32>)
        ensures
            r == self.spec_message_length(),
    {
        match self {
            ChunkMessageHeader::Type0 { message_length, .. } => Some(*message_length),
            ChunkMessageHeader::Type1 { message_length, .. } => Some(*message_length),
            _ => None,
        }
    }

    /// The message type field, where the format has one.
    #[verifier::when_used_as_spec(spec_message_type)]
    pub fn message_type(&self) -> (r: Option<MessageType>)
        ensures
            r == self.spec_message_type(),
    {
        match self {
            ChunkMessageHeader::Type0 { message_type, .. } => Some(*message_type),
            ChunkMessageHeader::Type1 { message_type, .. } => Some(*message_type),
            _ => None,
        }
    }

    /// The message stream id field, where the format has one.
    #[verifier::when_used_as_spec(spec_message_stream_id)]
    pub fn message_stream_id(&self) -> (r: Option<u32>)
        ensures
            r == self.spec_message_stream_id(),
    {
        match self {
            ChunkMessageHeader::Type0 { message_stream_id, .. } => Some(*message_stream_id),
            _ => None,
        }
    }
}

impl ChunkHeader {
    /// Reads a chunk header (basic header and chunk message header) from the
    /// front of `iter` and advances `iter` past it; on an error `iter` is
    /// left as it was.
    pub fn deserialize(iter: &mut &[u8]) -> (r: Result<Self, RtmpError>)
        ensures
            match spec_parse_chunk_header(old(iter)@) {
                Ok((h, n)) => r == Ok::<_, RtmpError>(h) && final(iter)@ == old(iter)@.skip(n),
                Err(e) => r == Err::<ChunkHeader, _>(e) && final(iter)@ == old(iter)@,
            },
    {
        let data: &[u8] = *iter;
        if data.len() < 1 {
            return Err(RtmpError::NotEnoughData);
        }
        let octet_0 = data[0];
        let bits = octet_0 / 64;
        let header_type = if bits == 0 {
            ChunkMessageHeaderType::Type0
        } else if bits == 1 {
            ChunkMessageHeaderType::Type1
        } else if bits == 2 {
            ChunkMessageHeaderType::Type2
        } else {
            ChunkMessageHeaderType::Type3
        };
        let low = octet_0 % 64;
        let (chunk_stream_id, n): (u32, usize) = if low == 0 {
            // 2-Byte ID
            if data.len() < 2 {
                return Err(RtmpError::NotEnoughData);
            }
            ((data[1] as u32) + 64, 2)
        } else if low == 1 {
            // 3-Byte ID
            if data.len() < 3 {
                return Err(RtmpError::NotEnoughData);
            }
            ((read_be16(data, 1) as u32) + 64, 3)
        } else {
            // 1-Byte ID
            (low as u32, 1)
        };
        let mut rest = data.split_at(n).1;
        assert(rest@ == data@.skip(n as int));
        match ChunkMessageHeader::deserialize(&mut rest, header_type) {
            Ok(chunk_message_header) => {
                assert(rest@ =~= data@.skip(n as int).skip(
                    spec_parse_message_header(data@.skip(n as int), header_type)->Ok_0.1,
                ));
                *iter = rest;
                Ok(ChunkHeader { chunk_stream_id, chunk_message_header })
            },
            Err(e) => Err(e),
        }
    }

    /// The bytes of this chunk header, in the one-byte basic header form.
    pub fn serialize(&self) -> (r: Vec<u8>)
        requires
            self.chunk_stream_id <= 63,
        ensures
            r@ == spec_serialize_chunk_header(*self),
    {
        let chunk_header_type_bits: u8 = match self.chunk_message_header.get_type() {
            ChunkMessageHeaderType::Type0 => 0,
            ChunkMessageHeaderType::Type1 => 1,
            ChunkMessageHeaderType::Type2 => 2,
            ChunkMessageHeaderType::Type3 => 3,
        };
        let mut buf: Vec<u8> = Vec::new();
        buf.push(chunk_header_type_bits * 64 + (self.chunk_stream_id as u8));
        let rest = self.chunk_message_header.serialize();
        push_all(&mut buf, rest.as_slice());
        buf
    }
}

/// Reading a chunk message header back from its bytes, followed by anything,
/// gives the header and the number of its bytes, when its timestamp and
/// length fit in 24 bits.
pub proof fn lemma_message_header_roundtrip(h: ChunkMessageHeader, rest: Seq<u8>)
    requires
        message_header_fits(h),
    ensures
        spec_parse_message_header(spec_serialize_message_header(h) + rest, h.get_type()) == Ok::<
            _,
            RtmpError,
        >((h, spec_serialize_message_header(h).len() as int)),
{
    let s = spec_serialize_message_header(h) + rest;
    match h {
        ChunkMessageHeader::Type0 { timestamp, message_length, message_type, message_stream_id } => {
            lemma_be24_roundtrip(timestamp);
            lemma_be24_roundtrip(message_length);
            lemma_le32_roundtrip(message_stream_id);
            lemma_message_type_code_roundtrip(message_type);
            assert(s[6] == message_type_code(message_type));
            assert(s[7] == le32_bytes(message_stream_id)[0]);
            assert(s[10] == le32_bytes(message_stream_id)[3]);
        },
        ChunkMessageHeader::Type1 { timestamp, message_length, message_type } => {
            lemma_be24_roundtrip(timestamp);
            lemma_be24_roundtrip(message_length);
            lemma_message_type_code_roundtrip(message_type);
            assert(s[6] == message_type_code(message_type));
        },
        ChunkMessageHeader::Type2 { timestamp } => {
            lemma_be24_roundtrip(timestamp);
        },
        ChunkMessageHeader::Type3 => {},
    }
}

/// A chunk header written with a one-byte basic header (chunk stream ids 2
/// to 63) and fields that fit their widths reads back as itself, whatever
/// follows it.
pub proof fn lemma_chunk_header_roundtrip(h: ChunkHeader, rest: Seq<u8>)
    requires
        2 <= h.chunk_stream_id <= 63,
        message_header_fits(h.chunk_message_header),
    ensures
        spec_parse_chunk_header(spec_serialize_chunk_header(h) + rest) == Ok::<_, RtmpError>(
            (h, spec_serialize_chunk_header(h).len() as int),
        ),
{
    let body = spec_serialize_message_header(h.chunk_message_header);
    let s = spec_serialize_chunk_header(h) + rest;
    let b0 = (header_type_bits(h.chunk_message_header.get_type()) * 64 + h.chunk_stream_id) as u8;
    assert(s[0] == b0);
    assert(b0 % 64 == h.chunk_stream_id);
    assert(header_type_of_bits(b0 / 64) == h.chunk_message_header.get_type());
    assert(s.skip(1) =~= body + rest);
    lemma_message_header_roundtrip(h.chunk_message_header, rest);
}

/// Bytes that read as a chunk header with a one-byte basic header are the
/// bytes that the header is written as.
pub proof fn lemma_chunk_header_bytes(s: Seq<u8>)
    requires
        s.len() >= 1,
        s[0] % 64 >= 2,
        spec_parse_chunk_header(s) is Ok,
    ensures
        ({
            let (h, n) = spec_parse_chunk_header(s)->Ok_0;
            spec_serialize_chunk_header(h) == s.take(n)
        }),
{
    let (h, n) = spec_parse_chunk_header(s)->Ok_0;
    let t = s.skip(1);
    let mh = h.chunk_message_header;
    match mh {
        ChunkMessageHeader::Type0 { timestamp, message_length, message_type, message_stream_id } => {
            lemma_be24_bytes_of_value(t[0], t[1], t[2]);
            lemma_be24_bytes_of_value(t[3], t[4], t[5]);
            lemma_le32_bytes_of_value(t[7], t[8], t[9], t[10]);
            lemma_message_type_code_unique(t[6]);
        },
        ChunkMessageHeader::Type1 { timestamp, message_length, message_type } => {
            lemma_be24_bytes_of_value(t[0], t[1], t[2]);
            lemma_be24_bytes_of_value(t[3], t[4], t[5]);
            lemma_message_type_code_unique(t[6]);
        },
        ChunkMessageHeader::Type2 { timestamp } => {
            lemma_be24_bytes_of_value(t[0], t[1], t[2]);
        },
        ChunkMessageHeader::Type3 => {},
    }
    assert(spec_serialize_chunk_header(h) =~= s.take(n));
}

/// A chunk header is read from its bytes: the format in the two high bits
/// of the first byte and, in its low six bits, a chunk stream id from 2 to
/// 63 (0 and 1 announce one more byte, or two more big-endian bytes, plus
/// 64). Then, by format, a 3-byte big-endian timestamp (formats 0 to 2), a
/// 3-byte big-endian message length and the message type byte (formats 0
/// and 1), and a 4-byte little-endian message stream id (format 0); format 3
/// carries nothing more.
pub proof fn lemma_chunk_header_fields(s: Seq<u8>)
    requires
        s.len() >= 12,
        s[0] % 64 >= 2,
        message_type_of_code(s[7]) is Some,
    ensures
        spec_parse_chunk_header(s) matches Ok((h, n)) && {
            let timestamp = (s[1] * 65536 + s[2] * 256 + s[3]) as u32;
            let message_length = (s[4] * 65536 + s[5] * 256 + s[6]) as u32;
            let message_type = message_type_of_code(s[7])->Some_0;
            &&& h.chunk_stream_id == s[0] % 64
            &&& s[0] / 64 == 0 ==> n == 12 && h.chunk_message_header == ChunkMessageHeader::Type0 {
                timestamp,
                message_length,
                message_type,
                message_stream_id: (s[8] + s[9] * 256 + s[10] * 65536 + s[11] * 16777216) as u32,
            }
            &&& s[0] / 64 == 1 ==> n == 8 && h.chunk_message_header == ChunkMessageHeader::Type1 {
                timestamp,
                message_length,
                message_type,
            }
            &&& s[0] / 64 == 2 ==> n == 4 && h.chunk_message_header == ChunkMessageHeader::Type2 {
                timestamp,
            }
            &&& s[0] / 64 == 3 ==> n == 1 && h.chunk_message_header == ChunkMessageHeader::Type3
        },
{
    let b = s.skip(1);
    assert(b[0] == s[1] && b[1] == s[2] && b[2] == s[3] && b[3] == s[4] && b[4] == s[5]);
    assert(b[5] == s[6] && b[6] == s[7] && b[7] == s[8] && b[8] == s[9] && b[9] == s[10]);
    assert(b[10] == s[11]);
}

/// The longer basic headers: a low six bits of 0 give the next byte plus
/// 64 as the chunk stream id, and 1 the next two bytes, big-endian, plus 64.
pub proof fn lemma_long_chunk_stream_ids(s: Seq<u8>)
    requires
        s.len() >= 3,
    ensures
        s[0] % 64 == 0 ==> spec_parse_chunk_stream_id(s) == Some(((s[1] + 64) as u32, 2int)),
        s[0] % 64 == 1 ==> spec_parse_chunk_stream_id(s) == Some(
            ((s[1] * 256 + s[2] + 64) as u32, 3int),
        ),
{
}

} // verus!
