//! One RTMP connection's chunking: reassembling inbound messages from chunks
//! and cutting outbound messages into chunks.

use vstd::prelude::*;

use crate::bytes::push_all;
use crate::error::RtmpError;
use crate::rtmp::chunk::{
    fresh_chunk_stream, lemma_parse_chunk_header_len, stream_or_fresh, ChunkStreamManager,
    ChunkStreamView,
};
use crate::rtmp::chunk_header::{
    lemma_chunk_header_roundtrip, message_header_fits, spec_parse_chunk_header,
    spec_serialize_chunk_header, ChunkHeader, ChunkMessageHeader,
};
use crate::rtmp::constants::{DEFAULT_MAX_CHUNK_PAYLOAD_SIZE, MAX_MESSAGE_PAYLOAD_LENGTH};
use crate::rtmp::message_type::{message_type_code, MessageType};
use crate::rtmp::message::{message_view_wf, Message, MessageHeader, MessageView};

verus! {

/// The settings of a connection.
pub struct ConnectionConfig {
    /// The largest number of payload bytes one chunk carries, both ways.
    pub max_chunk_payload_size: u32,
}

/// The chunking state of one RTMP connection.
pub struct Connection {
    pub config: ConnectionConfig,
    chunking_state: ChunkStreamManager,
}

/// What reading from a connection gives: the number of input bytes used and
/// the message completed, if any; as a value.
pub type ReceiveOutcome = Result<(int, Option<MessageView>), RtmpError>;

/// `r` as a value.
pub open spec fn receive_outcome(r: Result<(usize, Option<Message>), RtmpError>) -> ReceiveOutcome {
    match r {
        Ok((n, Some(m))) => Ok((n as int, Some(m@))),
        Ok((n, None)) => Ok((n as int, None)),
        Err(e) => Err(e),
    }
}

/// What one chunk at the start of `input` does to the chunk streams `m` of a
/// receiver whose chunks carry at most `max` payload bytes: the new chunk
/// streams, and either an error, or the bytes the chunk takes and the message
/// it completes.
///
/// The chunk stream is looked up (and so created, fresh) as soon as the
/// header is read.
/// Header fields that a chunk omits come from its chunk stream. A timestamp
/// in a header is added to the stream's stored timestamp (modulo 2^32) and
/// stored, while the message gets the header's own timestamp. Where the input
/// ends inside the chunk's payload, the stream keeps the state it had.
pub open spec fn spec_receive_one_chunk(
    m: Map<u32, ChunkStreamView>,
    max: u32,
    input: Seq<u8>,
) -> (Map<u32, ChunkStreamView>, ReceiveOutcome) {
    match spec_parse_chunk_header(input) {
        Err(e) => (m, Err(e)),
        Ok((h, hl)) => {
            let id = h.chunk_stream_id;
            let mh = h.chunk_message_header;
            let s0 = stream_or_fresh(m, id);
            let s1 = ChunkStreamView {
                message_type: if mh.message_type() is Some {
                    mh.message_type()
                } else {
                    s0.message_type
                },
                ..s0
            };
            let s2 = ChunkStreamView {
                message_payload_length: if mh.message_length() is Some {
                    mh.message_length()
                } else {
                    s1.message_payload_length
                },
                ..s1
            };
            let s3 = ChunkStreamView {
                message_timestamp: match mh.timestamp() {
                    Some(t) => Some(
                        vstd::wrapping::u32_specs::wrapping_add(
                            t,
                            match s2.message_timestamp {
                                Some(p) => p,
                                None => 0,
                            },
                        ),
                    ),
                    None => s2.message_timestamp,
                },
                ..s2
            };
            let timestamp = if mh.timestamp() is Some {
                mh.timestamp()
            } else {
                s2.message_timestamp
            };
            let s4 = ChunkStreamView {
                message_stream_id: if mh.message_stream_id() is Some {
                    mh.message_stream_id()
                } else {
                    s3.message_stream_id
                },
                ..s3
            };
            if s1.message_type is None {
                (m.insert(id, s1), Err(RtmpError::NoMessageType))
            } else if s2.message_payload_length is None {
                (m.insert(id, s2), Err(RtmpError::NoPayloadLength))
            } else if timestamp is None {
                (m.insert(id, s3), Err(RtmpError::NoTimestamp))
            } else if s4.message_stream_id is None {
                (m.insert(id, s4), Err(RtmpError::NoMessageStreamId))
            } else {
                let len = s4.message_payload_length->Some_0 as int;
                let buffered = s4.buffer.len() as int;
                if buffered > len {
                    (m.insert(id, s4), Err(RtmpError::ReadTooMuch))
                } else {
                    let read_len = if len - buffered < max {
                        len - buffered
                    } else {
                        max as int
                    };
                    if input.len() < hl + read_len {
                        (m.insert(id, s0), Err(RtmpError::NotEnoughData))
                    } else {
                        let buffer = s4.buffer + input.subrange(hl, hl + read_len);
                        if buffer.len() < len {
                            (
                                m.insert(id, ChunkStreamView { buffer, ..s4 }),
                                Ok((hl + read_len, None)),
                            )
                        } else {
                            let flushed = m.insert(id, ChunkStreamView { buffer: Seq::empty(), ..s4 });
                            if len > MAX_MESSAGE_PAYLOAD_LENGTH {
                                (flushed, Err(RtmpError::PayloadTooBig))
                            } else {
                                (
                                    flushed,
                                    Ok(
                                        (
                                            hl + read_len,
                                            Some(
                                                MessageView {
                                                    header: MessageHeader {
                                                        message_type: s4.message_type->Some_0,
                                                        payload_length: len as u32,
                                                        timestamp: timestamp->Some_0,
                                                        stream_id: s4.message_stream_id->Some_0,
                                                    },
                                                    payload: buffer,
                                                },
                                            ),
                                        ),
                                    ),
                                )
                            }
                        }
                    }
                }
            }
        },
    }
}

/// What reading chunks from the start of `input` until a message completes
/// does: the new chunk streams, and either an error, or the bytes used and
/// the completed message; no message where the input ends first, the bytes
/// used then being those of the whole chunks read.
pub open spec fn spec_recv(m: Map<u32, ChunkStreamView>, max: u32, input: Seq<u8>) -> (
    Map<u32, ChunkStreamView>,
    ReceiveOutcome,
)
    decreases input.len(),
{
    let (m1, r) = spec_receive_one_chunk(m, max, input);
    match r {
        Err(RtmpError::NotEnoughData) => (m1, Ok((0, None))),
        Err(e) => (m1, Err(e)),
        Ok((n, Some(msg))) => (m1, Ok((n, Some(msg)))),
        Ok((n, None)) => if 0 < n <= input.len() {
            let (m2, r2) = spec_recv(m1, max, input.skip(n));
            (
                m2,
                match r2 {
                    Ok((k, o)) => Ok((n + k, o)),
                    Err(e) => Err(e),
                },
            )
        } else {
            (m1, Ok((n, None)))
        },
    }
}

/// `r` with `offset` more bytes used.
pub open spec fn shift_recv(offset: int, r: (Map<u32, ChunkStreamView>, ReceiveOutcome)) -> (
    Map<u32, ChunkStreamView>,
    ReceiveOutcome,
) {
    (
        r.0,
        match r.1 {
            Ok((k, o)) => Ok((offset + k, o)),
            Err(e) => Err(e),
        },
    )
}

/// The basic header byte of a continuation (format 3) chunk.
pub open spec fn continuation_header_byte(chunk_stream_id: u32) -> u8 {
    (3 * 64 + chunk_stream_id) as u8
}

/// The continuation chunks that carry `rest`, at most `max` bytes each.
pub open spec fn spec_chunk_rest(chunk_stream_id: u32, max: u32, rest: Seq<u8>) -> Seq<u8>
    decreases rest.len(),
{
    if rest.len() == 0 || max == 0 {
        Seq::empty()
    } else {
        let k = if rest.len() < max {
            rest.len() as int
        } else {
            max as int
        };
        seq![continuation_header_byte(chunk_stream_id)] + rest.take(k) + spec_chunk_rest(
            chunk_stream_id,
            max,
            rest.skip(k),
        )
    }
}

/// The full (format 0) chunk header that starts a message.
pub open spec fn first_chunk_header(chunk_stream_id: u32, h: MessageHeader) -> ChunkHeader {
    ChunkHeader {
        chunk_stream_id,
        chunk_message_header: ChunkMessageHeader::Type0 {
            timestamp: h.timestamp,
            message_length: h.payload_length,
            message_type: h.message_type,
            message_stream_id: h.stream_id,
        },
    }
}

/// The bytes that send `msg` on chunk stream `chunk_stream_id` in chunks of
/// at most `max` payload bytes: a full header and the first chunk's payload,
/// then a continuation chunk for each further piece.
pub open spec fn spec_send(chunk_stream_id: u32, max: u32, msg: MessageView) -> Seq<u8> {
    spec_serialize_chunk_header(first_chunk_header(chunk_stream_id, msg.header)) + if msg.header.payload_length
        <= max {
        msg.payload
    } else {
        msg.payload.take(max as int) + spec_chunk_rest(
            chunk_stream_id,
            max,
            msg.payload.skip(max as int),
        )
    }
}

impl Connection {
    /// The chunk streams of this connection.
    pub closed spec fn chunk_streams(&self) -> Map<u32, ChunkStreamView> {
        self.chunking_state@
    }

    /// The largest number of payload bytes one chunk carries.
    pub closed spec fn chunk_size(&self) -> u32 {
        self.config.max_chunk_payload_size
    }

    /// A connection with the default chunk size and no chunk streams.
    pub fn new() -> (r: Self)
        ensures
            r.chunk_size() == DEFAULT_MAX_CHUNK_PAYLOAD_SIZE,
            r.chunk_streams() == Map::<u32, ChunkStreamView>::empty(),
    {
        Self {
            config: ConnectionConfig { max_chunk_payload_size: DEFAULT_MAX_CHUNK_PAYLOAD_SIZE },
            chunking_state: ChunkStreamManager::new(),
        }
    }

    /// Sets the largest number of payload bytes one chunk carries, both ways:
    /// later reads (`recv`) and writes (`send`) use `size`; the chunk streams
    /// are kept.
    pub fn set_chunk_size(&mut self, size: u32)
        ensures
            final(self).chunk_size() == size,
            final(self).chunk_streams() == old(self).chunk_streams(),
    {
        self.config.max_chunk_payload_size = size;
    }

    /// Reads one chunk from the start of `input`.
    fn receive_one_chunk(&mut self, input: &[u8]) -> (r: Result<(usize, Option<Message>), RtmpError>)
        ensures
            final(self).chunk_size() == old(self).chunk_size(),
            (final(self).chunk_streams(), receive_outcome(r)) == spec_receive_one_chunk(
                old(self).chunk_streams(),
                old(self).chunk_size(),
                input@,
            ),
            r matches Ok((n, _)) ==> 0 < n <= input@.len(),
    {
        let mut it = input;
        let chunk_header = match ChunkHeader::deserialize(&mut it) {
            Ok(h) => h,
            Err(e) => return Err(e),
        };
        let header_len = input.len() - it.len();
        proof {
            lemma_parse_chunk_header_len(input@);
        }
        let chunk_stream_id = chunk_header.chunk_stream_id;
        let chunk_message_header = chunk_header.chunk_message_header;
        let mut s = self.chunking_state.take(chunk_stream_id);
        let ghost m = old(self).chunk_streams();
        let ghost s0 = s@;
        let stored_type = s.message_type;
        let stored_length = s.message_payload_length;

        if let Some(t) = chunk_message_header.message_type() {
            s.message_type = Some(t);
        }
        let message_type = match s.message_type {
            Some(t) => t,
            None => {
                self.chunking_state.put(chunk_stream_id, s);
                assert(self.chunk_streams() =~= m.insert(chunk_stream_id, s@));
                return Err(RtmpError::NoMessageType);
            },
        };

        if let Some(l) = chunk_message_header.message_length() {
            s.message_payload_length = Some(l);
        }
        let message_payload_length = match s.message_payload_length {
            Some(l) => l,
            None => {
                self.chunking_state.put(chunk_stream_id, s);
                assert(self.chunk_streams() =~= m.insert(chunk_stream_id, s@));
                return Err(RtmpError::NoPayloadLength);
            },
        };

        let stored_timestamp = s.message_timestamp;
        let message_timestamp = match chunk_message_header.timestamp() {
            Some(t) => {
                let previous = match stored_timestamp {
                    Some(p) => p,
                    None => 0,
                };
                s.message_timestamp = Some(t.wrapping_add(previous));
                t
            },
            None => match stored_timestamp {
                Some(t) => t,
                None => {
                    self.chunking_state.put(chunk_stream_id, s);
                    assert(self.chunk_streams() =~= m.insert(chunk_stream_id, s@));
                    return Err(RtmpError::NoTimestamp);
                },
            },
        };

        let stored_stream_id = s.message_stream_id;
        if let Some(i) = chunk_message_header.message_stream_id() {
            s.message_stream_id = Some(i);
        }
        let message_stream_id = match s.message_stream_id {
            Some(i) => i,
            None => {
                self.chunking_state.put(chunk_stream_id, s);
                assert(self.chunk_streams() =~= m.insert(chunk_stream_id, s@));
                return Err(RtmpError::NoMessageStreamId);
            },
        };

        let buffered = s.buffer.len();
        if buffered > message_payload_length as usize {
            self.chunking_state.put(chunk_stream_id, s);
            assert(self.chunk_streams() =~= m.insert(chunk_stream_id, s@));
            return Err(RtmpError::ReadTooMuch);
        }
        let remaining = message_payload_length as usize - buffered;
        let max = self.config.max_chunk_payload_size as usize;
        let read_len = if remaining < max {
            remaining
        } else {
            max
        };

        if input.len() - header_len < read_len {
            // The chunk is not all here yet: leave the stream as it was.
            s.message_type = stored_type;
            s.message_payload_length = stored_length;
            s.message_timestamp = stored_timestamp;
            s.message_stream_id = stored_stream_id;
            self.chunking_state.put(chunk_stream_id, s);
            assert(s@ == s0);
            assert(self.chunk_streams() =~= m.insert(chunk_stream_id, s0));
            return Err(RtmpError::NotEnoughData);
        }

        let fragment = input.split_at(header_len).1.split_at(read_len).0;
        assert(fragment@ == input@.subrange(header_len as int, header_len + read_len));
        push_all(&mut s.buffer, fragment);

        if s.buffer.len() < message_payload_length as usize {
            self.chunking_state.put(chunk_stream_id, s);
            assert(self.chunk_streams() =~= m.insert(chunk_stream_id, s@));
            return Ok((header_len + read_len, None));
        }

        // Flush buffer
        let ghost whole = s.buffer@;
        assert(whole.len() == message_payload_length);
        let payload = s.buffer.split_off(0);
        assert(payload@ =~= whole);
        assert(s.buffer@ =~= Seq::<u8>::empty());
        self.chunking_state.put(chunk_stream_id, s);
        assert(self.chunk_streams() =~= m.insert(chunk_stream_id, s@));

        let message = match Message::new(
            message_type,
            message_timestamp,
            message_stream_id,
            payload.as_slice(),
        ) {
            Ok(msg) => msg,
            Err(e) => {
                assert(message_payload_length > MAX_MESSAGE_PAYLOAD_LENGTH);
                return Err(e);
            },
        };
        assert(message@.header.payload_length == message_payload_length);
        assert(message@.payload == whole);
        Ok((header_len + read_len, Some(message)))
    }

    /// Reads chunks from the start of `input` until one completes a message.
    /// Gives the number of input bytes used and the message; or no message
    /// where `input` ends first, the bytes used being those of the whole
    /// chunks read, which have changed the chunk streams.
    pub fn recv(&mut self, input: &[u8]) -> (r: Result<(usize, Option<Message>), RtmpError>)
        ensures
            final(self).chunk_size() == old(self).chunk_size(),
            (final(self).chunk_streams(), receive_outcome(r)) == spec_recv(
                old(self).chunk_streams(),
                old(self).chunk_size(),
                input@,
            ),
    {
        let mut offset: usize = 0;
        assert(input@.skip(0) =~= input@);
        loop
            invariant
                offset <= input@.len(),
                self.chunk_size() == old(self).chunk_size(),
                spec_recv(old(self).chunk_streams(), old(self).chunk_size(), input@) == shift_recv(
                    offset as int,
                    spec_recv(self.chunk_streams(), self.chunk_size(), input@.skip(offset as int)),
                ),
            decreases input@.len() - offset,
        {
            let rest = input.split_at(offset).1;
            assert(rest@ == input@.skip(offset as int));
            let ghost before = self.chunk_streams();
            let step = self.receive_one_chunk(rest);
            if let Ok((n, _)) = step {
                assert(offset + n <= input.len());
            }
            match step {
                Err(RtmpError::NotEnoughData) => return Ok((offset, None)),
                Err(e) => return Err(e),
                Ok((n, Some(m))) => return Ok((offset + n, Some(m))),
                Ok((n, None)) => {
                    assert(rest@.skip(n as int) =~= input@.skip(offset + n));
                    offset = offset + n;
                },
            }
        }
    }

    /// The bytes that send `message` on chunk stream `chunk_stream_id`: a
    /// full chunk header, the first piece of the payload, then a
    /// continuation header before each further piece of at most the chunk
    /// size.
    pub fn send(&self, chunk_stream_id: u32, message: Message) -> (r: Vec<u8>)
        requires
            chunk_stream_id <= 63,
            self.chunk_size() > 0 || message@.payload.len() == 0,
        ensures
            r@ == spec_send(chunk_stream_id, self.chunk_size(), message@),
    {
        let message_header = *message.header();
        let payload = message.payload();
        let chunk_header = ChunkHeader {
            chunk_stream_id,
            chunk_message_header: ChunkMessageHeader::Type0 {
                timestamp: message_header.timestamp,
                message_length: message_header.payload_length,
                message_type: message_header.message_type,
                message_stream_id: message_header.stream_id,
            },
        };
        let mut buf = chunk_header.serialize();
        let max = self.config.max_chunk_payload_size;
        if message_header.payload_length <= max {
            push_all(&mut buf, payload);
        } else {
            let (first, rest) = payload.split_at(max as usize);
            push_all(&mut buf, first);
            let ghost total = spec_send(chunk_stream_id, max, message@);
            assert(first@ =~= message@.payload.take(max as int));
            assert(rest@ =~= message@.payload.skip(max as int));
            assert(rest@.skip(0) =~= rest@);
            let mut offset: usize = 0;
            while offset < rest.len()
                invariant
                    offset <= rest@.len(),
                    chunk_stream_id <= 63,
                    max > 0,
                    buf@ + spec_chunk_rest(chunk_stream_id, max, rest@.skip(offset as int)) == total,
                decreases rest@.len() - offset,
            {
                let left = rest.len() - offset;
                let k: usize = if left < max as usize {
                    left
                } else {
                    max as usize
                };
                let continuation = ChunkHeader {
                    chunk_stream_id,
                    chunk_message_header: ChunkMessageHeader::Type3,
                };
                let header_raw = continuation.serialize();
                let piece = rest.split_at(offset).1.split_at(k).0;
                proof {
                    let tail = rest@.skip(offset as int);
                    assert(header_raw@ =~= seq![continuation_header_byte(chunk_stream_id)]);
                    assert(piece@ =~= tail.take(k as int));
                    assert(tail.skip(k as int) =~= rest@.skip(offset + k));
                    assert(buf@ + header_raw@ + piece@ + spec_chunk_rest(
                        chunk_stream_id,
                        max,
                        rest@.skip(offset + k),
                    ) =~= buf@ + spec_chunk_rest(chunk_stream_id, max, tail));
                }
                push_all(&mut buf, header_raw.as_slice());
                push_all(&mut buf, piece);
                offset = offset + k;
            }
            assert(rest@.skip(offset as int) =~= Seq::<u8>::empty());
            assert(buf@ =~= total);
        }
        buf
    }
}


/// The chunk stream a receiver holds after reading the first `k` payload
/// bytes of `msg`.
pub open spec fn partial_stream(msg: MessageView, k: int) -> ChunkStreamView {
    ChunkStreamView {
        message_type: Some(msg.header.message_type),
        message_payload_length: Some(msg.header.payload_length),
        message_timestamp: Some(msg.header.timestamp),
        message_stream_id: Some(msg.header.stream_id),
        buffer: msg.payload.take(k),
    }
}

/// One continuation chunk of `msg`, read on a stream that holds its first
/// `k` payload bytes, adds the next piece, whatever bytes `tail` follow the
/// continuation chunks; it completes `msg` where that piece is the last.
#[verifier::rlimit(60)]
proof fn lemma_receive_continuation(
    m: Map<u32, ChunkStreamView>,
    chunk_stream_id: u32,
    max: u32,
    msg: MessageView,
    k: int,
    tail: Seq<u8>,
)
    requires
        2 <= chunk_stream_id <= 63,
        max > 0,
        message_view_wf(msg),
        0 < k < msg.payload.len(),
        m.contains_key(chunk_stream_id),
        m[chunk_stream_id] == partial_stream(msg, k),
    ensures
        ({
            let rest = msg.payload.skip(k);
            let kk = if rest.len() < max {
                rest.len() as int
            } else {
                max as int
            };
            let chunks = spec_chunk_rest(chunk_stream_id, max, rest);
            let input = chunks + tail;
            &&& input.skip(1 + kk) == spec_chunk_rest(chunk_stream_id, max, msg.payload.skip(k + kk))
                + tail
            &&& chunks.len() >= 1 + kk
            &&& if k + kk < msg.payload.len() {
                spec_receive_one_chunk(m, max, input) == (
                    m.insert(chunk_stream_id, partial_stream(msg, k + kk)),
                    Ok::<_, RtmpError>((1 + kk, None::<MessageView>)),
                )
            } else {
                &&& spec_receive_one_chunk(m, max, input).1 == Ok::<_, RtmpError>(
                    (1 + kk, Some(msg)),
                )
                &&& chunks.len() == 1 + kk
            }
        }),
{
    let len = msg.payload.len() as int;
    let rest = msg.payload.skip(k);
    let kk = if rest.len() < max {
        rest.len() as int
    } else {
        max as int
    };
    let later = spec_chunk_rest(chunk_stream_id, max, rest.skip(kk));
    let chunks = spec_chunk_rest(chunk_stream_id, max, rest);
    let input = chunks + tail;
    let h3 = ChunkHeader { chunk_stream_id, chunk_message_header: ChunkMessageHeader::Type3 };
    assert(spec_serialize_chunk_header(h3) =~= seq![continuation_header_byte(chunk_stream_id)]);
    assert(chunks =~= spec_serialize_chunk_header(h3) + (rest.take(kk) + later));
    assert(input =~= spec_serialize_chunk_header(h3) + (rest.take(kk) + later + tail));
    lemma_chunk_header_roundtrip(h3, rest.take(kk) + later + tail);
    assert(spec_parse_chunk_header(input) == Ok::<_, RtmpError>((h3, 1int)));
    assert(input.subrange(1, 1 + kk) =~= rest.take(kk));
    assert(msg.payload.take(k) + rest.take(kk) =~= msg.payload.take(k + kk));
    assert(input.skip(1 + kk) =~= later + tail);
    assert(rest.skip(kk) =~= msg.payload.skip(k + kk));
    if k + kk >= len {
        assert(msg.payload.take(k + kk) =~= msg.payload);
        assert(rest.skip(kk) =~= Seq::<u8>::empty());
    }
}

/// Reading the continuation chunks of `msg` after its first `k` payload
/// bytes, on a stream that holds those bytes, completes `msg` and uses the
/// continuation chunks, whatever bytes `tail` follow them.
proof fn lemma_recv_continuations(
    m: Map<u32, ChunkStreamView>,
    chunk_stream_id: u32,
    max: u32,
    msg: MessageView,
    k: int,
    tail: Seq<u8>,
)
    requires
        2 <= chunk_stream_id <= 63,
        max > 0,
        message_view_wf(msg),
        0 < k < msg.payload.len(),
        m.contains_key(chunk_stream_id),
        m[chunk_stream_id] == partial_stream(msg, k),
    ensures
        spec_recv(m, max, spec_chunk_rest(chunk_stream_id, max, msg.payload.skip(k)) + tail).1
            == Ok::<_, RtmpError>(
            (spec_chunk_rest(chunk_stream_id, max, msg.payload.skip(k)).len() as int, Some(msg)),
        ),
    decreases msg.payload.len() - k,
{
    let rest = msg.payload.skip(k);
    let kk = if rest.len() < max {
        rest.len() as int
    } else {
        max as int
    };
    lemma_receive_continuation(m, chunk_stream_id, max, msg, k, tail);
    if k + kk < msg.payload.len() {
        let m1 = m.insert(chunk_stream_id, partial_stream(msg, k + kk));
        lemma_recv_continuations(m1, chunk_stream_id, max, msg, k + kk, tail);
        let chunks = spec_chunk_rest(chunk_stream_id, max, rest);
        let later = spec_chunk_rest(chunk_stream_id, max, msg.payload.skip(k + kk));
        assert(chunks.len() == 1 + kk + later.len()) by {
            assert(rest.skip(kk) =~= msg.payload.skip(k + kk));
        }
    }
}

/// The first chunk of `msg`, read on a stream the receiver holds nothing
/// of, gives its header fields and first piece, whatever bytes `tail` follow
/// the chunks of `msg`; it completes `msg` where the payload fits one chunk.
proof fn lemma_receive_first_chunk(
    m: Map<u32, ChunkStreamView>,
    chunk_stream_id: u32,
    max: u32,
    msg: MessageView,
    tail: Seq<u8>,
)
    requires
        2 <= chunk_stream_id <= 63,
        max > 0,
        message_view_wf(msg),
        msg.header.timestamp <= 0xFF_FFFF,
        stream_or_fresh(m, chunk_stream_id) == fresh_chunk_stream(),
    ensures
        ({
            let sent = spec_send(chunk_stream_id, max, msg);
            let input = sent + tail;
            let len = msg.payload.len() as int;
            if len <= max {
                &&& spec_receive_one_chunk(m, max, input).1 == Ok::<_, RtmpError>(
                    (12 + len, Some(msg)),
                )
                &&& sent.len() == 12 + len
            } else {
                &&& spec_receive_one_chunk(m, max, input) == (
                    m.insert(chunk_stream_id, partial_stream(msg, max as int)),
                    Ok::<_, RtmpError>((12 + max, None::<MessageView>)),
                )
                &&& input.skip(12 + max) == spec_chunk_rest(
                    chunk_stream_id,
                    max,
                    msg.payload.skip(max as int),
                ) + tail
                &&& sent.len() == 12 + max + spec_chunk_rest(
                    chunk_stream_id,
                    max,
                    msg.payload.skip(max as int),
                ).len()
            }
        }),
{
    let len = msg.payload.len() as int;
    let h0 = first_chunk_header(chunk_stream_id, msg.header);
    let hb = spec_serialize_chunk_header(h0);
    let body = if msg.header.payload_length <= max {
        msg.payload
    } else {
        msg.payload.take(max as int) + spec_chunk_rest(
            chunk_stream_id,
            max,
            msg.payload.skip(max as int),
        )
    };
    let sent = spec_send(chunk_stream_id, max, msg);
    let input = sent + tail;
    assert(sent == hb + body);
    assert(input =~= hb + (body + tail));
    lemma_chunk_header_roundtrip(h0, body + tail);
    assert(hb.len() == 12);
    assert(vstd::wrapping::u32_specs::wrapping_add(msg.header.timestamp, 0) == msg.header.timestamp);
    if len <= max {
        assert(input.subrange(12, 12 + len) =~= msg.payload);
        assert(Seq::<u8>::empty() + msg.payload =~= msg.payload);
    } else {
        assert(input.subrange(12, 12 + max) =~= msg.payload.take(max as int));
        assert(Seq::<u8>::empty() + msg.payload.take(max as int) =~= msg.payload.take(max as int));
        assert(input.skip(12 + max) =~= spec_chunk_rest(chunk_stream_id, max, msg.payload.skip(max as int)) + tail);
    }
}

/// What a receiver reads of the bytes that send a message is the message:
/// sending `msg` on a chunk stream the receiver holds nothing of (ids 2 to
/// 63, timestamp within 24 bits), in chunks of the receiver's chunk size,
/// then reading those bytes, followed by any bytes `rest`, gives back `msg`
/// and uses exactly the sent bytes.
pub proof fn lemma_send_then_recv(
    m: Map<u32, ChunkStreamView>,
    chunk_stream_id: u32,
    max: u32,
    msg: MessageView,
    rest: Seq<u8>,
)
    requires
        2 <= chunk_stream_id <= 63,
        max > 0,
        message_view_wf(msg),
        msg.header.timestamp <= 0xFF_FFFF,
        stream_or_fresh(m, chunk_stream_id) == fresh_chunk_stream(),
    ensures
        spec_recv(m, max, spec_send(chunk_stream_id, max, msg) + rest).1 == Ok::<_, RtmpError>(
            (spec_send(chunk_stream_id, max, msg).len() as int, Some(msg)),
        ),
{
    let sent = spec_send(chunk_stream_id, max, msg);
    lemma_receive_first_chunk(m, chunk_stream_id, max, msg, rest);
    if msg.payload.len() > max {
        let m1 = m.insert(chunk_stream_id, partial_stream(msg, max as int));
        lemma_recv_continuations(m1, chunk_stream_id, max, msg, max as int, rest);
    }
}

/// Reading one chunk changes no chunk stream but the one its header names:
/// every other chunk stream keeps its state (so messages whose chunks are
/// interleaved over different chunk stream ids are reassembled
/// independently), and where no header can be read nothing changes.
pub proof fn lemma_receive_keeps_other_streams(
    m: Map<u32, ChunkStreamView>,
    max: u32,
    input: Seq<u8>,
)
    ensures
        match spec_parse_chunk_header(input) {
            Ok((h, _)) => spec_receive_one_chunk(m, max, input).0.remove(h.chunk_stream_id)
                == m.remove(h.chunk_stream_id),
            Err(_) => spec_receive_one_chunk(m, max, input).0 == m,
        },
{
    if let Ok((h, _)) = spec_parse_chunk_header(input) {
        let id = h.chunk_stream_id;
        assert forall|v: ChunkStreamView| #[trigger] m.insert(id, v).remove(id) == m.remove(id) by {
            assert(m.insert(id, v).remove(id) =~= m.remove(id));
        }
    }
}

/// When a chunk completes a message, its chunk stream keeps that message's
/// type, length and message stream id, and a timestamp, for later headers
/// that leave them out; only the reassembly buffer is emptied.
pub proof fn lemma_completed_stream_keeps_header(
    m: Map<u32, ChunkStreamView>,
    max: u32,
    input: Seq<u8>,
)
    ensures
        spec_parse_chunk_header(input) matches Ok((h, _)) ==> (spec_receive_one_chunk(
            m,
            max,
            input,
        ).1 matches Ok((_, Some(msg))) ==> ({
            let m1 = spec_receive_one_chunk(m, max, input).0;
            let st = m1[h.chunk_stream_id];
            &&& m1.contains_key(h.chunk_stream_id)
            &&& st.message_type == Some(msg.header.message_type)
            &&& st.message_payload_length == Some(msg.header.payload_length)
            &&& st.message_stream_id == Some(msg.header.stream_id)
            &&& st.message_timestamp is Some
            &&& st.buffer.len() == 0
        })),
{
}

/// After a chunk completes a message on a chunk stream (ids 2 to 63), the
/// next message on that stream can be sent with a format 1 header, which
/// leaves out the message stream id: a header byte `0x40 | id`, a 3-byte
/// big-endian timestamp, a 3-byte big-endian length and the type byte, then
/// a payload of at most one chunk. It is read back, whatever bytes follow,
/// with the stream id of the message before it and the header's own
/// timestamp, type and length.
pub proof fn lemma_format1_after_message(
    m: Map<u32, ChunkStreamView>,
    max: u32,
    first: Seq<u8>,
    t: u32,
    message_type: MessageType,
    payload: Seq<u8>,
    rest: Seq<u8>,
)
    requires
        spec_parse_chunk_header(first) matches Ok((h, _)) && 2 <= h.chunk_stream_id <= 63,
        spec_receive_one_chunk(m, max, first).1 matches Ok((_, Some(_))),
        t <= 0xFF_FFFF,
        payload.len() <= max,
        payload.len() <= 0xFF_FFFF,
    ensures
        ({
            let id = spec_parse_chunk_header(first)->Ok_0.0.chunk_stream_id;
            let m1 = spec_receive_one_chunk(m, max, first).0;
            let msg1 = spec_receive_one_chunk(m, max, first).1->Ok_0.1->Some_0;
            let len = payload.len();
            let bytes = seq![
                (64 + id) as u8,
                ((t / 65536) % 256) as u8,
                ((t / 256) % 256) as u8,
                (t % 256) as u8,
                ((len / 65536) % 256) as u8,
                ((len / 256) % 256) as u8,
                (len % 256) as u8,
                message_type_code(message_type),
            ] + payload + rest;
            spec_receive_one_chunk(m1, max, bytes).1 == Ok::<_, RtmpError>(
                (
                    8 + len as int,
                    Some(
                        MessageView {
                            header: MessageHeader {
                                message_type,
                                payload_length: len as u32,
                                timestamp: t,
                                stream_id: msg1.header.stream_id,
                            },
                            payload,
                        },
                    ),
                ),
            )
        }),
{
    lemma_completed_stream_keeps_header(m, max, first);
    let id = spec_parse_chunk_header(first)->Ok_0.0.chunk_stream_id;
    let len = payload.len();
    let h1 = ChunkHeader {
        chunk_stream_id: id,
        chunk_message_header: ChunkMessageHeader::Type1 {
            timestamp: t,
            message_length: len as u32,
            message_type,
        },
    };
    let bytes = seq![
        (64 + id) as u8,
        ((t / 65536) % 256) as u8,
        ((t / 256) % 256) as u8,
        (t % 256) as u8,
        ((len / 65536) % 256) as u8,
        ((len / 256) % 256) as u8,
        (len % 256) as u8,
        message_type_code(message_type),
    ] + payload + rest;
    assert(spec_serialize_chunk_header(h1) =~= seq![
        (64 + id) as u8,
        ((t / 65536) % 256) as u8,
        ((t / 256) % 256) as u8,
        (t % 256) as u8,
        ((len / 65536) % 256) as u8,
        ((len / 256) % 256) as u8,
        (len % 256) as u8,
        message_type_code(message_type),
    ]);
    lemma_chunk_header_roundtrip(h1, payload + rest);
    assert(bytes =~= spec_serialize_chunk_header(h1) + (payload + rest));
    assert(bytes.subrange(8, 8 + len as int) =~= payload);
    assert(Seq::<u8>::empty() + payload =~= payload);
}

} // verus!
