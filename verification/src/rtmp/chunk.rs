//! Chunk streams (what a receiver remembers per chunk stream id) and whole
//! chunks read from bytes.

use std::collections::BTreeMap;

use vstd::prelude::*;

use crate::bytes::copy_range;
use crate::error::RtmpError;
use crate::rtmp::chunk_header::{spec_parse_chunk_header, ChunkHeader};
use crate::rtmp::message_type::MessageType;

verus! {

/// What a receiver remembers of one chunk stream: the message fields the
/// last headers gave, and the payload bytes of the message being reassembled.
#[derive(Debug)]
pub struct ChunkStream {
    pub message_type: Option<MessageType>,
    pub message_payload_length: Option<u32>,
    pub message_timestamp: Option<u32>,
    pub message_stream_id: Option<u32>,
    pub buffer: Vec<u8>,
}

/// A chunk stream as a value.
pub struct ChunkStreamView {
    pub message_type: Option<MessageType>,
    pub message_payload_length: Option<u32>,
    pub message_timestamp: Option<u32>,
    pub message_stream_id: Option<u32>,
    pub buffer: Seq<u8>,
}

/// The state of a chunk stream that nothing has been received on.
pub open spec fn fresh_chunk_stream() -> ChunkStreamView {
    ChunkStreamView {
        message_type: None,
        message_payload_length: None,
        message_timestamp: None,
        message_stream_id: None,
        buffer: Seq::empty(),
    }
}

impl View for ChunkStream {
    type V = ChunkStreamView;

    open spec fn view(&self) -> ChunkStreamView {
        ChunkStreamView {
            message_type: self.message_type,
            message_payload_length: self.message_payload_length,
            message_timestamp: self.message_timestamp,
            message_stream_id: self.message_stream_id,
            buffer: self.buffer@,
        }
    }
}

impl ChunkStream {
    /// A chunk stream that nothing has been received on.
    pub fn new() -> (r: Self)
        ensures
            r@ == fresh_chunk_stream(),
    {
        Self {
            message_type: None,
            message_payload_length: None,
            message_timestamp: None,
            message_stream_id: None,
            buffer: Vec::new(),
        }
    }
}

/// The chunk streams of one connection, by chunk stream id.
#[derive(Debug)]
pub struct ChunkStreamManager {
    streams: BTreeMap<u32, ChunkStream>,
}

/// The state of chunk stream `id` in `m`: fresh where `m` has none.
pub open spec fn stream_or_fresh(m: Map<u32, ChunkStreamView>, id: u32) -> ChunkStreamView {
    if m.contains_key(id) {
        m[id]
    } else {
        fresh_chunk_stream()
    }
}

impl View for ChunkStreamManager {
    type V = Map<u32, ChunkStreamView>;

    closed spec fn view(&self) -> Map<u32, ChunkStreamView> {
        self.streams@.map_values(|s: ChunkStream| s@)
    }
}

impl ChunkStreamManager {
    /// A manager with no chunk streams.
    pub fn new() -> (r: Self)
        ensures
            r@ == Map::<u32, ChunkStreamView>::empty(),
    {
        let r = Self { streams: BTreeMap::new() };
        assert(r@ =~= Map::<u32, ChunkStreamView>::empty());
        r
    }

    /// Takes the state of chunk stream `id` out of the manager: the stored
    /// state, or a fresh one where there is none.
    pub fn take(&mut self, id: u32) -> (r: ChunkStream)
        ensures
            r@ == stream_or_fresh(old(self)@, id),
            final(self)@ == old(self)@.remove(id),
    {
        broadcast use vstd::laws_cmp::group_laws_cmp, vstd::std_specs::btree::group_btree_axioms;

        let r = match self.streams.remove(&id) {
            Some(s) => s,
            None => ChunkStream::new(),
        };
        assert(self@ =~= old(self)@.remove(id));
        r
    }

    /// Stores `stream` as the state of chunk stream `id`.
    pub fn put(&mut self, id: u32, stream: ChunkStream)
        ensures
            final(self)@ == old(self)@.insert(id, stream@),
    {
        broadcast use vstd::laws_cmp::group_laws_cmp, vstd::std_specs::btree::group_btree_axioms;

        let ghost v = stream@;
        self.streams.insert(id, stream);
        assert(self@ =~= old(self)@.insert(id, v));
    }
}

/// A chunk: its header and the payload bytes its message length announces.
#[derive(Debug)]
pub struct Chunk {
    pub header: ChunkHeader,
    pub payload: Vec<u8>,
}

/// The chunk at the start of `s` (its header, then as many payload bytes as
/// the header's message length, or none where the header has no length), and
/// how many bytes it takes.
pub open spec fn spec_read_chunk(s: Seq<u8>) -> Result<(ChunkHeader, Seq<u8>, int), RtmpError> {
    match spec_parse_chunk_header(s) {
        Err(e) => Err(e),
        Ok((h, n)) => {
            let len = match h.chunk_message_header.message_length() {
                Some(l) => l as int,
                None => 0,
            };
            if s.len() < n + len {
                Err(RtmpError::NotEnoughData)
            } else {
                Ok((h, s.subrange(n, n + len), n + len))
            }
        },
    }
}

impl Chunk {
    /// Reads one chunk from the front of `stream` and advances `stream` past
    /// it; on an error `stream` is left as it was.
    pub fn read_from(stream: &mut &[u8]) -> (r: Result<Self, RtmpError>)
        ensures
            match spec_read_chunk(old(stream)@) {
                Ok((h, p, n)) => r matches Ok(c) && c.header == h && c.payload@ == p
                    && final(stream)@ == old(stream)@.skip(n),
                Err(e) => r == Err::<Chunk, RtmpError>(e) && final(stream)@ == old(stream)@,
            },
    {
        let data: &[u8] = *stream;
        let mut it = data;
        let header = match ChunkHeader::deserialize(&mut it) {
            Ok(h) => h,
            Err(e) => return Err(e),
        };
        let n = data.len() - it.len();
        proof {
            lemma_parse_chunk_header_len(data@);
        }
        let len: usize = match header.chunk_message_header.message_length() {
            Some(l) => l as usize,
            None => 0,
        };
        if data.len() - n < len {
            return Err(RtmpError::NotEnoughData);
        }
        let payload = copy_range(data, n, n + len);
        *stream = data.split_at(n + len).1;
        Ok(Self { header, payload })
    }
}

/// A chunk header takes at least one byte and no more than the input holds.
pub proof fn lemma_parse_chunk_header_len(s: Seq<u8>)
    ensures
        spec_parse_chunk_header(s) matches Ok((h, n)) ==> 1 <= n <= s.len(),
{
}

} // verus!
