//! FLV file framing: the file header and tags.

use vstd::prelude::*;

use crate::bytes::{be24_bytes, copy_range, push_all, push_be24};
use crate::error::FlvError;

verus! {

/// The bytes of an FLV file header for audio and video, followed by the
/// size of the (absent) tag before the first one.
pub open spec fn flv_header_bytes() -> Seq<u8> {
    seq![0x46, 0x4C, 0x56, 0x01, 0x05, 0x00, 0x00, 0x00, 0x09, 0x00, 0x00, 0x00, 0x00]
}

/// Appends an FLV file header for audio and video, and the zero size of the
/// tag before the first one, to `buf`.
pub fn write_header(buf: &mut Vec<u8>)
    ensures
        final(buf)@ == old(buf)@ + flv_header_bytes(),
{
    // "FLV"
    buf.push(0x46);
    buf.push(0x4C);
    buf.push(0x56);
    // Version
    buf.push(0x01);
    // Data mask: audio and video
    buf.push(0x01 | 0x04);
    // Header size
    buf.push(0x00);
    buf.push(0x00);
    buf.push(0x00);
    buf.push(0x09);
    // Zero-th tag size (0)
    buf.push(0x00);
    buf.push(0x00);
    buf.push(0x00);
    buf.push(0x00);
    assert(0x01u8 | 0x04u8 == 0x05u8) by (bit_vector);
    assert(buf@ =~= old(buf)@ + flv_header_bytes());
}

/// An FLV tag: a type (the RTMP message type id), a timestamp and a payload
/// whose length fits in 32 bits.
#[derive(Debug)]
pub struct FlvTag {
    /// MessageTypeID
    tag_type: u8,
    /// byte order: 1 2 3 0
    timestamp: u32,
    data: Vec<u8>,
}

/// An FLV tag as a value.
pub struct FlvTagView {
    pub tag_type: u8,
    pub timestamp: u32,
    pub data: Seq<u8>,
}

impl View for FlvTag {
    type V = FlvTagView;

    closed spec fn view(&self) -> FlvTagView {
        FlvTagView { tag_type: self.tag_type, timestamp: self.timestamp, data: self.data@ }
    }
}

/// The four bytes of an FLV timestamp: the low 24 bits big-endian, then the
/// high 8 bits.
pub open spec fn flv_timestamp_bytes(t: u32) -> Seq<u8> {
    be24_bytes(t).push((t / 16777216) as u8)
}

/// The bytes of a tag: type, 24-bit data size, timestamp, a zero stream id
/// of three bytes, then the data.
pub open spec fn spec_serialize_tag(t: FlvTagView) -> Seq<u8> {
    seq![t.tag_type] + be24_bytes(t.data.len() as u32) + flv_timestamp_bytes(t.timestamp) + seq![
        0u8,
        0u8,
        0u8,
    ] + t.data
}

impl FlvTag {
    #[verifier::type_invariant]
    spec fn fits(self) -> bool {
        self.data@.len() <= u32::MAX
    }

    /// A tag of the given type and timestamp with a copy of `data`; refused
    /// when `data` is longer than a 32-bit length can describe.
    ///
    /// `timestamp` is given in the usual byte order and written in FLV's
    /// order by `serialize`.
    pub fn new(tag_type: u8, timestamp: u32, data: &[u8]) -> (r: Result<Self, FlvError>)
        ensures
            data@.len() <= u32::MAX <==> r is Ok,
            r matches Ok(t) ==> t@ == (FlvTagView { tag_type, timestamp, data: data@ }),
            r matches Err(e) ==> e == FlvError::PayloadTooLong,
    {
        if data.len() as u64 > u32::MAX as u64 {
            return Err(FlvError::PayloadTooLong);
        }
        let copy = copy_range(data, 0, data.len());
        assert(copy@ =~= data@);
        Ok(Self { tag_type, timestamp, data: copy })
    }

    /// The number of bytes the tag takes: an 11-byte tag header and the
    /// data, which is the length of what `serialize` writes.
    pub fn size(&self) -> (r: usize)
        requires
            self@.data.len() + 11 <= usize::MAX,
        ensures
            r == 11 + self@.data.len(),
            r == spec_serialize_tag(self@).len(),
    {
        11 + self.data.len()
    }

    /// The bytes of the tag.
    pub fn serialize(&self) -> (r: Vec<u8>)
        ensures
            r@ == spec_serialize_tag(self@),
    {
        proof {
            use_type_invariant(self);
        }
        let mut buf: Vec<u8> = Vec::new();
        // TagType
        buf.push(self.tag_type);
        // DataSize
        push_be24(&mut buf, self.data.len() as u32);
        // Timestamp
        push_be24(&mut buf, self.timestamp);
        buf.push((self.timestamp / 16777216) as u8);
        // StreamID
        buf.push(0);
        buf.push(0);
        buf.push(0);
        // Data
        push_all(&mut buf, self.data.as_slice());
        assert(buf@ =~= spec_serialize_tag(self@));
        buf
    }
}

} // verus!
