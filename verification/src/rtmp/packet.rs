//! A chunk header and the body it announces.

use vstd::prelude::*;

use crate::bytes::copy_range;
use crate::error::RtmpError;
use crate::rtmp::header::{header_readable, spec_read_header, Header};

verus! {

/// A chunk header and, where it announces a packet length, that many bytes
/// of body.
#[derive(Debug)]
pub struct Packet {
    pub header: Header,
    pub body: Option<Vec<u8>>,
}

/// The packet at the start of `s`: its header, its body where the header
/// has a packet length, and the bytes it takes.
pub open spec fn spec_read_packet(s: Seq<u8>) -> Result<(Header, Option<Seq<u8>>, int), RtmpError> {
    match spec_read_header(s) {
        Err(e) => Err(e),
        Ok((h, n)) => match h.packet_length {
            None => Ok((h, None, n)),
            Some(size) => if s.len() < n + size {
                Err(RtmpError::NotEnoughData)
            } else {
                Ok((h, Some(s.subrange(n, n + size)), n + size))
            },
        },
    }
}

impl Packet {
    /// Reads a packet from the front of `stream` and advances `stream` past
    /// it; on an error `stream` is left as it was.
    pub fn read_from(stream: &mut &[u8]) -> (r: Result<Self, RtmpError>)
        requires
            header_readable(old(stream)@),
        ensures
            match spec_read_packet(old(stream)@) {
                Ok((h, b, n)) => r matches Ok(p) && p.header == h && match b {
                    Some(bytes) => p.body matches Some(v) && v@ == bytes,
                    None => p.body is None,
                } && final(stream)@ == old(stream)@.skip(n),
                Err(e) => r matches Err(x) && x == e && final(stream)@ == old(stream)@,
            },
    {
        let data: &[u8] = *stream;
        let mut it = data;
        let header = match Header::read_from(&mut it) {
            Ok(h) => h,
            Err(e) => return Err(e),
        };
        let n = data.len() - it.len();
        let body = if let Some(size) = header.packet_length {
            let size = size as usize;
            if it.len() < size {
                return Err(RtmpError::NotEnoughData);
            }
            let buf = copy_range(data, n, n + size);
            it = data.split_at(n + size).1;
            Some(buf)
        } else {
            None
        };
        *stream = it;
        Ok(Self { header, body })
    }
}

} // verus!
