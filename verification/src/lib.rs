//! An RTMP ingest server library: the AMF0 value codec, FLV tag framing,
//! RTMP chunk headers, chunk stream reassembly and chunking of outbound
//! messages, the handshake and the per-connection session logic.

pub mod amf0;
pub mod bytes;
pub mod error;
pub mod flv;
pub mod rtmp;
