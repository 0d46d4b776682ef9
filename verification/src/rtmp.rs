//! The RTMP protocol: chunk headers, chunk streams, messages and sessions.

pub mod chunk;
pub mod chunk_header;
pub mod connection;
pub mod constants;
pub mod handshake;
pub mod header;
pub mod message;
pub mod message_type;
pub mod packet;
pub mod session;
pub mod util;
