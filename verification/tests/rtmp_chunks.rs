use rtmp::error::RtmpError;
use rtmp::rtmp::chunk::{Chunk, ChunkStream, ChunkStreamManager};
use rtmp::rtmp::chunk_header::{ChunkHeader, ChunkMessageHeader, ChunkMessageHeaderType};
use rtmp::rtmp::connection::Connection;
use rtmp::rtmp::message::{
    set_peer_bandwidth, user_control_message, window_acknowledgement_size, Message,
};
use rtmp::rtmp::message_type::{MessageType, UserControlMessageEvent};
use rtmp::rtmp::util::{raw_u32_be, raw_u32_le};

fn type0(timestamp: u32, message_length: u32, message_stream_id: u32) -> ChunkMessageHeader {
    ChunkMessageHeader::Type0 {
        timestamp,
        message_length,
        message_type: MessageType::Command,
        message_stream_id,
    }
}

#[test]
fn message_type_codes() {
    assert_eq!(MessageType::try_from(0x14), Ok(MessageType::Command));
    assert_eq!(MessageType::try_from(0x0F), Ok(MessageType::DataExt));
    assert_eq!(MessageType::try_from(0x0E), Err(RtmpError::UnknownMessageType(0x0E)));
    assert_eq!(MessageType::VideoPacket.to_u8(), 0x09);
    assert_eq!(MessageType::Present.to_u8(), 0x17);
    assert_eq!(UserControlMessageEvent::StreamBegin.to_u16(), 0);
    assert_eq!(UserControlMessageEvent::try_from(0), Some(UserControlMessageEvent::StreamBegin));
    assert_eq!(UserControlMessageEvent::try_from(1), None);
}

#[test]
fn chunk_header_roundtrip_all_formats() {
    let headers = [
        ChunkHeader { chunk_stream_id: 3, chunk_message_header: type0(0x0B68, 25, 1) },
        ChunkHeader {
            chunk_stream_id: 63,
            chunk_message_header: ChunkMessageHeader::Type1 {
                timestamp: 7,
                message_length: 0xFF_FFFF,
                message_type: MessageType::VideoPacket,
            },
        },
        ChunkHeader {
            chunk_stream_id: 2,
            chunk_message_header: ChunkMessageHeader::Type2 { timestamp: 0x12_3456 },
        },
        ChunkHeader { chunk_stream_id: 4, chunk_message_header: ChunkMessageHeader::Type3 },
    ];
    for h in headers.iter() {
        let mut bytes = h.serialize();
        let n = bytes.len();
        bytes.push(0xEE);
        let mut iter: &[u8] = &bytes;
        let back = ChunkHeader::deserialize(&mut iter).unwrap();
        assert_eq!(&back, h);
        assert_eq!(iter, &[0xEE]);
        assert_eq!(bytes.len() - 1, n);
    }
}

#[test]
fn chunk_header_exact_bytes() {
    let h = ChunkHeader { chunk_stream_id: 3, chunk_message_header: type0(0x0B68, 25, 1) };
    assert_eq!(
        h.serialize(),
        vec![0x03, 0x00, 0x0B, 0x68, 0x00, 0x00, 0x19, 0x14, 0x01, 0x00, 0x00, 0x00]
    );
    let t3 = ChunkHeader { chunk_stream_id: 5, chunk_message_header: ChunkMessageHeader::Type3 };
    assert_eq!(t3.serialize(), vec![0xC5]);
}

#[test]
fn chunk_header_long_stream_ids_and_errors() {
    let mut two: &[u8] = &[0xC0, 0x10];
    let h = ChunkHeader::deserialize(&mut two).unwrap();
    assert_eq!(h.chunk_stream_id, 0x10 + 64);
    let mut three: &[u8] = &[0xC1, 0x01, 0x00];
    let h = ChunkHeader::deserialize(&mut three).unwrap();
    assert_eq!(h.chunk_stream_id, 256 + 64);
    let mut short: &[u8] = &[0x03, 0x00];
    assert_eq!(ChunkHeader::deserialize(&mut short), Err(RtmpError::NotEnoughData));
    assert_eq!(short.len(), 2);
    let mut bad_type: &[u8] = &[0x03, 0, 0, 0, 0, 0, 1, 0x0E, 0, 0, 0, 0];
    assert_eq!(ChunkHeader::deserialize(&mut bad_type), Err(RtmpError::UnknownMessageType(0x0E)));
}

#[test]
fn chunk_message_header_accessors() {
    let h = type0(1, 2, 3);
    assert_eq!(h.get_type(), ChunkMessageHeaderType::Type0);
    assert_eq!(h.timestamp(), Some(1));
    assert_eq!(h.message_length(), Some(2));
    assert_eq!(h.message_type(), Some(MessageType::Command));
    assert_eq!(h.message_stream_id(), Some(3));
    let t2 = ChunkMessageHeader::Type2 { timestamp: 9 };
    assert_eq!(t2.message_length(), None);
    assert_eq!(t2.message_stream_id(), None);
    assert_eq!(ChunkMessageHeader::Type3.timestamp(), None);
    let mut iter: &[u8] = &[0, 0, 9];
    assert_eq!(
        ChunkMessageHeader::deserialize(&mut iter, ChunkMessageHeaderType::Type2),
        Ok(t2)
    );
    assert_eq!(t2.serialize(), vec![0, 0, 9]);
}

#[test]
fn message_new_limits_payload() {
    let m = Message::new(MessageType::Data, 5, 1, &[1, 2, 3]).unwrap();
    assert_eq!(m.header().payload_length, 3);
    assert_eq!(m.header().timestamp, 5);
    assert_eq!(m.payload(), &[1, 2, 3]);
    let big = vec![0u8; 16_777_216];
    assert_eq!(Message::new(MessageType::Data, 0, 0, &big).map(|_| ()), Err(RtmpError::PayloadTooBig));
    let largest = vec![0u8; 16_777_215];
    assert!(Message::new(MessageType::Data, 0, 0, &largest).is_ok());
}

#[test]
fn control_messages_payloads() {
    let w = window_acknowledgement_size(0x10000);
    assert_eq!(w.header().message_type, MessageType::WindowAcknowledgementSize);
    assert_eq!(w.payload(), &[0x00, 0x01, 0x00, 0x00]);
    assert_eq!(w.header().stream_id, 0);
    let p = set_peer_bandwidth(0x10000, 2);
    assert_eq!(p.payload(), &[0x00, 0x01, 0x00, 0x00, 0x02]);
    let u = user_control_message(UserControlMessageEvent::StreamBegin, &[0, 0, 0, 1]).unwrap();
    assert_eq!(u.payload(), &[0, 0, 0, 0, 0, 1]);
    assert_eq!(u.header().message_type, MessageType::UserControlMessage);
}

#[test]
fn send_then_recv_gives_back_the_message() {
    let payload: Vec<u8> = (0..300u32).map(|i| (i % 251) as u8).collect();
    let msg = Message::new(MessageType::VideoPacket, 0x1234, 1, &payload).unwrap();
    let sender = Connection::new();
    let bytes = sender.send(6, msg);
    // header (12) + 128 + (1 + 128) + (1 + 44)
    assert_eq!(bytes.len(), 12 + 128 + 1 + 128 + 1 + 44);
    assert_eq!(bytes[12 + 128], 0xC6);
    let mut receiver = Connection::new();
    let (used, got) = receiver.recv(&bytes).unwrap();
    assert_eq!(used, bytes.len());
    let got = got.unwrap();
    assert_eq!(got.payload(), &payload[..]);
    assert_eq!(got.header().timestamp, 0x1234);
    assert_eq!(got.header().stream_id, 1);
    assert_eq!(got.header().message_type, MessageType::VideoPacket);
}

#[test]
fn recv_waits_for_the_rest_of_a_chunk() {
    let msg = Message::new(MessageType::Command, 0, 0, &[7u8; 200]).unwrap();
    let bytes = Connection::new().send(3, msg);
    let mut receiver = Connection::new();
    // The first chunk is whole, the second is cut short.
    let (used, got) = receiver.recv(&bytes[..150]).unwrap();
    assert_eq!(used, 12 + 128);
    assert!(got.is_none());
    let (used2, got2) = receiver.recv(&bytes[used..]).unwrap();
    assert_eq!(used + used2, bytes.len());
    assert_eq!(got2.unwrap().payload(), &[7u8; 200][..]);
}

#[test]
fn recv_errors_without_stream_state() {
    let mut receiver = Connection::new();
    // A continuation chunk on a stream nothing was received on.
    assert_eq!(receiver.recv(&[0xC3, 0x00]).map(|_| ()), Err(RtmpError::NoMessageType));
    // A format 1 header on a fresh stream has no message stream id.
    let mut r2 = Connection::new();
    let bytes = [0x44, 0, 0, 1, 0, 0, 1, 0x14, 0xAB];
    assert_eq!(r2.recv(&bytes).map(|_| ()), Err(RtmpError::NoMessageStreamId));
}

#[test]
fn recv_refuses_a_shorter_length_than_buffered() {
    let mut receiver = Connection::new();
    let mut bytes = vec![0x03, 0, 0, 0, 0, 0x01, 0x00, 0x14, 0, 0, 0, 0];
    bytes.extend_from_slice(&[1u8; 128]);
    let (_, got) = receiver.recv(&bytes).unwrap();
    assert!(got.is_none());
    let shorter = [0x43, 0, 0, 0, 0, 0, 0x10, 0x14];
    assert_eq!(receiver.recv(&shorter).map(|_| ()), Err(RtmpError::ReadTooMuch));
}

#[test]
fn recv_with_empty_input_uses_nothing() {
    let mut receiver = Connection::new();
    let (used, got) = receiver.recv(&[]).unwrap();
    assert_eq!(used, 0);
    assert!(got.is_none());
}

#[test]
fn chunk_stream_manager_take_and_put() {
    let mut m = ChunkStreamManager::new();
    let fresh = m.take(7);
    assert!(fresh.message_type.is_none());
    assert!(fresh.buffer.is_empty());
    let mut s = ChunkStream::new();
    s.message_payload_length = Some(10);
    s.buffer.push(1);
    m.put(7, s);
    let back = m.take(7);
    assert_eq!(back.message_payload_length, Some(10));
    assert_eq!(back.buffer, vec![1]);
    assert!(m.take(7).message_payload_length.is_none());
}

#[test]
fn chunk_read_from_reads_announced_payload() {
    let mut data: &[u8] = &[0x03, 0, 0, 1, 0, 0, 2, 0x14, 0, 0, 0, 0, 0xAA, 0xBB, 0xCC];
    let c = Chunk::read_from(&mut data).unwrap();
    assert_eq!(c.payload, vec![0xAA, 0xBB]);
    assert_eq!(data, &[0xCC]);
    let mut short: &[u8] = &[0x03, 0, 0, 1, 0, 0, 5, 0x14, 0, 0, 0, 0, 0xAA];
    assert_eq!(Chunk::read_from(&mut short).map(|_| ()), Err(RtmpError::NotEnoughData));
    assert_eq!(short.len(), 13);
}

#[test]
fn raw_integers() {
    assert_eq!(raw_u32_be(&[0x00, 0x0B, 0x68]), 0x0B68);
    assert_eq!(raw_u32_be(&[0x12, 0x34, 0x56, 0x78]), 0x1234_5678);
    assert_eq!(raw_u32_be(&[]), 0);
    assert_eq!(raw_u32_le(&[0x78, 0x56, 0x34, 0x12]), 0x1234_5678);
    assert_eq!(raw_u32_le(&[0x01, 0x00]), 1);
}

#[test]
fn send_with_chunk_size_two() {
    let mut conn = Connection::new();
    conn.set_chunk_size(2);
    let m = Message::new(MessageType::Command, 0x000102, 1, &[0x0A, 0x0B, 0x0C, 0x0D, 0x0E]).unwrap();
    assert_eq!(
        conn.send(3, m),
        vec![
            0x03, 0x00, 0x01, 0x02, 0x00, 0x00, 0x05, 0x14, 0x01, 0x00, 0x00, 0x00, 0x0A, 0x0B,
            0xC3, 0x0C, 0x0D, 0xC3, 0x0E,
        ]
    );
}

#[test]
fn recv_uses_the_chunk_size_set_and_leaves_trailing_bytes() {
    let mut sender = Connection::new();
    sender.set_chunk_size(2);
    let payload = [1u8, 2, 3, 4, 5];
    let m = Message::new(MessageType::AudioPacket, 9, 1, &payload).unwrap();
    let mut bytes = sender.send(5, m);
    let sent = bytes.len();
    bytes.extend_from_slice(&[0xAA, 0xBB]);

    // A receiver still at the default size reads all five bytes as one piece
    // and so takes continuation headers for payload.
    let mut default_size = Connection::new();
    let (_, got) = default_size.recv(&bytes).unwrap();
    assert_ne!(got.map(|g| g.payload().to_vec()), Some(payload.to_vec()));

    let mut receiver = Connection::new();
    receiver.set_chunk_size(2);
    assert_eq!(receiver.config.max_chunk_payload_size, 2);
    let (used, got) = receiver.recv(&bytes).unwrap();
    assert_eq!(used, sent);
    let got = got.unwrap();
    assert_eq!(got.payload(), &payload[..]);
    assert_eq!(got.header().timestamp, 9);
    assert_eq!(got.header().message_type, MessageType::AudioPacket);
}

#[test]
fn interleaved_chunk_streams_are_reassembled_apart() {
    let mut sender = Connection::new();
    sender.set_chunk_size(2);
    let a = sender.send(3, Message::new(MessageType::Command, 0, 0, &[1, 2, 3, 4]).unwrap());
    let b = sender.send(4, Message::new(MessageType::Data, 0, 0, &[9, 8]).unwrap());
    // a's first chunk, then all of b, then a's continuation.
    let mut bytes = a[..14].to_vec();
    bytes.extend_from_slice(&b);
    bytes.extend_from_slice(&a[14..]);

    let mut receiver = Connection::new();
    receiver.set_chunk_size(2);
    let (used, got) = receiver.recv(&bytes).unwrap();
    assert_eq!(used, 14 + b.len());
    let got = got.unwrap();
    assert_eq!(got.header().message_type, MessageType::Data);
    assert_eq!(got.payload(), &[9, 8]);
    let (used2, got2) = receiver.recv(&bytes[used..]).unwrap();
    assert_eq!(used + used2, bytes.len());
    let got2 = got2.unwrap();
    assert_eq!(got2.header().message_type, MessageType::Command);
    assert_eq!(got2.payload(), &[1, 2, 3, 4]);
}

#[test]
fn little_endian_is_big_endian_reversed() {
    assert_eq!(raw_u32_le(&[0x01, 0x00, 0x00, 0x00]), 1);
    assert_eq!(raw_u32_le(&[0x00, 0x00, 0x00, 0x01]), 0x0100_0000);
    let bytes = [0x12u8, 0x34, 0x56];
    let mut reversed = bytes;
    reversed.reverse();
    assert_eq!(raw_u32_le(&bytes), raw_u32_be(&reversed));
    assert_eq!(raw_u32_le(&bytes), 0x0056_3412);
}
