use rtmp::amf0::number::AmfNumber;
use rtmp::amf0::sequence::Sequence;
use rtmp::amf0::string::AmfString;
use rtmp::amf0::value::{AmfObject, Value};
use rtmp::error::{AmfError, RtmpError};
use rtmp::flv::{write_header, FlvTag};
use rtmp::rtmp::handshake::{handshake, HandshakeStage};
use rtmp::rtmp::message::Message;
use rtmp::rtmp::message_type::MessageType;
use rtmp::rtmp::connection::Connection;
use rtmp::rtmp::session::{
    carry_out, ClientConnectionState, Session, CLIENT_ID_NUMBER, STREAM_ID_NUMBER, ZERO_NUMBER,
};

fn text(s: &str) -> Value {
    Value::String(AmfString::new(s).unwrap())
}

fn number(x: f64) -> Value {
    Value::Number(AmfNumber::new(x.to_bits()))
}

fn command(values: Vec<Value>) -> Message {
    let mut seq = Sequence::new();
    for v in values {
        seq.push(v);
    }
    let payload = seq.serialize();
    Message::new(MessageType::Command, 0, 0, &payload).unwrap()
}

fn connect_message(app: &str) -> Message {
    // The args object written as AMF0 expects it: pairs, empty key, end marker.
    let mut payload = Sequence::from(&[text("connect"), number(1.0)]).serialize();
    payload.push(0x03);
    payload.extend_from_slice(&[0x00, 0x03]);
    payload.extend_from_slice(b"app");
    payload.extend_from_slice(&text(app).serialize());
    payload.extend_from_slice(&[0x00, 0x00, 0x09]);
    Message::new(MessageType::Command, 0, 0, &payload).unwrap()
}

fn decode_all(bytes: &[u8]) -> Vec<Value> {
    let mut iter = bytes;
    let mut out = Vec::new();
    while !iter.is_empty() {
        out.push(Value::deserialize(&mut iter).unwrap());
    }
    out
}

#[test]
fn number_constants_are_the_doubles() {
    assert_eq!(CLIENT_ID_NUMBER, 1337.0f64.to_bits());
    assert_eq!(STREAM_ID_NUMBER, 100.0f64.to_bits());
    assert_eq!(ZERO_NUMBER, 0.0f64.to_bits());
}

#[test]
fn session_set_chunk_size_before_connect() {
    let mut s = Session::new();
    let m = Message::new(MessageType::SetChunkSize, 0, 0, &[0, 0, 0x10, 0]).unwrap();
    let a = s.handle_message(&m).unwrap();
    assert_eq!(a.set_chunk_size, Some(4096));
    assert_eq!(a.outbound.len(), 1);
    assert_eq!(a.outbound[0].header().message_type, MessageType::SetChunkSize);
    assert_eq!(a.outbound[0].payload(), &[0, 0, 0x10, 0]);
    let bad = Message::new(MessageType::SetChunkSize, 0, 0, &[0, 1]).unwrap();
    assert_eq!(s.handle_message(&bad).map(|_| ()), Err(RtmpError::InvalidChunkSize));
    assert_eq!(s.state, ClientConnectionState::BeforeConnect);
}

#[test]
fn session_connect_answers_and_sets_client_id() {
    let mut s = Session::new();
    let a = s.handle_message(&connect_message("live")).unwrap();
    assert_eq!(s.state, ClientConnectionState::BeforePublish);
    assert_eq!(s.client_id, "live");
    assert!(a.connected);
    assert_eq!(a.outbound.len(), 4);
    assert_eq!(a.outbound[0].header().message_type, MessageType::WindowAcknowledgementSize);
    assert_eq!(a.outbound[1].payload(), &[0x00, 0x01, 0x00, 0x00, 0x00]);
    assert_eq!(a.outbound[2].payload(), &[0, 0, 0, 0, 0, 0]);
    let answer = &a.outbound[3];
    assert_eq!(answer.header().message_type, MessageType::Command);
    let mut iter = answer.payload();
    assert_eq!(Value::deserialize(&mut iter).unwrap(), text("_result"));
    assert_eq!(Value::deserialize(&mut iter).unwrap(), number(1.0));
    assert_eq!(iter[0], 0x03);
}

#[test]
fn session_connect_errors() {
    let mut s = Session::new();
    let wrong = command(vec![text("play"), number(1.0)]);
    assert_eq!(s.handle_message(&wrong).map(|_| ()), Err(RtmpError::UnexpectedCommand));
    let no_number = command(vec![text("connect"), text("x")]);
    assert_eq!(
        s.handle_message(&no_number).map(|_| ()),
        Err(RtmpError::Amf(AmfError::TypeMismatch))
    );
    let mut payload = Sequence::from(&[text("connect"), number(1.0)]).serialize();
    payload.extend_from_slice(&[0x03, 0x00, 0x00, 0x09]);
    let no_app = Message::new(MessageType::Command, 0, 0, &payload).unwrap();
    assert_eq!(s.handle_message(&no_app).map(|_| ()), Err(RtmpError::NoAppField));
    assert_eq!(s.state, ClientConnectionState::BeforeConnect);
}

#[test]
fn session_create_stream_publish_data_and_media() {
    let mut s = Session::new();
    s.handle_message(&connect_message("app")).unwrap();

    let create = command(vec![text("createStream"), number(2.0), Value::Null]);
    let a = s.handle_message(&create).unwrap();
    assert_eq!(a.outbound.len(), 1);
    let values = decode_all(a.outbound[0].payload());
    assert_eq!(values, vec![text("_result"), number(2.0), Value::Null, number(100.0)]);
    assert_eq!(s.state, ClientConnectionState::BeforePublish);

    let other = command(vec![text("releaseStream"), number(3.0)]);
    assert!(s.handle_message(&other).unwrap().outbound.is_empty());

    let publish = command(vec![
        text("publish"),
        number(4.0),
        Value::Null,
        text("name"),
        text("live"),
    ]);
    let a = s.handle_message(&publish).unwrap();
    assert_eq!(s.state, ClientConnectionState::BeforeMetadata);
    let mut iter = a.outbound[0].payload();
    assert_eq!(Value::deserialize(&mut iter).unwrap(), text("onStatus"));
    assert_eq!(Value::deserialize(&mut iter).unwrap(), number(0.0));
    assert_eq!(Value::deserialize(&mut iter).unwrap(), Value::Null);

    let data_payload = Sequence::from(&[text("@setDataFrame"), Value::Null]).serialize();
    let data = Message::new(MessageType::Data, 0, 1, &data_payload).unwrap();
    s.handle_message(&data).unwrap();
    assert_eq!(s.state, ClientConnectionState::Running);

    let video = Message::new(MessageType::VideoPacket, 40, 1, &[0x17, 0x01]).unwrap();
    let a = s.handle_message(&video).unwrap();
    let tag = a.data.unwrap();
    assert_eq!(tag.size(), 13);
    assert_eq!(tag.serialize(), vec![0x09, 0, 0, 2, 0, 0, 40, 0, 0, 0, 0, 0x17, 0x01]);
    assert_eq!(s.last_video_timestamp, 40);

    let older = Message::new(MessageType::VideoPacket, 39, 1, &[0x17]).unwrap();
    assert!(s.handle_message(&older).unwrap().data.is_none());
    assert_eq!(s.last_video_timestamp, 40);

    let audio = Message::new(MessageType::AudioPacket, 10, 1, &[0xAF]).unwrap();
    let tag = s.handle_message(&audio).unwrap().data.unwrap();
    assert_eq!(tag.serialize()[0], 0x08);
    assert_eq!(s.last_audio_timestamp, 10);

    let delete = command(vec![text("deleteStream"), number(5.0), Value::Null]);
    assert!(s.handle_message(&delete).unwrap().end);
}

#[test]
fn session_ignores_media_before_running() {
    let mut s = Session::new();
    let video = Message::new(MessageType::VideoPacket, 40, 1, &[0x17]).unwrap();
    let a = s.handle_message(&video).unwrap();
    assert!(a.data.is_none() && a.outbound.is_empty() && !a.end);
    assert_eq!(s.last_video_timestamp, 0);
}

#[test]
fn flv_tag_and_header_bytes() {
    let tag = FlvTag::new(9, 0x0102_0304, &[0xAA]).unwrap();
    assert_eq!(tag.size(), 12);
    assert_eq!(tag.serialize(), vec![0x09, 0, 0, 1, 0x02, 0x03, 0x04, 0x01, 0, 0, 0, 0xAA]);
    let mut buf = Vec::new();
    write_header(&mut buf);
    assert_eq!(buf, vec![b'F', b'L', b'V', 1, 5, 0, 0, 0, 9, 0, 0, 0, 0]);
}

#[test]
fn handshake_steps() {
    let (stage, s0s1) = handshake(HandshakeStage::AwaitC0, &[0x03], 0x0102_0304).unwrap();
    assert_eq!(stage, HandshakeStage::AwaitC1);
    assert_eq!(s0s1.len(), 1 + 1536);
    assert_eq!(&s0s1[..5], &[0x03, 0x01, 0x02, 0x03, 0x04]);
    assert!(s0s1[5..].iter().all(|b| *b == 0));

    let c1: Vec<u8> = (0..1536u32).map(|i| (i % 256) as u8).collect();
    let (stage, s2) = handshake(HandshakeStage::AwaitC1, &c1, 7).unwrap();
    assert_eq!(stage, HandshakeStage::AwaitC2);
    assert_eq!(&s2[..4], &c1[..4]);
    assert_eq!(&s2[4..8], &[0, 0, 0, 7]);
    assert_eq!(&s2[8..], &c1[8..]);

    let mut c2 = vec![0u8; 1536];
    c2[0] = 9;
    let (stage, out) = handshake(HandshakeStage::AwaitC2, &c2, 0).unwrap();
    assert_eq!(stage, HandshakeStage::Done);
    assert!(out.is_empty());
    c2[100] = 1;
    assert_eq!(handshake(HandshakeStage::AwaitC2, &c2, 0), Err(RtmpError::SignatureMismatch));
    assert_eq!(handshake(HandshakeStage::AwaitC0, &[0x06], 0), Err(RtmpError::WrongVersion(6)));
}

#[test]
fn object_answer_has_no_empty_key_before_end() {
    // An object is written as its pairs then the end marker alone.
    let o = AmfObject::new(vec![(String::from("k"), Value::Null)]).unwrap();
    let bytes = Value::Object(o).serialize();
    assert_eq!(bytes, vec![0x03, 0x00, 0x01, b'k', 0x05, 0x09]);
    let mut iter: &[u8] = &bytes;
    assert!(Value::deserialize(&mut iter).is_err());
}

#[test]
fn carrying_out_a_chunk_size_change_uses_the_new_size() {
    let mut s = Session::new();
    let m = Message::new(MessageType::SetChunkSize, 0, 0, &[0, 0, 0, 2]).unwrap();
    let a = s.handle_message(&m).unwrap();
    let mut conn = Connection::new();
    let bytes = carry_out(&mut conn, a.set_chunk_size, a.outbound);
    assert_eq!(conn.config.max_chunk_payload_size, 2);
    // The echoed SetChunkSize, on the control chunk stream, in chunks of two.
    assert_eq!(
        bytes,
        vec![0x02, 0, 0, 0, 0, 0, 4, 0x01, 0, 0, 0, 0, 0, 0, 0xC2, 0, 2]
    );

    // Without a size change the size stays and nothing is sent.
    let bytes = carry_out(&mut conn, None, Vec::new());
    assert!(bytes.is_empty());
    assert_eq!(conn.config.max_chunk_payload_size, 2);
}

#[test]
fn flv_tag_size_is_its_serialized_length() {
    let tag = FlvTag::new(9, 0x0102_0304, &[1, 2, 3]).unwrap();
    assert_eq!(tag.size(), 14);
    assert_eq!(tag.size(), tag.serialize().len());
}
