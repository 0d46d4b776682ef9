//! The server's side of one client connection, message by message: what
//! each inbound message changes and what the server answers.

use vstd::prelude::*;
use vstd::utf8::is_ascii_chars;

use crate::amf0::number::AmfNumber;
use crate::amf0::sequence::{spec_parse_sequence, spec_serialize_sequence, Sequence};
use crate::amf0::string::{string_fits, AmfString};
use crate::amf0::value::{
    entries_from_pairs, entries_serializable, entry_value, has_key, insert_entry, keys_distinct,
    serializable, spec_parse_value, spec_serialize_entries, spec_serialize_value, AmfObject,
    EntriesView, Value, ValueView,
};
use crate::bytes::{be32, be32_bytes, be16_bytes, lemma_be32_bytes_of_value, push_all};
use crate::error::{AmfError, RtmpError};
use crate::flv::{FlvTag, FlvTagView};
use crate::rtmp::connection::{spec_send, Connection};
use crate::rtmp::constants::{
    CONTROL_CHUNK_STREAM_ID, CONTROL_MESSAGE_STREAM_ID, MAX_MESSAGE_PAYLOAD_LENGTH,
};
use crate::rtmp::message::{
    new_message_view, set_peer_bandwidth, user_control_message, window_acknowledgement_size,
    Message, MessageHeader, MessageView,
};
use crate::rtmp::message_type::{
    message_type_code, user_control_event_code, MessageType, UserControlMessageEvent,
};

verus! {

broadcast use crate::amf0::value::lemma_value_view;

/// The double 1337.0, the client id the server announces.
pub const CLIENT_ID_NUMBER: u64 = 0x4094_E400_0000_0000;

/// The double 100.0, the stream id the server hands out.
pub const STREAM_ID_NUMBER: u64 = 0x4059_0000_0000_0000;

/// The double 0.0.
pub const ZERO_NUMBER: u64 = 0;

/// The window size the server announces and asks for.
pub const WINDOW_SIZE: u32 = 0x10000;

/// How far a client has come.
#[derive(Clone, Copy, Debug, PartialEq, Eq, Structural)]
pub enum ClientConnectionState {
    BeforeConnect,
    BeforePublish,
    BeforeMetadata,
    Running,
}

/// What the server remembers of a client connection.
#[derive(Debug)]
pub struct Session {
    pub state: ClientConnectionState,
    pub last_video_timestamp: u32,
    pub last_audio_timestamp: u32,
    pub client_id: String,
}

/// A session as a value.
pub struct SessionView {
    pub state: ClientConnectionState,
    pub last_video_timestamp: u32,
    pub last_audio_timestamp: u32,
    pub client_id: Seq<char>,
}

impl View for Session {
    type V = SessionView;

    open spec fn view(&self) -> SessionView {
        SessionView {
            state: self.state,
            last_video_timestamp: self.last_video_timestamp,
            last_audio_timestamp: self.last_audio_timestamp,
            client_id: self.client_id@,
        }
    }
}

/// What the server is to do after a message.
#[derive(Debug)]
pub struct SessionAction {
    /// A new chunk size for the connection, both ways.
    pub set_chunk_size: Option<u32>,
    /// Messages to send, in order, on the control chunk stream.
    pub outbound: Vec<Message>,
    /// The client has connected (under the session's client id).
    pub connected: bool,
    /// A tag of audio or video data for the client's recording.
    pub data: Option<FlvTag>,
    /// The client ended the stream; the connection is over.
    pub end: bool,
}

/// An action as a value.
pub struct SessionActionView {
    pub set_chunk_size: Option<u32>,
    pub outbound: Seq<MessageView>,
    pub connected: bool,
    pub data: Option<FlvTagView>,
    pub end: bool,
}

impl View for SessionAction {
    type V = SessionActionView;

    open spec fn view(&self) -> SessionActionView {
        SessionActionView {
            set_chunk_size: self.set_chunk_size,
            outbound: self.outbound@.map_values(|m: Message| m@),
            connected: self.connected,
            data: match self.data {
                Some(t) => Some(t@),
                None => None,
            },
            end: self.end,
        }
    }
}

/// An action that does nothing.
pub open spec fn no_action() -> SessionActionView {
    SessionActionView {
        set_chunk_size: None,
        outbound: Seq::empty(),
        connected: false,
        data: None,
        end: false,
    }
}

/// The next value of a payload and what follows it.
pub open spec fn next_value(p: Seq<u8>) -> Result<(ValueView, Seq<u8>), RtmpError> {
    match spec_parse_value(p) {
        Ok((v, n)) => Ok((v, p.skip(n))),
        Err(e) => Err(RtmpError::Amf(e)),
    }
}

/// The next value of a payload, which must be a string.
pub open spec fn next_string(p: Seq<u8>) -> Result<(Seq<char>, Seq<u8>), RtmpError> {
    match next_value(p) {
        Err(e) => Err(e),
        Ok((ValueView::String(c), rest)) => Ok((c, rest)),
        Ok(_) => Err(RtmpError::Amf(AmfError::TypeMismatch)),
    }
}

/// The next value of a payload, which must be a number.
pub open spec fn next_number(p: Seq<u8>) -> Result<(u64, Seq<u8>), RtmpError> {
    match next_value(p) {
        Err(e) => Err(e),
        Ok((ValueView::Number(b), rest)) => Ok((b, rest)),
        Ok(_) => Err(RtmpError::Amf(AmfError::TypeMismatch)),
    }
}

/// The next value of a payload, which must be an object.
pub open spec fn next_object(p: Seq<u8>) -> Result<(EntriesView, Seq<u8>), RtmpError> {
    match next_value(p) {
        Err(e) => Err(e),
        Ok((ValueView::Object(es), rest)) => Ok((es, rest)),
        Ok(_) => Err(RtmpError::Amf(AmfError::TypeMismatch)),
    }
}

/// The values of the answer to `connect` with transaction id `tid`.
pub open spec fn connect_result_values(tid: u64) -> Seq<ValueView> {
    seq![
        ValueView::String("_result"@),
        ValueView::Number(tid),
        ValueView::Object(
            entries_from_pairs(
                seq![("flashVer"@, ValueView::String("FMLE/3.0 (compatible; FMSc/1.0)"@))],
            ),
        ),
        ValueView::Object(
            entries_from_pairs(
                seq![
                    ("level"@, ValueView::String("status"@)),
                    ("code"@, ValueView::String("NetConnection.Connect.Success"@)),
                    ("description"@, ValueView::String("Connection succeeded"@)),
                    ("clientId"@, ValueView::Number(CLIENT_ID_NUMBER)),
                    ("objectEncoding"@, ValueView::Number(ZERO_NUMBER)),
                ],
            ),
        ),
    ]
}

/// The values of the answer to `createStream` with transaction id `tid`.
pub open spec fn create_stream_result_values(tid: u64) -> Seq<ValueView> {
    seq![
        ValueView::String("_result"@),
        ValueView::Number(tid),
        ValueView::Null,
        ValueView::Number(STREAM_ID_NUMBER),
    ]
}

/// The values of the status the server sends when publishing starts.
pub open spec fn publish_status_values() -> Seq<ValueView> {
    seq![
        ValueView::String("onStatus"@),
        ValueView::Number(ZERO_NUMBER),
        ValueView::Null,
        ValueView::Object(
            entries_from_pairs(
                seq![
                    ("level"@, ValueView::String("status"@)),
                    ("code"@, ValueView::String("NetStream.Publish.Start"@)),
                    ("description"@, ValueView::String("Connection succeeded"@)),
                ],
            ),
        ),
    ]
}

/// The command message carrying the values `vs`.
pub open spec fn command_message(vs: Seq<ValueView>) -> Result<MessageView, RtmpError> {
    let payload = spec_serialize_sequence(vs);
    if payload.len() > MAX_MESSAGE_PAYLOAD_LENGTH {
        Err(RtmpError::PayloadTooBig)
    } else {
        Ok(new_message_view(MessageType::Command, 0, CONTROL_MESSAGE_STREAM_ID, payload))
    }
}

/// The control messages the server sends once a client has connected,
/// before its answer to `connect`.
pub open spec fn connect_control_messages() -> Seq<MessageView> {
    seq![
        new_message_view(
            MessageType::WindowAcknowledgementSize,
            0,
            CONTROL_MESSAGE_STREAM_ID,
            be32_bytes(WINDOW_SIZE),
        ),
        new_message_view(
            MessageType::SetPeerBandwidth,
            0,
            CONTROL_MESSAGE_STREAM_ID,
            be32_bytes(WINDOW_SIZE).push(0),
        ),
        new_message_view(
            MessageType::UserControlMessage,
            0,
            CONTROL_MESSAGE_STREAM_ID,
            be16_bytes(user_control_event_code(UserControlMessageEvent::StreamBegin)) + seq![
                0u8,
                0u8,
                0u8,
                0u8,
            ],
        ),
    ]
}

/// What a `connect` command does to a session that waits for it.
pub open spec fn spec_handle_connect(s: SessionView, p: Seq<u8>) -> (
    SessionView,
    Result<SessionActionView, RtmpError>,
) {
    match next_string(p) {
        Err(e) => (s, Err(e)),
        Ok((command, p1)) => if command != "connect"@ {
            (s, Err(RtmpError::UnexpectedCommand))
        } else {
            match next_number(p1) {
                Err(e) => (s, Err(e)),
                Ok((tid, p2)) => match next_object(p2) {
                    Err(e) => (s, Err(e)),
                    Ok((args, _)) => match entry_value(args, "app"@) {
                        None => (s, Err(RtmpError::NoAppField)),
                        Some(ValueView::String(app)) => {
                            let s1 = SessionView { client_id: app, ..s };
                            match command_message(connect_result_values(tid)) {
                                Err(e) => (s1, Err(e)),
                                Ok(answer) => (
                                    SessionView { state: ClientConnectionState::BeforePublish, ..s1 },
                                    Ok(
                                        SessionActionView {
                                            outbound: connect_control_messages().push(answer),
                                            connected: true,
                                            ..no_action()
                                        },
                                    ),
                                ),
                            }
                        },
                        Some(_) => (s, Err(RtmpError::Amf(AmfError::TypeMismatch))),
                    },
                },
            }
        }
    }
}

/// What a command does to a session that waits for `createStream` or
/// `publish`.
pub open spec fn spec_handle_before_publish(s: SessionView, p: Seq<u8>) -> (
    SessionView,
    Result<SessionActionView, RtmpError>,
) {
    match next_string(p) {
        Err(e) => (s, Err(e)),
        Ok((command, p1)) => match next_number(p1) {
            Err(e) => (s, Err(e)),
            Ok((tid, p2)) => if command == "createStream"@ {
                match next_value(p2) {
                    Err(e) => (s, Err(e)),
                    Ok(_) => match command_message(create_stream_result_values(tid)) {
                        Err(e) => (s, Err(e)),
                        Ok(answer) => (
                            s,
                            Ok(SessionActionView { outbound: seq![answer], ..no_action() }),
                        ),
                    },
                }
            } else if command == "publish"@ {
                match next_value(p2) {
                    Err(e) => (s, Err(e)),
                    Ok((_, p3)) => match next_string(p3) {
                        Err(e) => (s, Err(e)),
                        Ok((_, p4)) => match next_string(p4) {
                            Err(e) => (s, Err(e)),
                            Ok(_) => match command_message(publish_status_values()) {
                                Err(e) => (s, Err(e)),
                                Ok(answer) => (
                                    SessionView {
                                        state: ClientConnectionState::BeforeMetadata,
                                        ..s
                                    },
                                    Ok(SessionActionView { outbound: seq![answer], ..no_action() }),
                                ),
                            },
                        },
                    },
                }
            } else {
                (s, Ok(no_action()))
            },
        },
    }
}

/// What an audio or video message does to a running session whose last tag
/// of that kind had the timestamp `last`: a tag of type `tag_type` where the
/// message is not older; the new last timestamp.
pub open spec fn spec_media(last: u32, m: MessageView, tag_type: u8) -> (
    u32,
    SessionActionView,
) {
    if m.header.timestamp < last {
        (last, no_action())
    } else {
        (
            m.header.timestamp,
            SessionActionView {
                data: Some(
                    FlvTagView { tag_type, timestamp: m.header.timestamp, data: m.payload },
                ),
                ..no_action()
            },
        )
    }
}

/// What the message `m` does to the session `s`: the new session, and what
/// the server is to do, or why the connection fails.
pub open spec fn spec_handle_message(s: SessionView, m: MessageView) -> (
    SessionView,
    Result<SessionActionView, RtmpError>,
) {
    let t = m.header.message_type;
    let p = m.payload;
    if s.state == ClientConnectionState::BeforeConnect && t == MessageType::SetChunkSize {
        if p.len() != 4 {
            (s, Err(RtmpError::InvalidChunkSize))
        } else {
            let value = be32(p[0], p[1], p[2], p[3]) as u32;
            (
                s,
                Ok(
                    SessionActionView {
                        set_chunk_size: Some(value),
                        outbound: seq![
                            new_message_view(
                                MessageType::SetChunkSize,
                                0,
                                CONTROL_MESSAGE_STREAM_ID,
                                be32_bytes(value),
                            ),
                        ],
                        ..no_action()
                    },
                ),
            )
        }
    } else if s.state == ClientConnectionState::BeforeConnect && t == MessageType::Command {
        spec_handle_connect(s, p)
    } else if s.state == ClientConnectionState::BeforePublish && t == MessageType::Command {
        spec_handle_before_publish(s, p)
    } else if s.state == ClientConnectionState::BeforeMetadata && t == MessageType::Data {
        match spec_parse_sequence(p) {
            Err(e) => (s, Err(RtmpError::Amf(e))),
            Ok(_) => (SessionView { state: ClientConnectionState::Running, ..s }, Ok(no_action())),
        }
    } else if s.state == ClientConnectionState::Running && t == MessageType::Command {
        match next_string(p) {
            Err(e) => (s, Err(e)),
            Ok((command, _)) => if command == "deleteStream"@ {
                (s, Ok(SessionActionView { end: true, ..no_action() }))
            } else {
                (s, Ok(no_action()))
            },
        }
    } else if t == MessageType::Command {
        match next_string(p) {
            Err(e) => (s, Err(e)),
            Ok((_, p1)) => match next_number(p1) {
                Err(e) => (s, Err(e)),
                Ok((_, p2)) => match next_value(p2) {
                    Err(e) => (s, Err(e)),
                    Ok(_) => (s, Ok(no_action())),
                },
            },
        }
    } else if s.state == ClientConnectionState::Running && t == MessageType::VideoPacket {
        let (last, action) = spec_media(
            s.last_video_timestamp,
            m,
            message_type_code(MessageType::VideoPacket),
        );
        (SessionView { last_video_timestamp: last, ..s }, Ok(action))
    } else if s.state == ClientConnectionState::Running && t == MessageType::AudioPacket {
        let (last, action) = spec_media(
            s.last_audio_timestamp,
            m,
            message_type_code(MessageType::AudioPacket),
        );
        (SessionView { last_audio_timestamp: last, ..s }, Ok(action))
    } else {
        (s, Ok(no_action()))
    }
}

/// What the server is to do, or why the connection fails, as a value.
pub open spec fn action_outcome(r: Result<SessionAction, RtmpError>) -> Result<
    SessionActionView,
    RtmpError,
> {
    match r {
        Ok(a) => Ok(a@),
        Err(e) => Err(e),
    }
}

/// Reads the next value of a payload.
fn read_value(iter: &mut &[u8]) -> (r: Result<Value, RtmpError>)
    ensures
        match next_value(old(iter)@) {
            Ok((v, rest)) => r matches Ok(x) && x@ == v && final(iter)@ == rest,
            Err(e) => r matches Err(x) && x == e,
        },
{
    match Value::deserialize(iter) {
        Ok(v) => Ok(v),
        Err(e) => Err(RtmpError::Amf(e)),
    }
}

/// Reads the next value of a payload, which must be a string.
fn read_string_value(iter: &mut &[u8]) -> (r: Result<AmfString, RtmpError>)
    ensures
        match next_string(old(iter)@) {
            Ok((c, rest)) => r matches Ok(x) && x@ == c && final(iter)@ == rest,
            Err(e) => r matches Err(x) && x == e,
        },
{
    let v = match read_value(iter) {
        Ok(v) => v,
        Err(e) => return Err(e),
    };
    match v.as_string() {
        Ok(s) => Ok(s),
        Err(e) => Err(RtmpError::Amf(e)),
    }
}

/// Reads the next value of a payload, which must be a number.
fn read_number_value(iter: &mut &[u8]) -> (r: Result<AmfNumber, RtmpError>)
    ensures
        match next_number(old(iter)@) {
            Ok((b, rest)) => r matches Ok(x) && x@ == b && final(iter)@ == rest,
            Err(e) => r matches Err(x) && x == e,
        },
{
    let v = match read_value(iter) {
        Ok(v) => v,
        Err(e) => return Err(e),
    };
    match v.as_number() {
        Ok(n) => Ok(n),
        Err(e) => Err(RtmpError::Amf(e)),
    }
}

/// Reads the next value of a payload, which must be an object.
fn read_object_value(iter: &mut &[u8]) -> (r: Result<AmfObject, RtmpError>)
    ensures
        match next_object(old(iter)@) {
            Ok((es, rest)) => r matches Ok(x) && x@ == es && final(iter)@ == rest,
            Err(e) => r matches Err(x) && x == e,
        },
{
    let v = match read_value(iter) {
        Ok(v) => v,
        Err(e) => return Err(e),
    };
    match v.as_object() {
        Ok(o) => Ok(o),
        Err(e) => Err(RtmpError::Amf(e)),
    }
}

/// An ASCII text of at most 65535 characters fits an AMF0 string.
proof fn lemma_ascii_fits(c: Seq<char>)
    requires
        is_ascii_chars(c),
        c.len() <= 65535,
    ensures
        string_fits(c),
{
    vstd::utf8::is_ascii_chars_encode_utf8(c);
}

/// The AMF0 string value `s`.
fn text(s: &str) -> (r: Value)
    requires
        string_fits(s@),
    ensures
        r@ == ValueView::String(s@),
{
    match AmfString::new(s) {
        Ok(a) => Value::String(a),
        Err(_) => vstd::pervasive::unreached(),
    }
}

/// The key `s` as an owned string.
fn key(s: &str) -> (r: String)
    ensures
        r@ == s@,
{
    s.to_owned()
}

/// The object made of the pairs `pairs`, whose keys are known to fit.
fn object(pairs: Vec<(String, Value)>) -> (r: Value)
    requires
        forall|i: int| 0 <= i < pairs@.len() ==> string_fits(#[trigger] pairs@[i].0@),
    ensures
        r@ == ValueView::Object(entries_from_pairs(crate::amf0::value::pairs_view(pairs@))),
{
    match AmfObject::new(pairs) {
        Ok(o) => Value::Object(o),
        Err(_) => vstd::pervasive::unreached(),
    }
}

/// The command message carrying the values of `values`.
fn command(values: Sequence) -> (r: Result<Message, RtmpError>)
    requires
        forall|i: int| 0 <= i < values@.len() ==> serializable(#[trigger] values@[i]),
    ensures
        match command_message(values@) {
            Ok(m) => r matches Ok(x) && x@ == m,
            Err(e) => r matches Err(x) && x == e,
        },
{
    let bytes = values.serialize();
    match Message::new(MessageType::Command, 0, CONTROL_MESSAGE_STREAM_ID, bytes.as_slice()) {
        Ok(m) => Ok(m),
        Err(e) => Err(e),
    }
}

/// The answer to `connect` with transaction id `tid`.
fn connect_result(tid: AmfNumber) -> (r: Result<Message, RtmpError>)
    ensures
        match command_message(connect_result_values(tid@)) {
            Ok(m) => r matches Ok(x) && x@ == m,
            Err(e) => r matches Err(x) && x == e,
        },
{
    proof {
        reveal_strlit("_result");
        reveal_strlit("flashVer");
        reveal_strlit("FMLE/3.0 (compatible; FMSc/1.0)");
        reveal_strlit("level");
        reveal_strlit("status");
        reveal_strlit("code");
        reveal_strlit("NetConnection.Connect.Success");
        reveal_strlit("description");
        reveal_strlit("Connection succeeded");
        reveal_strlit("clientId");
        reveal_strlit("objectEncoding");
        lemma_ascii_fits("_result"@);
        lemma_ascii_fits("flashVer"@);
        lemma_ascii_fits("FMLE/3.0 (compatible; FMSc/1.0)"@);
        lemma_ascii_fits("level"@);
        lemma_ascii_fits("status"@);
        lemma_ascii_fits("code"@);
        lemma_ascii_fits("NetConnection.Connect.Success"@);
        lemma_ascii_fits("description"@);
        lemma_ascii_fits("Connection succeeded"@);
        lemma_ascii_fits("clientId"@);
        lemma_ascii_fits("objectEncoding"@);
    }
    let mut version: Vec<(String, Value)> = Vec::new();
    version.push((key("flashVer"), text("FMLE/3.0 (compatible; FMSc/1.0)")));
    let ghost version_pairs = crate::amf0::value::pairs_view(version@);
    assert(version_pairs =~= seq![("flashVer"@, ValueView::String("FMLE/3.0 (compatible; FMSc/1.0)"@))]);
    let properties = object(version);

    let mut status: Vec<(String, Value)> = Vec::new();
    status.push((key("level"), text("status")));
    status.push((key("code"), text("NetConnection.Connect.Success")));
    status.push((key("description"), text("Connection succeeded")));
    status.push((key("clientId"), Value::Number(AmfNumber::new(CLIENT_ID_NUMBER))));
    status.push((key("objectEncoding"), Value::Number(AmfNumber::new(ZERO_NUMBER))));
    let ghost status_pairs = crate::amf0::value::pairs_view(status@);
    assert(status_pairs =~= seq![
        ("level"@, ValueView::String("status"@)),
        ("code"@, ValueView::String("NetConnection.Connect.Success"@)),
        ("description"@, ValueView::String("Connection succeeded"@)),
        ("clientId"@, ValueView::Number(CLIENT_ID_NUMBER)),
        ("objectEncoding"@, ValueView::Number(ZERO_NUMBER)),
    ]);
    let information = object(status);
    proof {
        crate::amf0::value::lemma_entries_from_pairs_serializable(version_pairs);
        crate::amf0::value::lemma_entries_from_pairs_serializable(status_pairs);
    }

    let mut values = Sequence::new();
    values.push(text("_result"));
    values.push(Value::Number(tid));
    values.push(properties);
    values.push(information);
    assert(values@ =~= connect_result_values(tid@));
    command(values)
}

/// The answer to `createStream` with transaction id `tid`.
fn create_stream_result(tid: AmfNumber) -> (r: Result<Message, RtmpError>)
    ensures
        match command_message(create_stream_result_values(tid@)) {
            Ok(m) => r matches Ok(x) && x@ == m,
            Err(e) => r matches Err(x) && x == e,
        },
{
    proof {
        reveal_strlit("_result");
        lemma_ascii_fits("_result"@);
    }
    let mut values = Sequence::new();
    values.push(text("_result"));
    values.push(Value::Number(tid));
    values.push(Value::Null);
    values.push(Value::Number(AmfNumber::new(STREAM_ID_NUMBER)));
    assert(values@ =~= create_stream_result_values(tid@));
    command(values)
}

/// The status the server sends when publishing starts.
fn publish_status() -> (r: Result<Message, RtmpError>)
    ensures
        match command_message(publish_status_values()) {
            Ok(m) => r matches Ok(x) && x@ == m,
            Err(e) => r matches Err(x) && x == e,
        },
{
    proof {
        reveal_strlit("onStatus");
        reveal_strlit("level");
        reveal_strlit("status");
        reveal_strlit("code");
        reveal_strlit("NetStream.Publish.Start");
        reveal_strlit("description");
        reveal_strlit("Connection succeeded");
        lemma_ascii_fits("onStatus"@);
        lemma_ascii_fits("level"@);
        lemma_ascii_fits("status"@);
        lemma_ascii_fits("code"@);
        lemma_ascii_fits("NetStream.Publish.Start"@);
        lemma_ascii_fits("description"@);
        lemma_ascii_fits("Connection succeeded"@);
    }
    let mut status: Vec<(String, Value)> = Vec::new();
    status.push((key("level"), text("status")));
    status.push((key("code"), text("NetStream.Publish.Start")));
    status.push((key("description"), text("Connection succeeded")));
    let ghost status_pairs = crate::amf0::value::pairs_view(status@);
    assert(status_pairs =~= seq![
        ("level"@, ValueView::String("status"@)),
        ("code"@, ValueView::String("NetStream.Publish.Start"@)),
        ("description"@, ValueView::String("Connection succeeded"@)),
    ]);
    let information = object(status);
    proof {
        crate::amf0::value::lemma_entries_from_pairs_serializable(status_pairs);
    }

    let mut values = Sequence::new();
    values.push(text("onStatus"));
    values.push(Value::Number(AmfNumber::new(ZERO_NUMBER)));
    values.push(Value::Null);
    values.push(information);
    assert(values@ =~= publish_status_values());
    command(values)
}

/// The action that does nothing.
fn nothing() -> (r: SessionAction)
    ensures
        r@ == no_action(),
{
    let r = SessionAction {
        set_chunk_size: None,
        outbound: Vec::new(),
        connected: false,
        data: None,
        end: false,
    };
    assert(r@.outbound =~= Seq::<MessageView>::empty());
    r
}

/// The action that sends `m`.
fn send_one(m: Message) -> (r: SessionAction)
    ensures
        r@ == (SessionActionView { outbound: seq![m@], ..no_action() }),
{
    let ghost v = m@;
    let mut outbound: Vec<Message> = Vec::new();
    outbound.push(m);
    let r = SessionAction { set_chunk_size: None, outbound, connected: false, data: None, end: false };
    assert(r@.outbound =~= seq![v]);
    r
}

impl Session {
    /// The session of a client that has just completed the handshake.
    pub fn new() -> (r: Self)
        ensures
            r@ == (SessionView {
                state: ClientConnectionState::BeforeConnect,
                last_video_timestamp: 0,
                last_audio_timestamp: 0,
                client_id: Seq::empty(),
            }),
    {
        Self {
            state: ClientConnectionState::BeforeConnect,
            last_video_timestamp: 0,
            last_audio_timestamp: 0,
            client_id: String::new(),
        }
    }

    /// Handles a `connect` command.
    fn handle_connect(&mut self, payload: &[u8]) -> (r: Result<SessionAction, RtmpError>)
        ensures
            (final(self)@, action_outcome(r)) == spec_handle_connect(old(self)@, payload@),
    {
        let mut iter: &[u8] = payload;
        // IN: `Command Message (connect)`
        let command = match read_string_value(&mut iter) {
            Ok(c) => c,
            Err(e) => return Err(e),
        };
        if !command.same_as("connect") {
            return Err(RtmpError::UnexpectedCommand);
        }
        let transmission_id = match read_number_value(&mut iter) {
            Ok(n) => n,
            Err(e) => return Err(e),
        };
        let args = match read_object_value(&mut iter) {
            Ok(o) => o,
            Err(e) => return Err(e),
        };
        let app = match args.get("app") {
            None => return Err(RtmpError::NoAppField),
            Some(v) => match v.as_string() {
                Ok(a) => a,
                Err(e) => return Err(RtmpError::Amf(e)),
            },
        };
        self.client_id = app.to_string();

        // OUT: `Window Acknowledgement Size`, `Set Peer Bandwidth`,
        // `User Control Message (StreamBegin)`
        let mut outbound: Vec<Message> = Vec::new();
        outbound.push(window_acknowledgement_size(WINDOW_SIZE));
        outbound.push(set_peer_bandwidth(WINDOW_SIZE, 0));
        let mut event_data: Vec<u8> = Vec::new();
        event_data.push(0);
        event_data.push(0);
        event_data.push(0);
        event_data.push(0);
        assert(event_data@ =~= seq![0u8, 0u8, 0u8, 0u8]);
        match user_control_message(UserControlMessageEvent::StreamBegin, event_data.as_slice()) {
            Ok(m) => outbound.push(m),
            Err(_) => vstd::pervasive::unreached(),
        }
        // OUT: `Command Message(_result - connect response)`
        let answer = match connect_result(transmission_id) {
            Ok(m) => m,
            Err(e) => return Err(e),
        };
        let ghost answer_view = answer@;
        let ghost before = outbound@.map_values(|m: Message| m@);
        assert(before =~= connect_control_messages());
        outbound.push(answer);
        assert(outbound@.map_values(|m: Message| m@) =~= connect_control_messages().push(
            answer_view,
        ));
        self.state = ClientConnectionState::BeforePublish;
        Ok(SessionAction { set_chunk_size: None, outbound, connected: true, data: None, end: false })
    }

    /// Handles a command while waiting for `createStream` or `publish`.
    fn handle_before_publish(&mut self, payload: &[u8]) -> (r: Result<SessionAction, RtmpError>)
        ensures
            (final(self)@, action_outcome(r)) == spec_handle_before_publish(old(self)@, payload@),
    {
        let mut iter: &[u8] = payload;
        let command = match read_string_value(&mut iter) {
            Ok(c) => c,
            Err(e) => return Err(e),
        };
        let transmission_id = match read_number_value(&mut iter) {
            Ok(n) => n,
            Err(e) => return Err(e),
        };
        if command.same_as("createStream") {
            let _args = match read_value(&mut iter) {
                Ok(v) => v,
                Err(e) => return Err(e),
            };
            // OUT: _result
            match create_stream_result(transmission_id) {
                Ok(m) => Ok(send_one(m)),
                Err(e) => Err(e),
            }
        } else if command.same_as("publish") {
            // Null
            let _null = match read_value(&mut iter) {
                Ok(v) => v,
                Err(e) => return Err(e),
            };
            let _publishing_name = match read_string_value(&mut iter) {
                Ok(v) => v,
                Err(e) => return Err(e),
            };
            let _publishing_type = match read_string_value(&mut iter) {
                Ok(v) => v,
                Err(e) => return Err(e),
            };
            // OUT: onStatus
            match publish_status() {
                Ok(m) => {
                    self.state = ClientConnectionState::BeforeMetadata;
                    Ok(send_one(m))
                },
                Err(e) => Err(e),
            }
        } else {
            Ok(nothing())
        }
    }

    /// Handles the message `msg`: changes the session as the message asks
    /// and says what the server is to do, or why the connection fails.
    pub fn handle_message(&mut self, msg: &Message) -> (r: Result<SessionAction, RtmpError>)
        ensures
            (final(self)@, action_outcome(r)) == spec_handle_message(old(self)@, msg@),
    {
        let message_type = msg.header().message_type;
        let timestamp = msg.header().timestamp;
        let payload = msg.payload();
        if self.state == ClientConnectionState::BeforeConnect && message_type
            == MessageType::SetChunkSize {
            // IN
            if payload.len() != 4 {
                return Err(RtmpError::InvalidChunkSize);
            }
            let value = crate::bytes::read_be32(payload, 0);
            // OUT: the same for the output
            let mut bytes: Vec<u8> = Vec::new();
            crate::bytes::push_be32(&mut bytes, value);
            let m = match Message::new(
                MessageType::SetChunkSize,
                0,  // Ignored
                CONTROL_MESSAGE_STREAM_ID,
                bytes.as_slice(),
            ) {
                Ok(m) => m,
                Err(_) => vstd::pervasive::unreached(),
            };
            let mut action = send_one(m);
            action.set_chunk_size = Some(value);
            Ok(action)
        } else if self.state == ClientConnectionState::BeforeConnect && message_type
            == MessageType::Command {
            self.handle_connect(payload)
        } else if self.state == ClientConnectionState::BeforePublish && message_type
            == MessageType::Command {
            self.handle_before_publish(payload)
        } else if self.state == ClientConnectionState::BeforeMetadata && message_type
            == MessageType::Data {
            let mut iter: &[u8] = payload;
            match Sequence::deserialize(&mut iter) {
                Ok(_data) => {
                    self.state = ClientConnectionState::Running;
                    Ok(nothing())
                },
                Err(e) => Err(RtmpError::Amf(e)),
            }
        } else if self.state == ClientConnectionState::Running && message_type
            == MessageType::Command {
            let mut iter: &[u8] = payload;
            let command = match read_string_value(&mut iter) {
                Ok(c) => c,
                Err(e) => return Err(e),
            };
            if command.same_as("deleteStream") {
                let mut action = nothing();
                action.end = true;
                Ok(action)
            } else {
                Ok(nothing())
            }
        } else if message_type == MessageType::Command {
            let mut iter: &[u8] = payload;
            let _command = match read_string_value(&mut iter) {
                Ok(c) => c,
                Err(e) => return Err(e),
            };
            let _transmission_id = match read_number_value(&mut iter) {
                Ok(n) => n,
                Err(e) => return Err(e),
            };
            let _args = match read_value(&mut iter) {
                Ok(v) => v,
                Err(e) => return Err(e),
            };
            Ok(nothing())
        } else if self.state == ClientConnectionState::Running && (message_type
            == MessageType::VideoPacket || message_type == MessageType::AudioPacket) {
            let video = message_type == MessageType::VideoPacket;
            let last = if video {
                self.last_video_timestamp
            } else {
                self.last_audio_timestamp
            };
            if timestamp < last {
                return Ok(nothing());
            }
            if video {
                self.last_video_timestamp = timestamp;
            } else {
                self.last_audio_timestamp = timestamp;
            }
            let tag = match FlvTag::new(message_type.to_u8(), timestamp, payload) {
                Ok(t) => t,
                Err(_) => vstd::pervasive::unreached(),
            };
            let mut action = nothing();
            action.data = Some(tag);
            Ok(action)
        } else {
            Ok(nothing())
        }
    }
}

/// How far a state has come, as a number.
pub open spec fn state_rank(state: ClientConnectionState) -> int {
    match state {
        ClientConnectionState::BeforeConnect => 0,
        ClientConnectionState::BeforePublish => 1,
        ClientConnectionState::BeforeMetadata => 2,
        ClientConnectionState::Running => 3,
    }
}

/// A session never goes back: no message moves it to an earlier state,
/// and a failed message leaves its state as it was.
pub proof fn lemma_state_never_goes_back(s: SessionView, m: MessageView)
    ensures
        state_rank(spec_handle_message(s, m).0.state) >= state_rank(s.state),
        spec_handle_message(s, m).1 is Err ==> spec_handle_message(s, m).0.state == s.state,
        state_rank(spec_handle_message(s, m).0.state) <= state_rank(s.state) + 1,
{
}

/// The last audio and video timestamps never decrease, and a data tag is
/// handed out only by a running session, for an audio or video message no
/// older than the last one of its kind, carrying the message's payload,
/// timestamp and type.
pub proof fn lemma_media_tags(s: SessionView, m: MessageView)
    ensures
        spec_handle_message(s, m).0.last_video_timestamp >= s.last_video_timestamp,
        spec_handle_message(s, m).0.last_audio_timestamp >= s.last_audio_timestamp,
        spec_handle_message(s, m).1 matches Ok(a) ==> a.data matches Some(tag) ==> {
            &&& s.state == ClientConnectionState::Running
            &&& m.header.message_type == MessageType::VideoPacket || m.header.message_type
                == MessageType::AudioPacket
            &&& tag.tag_type == message_type_code(m.header.message_type)
            &&& tag.timestamp == m.header.timestamp
            &&& tag.data == m.payload
            &&& m.header.message_type == MessageType::VideoPacket ==> s.last_video_timestamp
                <= tag.timestamp == spec_handle_message(s, m).0.last_video_timestamp
            &&& m.header.message_type == MessageType::AudioPacket ==> s.last_audio_timestamp
                <= tag.timestamp == spec_handle_message(s, m).0.last_audio_timestamp
        },
{
}

/// A client is announced as connected only when its `connect` command moves
/// its session from waiting for it to waiting for a stream, with the client
/// id set from the command's `app` field.
pub proof fn lemma_connected_on_connect(s: SessionView, m: MessageView)
    ensures
        spec_handle_message(s, m).1 matches Ok(a) ==> a.connected ==> {
            &&& s.state == ClientConnectionState::BeforeConnect
            &&& m.header.message_type == MessageType::Command
            &&& spec_handle_message(s, m).0.state == ClientConnectionState::BeforePublish
        },
        spec_handle_message(s, m).0.client_id != s.client_id ==> s.state
            == ClientConnectionState::BeforeConnect && m.header.message_type == MessageType::Command,
{
}

/// The bytes that send `ms` one after another on chunk stream
/// `chunk_stream_id`, in chunks of at most `max` payload bytes.
pub open spec fn spec_send_all(chunk_stream_id: u32, max: u32, ms: Seq<MessageView>) -> Seq<u8>
    decreases ms.len(),
{
    if ms.len() == 0 {
        Seq::empty()
    } else {
        spec_send_all(chunk_stream_id, max, ms.drop_last()) + spec_send(
            chunk_stream_id,
            max,
            ms.last(),
        )
    }
}

/// The chunk size a connection has after an action: the size the action
/// sets, if any, else `current`.
pub open spec fn chunk_size_after(current: u32, set_chunk_size: Option<u32>) -> u32 {
    match set_chunk_size {
        Some(v) => v,
        None => current,
    }
}

/// Carries out the connection side of a session's action on `conn`: first
/// the new chunk size, if the action sets one, which later reads and writes
/// use; then the bytes that send the `outbound` messages, in order, on the
/// control chunk stream in chunks of that size.
pub fn carry_out(conn: &mut Connection, set_chunk_size: Option<u32>, outbound: Vec<Message>) -> (r:
    Vec<u8>)
    requires
        chunk_size_after(old(conn).chunk_size(), set_chunk_size) > 0 || forall|i: int|
            0 <= i < outbound@.len() ==> (#[trigger] outbound@[i])@.payload.len() == 0,
    ensures
        final(conn).chunk_size() == chunk_size_after(old(conn).chunk_size(), set_chunk_size),
        final(conn).chunk_streams() == old(conn).chunk_streams(),
        r@ == spec_send_all(
            CONTROL_CHUNK_STREAM_ID,
            final(conn).chunk_size(),
            outbound@.map_values(|m: Message| m@),
        ),
{
    if let Some(size) = set_chunk_size {
        conn.set_chunk_size(size);
    }
    let ghost max = conn.chunk_size();
    let ghost all = outbound@;
    let ghost views = all.map_values(|m: Message| m@);
    let total = outbound.len();
    let mut rest = outbound;
    let mut bytes: Vec<u8> = Vec::new();
    let mut i: usize = 0;
    assert(views.take(0) =~= Seq::<MessageView>::empty());
    while rest.len() > 0
        invariant
            i + rest@.len() == all.len(),
            all.len() == total,
            rest@ == all.skip(i as int),
            views == all.map_values(|m: Message| m@),
            conn.chunk_size() == max,
            conn.chunk_streams() == old(conn).chunk_streams(),
            max > 0 || forall|j: int| 0 <= j < all.len() ==> (#[trigger] all[j])@.payload.len() == 0,
            bytes@ == spec_send_all(CONTROL_CHUNK_STREAM_ID, max, views.take(i as int)),
        decreases rest@.len(),
    {
        let m = rest.remove(0);
        assert(all[i as int] == m);
        let sent = conn.send(CONTROL_CHUNK_STREAM_ID, m);
        proof {
            assert(views.take(i + 1).drop_last() =~= views.take(i as int));
            assert(views.take(i + 1).last() == m@);
        }
        push_all(&mut bytes, sent.as_slice());
        i = i + 1;
        assert(rest@ =~= all.skip(i as int));
    }
    assert(views.take(i as int) =~= views);
    bytes
}

/// What a session does with the messages `ms` one after another, as a
/// connection does: the session at the end and the actions in order. It
/// stops after a message that fails (whose action is then missing) or after
/// the action that ends the stream.
pub open spec fn spec_run_session(s: SessionView, ms: Seq<MessageView>) -> (
    SessionView,
    Seq<SessionActionView>,
)
    decreases ms.len(),
{
    if ms.len() == 0 {
        (s, Seq::empty())
    } else {
        let (s1, r) = spec_handle_message(s, ms[0]);
        match r {
            Err(_) => (s1, Seq::empty()),
            Ok(a) => if a.end {
                (s1, seq![a])
            } else {
                let (s2, rest) = spec_run_session(s1, ms.skip(1));
                (s2, seq![a] + rest)
            },
        }
    }
}

/// Whether the action hands out a data tag of the given type code.
pub open spec fn has_tag(a: SessionActionView, code: u8) -> bool {
    a.data matches Some(t) && t.tag_type == code
}

/// The timestamp of the action's data tag.
pub open spec fn tag_timestamp(a: SessionActionView) -> u32 {
    a.data->Some_0.timestamp
}

/// The last timestamp a session has recorded for the tag type `code` (9 for
/// video, else audio).
pub open spec fn last_media_timestamp(s: SessionView, code: u8) -> u32 {
    if code == 9 {
        s.last_video_timestamp
    } else {
        s.last_audio_timestamp
    }
}

/// Over a whole run, the video tags handed out (type 9) have non-decreasing
/// timestamps, and so do the audio tags (type 8); each is no older than the
/// last one of its kind the session had recorded, which never decreases.
pub proof fn lemma_run_media_ordered(s: SessionView, ms: Seq<MessageView>, code: u8)
    requires
        code == 8 || code == 9,
    ensures
        forall|i: int, j: int|
            0 <= i < j < spec_run_session(s, ms).1.len() && has_tag(
                #[trigger] spec_run_session(s, ms).1[i],
                code,
            ) && has_tag(#[trigger] spec_run_session(s, ms).1[j], code) ==> tag_timestamp(
                spec_run_session(s, ms).1[i],
            ) <= tag_timestamp(spec_run_session(s, ms).1[j]),
        forall|i: int|
            0 <= i < spec_run_session(s, ms).1.len() && has_tag(
                #[trigger] spec_run_session(s, ms).1[i],
                code,
            ) ==> last_media_timestamp(s, code) <= tag_timestamp(spec_run_session(s, ms).1[i]),
        last_media_timestamp(s, code) <= last_media_timestamp(spec_run_session(s, ms).0, code),
    decreases ms.len(),
{
    if ms.len() > 0 {
        let (s1, r) = spec_handle_message(s, ms[0]);
        lemma_media_tags(s, ms[0]);
        if let Ok(a) = r {
            if has_tag(a, code) {
                assert(ms[0].header.message_type == MessageType::VideoPacket
                    || ms[0].header.message_type == MessageType::AudioPacket);
                assert(code == 9 ==> ms[0].header.message_type == MessageType::VideoPacket);
                assert(code == 8 ==> ms[0].header.message_type == MessageType::AudioPacket);
                assert(tag_timestamp(a) == last_media_timestamp(s1, code));
            }
            if !a.end {
                lemma_run_media_ordered(s1, ms.skip(1), code);
                let acts = spec_run_session(s, ms).1;
                let rest = spec_run_session(s1, ms.skip(1)).1;
                assert(acts == seq![a] + rest);
                assert forall|i: int|
                    0 <= i < acts.len() && has_tag(#[trigger] acts[i], code) implies last_media_timestamp(
                    s,
                    code,
                ) <= tag_timestamp(acts[i]) by {
                    if i > 0 {
                        assert(acts[i] == rest[i - 1]);
                    }
                }
                assert forall|i: int, j: int|
                    0 <= i < j < acts.len() && has_tag(#[trigger] acts[i], code) && has_tag(
                        #[trigger] acts[j],
                        code,
                    ) implies tag_timestamp(acts[i]) <= tag_timestamp(acts[j]) by {
                    assert(acts[j] == rest[j - 1]);
                    if i > 0 {
                        assert(acts[i] == rest[i - 1]);
                    }
                }
            }
        }
    }
}

/// A session leaves the state of waiting for `connect` only on a message
/// whose action announces the client as connected.
pub proof fn lemma_leaves_before_connect_only_by_connecting(s: SessionView, m: MessageView)
    requires
        s.state == ClientConnectionState::BeforeConnect,
        spec_handle_message(s, m).0.state != ClientConnectionState::BeforeConnect,
    ensures
        spec_handle_message(s, m).1 matches Ok(a) && a.connected,
{
}

/// Over a whole run, a client is announced as connected at most once, and
/// never by a session past waiting for `connect`; and for a session that
/// starts out waiting for `connect`, every data tag is handed out after the
/// action that announced the client as connected.
pub proof fn lemma_run_connects_once(s: SessionView, ms: Seq<MessageView>)
    ensures
        forall|i: int, j: int|
            0 <= i < j < spec_run_session(s, ms).1.len() && (#[trigger] spec_run_session(
                s,
                ms,
            ).1[i]).connected ==> !(#[trigger] spec_run_session(s, ms).1[j]).connected,
        s.state != ClientConnectionState::BeforeConnect ==> forall|i: int|
            0 <= i < spec_run_session(s, ms).1.len() ==> !(#[trigger] spec_run_session(
                s,
                ms,
            ).1[i]).connected,
        s.state == ClientConnectionState::BeforeConnect ==> forall|j: int|
            0 <= j < spec_run_session(s, ms).1.len() && (#[trigger] spec_run_session(
                s,
                ms,
            ).1[j]).data is Some ==> exists|i: int|
                0 <= i < j && (#[trigger] spec_run_session(s, ms).1[i]).connected,
    decreases ms.len(),
{
    if ms.len() > 0 {
        let (s1, r) = spec_handle_message(s, ms[0]);
        lemma_media_tags(s, ms[0]);
        lemma_connected_on_connect(s, ms[0]);
        lemma_state_never_goes_back(s, ms[0]);
        if s.state == ClientConnectionState::BeforeConnect && s1.state
            != ClientConnectionState::BeforeConnect {
            lemma_leaves_before_connect_only_by_connecting(s, ms[0]);
        }
        if let Ok(a) = r {
            if !a.end {
                lemma_run_connects_once(s1, ms.skip(1));
                let acts = spec_run_session(s, ms).1;
                let rest = spec_run_session(s1, ms.skip(1)).1;
                assert(acts == seq![a] + rest);
                assert(acts[0] == a);
                assert forall|j: int| 0 < j < acts.len() implies acts[j] == rest[j - 1] by {}
                if a.connected {
                    assert(s1.state != ClientConnectionState::BeforeConnect);
                    assert forall|j: int|
                        0 <= j < acts.len() && (#[trigger] acts[j]).data is Some implies exists|i: int|
                        0 <= i < j && (#[trigger] acts[i]).connected by {
                        assert(j > 0);
                        assert(acts[0].connected);
                    }
                } else if s.state == ClientConnectionState::BeforeConnect {
                    assert forall|j: int|
                        0 <= j < acts.len() && (#[trigger] acts[j]).data is Some implies exists|i: int|
                        0 <= i < j && (#[trigger] acts[i]).connected by {
                        assert(j > 0);
                        assert(rest[j - 1].data is Some);
                        let i0 = choose|i: int| 0 <= i < j - 1 && (#[trigger] rest[i]).connected;
                        assert(acts[i0 + 1].connected);
                    }
                }
            }
        }
    }
}

/// A character takes at most four bytes of UTF-8.
proof fn lemma_encode_utf8_len(c: Seq<char>)
    ensures
        vstd::utf8::encode_utf8(c).len() <= 4 * c.len(),
    decreases c.len(),
{
    if c.len() > 0 {
        lemma_encode_utf8_len(c.drop_first());
    }
}

/// At least as many bytes as a value is written in.
spec fn value_size_bound(v: ValueView) -> int
    decreases v,
{
    match v {
        ValueView::Number(_) => 9,
        ValueView::String(c) => 3 + 4 * (c.len() as int),
        ValueView::Null => 1,
        ValueView::Object(es) => 2 + entries_size_bound(es),
        _ => 0,
    }
}

/// At least as many bytes as pairs are written in.
spec fn entries_size_bound(es: EntriesView) -> int
    decreases es,
{
    if es.len() == 0 {
        0
    } else {
        entries_size_bound(es.drop_last()) + 2 + 4 * es.last().0.len() + value_size_bound(
            es.last().1,
        )
    }
}

/// A value is written in no more bytes than its bound.
proof fn lemma_value_size(v: ValueView)
    ensures
        spec_serialize_value(v).len() <= value_size_bound(v),
    decreases v,
{
    match v {
        ValueView::String(c) => lemma_encode_utf8_len(c),
        ValueView::Object(es) => lemma_entries_size(es),
        _ => {},
    }
}

/// Pairs are written in no more bytes than their bound.
proof fn lemma_entries_size(es: EntriesView)
    ensures
        spec_serialize_entries(es).len() <= entries_size_bound(es),
    decreases es,
{
    if es.len() > 0 {
        lemma_entries_size(es.drop_last());
        lemma_encode_utf8_len(es.last().0);
        lemma_value_size(es.last().1);
    }
}

/// Pairs each bounded by 200 bytes are bounded by 200 bytes a pair.
proof fn lemma_entries_bound_uniform(es: EntriesView)
    requires
        forall|i: int|
            0 <= i < es.len() ==> 2 + 4 * (#[trigger] es[i]).0.len() + value_size_bound(es[i].1)
                <= 200,
    ensures
        entries_size_bound(es) <= 200 * es.len(),
    decreases es.len(),
{
    if es.len() > 0 {
        let d = es.drop_last();
        assert forall|i: int| 0 <= i < d.len() implies 2 + 4 * (#[trigger] d[i]).0.len()
            + value_size_bound(d[i].1) <= 200 by {
            assert(d[i] == es[i]);
        }
        lemma_entries_bound_uniform(d);
        assert(es.last() == es[es.len() - 1]);
    }
}

/// Values each written in at most 1100 bytes are written in at most 1100
/// bytes a value.
proof fn lemma_sequence_bound_uniform(vs: Seq<ValueView>)
    requires
        forall|i: int| 0 <= i < vs.len() ==> spec_serialize_value(#[trigger] vs[i]).len() <= 1100,
    ensures
        spec_serialize_sequence(vs).len() <= 1100 * vs.len(),
    decreases vs.len(),
{
    if vs.len() > 0 {
        let d = vs.drop_last();
        assert forall|i: int| 0 <= i < d.len() implies spec_serialize_value(#[trigger] d[i]).len()
            <= 1100 by {
            assert(d[i] == vs[i]);
        }
        lemma_sequence_bound_uniform(d);
        assert(vs.last() == vs[vs.len() - 1]);
    }
}

/// Pairs with distinct keys are stored as they are given.
proof fn lemma_distinct_pairs_stored(ps: EntriesView)
    requires
        keys_distinct(ps),
    ensures
        entries_from_pairs(ps) == ps,
    decreases ps.len(),
{
    if ps.len() > 0 {
        let d = ps.drop_last();
        assert(keys_distinct(d)) by {
            assert forall|i: int, j: int|
                0 <= i < d.len() && 0 <= j < d.len() && i != j implies d[i].0 != d[j].0 by {
                assert(d[i] == ps[i] && d[j] == ps[j]);
            }
        }
        lemma_distinct_pairs_stored(d);
        assert(!has_key(d, ps.last().0)) by {
            if has_key(d, ps.last().0) {
                let j = choose|j: int| 0 <= j < d.len() && d[j].0 == ps.last().0;
                assert(d[j] == ps[j]);
                assert(ps.last() == ps[ps.len() - 1]);
            }
        }
        assert(d.push(ps.last()) =~= ps);
    }
}

/// The answers the server sends to `connect`, `createStream` and `publish`
/// always fit in a message, whatever the transaction id: none of these
/// commands is refused for the size of its answer.
pub proof fn lemma_answers_fit(tid: u64)
    ensures
        command_message(connect_result_values(tid)) is Ok,
        command_message(create_stream_result_values(tid)) is Ok,
        command_message(publish_status_values()) is Ok,
{
    reveal_strlit("_result");
    reveal_strlit("onStatus");
    reveal_strlit("flashVer");
    reveal_strlit("FMLE/3.0 (compatible; FMSc/1.0)");
    reveal_strlit("level");
    reveal_strlit("status");
    reveal_strlit("code");
    reveal_strlit("NetConnection.Connect.Success");
    reveal_strlit("NetStream.Publish.Start");
    reveal_strlit("description");
    reveal_strlit("Connection succeeded");
    reveal_strlit("clientId");
    reveal_strlit("objectEncoding");

    let version = seq![("flashVer"@, ValueView::String("FMLE/3.0 (compatible; FMSc/1.0)"@))];
    let status = seq![
        ("level"@, ValueView::String("status"@)),
        ("code"@, ValueView::String("NetConnection.Connect.Success"@)),
        ("description"@, ValueView::String("Connection succeeded"@)),
        ("clientId"@, ValueView::Number(CLIENT_ID_NUMBER)),
        ("objectEncoding"@, ValueView::Number(ZERO_NUMBER)),
    ];
    let publish = seq![
        ("level"@, ValueView::String("status"@)),
        ("code"@, ValueView::String("NetStream.Publish.Start"@)),
        ("description"@, ValueView::String("Connection succeeded"@)),
    ];
    assert forall|i: int| 0 <= i < status.len() implies (#[trigger] status[i]).0.len() == if i
        == 0 {
        5nat
    } else if i == 1 {
        4nat
    } else if i == 2 {
        11nat
    } else if i == 3 {
        8nat
    } else {
        14nat
    } by {
        if i == 0 {
        } else if i == 1 {
        } else if i == 2 {
        } else if i == 3 {
        } else {
        }
    }
    assert(keys_distinct(status)) by {
        assert forall|i: int, j: int|
            0 <= i < status.len() && 0 <= j < status.len() && i != j implies status[i].0
            != status[j].0 by {
            assert(status[i].0.len() != status[j].0.len());
        }
    }
    assert forall|i: int| 0 <= i < publish.len() implies (#[trigger] publish[i]).0.len() == if i
        == 0 {
        5nat
    } else if i == 1 {
        4nat
    } else {
        11nat
    } by {
        if i == 0 {
        } else if i == 1 {
        } else {
        }
    }
    assert(keys_distinct(publish)) by {
        assert forall|i: int, j: int|
            0 <= i < publish.len() && 0 <= j < publish.len() && i != j implies publish[i].0
            != publish[j].0 by {
            assert(publish[i].0.len() != publish[j].0.len());
        }
    }
    lemma_distinct_pairs_stored(version);
    lemma_distinct_pairs_stored(status);
    lemma_distinct_pairs_stored(publish);
    lemma_entries_bound_uniform(version);
    assert forall|i: int| 0 <= i < status.len() implies 2 + 4 * (#[trigger] status[i]).0.len()
        + value_size_bound(status[i].1) <= 200 by {
        if i == 0 {
        } else if i == 1 {
        } else if i == 2 {
        } else if i == 3 {
        } else {
        }
    }
    lemma_entries_bound_uniform(status);
    assert forall|i: int| 0 <= i < publish.len() implies 2 + 4 * (#[trigger] publish[i]).0.len()
        + value_size_bound(publish[i].1) <= 200 by {
        if i == 0 {
        } else if i == 1 {
        } else {
        }
    }
    lemma_entries_bound_uniform(publish);

    let connect = connect_result_values(tid);
    assert forall|i: int| 0 <= i < connect.len() implies spec_serialize_value(
        #[trigger] connect[i],
    ).len() <= 1100 by {
        lemma_value_size(connect[i]);
    }
    lemma_sequence_bound_uniform(connect);

    let create = create_stream_result_values(tid);
    assert forall|i: int| 0 <= i < create.len() implies spec_serialize_value(
        #[trigger] create[i],
    ).len() <= 1100 by {
        lemma_value_size(create[i]);
    }
    lemma_sequence_bound_uniform(create);

    let started = publish_status_values();
    assert forall|i: int| 0 <= i < started.len() implies spec_serialize_value(
        #[trigger] started[i],
    ).len() <= 1100 by {
        lemma_value_size(started[i]);
    }
    lemma_sequence_bound_uniform(started);
}

/// A running session hands out a tag for every audio or video message that
/// is no older than the last one of its kind (equal timestamps included): a
/// tag of type 9 for video and 8 for audio, with the message's timestamp and
/// payload, whose timestamp becomes the last one of its kind; it does
/// nothing else. A message older than the last one of its kind is dropped
/// and changes nothing.
pub proof fn lemma_running_media(s: SessionView, m: MessageView)
    requires
        s.state == ClientConnectionState::Running,
        m.header.message_type == MessageType::VideoPacket || m.header.message_type
            == MessageType::AudioPacket,
    ensures
        ({
            let video = m.header.message_type == MessageType::VideoPacket;
            let t = m.header.timestamp;
            let last = if video {
                s.last_video_timestamp
            } else {
                s.last_audio_timestamp
            };
            let (s1, r) = spec_handle_message(s, m);
            if t >= last {
                &&& r matches Ok(a) && a.data == Some(
                    FlvTagView { tag_type: if video { 9u8 } else { 8u8 }, timestamp: t, data: m.payload },
                ) && a.outbound.len() == 0 && !a.connected && !a.end && a.set_chunk_size is None
                &&& s1 == (SessionView {
                    last_video_timestamp: if video { t } else { s.last_video_timestamp },
                    last_audio_timestamp: if video { s.last_audio_timestamp } else { t },
                    ..s
                })
            } else {
                r == Ok::<_, RtmpError>(no_action()) && s1 == s
            }
        }),
{
}

/// Before `connect`, a SetChunkSize message with a four-byte payload sets
/// the chunk size to those bytes read big-endian and is echoed: the server
/// sends a SetChunkSize message with the same four bytes, timestamp 0, on
/// message stream 0, and nothing else changes. Any other payload length is
/// refused and changes nothing.
pub proof fn lemma_set_chunk_size_echo(s: SessionView, m: MessageView)
    requires
        s.state == ClientConnectionState::BeforeConnect,
        m.header.message_type == MessageType::SetChunkSize,
    ensures
        m.payload.len() != 4 ==> spec_handle_message(s, m) == (s, Err::<SessionActionView, _>(
            RtmpError::InvalidChunkSize,
        )),
        m.payload.len() == 4 ==> ({
            let p = m.payload;
            let (s1, r) = spec_handle_message(s, m);
            &&& s1 == s
            &&& r == Ok::<_, RtmpError>(
                SessionActionView {
                    set_chunk_size: Some(
                        (p[0] * 16777216 + p[1] * 65536 + p[2] * 256 + p[3]) as u32,
                    ),
                    outbound: seq![
                        MessageView {
                            header: MessageHeader {
                                message_type: MessageType::SetChunkSize,
                                payload_length: 4,
                                timestamp: 0,
                                stream_id: 0,
                            },
                            payload: p,
                        },
                    ],
                    connected: false,
                    data: None,
                    end: false,
                },
            )
        }),
{
    if m.payload.len() == 4 {
        let p = m.payload;
        lemma_be32_bytes_of_value(p[0], p[1], p[2], p[3]);
        assert(seq![p[0], p[1], p[2], p[3]] =~= p);
    }
}

/// The control messages the server sends on `connect`, each with timestamp
/// 0 on message stream 0: the window acknowledgement size 0x10000 (bytes
/// 00 01 00 00), the peer bandwidth 0x10000 with limit type 0 (00 01 00 00
/// 00), and the user control event StreamBegin (00 00) for stream 0
/// (00 00 00 00).
pub proof fn lemma_connect_control_messages()
    ensures
        connect_control_messages() == seq![
            MessageView {
                header: MessageHeader {
                    message_type: MessageType::WindowAcknowledgementSize,
                    payload_length: 4,
                    timestamp: 0,
                    stream_id: 0,
                },
                payload: seq![0u8, 1u8, 0u8, 0u8],
            },
            MessageView {
                header: MessageHeader {
                    message_type: MessageType::SetPeerBandwidth,
                    payload_length: 5,
                    timestamp: 0,
                    stream_id: 0,
                },
                payload: seq![0u8, 1u8, 0u8, 0u8, 0u8],
            },
            MessageView {
                header: MessageHeader {
                    message_type: MessageType::UserControlMessage,
                    payload_length: 6,
                    timestamp: 0,
                    stream_id: 0,
                },
                payload: seq![0u8, 0u8, 0u8, 0u8, 0u8, 0u8],
            },
        ],
{
    assert(be32_bytes(WINDOW_SIZE) =~= seq![0u8, 1u8, 0u8, 0u8]);
    assert(be32_bytes(WINDOW_SIZE).push(0) =~= seq![0u8, 1u8, 0u8, 0u8, 0u8]);
    assert(be16_bytes(0) + seq![0u8, 0u8, 0u8, 0u8] =~= seq![0u8, 0u8, 0u8, 0u8, 0u8, 0u8]);
}

} // verus!
