use rtmp::amf0::value::Value;
use rtmp::rtmp::header::{ChunkHeaderType, Header};
use rtmp::rtmp::message_type::MessageType;
use rtmp::rtmp::packet::Packet;

#[test]
fn test_value_read_string() {
    let data: &[u8] = &[0x02, 0x00, 0x04, 0x4d, 0x69, 0x6b, 0x65];

    let mut iter = data;
    let value = Value::deserialize(&mut iter).unwrap();

    assert_eq!(value.as_string().unwrap().as_str(), "Mike");
}

#[test]
fn test_value_read_object() {
    let data: &[u8] = &[
        0x03, // Object
        0x00, 0x04, 0x6e, 0x61, 0x6d, 0x65, // Key "name"
        0x02, 0x00, 0x04, 0x4d, 0x69, 0x6b, 0x65, // String
        0x00, 0x03, 0x61, 0x67, 0x65, // Key "age"
        0x00, 0x40, 0x3e, 0x00, 0x00, 0x00, 0x00, 0x00, 0x00, // Number
        0x00, 0x05, 0x61, 0x6c, 0x69, 0x61, 0x73, // Key "alias"
        0x02, 0x00, 0x04, 0x4d, 0x69, 0x6b, 0x65, // String
        0x00, 0x00, // Empty key
        0x09, // Object end
    ];

    let mut iter = data;
    let v = Value::deserialize(&mut iter).unwrap();

    println!("{v:#?}");
}

#[test]
fn test_read_seq() {
    let data: &[u8] = &[
        0x02, 0x00, 0x0C, 0x63, 0x72, 0x65, 0x61, 0x74, 0x65, 0x53, 0x74, 0x72, 0x65, 0x61,
        0x6D, // String
        0x00, 0x40, 0x00, 0x00, 0x00, 0x00, 0x00, 0x00, 0x00, // Number
        0x05, // Null
    ];

    let mut iter = data;

    assert_eq!(
        Value::deserialize(&mut iter)
            .unwrap()
            .as_string()
            .unwrap()
            .as_str(),
        "createStream"
    );
    assert_eq!(
        f64::from_bits(
            Value::deserialize(&mut iter)
                .unwrap()
                .as_number()
                .unwrap()
                .to_bits()
        ),
        2.0
    );
    assert_eq!(Value::deserialize(&mut iter).unwrap(), Value::Null);
}

#[test]
fn test_read_from() {
    // ␃ ␀ @ I ␀ ␀ ␙ ␔ ␀ ␀ ␀ ␀ ␂ ␀ ␌ c r e a t e S t r e a m ␀ @ ␀ ␀ ␀ ␀ ␀ ␀ ␀ ␅
    let mut data: &[u8] = &[
        0x03, 0x00, 0x0B, 0x68, 0x00, 0x00, 0x19, 0x14, 0x00, 0x00, 0x00, 0x00, 0x02, 0x00,
        0x0C, 0x63, 0x72, 0x65, 0x61, 0x74, 0x65, 0x53, 0x74, 0x72, 0x65, 0x61, 0x6D, 0x00,
        0x40, 0x00, 0x00, 0x00, 0x00, 0x00, 0x00, 0x00, 0x05,
    ];

    let header = Header::read_from(&mut data).unwrap();

    assert_eq!(header.header_length, 12);
    assert_eq!(header.chunk_header_type, ChunkHeaderType::Full);
    assert_eq!(header.timestamp_delta, Some(0x00_0b_68));
    assert_eq!(header.message_type, Some(MessageType::Command));
    assert_eq!(header.packet_length, Some(25));
}

#[test]
fn test_packet() {
    // ␃ ␀ @ I ␀ ␀ ␙ ␔ ␀ ␀ ␀ ␀ ␂ ␀ ␌ c r e a t e S t r e a m ␀ @ ␀ ␀ ␀ ␀ ␀ ␀ ␀ ␅
    let mut data: &[u8] = &[
        0x03, 0x00, 0x0B, 0x68, 0x00, 0x00, 0x19, 0x14, 0x00, 0x00, 0x00, 0x00, 0x02, 0x00,
        0x0C, 0x63, 0x72, 0x65, 0x61, 0x74, 0x65, 0x53, 0x74, 0x72, 0x65, 0x61, 0x6D, 0x00,
        0x40, 0x00, 0x00, 0x00, 0x00, 0x00, 0x00, 0x00, 0x05,
    ];

    let _packet = Packet::read_from(&mut data).unwrap();
}
