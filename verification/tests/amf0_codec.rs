use rtmp::amf0::number::AmfNumber;
use rtmp::amf0::read::{read_number, read_object, read_string};
use rtmp::amf0::sequence::Sequence;
use rtmp::amf0::string::AmfString;
use rtmp::amf0::value::{AmfEcmaArray, AmfObject, Value};
use rtmp::error::AmfError;

fn string_value(s: &str) -> Value {
    Value::String(AmfString::new(s).unwrap())
}

#[test]
fn amf_string_serializes_length_then_utf8() {
    let s = AmfString::new("héllo").unwrap();
    assert_eq!(s.serialize(), vec![0x00, 0x06, b'h', 0xC3, 0xA9, b'l', b'l', b'o']);
    assert_eq!(s.as_str(), "héllo");
    assert_eq!(s.to_string(), String::from("héllo"));
}

#[test]
fn amf_string_roundtrip_keeps_trailing_bytes() {
    let s = AmfString::new("Mike").unwrap();
    let mut bytes = s.serialize();
    bytes.extend_from_slice(&[0xAA, 0xBB]);
    let mut iter: &[u8] = &bytes;
    let back = AmfString::deserialize(&mut iter).unwrap();
    assert_eq!(back.as_str(), "Mike");
    assert_eq!(iter, &[0xAA, 0xBB]);
}

#[test]
fn amf_string_too_long_is_refused() {
    let long = "x".repeat(65536);
    assert_eq!(AmfString::new(&long), Err(AmfError::StringTooLong));
    let longest = "x".repeat(65535);
    assert!(AmfString::new(&longest).is_ok());
}

#[test]
fn amf_string_invalid_utf8_and_short_input() {
    let mut iter: &[u8] = &[0x00, 0x02, 0xFF, 0xFE];
    assert_eq!(AmfString::deserialize(&mut iter), Err(AmfError::InvalidUtf8));
    assert_eq!(iter.len(), 4);
    let mut iter: &[u8] = &[0x00, 0x05, b'a'];
    assert_eq!(AmfString::deserialize(&mut iter), Err(AmfError::NotEnoughData));
    let mut iter: &[u8] = &[0x00];
    assert_eq!(AmfString::deserialize(&mut iter), Err(AmfError::NotEnoughData));
}

#[test]
fn amf_number_bits_roundtrip() {
    let n = AmfNumber::new(2.5f64.to_bits());
    assert_eq!(n.serialize(), vec![0x40, 0x04, 0, 0, 0, 0, 0, 0]);
    let bytes = n.serialize();
    let mut iter: &[u8] = &bytes;
    let back = AmfNumber::deserialize(&mut iter).unwrap();
    assert_eq!(f64::from_bits(back.to_bits()), 2.5);
    assert!(iter.is_empty());
    let mut short: &[u8] = &[0x40, 0x04];
    assert_eq!(AmfNumber::deserialize(&mut short), Err(AmfError::NotEnoughData));
}

#[test]
fn value_number_string_null_roundtrip() {
    let values = [
        Value::Number(AmfNumber::new(1337.0f64.to_bits())),
        string_value("createStream"),
        Value::Null,
    ];
    for v in values.iter() {
        let bytes = v.serialize();
        let mut iter: &[u8] = &bytes;
        let back = Value::deserialize(&mut iter).unwrap();
        assert_eq!(&back, v);
        assert!(iter.is_empty());
    }
}

#[test]
fn value_booleans_and_markers() {
    let mut iter: &[u8] = &[0x01, 0x01, 0x01, 0x00, 0x09];
    assert_eq!(Value::deserialize(&mut iter).unwrap(), Value::Boolean(true));
    assert_eq!(Value::deserialize(&mut iter).unwrap(), Value::Boolean(false));
    assert_eq!(Value::deserialize(&mut iter).unwrap(), Value::ObjectEnd);
    let mut bad: &[u8] = &[0x01, 0x02];
    assert_eq!(Value::deserialize(&mut bad), Err(AmfError::InvalidBoolean(2)));
    let mut unhandled: &[u8] = &[0x0A, 0, 0, 0, 0];
    assert_eq!(Value::deserialize(&mut unhandled), Err(AmfError::UnhandledType(0x0A)));
    let mut empty: &[u8] = &[];
    assert_eq!(Value::deserialize(&mut empty), Err(AmfError::NotEnoughData));
}

#[test]
fn value_object_later_key_replaces_earlier() {
    let data: &[u8] = &[
        0x03, 0x00, 0x01, b'a', 0x05, 0x00, 0x01, b'b', 0x05, 0x00, 0x01, b'a', 0x02, 0x00, 0x01,
        b'x', 0x00, 0x00, 0x09, 0xFF,
    ];
    let mut iter = data;
    let v = Value::deserialize(&mut iter).unwrap();
    assert_eq!(iter, &[0xFF]);
    let o = v.as_object().unwrap();
    assert_eq!(o.get("a").unwrap().as_string().unwrap().as_str(), "x");
    assert_eq!(o.get("b"), Some(&Value::Null));
    assert_eq!(o.get("c"), None);
    let pairs = o.to_hashmap();
    assert_eq!(pairs.len(), 2);
    assert_eq!(pairs[0].0, "a");
    assert_eq!(pairs[1].0, "b");
}

#[test]
fn value_ecma_array_skips_count() {
    let data: &[u8] = &[
        0x08, 0x00, 0x00, 0x00, 0x01, 0x00, 0x01, b'k', 0x05, 0x00, 0x00, 0x09,
    ];
    let mut iter = data;
    let v = Value::deserialize(&mut iter).unwrap();
    assert!(iter.is_empty());
    match v {
        Value::EcmaArray(_) => {}
        other => panic!("unexpected {other:?}"),
    }
    let mut iter: &[u8] = &data[1..];
    assert!(AmfEcmaArray::deserialize(&mut iter).is_ok());
}

#[test]
fn object_serializes_pairs_then_end_marker() {
    let o = AmfObject::new(vec![(String::from("level"), string_value("status"))]).unwrap();
    let mut expected = vec![0x00, 0x05];
    expected.extend_from_slice(b"level");
    expected.extend_from_slice(&[0x02, 0x00, 0x06]);
    expected.extend_from_slice(b"status");
    expected.push(0x09);
    assert_eq!(o.serialize(), expected);
    let v = Value::Object(o);
    assert_eq!(v.serialize()[0], 0x03);
    assert!(v.is_serializable());
    assert!(!Value::Boolean(true).is_serializable());
}

#[test]
fn object_new_refuses_long_key_and_keeps_last_duplicate() {
    let long = "k".repeat(70000);
    assert_eq!(
        AmfObject::new(vec![(long, Value::Null)]).map(|_| ()),
        Err(AmfError::StringTooLong)
    );
    let o = AmfObject::new(vec![
        (String::from("a"), Value::Null),
        (String::from("a"), string_value("second")),
    ])
    .unwrap();
    assert_eq!(o.to_hashmap().len(), 1);
    assert_eq!(o.get("a").unwrap().as_string().unwrap().as_str(), "second");
}

#[test]
fn value_conversions_report_type_mismatch() {
    let v = Value::Null;
    assert_eq!(v.as_string(), Err(AmfError::TypeMismatch));
    assert_eq!(v.as_number(), Err(AmfError::TypeMismatch));
    assert_eq!(v.as_object().map(|_| ()), Err(AmfError::TypeMismatch));
    let n = Value::Number(AmfNumber::new(7));
    assert_eq!(n.as_number().unwrap().to_bits(), 7);
    let copy = n.clone();
    assert_eq!(copy, n);
}

#[test]
fn sequence_roundtrip_and_push() {
    let mut seq = Sequence::from(&[string_value("_result"), Value::Number(AmfNumber::new(0))]);
    seq.push(Value::Null);
    let bytes = seq.serialize();
    assert_eq!(bytes.len(), 10 + 9 + 1);
    let mut iter: &[u8] = &bytes;
    let back = Sequence::deserialize(&mut iter).unwrap();
    assert!(iter.is_empty());
    assert_eq!(back.serialize(), bytes);
    let empty = Sequence::new();
    assert!(empty.serialize().is_empty());
    let mut bad: &[u8] = &[0x05, 0x0B];
    assert_eq!(Sequence::deserialize(&mut bad).map(|_| ()), Err(AmfError::UnhandledType(0x0B)));
    assert_eq!(bad.len(), 2);
}

#[test]
fn read_helpers_advance_the_stream() {
    let mut stream: &[u8] = &[
        0x40, 0x00, 0, 0, 0, 0, 0, 0, 0x00, 0x02, b'o', b'k', 0x00, 0x01, b'z', 0x05, 0x00, 0x00,
        0x09,
    ];
    assert_eq!(f64::from_bits(read_number(&mut stream).unwrap().to_bits()), 2.0);
    assert_eq!(read_string(&mut stream).unwrap(), "ok");
    let pairs = read_object(&mut stream).unwrap();
    assert_eq!(pairs.len(), 1);
    assert_eq!(pairs[0].0, "z");
    assert_eq!(pairs[0].1, Value::Null);
    assert!(stream.is_empty());
}

#[test]
fn values_from_strings_and_numbers() {
    let s = Value::from(AmfString::new("_result").unwrap());
    assert_eq!(s, string_value("_result"));
    assert_eq!(s.serialize(), vec![0x02, 0x00, 0x07, b'_', b'r', b'e', b's', b'u', b'l', b't']);

    let n = Value::from(AmfNumber::new(1.5f64.to_bits()));
    assert_eq!(n.as_number().unwrap().to_bits(), 1.5f64.to_bits());
    assert_eq!(n.serialize(), vec![0x00, 0x3F, 0xF8, 0, 0, 0, 0, 0, 0]);
}

#[test]
fn numbers_compare_as_doubles() {
    let zero = AmfNumber::new(0.0f64.to_bits());
    let minus_zero = AmfNumber::new((-0.0f64).to_bits());
    let nan = AmfNumber::new(f64::NAN.to_bits());
    let one = AmfNumber::new(1.0f64.to_bits());
    assert!(zero == minus_zero);
    assert!(nan != nan);
    assert!(one == one);
    assert!(one != zero);
    assert_ne!(Value::Number(nan), Value::Number(nan));
    assert_eq!(Value::Number(zero), Value::Number(minus_zero));
}

#[test]
fn objects_compare_as_maps() {
    let ab = AmfObject::new(vec![
        (String::from("a"), string_value("x")),
        (String::from("b"), Value::Null),
    ])
    .unwrap();
    let ba = AmfObject::new(vec![
        (String::from("b"), Value::Null),
        (String::from("a"), string_value("x")),
    ])
    .unwrap();
    let a_only = AmfObject::new(vec![(String::from("a"), string_value("x"))]).unwrap();
    let ab_other = AmfObject::new(vec![
        (String::from("a"), string_value("y")),
        (String::from("b"), Value::Null),
    ])
    .unwrap();
    assert!(ab == ba);
    assert!(ab != a_only);
    assert!(a_only != ab);
    assert!(ab != ab_other);
    assert_eq!(Value::Object(ab), Value::Object(ba));

    // ECMA arrays read with their pairs in different orders.
    let one: &[u8] = &[0, 0, 0, 2, 0x00, 0x01, b'p', 0x05, 0x00, 0x01, b'q', 0x01, 0x01, 0x00, 0x00, 0x09];
    let two: &[u8] = &[0, 0, 0, 2, 0x00, 0x01, b'q', 0x01, 0x01, 0x00, 0x01, b'p', 0x05, 0x00, 0x00, 0x09];
    let mut i1 = one;
    let mut i2 = two;
    assert!(AmfEcmaArray::deserialize(&mut i1).unwrap() == AmfEcmaArray::deserialize(&mut i2).unwrap());
}
