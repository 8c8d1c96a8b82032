use bytes::BytesMut;
use psyk::codec::{BincodeCodec, CodecError, JsonCodec};
use std::cell::Cell;

fn json_error() -> serde_json::Error {
    serde_json::from_str::<u32>("not a number").unwrap_err()
}

#[test]
fn json_serialize_appends_the_text() {
    let mut buf = BytesMut::new();
    let res = JsonCodec::serialize_outgoing(&vec![1u32, 2, 3], &mut buf, |v| serde_json::to_string(v));
    assert!(res.is_ok());
    assert_eq!(&buf[..], b"[1,2,3]");
}

#[test]
fn json_serialize_keeps_what_the_buffer_held() {
    let mut buf = BytesMut::from(&b"ab"[..]);
    let res = JsonCodec::serialize_outgoing(&"x".to_string(), &mut buf, |v| serde_json::to_string(v));
    assert!(res.is_ok());
    assert_eq!(&buf[..], b"ab\"x\"");
}

#[test]
fn json_serialize_writes_non_ascii_text_as_utf8() {
    let mut buf = BytesMut::new();
    let res = JsonCodec::serialize_outgoing(&"h\u{e9}".to_string(), &mut buf, |v| serde_json::to_string(v));
    assert!(res.is_ok());
    assert_eq!(&buf[..], &[b'"', b'h', 0xc3, 0xa9, b'"'][..]);
}

#[test]
fn json_serialize_failure_is_a_json_error_and_leaves_the_buffer() {
    let mut buf = BytesMut::from(&b"kept"[..]);
    let res = JsonCodec::serialize_outgoing(&1u8, &mut buf, |_| Err::<String, _>(json_error()));
    assert!(matches!(res, Err(CodecError::JsonError(_))));
    assert_eq!(&buf[..], b"kept");
}

#[test]
fn json_deserialize_parses_the_text() {
    let res = JsonCodec::deserialize_incoming(b"[4,5]", |s| serde_json::from_str::<Vec<u32>>(s));
    assert_eq!(res.unwrap(), vec![4, 5]);
}

#[test]
fn json_deserialize_shows_the_parser_exactly_the_text() {
    let seen = std::cell::RefCell::new(String::new());
    let res = JsonCodec::deserialize_incoming("\"\u{e9}t\u{e9}\"".as_bytes(), |s| {
        *seen.borrow_mut() = s.to_string();
        serde_json::from_str::<String>(s)
    });
    assert_eq!(res.unwrap(), "\u{e9}t\u{e9}");
    assert_eq!(seen.into_inner(), "\"\u{e9}t\u{e9}\"");
}

#[test]
fn json_deserialize_rejects_bytes_that_are_not_utf8() {
    let calls = Cell::new(0u32);
    let res = JsonCodec::deserialize_incoming(&[0xff, 0xfe], |s| {
        calls.set(calls.get() + 1);
        serde_json::from_str::<u32>(s)
    });
    assert!(matches!(res, Err(CodecError::CouldntCreateString(_))));
    assert_eq!(calls.get(), 0);
}

#[test]
fn json_deserialize_rejects_an_overlong_encoding() {
    let res = JsonCodec::deserialize_incoming(&[b'"', 0xc0, 0xaf, b'"'], |s| serde_json::from_str::<String>(s));
    assert!(matches!(res, Err(CodecError::CouldntCreateString(_))));
}

#[test]
fn json_deserialize_rejects_an_encoded_surrogate() {
    let res = JsonCodec::deserialize_incoming(&[b'"', 0xed, 0xa0, 0x80, b'"'], |s| serde_json::from_str::<String>(s));
    assert!(matches!(res, Err(CodecError::CouldntCreateString(_))));
}

#[test]
fn json_deserialize_parse_failure_is_a_json_error() {
    let res = JsonCodec::deserialize_incoming(b"{not json", |s| serde_json::from_str::<u32>(s));
    assert!(matches!(res, Err(CodecError::JsonError(_))));
}

#[test]
fn json_frame_round_trip() {
    let message = vec!["h\u{e9}llo".to_string(), "w\u{f6}rld \u{1f600}".to_string()];
    let mut buf = BytesMut::with_capacity(256);
    JsonCodec::serialize_outgoing(&message, &mut buf, |v| serde_json::to_string(v)).unwrap();
    let back = JsonCodec::deserialize_incoming(&buf[..], |s| serde_json::from_str::<Vec<String>>(s)).unwrap();
    assert_eq!(back, message);
}

#[test]
fn json_frames_concatenate() {
    let mut buf = BytesMut::new();
    JsonCodec::serialize_outgoing(&"\u{e9}".to_string(), &mut buf, |v| serde_json::to_string(v)).unwrap();
    JsonCodec::serialize_outgoing(&7u32, &mut buf, |v| serde_json::to_string(v)).unwrap();
    let text = JsonCodec::deserialize_incoming(&buf[..], |s| Ok::<String, serde_json::Error>(s.to_string())).unwrap();
    assert_eq!(text, "\"\u{e9}\"7");
}

#[test]
fn bincode_serialize_appends_the_encoding() {
    let mut buf = BytesMut::from(&b"x"[..]);
    let res = BincodeCodec::serialize_outgoing(&7u32, &mut buf, |v| bincode::serialize(v, bincode::Infinite));
    assert!(res.is_ok());
    assert_eq!(&buf[..], &[b'x', 7, 0, 0, 0][..]);
}

#[test]
fn bincode_serialize_failure_is_a_bincode_error_and_leaves_the_buffer() {
    let mut buf = BytesMut::from(&b"kept"[..]);
    let res = BincodeCodec::serialize_outgoing(&1u8, &mut buf, |_| {
        Err::<Vec<u8>, bincode::Error>(Box::new(bincode::ErrorKind::SizeLimit))
    });
    assert!(matches!(res, Err(CodecError::BinCodeError(_))));
    assert_eq!(&buf[..], b"kept");
}

#[test]
fn bincode_deserialize_decodes_the_frame() {
    let res = BincodeCodec::deserialize_incoming(&[1, 2, 0, 0], |b| bincode::deserialize::<u32>(b));
    assert_eq!(res.unwrap(), 0x0201);
}

#[test]
fn bincode_deserialize_failure_is_a_bincode_error() {
    let res = BincodeCodec::deserialize_incoming(&[1, 2], |b| bincode::deserialize::<u32>(b));
    assert!(matches!(res, Err(CodecError::BinCodeError(_))));
}

#[test]
fn bincode_frame_round_trip() {
    let message = (42u64, "game".to_string(), vec![true, false]);
    let mut buf = BytesMut::with_capacity(256);
    BincodeCodec::serialize_outgoing(&message, &mut buf, |v| bincode::serialize(v, bincode::Infinite)).unwrap();
    let back = BincodeCodec::deserialize_incoming(&buf[..], |b| bincode::deserialize::<(u64, String, Vec<bool>)>(b)).unwrap();
    assert_eq!(back, message);
}

#[test]
fn json_write_within_room_refuses_a_text_that_does_not_fit() {
    let mut buf = BytesMut::with_capacity(64);
    buf.extend_from_slice(b"abc");
    let room = bytes::BufMut::remaining_mut(&buf);
    let long = "z".repeat(room);
    let res = JsonCodec::serialize_outgoing_within_room(&long, &mut buf, |v| serde_json::to_string(v));
    assert!(res.is_none());
    assert_eq!(&buf[..], b"abc");
}

#[test]
fn json_write_within_room_writes_a_text_that_fits_exactly() {
    let mut buf = BytesMut::with_capacity(64);
    let room = bytes::BufMut::remaining_mut(&buf);
    let text = "y".repeat(room - 2);
    let res = JsonCodec::serialize_outgoing_within_room(&text, &mut buf, |v| serde_json::to_string(v));
    assert!(matches!(res, Some(Ok(()))));
    assert_eq!(buf.len(), room);
    assert_eq!(bytes::BufMut::remaining_mut(&buf), 0);
}

#[test]
fn json_write_within_room_reports_a_rendering_failure() {
    let mut buf = BytesMut::new();
    let res = JsonCodec::serialize_outgoing_within_room(&1u8, &mut buf, |_| Err::<String, _>(json_error()));
    assert!(matches!(res, Some(Err(CodecError::JsonError(_)))));
    assert!(buf.is_empty());
}

#[test]
fn json_write_keeps_the_capacity() {
    let mut buf = BytesMut::with_capacity(100);
    let cap = buf.capacity();
    JsonCodec::serialize_outgoing(&"abc".to_string(), &mut buf, |v| serde_json::to_string(v)).unwrap();
    assert_eq!(buf.capacity(), cap);
}

#[test]
fn bincode_write_within_room_refuses_bytes_that_do_not_fit() {
    let mut buf = BytesMut::with_capacity(40);
    let room = bytes::BufMut::remaining_mut(&buf);
    let res = BincodeCodec::serialize_outgoing_within_room(&vec![0u8; room], &mut buf, |v| {
        bincode::serialize(v, bincode::Infinite)
    });
    assert!(res.is_none());
    assert!(buf.is_empty());
}

#[test]
fn bincode_write_within_room_writes_bytes_that_fit() {
    let mut buf = BytesMut::with_capacity(40);
    let res = BincodeCodec::serialize_outgoing_within_room(&3u16, &mut buf, |v| bincode::serialize(v, bincode::Infinite));
    assert!(matches!(res, Some(Ok(()))));
    assert_eq!(&buf[..], &[3, 0][..]);
}
