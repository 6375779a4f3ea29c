use yewchat::decode::{decode_entry, decode_frame};
use yewchat::encode::{encode_entry, encode_frame};
use yewchat::wire::{DecodeError, MessageData, MsgTypes, WebSocketMessage};

#[test]
fn entry_round_trip_plain() {
    let e = MessageData { from: b"Bob".to_vec(), message: b"hi".to_vec() };
    let text = encode_entry(&e);
    assert_eq!(text, b"{\"from\":\"Bob\",\"message\":\"hi\"}".to_vec());
    let back = decode_entry(&text).unwrap();
    assert_eq!(back.from, b"Bob".to_vec());
    assert_eq!(back.message, b"hi".to_vec());
}

#[test]
fn entry_round_trip_with_escapes() {
    let e = MessageData {
        from: b"a\"b\\c".to_vec(),
        message: b"say \"hi\" \\ now".to_vec(),
    };
    let text = encode_entry(&e);
    let back = decode_entry(&text).unwrap();
    assert_eq!(back.from, e.from);
    assert_eq!(back.message, e.message);
}

#[test]
fn entry_round_trip_empty_fields() {
    let e = MessageData { from: Vec::new(), message: Vec::new() };
    let text = encode_entry(&e);
    assert_eq!(text, b"{\"from\":\"\",\"message\":\"\"}".to_vec());
    let back = decode_entry(&text).unwrap();
    assert_eq!(back.from, Vec::<u8>::new());
    assert_eq!(back.message, Vec::<u8>::new());
}

#[test]
fn encode_users_frame() {
    let m = WebSocketMessage {
        message_type: MsgTypes::Users,
        data_array: Some(vec![b"Alice".to_vec(), b"Bob".to_vec()]),
        data: None,
    };
    assert_eq!(
        encode_frame(&m),
        b"{\"messageType\":\"users\",\"dataArray\":[\"Alice\",\"Bob\"]}".to_vec()
    );
}

#[test]
fn encode_register_frame() {
    let m = WebSocketMessage {
        message_type: MsgTypes::Register,
        data_array: None,
        data: Some(b"Alice".to_vec()),
    };
    assert_eq!(
        encode_frame(&m),
        b"{\"messageType\":\"register\",\"data\":\"Alice\"}".to_vec()
    );
}

#[test]
fn frame_round_trip_each_shape() {
    let frames = vec![
        WebSocketMessage {
            message_type: MsgTypes::Users,
            data_array: Some(vec![b"Alice".to_vec(), b"B b".to_vec(), Vec::new()]),
            data: None,
        },
        WebSocketMessage {
            message_type: MsgTypes::Register,
            data_array: None,
            data: Some(b"Al\"ice\\".to_vec()),
        },
        WebSocketMessage {
            message_type: MsgTypes::Message,
            data_array: Some(Vec::new()),
            data: Some(b"payload".to_vec()),
        },
        WebSocketMessage { message_type: MsgTypes::Message, data_array: None, data: None },
    ];
    for m in frames {
        assert_eq!(decode_frame(&encode_frame(&m)).unwrap(), m);
    }
}

#[test]
fn decode_users_frame() {
    let m = decode_frame(b"{\"messageType\":\"users\",\"dataArray\":[\"Alice\",\"Bob\"]}")
        .unwrap();
    assert!(matches!(m.message_type, MsgTypes::Users));
    assert_eq!(m.data_array, Some(vec![b"Alice".to_vec(), b"Bob".to_vec()]));
    assert_eq!(m.data, None);
}

#[test]
fn decode_tolerates_whitespace() {
    let m = decode_frame(b" { \"messageType\" : \"users\" , \"dataArray\" : [ \"A\" , \"B\" ] } ")
        .unwrap();
    assert!(matches!(m.message_type, MsgTypes::Users));
    assert_eq!(m.data_array, Some(vec![b"A".to_vec(), b"B".to_vec()]));
}

#[test]
fn decode_users_frame_without_list() {
    let m = decode_frame(b"{\"messageType\":\"users\"}").unwrap();
    assert!(matches!(m.message_type, MsgTypes::Users));
    assert_eq!(m.data_array, None);
}

#[test]
fn decode_null_list_counts_as_absent() {
    let m = decode_frame(b"{\"messageType\":\"users\",\"dataArray\":null}").unwrap();
    assert!(matches!(m.message_type, MsgTypes::Users));
    assert_eq!(m.data_array, None);
}

#[test]
fn decode_empty_list() {
    let m = decode_frame(b"{\"messageType\":\"users\",\"dataArray\":[]}").unwrap();
    assert_eq!(m.data_array, Some(Vec::new()));
}

#[test]
fn decode_ignores_unknown_fields() {
    let m = decode_frame(
        b"{\"extra\":{\"deep\":[1,true,\"x\"]},\"messageType\":\"register\",\"n\":42,\"data\":\"Zoe\"}",
    )
    .unwrap();
    assert!(matches!(m.message_type, MsgTypes::Register));
    assert_eq!(m.data, Some(b"Zoe".to_vec()));
}

#[test]
fn decode_unknown_tag() {
    assert_eq!(
        decode_frame(b"{\"messageType\":\"presence\"}"),
        Err(DecodeError::UnknownVariant)
    );
}

#[test]
fn decode_missing_tag_is_malformed() {
    assert_eq!(decode_frame(b"{}"), Err(DecodeError::Malformed));
    assert_eq!(
        decode_frame(b"{\"data\":\"x\"}"),
        Err(DecodeError::Malformed)
    );
}

#[test]
fn decode_rejects_malformed_text() {
    assert_eq!(decode_frame(b""), Err(DecodeError::Malformed));
    assert_eq!(decode_frame(b"not a frame"), Err(DecodeError::Malformed));
    assert_eq!(decode_frame(b"[1,2,3]"), Err(DecodeError::Malformed));
    assert_eq!(
        decode_frame(b"{\"messageType\":\"users\""),
        Err(DecodeError::Malformed)
    );
    assert_eq!(
        decode_frame(b"{\"messageType\":12}"),
        Err(DecodeError::Malformed)
    );
    assert_eq!(
        decode_frame(b"{\"messageType\":\"users\"} tail"),
        Err(DecodeError::Malformed)
    );
}

#[test]
fn decode_rejects_duplicate_key() {
    assert_eq!(
        decode_frame(b"{\"messageType\":\"users\",\"messageType\":\"users\"}"),
        Err(DecodeError::Malformed)
    );
}

#[test]
fn decode_entry_accepts_escapes() {
    let e = decode_entry(b"{\"from\":\"a\\\"b\",\"message\":\"line\\nbreak\"}").unwrap();
    assert_eq!(e.from, b"a\"b".to_vec());
    assert_eq!(e.message, b"line\nbreak".to_vec());
}

#[test]
fn decode_entry_requires_both_fields() {
    assert_eq!(
        decode_entry(b"{\"from\":\"Bob\"}"),
        Err(DecodeError::Malformed)
    );
    assert_eq!(
        decode_entry(b"{\"message\":\"hi\"}"),
        Err(DecodeError::Malformed)
    );
    assert_eq!(decode_entry(b"oops"), Err(DecodeError::Malformed));
}

#[test]
fn decode_entry_rejects_unsupported_escape() {
    assert_eq!(
        decode_entry(b"{\"from\":\"\\u0042\",\"message\":\"hi\"}"),
        Err(DecodeError::Malformed)
    );
}

#[test]
fn self_authored_marker() {
    let own = MessageData { from: b"You".to_vec(), message: b"mine".to_vec() };
    let other = MessageData { from: b"Bob".to_vec(), message: b"hi".to_vec() };
    assert!(own.is_self_authored());
    assert!(!other.is_self_authored());
}
