use rmcs_actions_service::instructions::{InstructionContent, SyncRobotIdMessage};
use rmcs_actions_service::json::{JsonVal, json_encode, json_parse};
use rmcs_actions_service::message::{Message, MessagePayload, decode_message, encode_message};

fn obj(members: Vec<(&str, JsonVal)>) -> JsonVal {
    JsonVal::Obj(members.into_iter().map(|(k, v)| (k.as_bytes().to_vec(), v)).collect())
}

fn s(text: &str) -> JsonVal {
    JsonVal::Str(text.as_bytes().to_vec())
}

#[test]
fn json_round_trip_nested() {
    let v = obj(vec![
        ("a", JsonVal::Int(-42)),
        ("b", JsonVal::Arr(vec![JsonVal::Null, JsonVal::Bool(true), s("hi")])),
        ("c", obj(vec![("inner", JsonVal::Int(0))])),
    ]);
    let text = json_encode(&v);
    assert_eq!(
        String::from_utf8(text.clone()).unwrap(),
        "{\"a\":-42,\"b\":[null,true,\"hi\"],\"c\":{\"inner\":0}}"
    );
    let back = json_parse(&text).unwrap();
    assert_eq!(back, v);
}

#[test]
fn json_parse_rejects_leading_zero() {
    assert!(json_parse(&b"01".to_vec()).is_none());
    assert!(json_parse(&b"-0".to_vec()).is_none());
    assert_eq!(json_parse(&b"0".to_vec()), Some(JsonVal::Int(0)));
}

#[test]
fn json_parse_accepts_whitespace() {
    let v = json_parse(&b" [ 1 , 2 ] ".to_vec()).unwrap();
    assert_eq!(v, JsonVal::Arr(vec![JsonVal::Int(1), JsonVal::Int(2)]));
    let v = json_parse(&b"{ \"a\" : null , \"b\" : { } }\r\n".to_vec()).unwrap();
    assert_eq!(v, obj(vec![("a", JsonVal::Null), ("b", obj(vec![]))]));
    assert!(json_parse(&b"".to_vec()).is_none());
    assert!(json_parse(&b"   ".to_vec()).is_none());
    assert!(json_parse(&b"[1,2]trailing".to_vec()).is_none());
}

#[test]
fn json_parse_reads_escapes() {
    let v = json_parse(&b"\"a\\nb\"".to_vec()).unwrap();
    assert_eq!(v, JsonVal::Str(vec![b'a', 0x0a, b'b']));
    let v = json_parse(&b"\"\\\"\\\\\\/\\t\"".to_vec()).unwrap();
    assert_eq!(v, JsonVal::Str(vec![b'"', b'\\', b'/', 9]));
    let v = json_parse(&b"\"\\u0041\\u000a\"".to_vec()).unwrap();
    assert_eq!(v, JsonVal::Str(vec![b'A', 0x0a]));
    // beyond 0x7F, a lone backslash, and raw control bytes do not read
    assert!(json_parse(&b"\"\\u00ff\"".to_vec()).is_none());
    assert!(json_parse(&b"\"\\q\"".to_vec()).is_none());
    assert!(json_parse(&b"\"a\x01b\"".to_vec()).is_none());
}

#[test]
fn json_encode_escapes_strings() {
    let v = JsonVal::Str(vec![b'a', b'"', b'\\', 0x0a, b'z']);
    let text = json_encode(&v);
    assert_eq!(
        String::from_utf8(text.clone()).unwrap(),
        "\"a\\\"\\\\\\u000az\""
    );
    let back = json_parse(&text).unwrap();
    assert_eq!(back, v);
}

#[test]
fn json_parse_int_bounds() {
    assert_eq!(
        json_parse(&b"9223372036854775807".to_vec()),
        Some(JsonVal::Int(i64::MAX))
    );
    assert_eq!(
        json_parse(&b"-9223372036854775808".to_vec()),
        Some(JsonVal::Int(i64::MIN))
    );
    assert!(json_parse(&b"9223372036854775808".to_vec()).is_none());
    assert!(json_parse(&b"-9223372036854775809".to_vec()).is_none());
    let max = json_encode(&JsonVal::Int(i64::MAX));
    assert_eq!(String::from_utf8(max).unwrap(), "9223372036854775807");
    let min = json_encode(&JsonVal::Int(i64::MIN));
    assert_eq!(String::from_utf8(min).unwrap(), "-9223372036854775808");
}

#[test]
fn message_round_trip_event() {
    let sid = b"11111111-1111-1111-1111-111111111111".to_vec();
    let m = Message {
        session_id: sid.clone(),
        local_timestamp: 1234,
        payload: MessagePayload::Event {
            content: obj(vec![("event", s("heartbeat")), ("detail", obj(vec![]))]),
        },
    };
    let text = encode_message(m);
    assert_eq!(
        String::from_utf8(text.clone()).unwrap(),
        "{\"session_id\":\"11111111-1111-1111-1111-111111111111\",\"local_timestamp\":1234,\
         \"payload\":{\"type\":\"event\",\"content\":{\"event\":\"heartbeat\",\"detail\":{}}}}"
    );
    let back = decode_message(&text).unwrap();
    let expected = Message {
        session_id: sid,
        local_timestamp: 1234,
        payload: MessagePayload::Event {
            content: obj(vec![("event", s("heartbeat")), ("detail", obj(vec![]))]),
        },
    };
    assert_eq!(back, expected);
}

#[test]
fn message_round_trip_instruction() {
    let sid = b"22222222-2222-2222-2222-222222222222".to_vec();
    let m = Message {
        session_id: sid.clone(),
        local_timestamp: -5,
        payload: MessagePayload::Instruction {
            content: InstructionContent::SyncRobotId {
                message: SyncRobotIdMessage { robot_id: b"r-9".to_vec() },
            },
        },
    };
    let text = encode_message(m);
    assert_eq!(
        String::from_utf8(text.clone()).unwrap(),
        "{\"session_id\":\"22222222-2222-2222-2222-222222222222\",\"local_timestamp\":-5,\
         \"payload\":{\"type\":\"instruction\",\"content\":{\"instruction\":\"sync_robot_id\",\
         \"message\":{\"robot_id\":\"r-9\"}}}}"
    );
    let back = decode_message(&text).unwrap();
    match back.payload {
        MessagePayload::Instruction { content } => {
            assert_eq!(
                content,
                InstructionContent::SyncRobotId {
                    message: SyncRobotIdMessage { robot_id: b"r-9".to_vec() },
                }
            );
        }
        other => panic!("wrong payload: {:?}", other),
    }
}

#[test]
fn message_round_trip_close_and_response() {
    let sid = b"33333333-3333-3333-3333-333333333333".to_vec();
    let close = Message {
        session_id: sid.clone(),
        local_timestamp: 0,
        payload: MessagePayload::Close,
    };
    let text = encode_message(close);
    let back = decode_message(&text).unwrap();
    assert_eq!(back.payload, MessagePayload::Close);

    let resp = Message {
        session_id: sid,
        local_timestamp: 7,
        payload: MessagePayload::Response { content: JsonVal::Arr(vec![JsonVal::Int(1)]) },
    };
    let text = encode_message(resp);
    let back = decode_message(&text).unwrap();
    assert_eq!(
        back.payload,
        MessagePayload::Response { content: JsonVal::Arr(vec![JsonVal::Int(1)]) }
    );
}

#[test]
fn unknown_discriminator_preserved() {
    let raw = b"{\"session_id\":\"44444444-4444-4444-4444-444444444444\",\"local_timestamp\":1,\
        \"payload\":{\"type\":\"instruction\",\"content\":{\"instruction\":\"future_thing\",\"x\":1}}}"
        .to_vec();
    let m = decode_message(&raw).unwrap();
    match &m.payload {
        MessagePayload::Instruction { content: InstructionContent::Unknown(v) } => {
            let kept = json_encode(v);
            assert_eq!(
                String::from_utf8(kept).unwrap(),
                "{\"instruction\":\"future_thing\",\"x\":1}"
            );
        }
        other => panic!("wrong payload: {:?}", other),
    }
    let again = encode_message(m);
    assert_eq!(again, raw);
}

#[test]
fn unknown_payload_type_preserved() {
    let raw = b"{\"session_id\":\"44444444-4444-4444-4444-444444444444\",\"local_timestamp\":1,\
        \"payload\":{\"type\":\"telemetry\",\"x\":[1,2]}}"
        .to_vec();
    let m = decode_message(&raw).unwrap();
    match &m.payload {
        MessagePayload::Unknown(v) => {
            let kept = json_encode(v);
            assert_eq!(
                String::from_utf8(kept).unwrap(),
                "{\"type\":\"telemetry\",\"x\":[1,2]}"
            );
        }
        other => panic!("wrong payload: {:?}", other),
    }
    let again = encode_message(m);
    assert_eq!(again, raw);
}

#[test]
fn decode_rejects_bad_envelopes() {
    // not JSON at all
    assert!(decode_message(&b"nonsense".to_vec()).is_err());
    // session id not a canonical uuid
    assert!(decode_message(
        &b"{\"session_id\":\"zz\",\"local_timestamp\":0,\"payload\":{\"type\":\"close\"}}".to_vec()
    )
    .is_err());
    // timestamp missing
    assert!(decode_message(
        &b"{\"session_id\":\"11111111-1111-1111-1111-111111111111\",\"payload\":{\"type\":\"close\"}}"
            .to_vec()
    )
    .is_err());
    // payload missing
    assert!(decode_message(
        &b"{\"session_id\":\"11111111-1111-1111-1111-111111111111\",\"local_timestamp\":0}".to_vec()
    )
    .is_err());
}

#[test]
fn decode_accepts_whitespace_frames() {
    let raw = b"{ \"session_id\": \"11111111-1111-1111-1111-111111111111\",\n  \"local_timestamp\": 7,\n  \"payload\": { \"type\": \"close\" } }"
        .to_vec();
    let m = decode_message(&raw).unwrap();
    assert_eq!(m.local_timestamp, 7);
    assert_eq!(m.payload, MessagePayload::Close);
}

#[test]
fn decode_accepts_reordered_fields() {
    let raw = b"{\"payload\":{\"type\":\"close\"},\"local_timestamp\":9,\
        \"session_id\":\"11111111-1111-1111-1111-111111111111\"}"
        .to_vec();
    let m = decode_message(&raw).unwrap();
    assert_eq!(m.local_timestamp, 9);
    assert_eq!(m.payload, MessagePayload::Close);
}

#[test]
fn empty_containers_round_trip() {
    assert_eq!(json_parse(&b"[]".to_vec()), Some(JsonVal::Arr(vec![])));
    assert_eq!(json_parse(&b"{}".to_vec()), Some(JsonVal::Obj(vec![])));
    assert_eq!(json_encode(&JsonVal::Arr(vec![])), b"[]".to_vec());
    assert_eq!(json_encode(&JsonVal::Obj(vec![])), b"{}".to_vec());
    assert_eq!(json_encode(&s("")), b"\"\"".to_vec());
    assert_eq!(json_parse(&b"\"\"".to_vec()), Some(s("")));
}

#[test]
fn duplicate_keys_kept_in_order() {
    let raw = b"{\"a\":1,\"a\":2}".to_vec();
    let v = json_parse(&raw).unwrap();
    assert_eq!(
        v,
        obj(vec![("a", JsonVal::Int(1)), ("a", JsonVal::Int(2))])
    );
    assert_eq!(json_encode(&v), raw);
}
