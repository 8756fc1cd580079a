use rustcord::{
    decode, encode, DecodeError, GatewayOpCodes, GatewayPayload, GatewayPayloadData, JsonValue,
};

fn heartbeat() -> GatewayPayload {
    GatewayPayload { op: GatewayOpCodes::Heartbeat, d: None, s: None, t: None }
}

#[test]
fn encode_heartbeat_wire_shape() {
    let text = encode(&heartbeat());
    assert_eq!(text, "{\"op\":1,\"d\":null,\"s\":null,\"t\":null}");
}

#[test]
fn round_trip_heartbeat() {
    let decoded = decode(&encode(&heartbeat())).unwrap();
    assert_eq!(decoded, heartbeat());
}

#[test]
fn encode_identify_wire_shape() {
    let e = rustcord::create_identify_message(&"my-token".to_string());
    let text = encode(&e);
    assert_eq!(
        text,
        "{\"op\":2,\"d\":{\"token\":\"my-token\",\"capabilities\":61,\"properties\":{\"os\":\"Rusty system\",\"browser\":\"Super real browser\",\"browser_user_agent\":\"Agent 007\"}},\"s\":null,\"t\":null}"
    );
}

#[test]
fn round_trip_identify() {
    let e = rustcord::create_identify_message(&"my-token".to_string());
    let decoded = decode(&encode(&e)).unwrap();
    assert_eq!(decoded, rustcord::create_identify_message(&"my-token".to_string()));
    match decoded.d {
        Some(GatewayPayloadData::IdentifyMessageData { token, capabilities, properties }) => {
            assert_eq!(token, "my-token");
            assert_eq!(capabilities, 61);
            assert_eq!(properties.os, "Rusty system");
        }
        other => panic!("wrong payload: {:?}", other),
    }
}

#[test]
fn round_trip_presence_update() {
    let e = GatewayPayload {
        op: GatewayOpCodes::Dispatch,
        d: Some(GatewayPayloadData::PresenceUpdateData {
            user_name: "alice".to_string(),
            activities: vec!["Coding".to_string(), "Resting".to_string()],
        }),
        s: Some(7),
        t: Some("PRESENCE_UPDATE".to_string()),
    };
    let text = encode(&e);
    let decoded = decode(&text).unwrap();
    assert_eq!(decoded, e);
}

#[test]
fn round_trip_message_create_with_escapes() {
    let e = GatewayPayload {
        op: GatewayOpCodes::Dispatch,
        d: Some(GatewayPayloadData::MessageCreateData {
            author_username: "alice".to_string(),
            author_discriminator: "0001".to_string(),
            content: "line one\nsaid \"hi\" and c:\\path\ttab".to_string(),
        }),
        s: Some(42),
        t: Some("MESSAGE_CREATE".to_string()),
    };
    let decoded = decode(&encode(&e)).unwrap();
    assert_eq!(decoded, e);
}

#[test]
fn round_trip_raw_dispatch_payload() {
    let e = GatewayPayload {
        op: GatewayOpCodes::Dispatch,
        d: Some(GatewayPayloadData::RawData {
            value: JsonValue::Obj(vec![
                ("user_id".to_string(), JsonValue::Str("123".to_string())),
                ("flags".to_string(), JsonValue::Num("17".to_string())),
                (
                    "roles".to_string(),
                    JsonValue::Arr(vec![JsonValue::Bool(true), JsonValue::Null]),
                ),
            ]),
        }),
        s: Some(3),
        t: Some("TYPING_START".to_string()),
    };
    let decoded = decode(&encode(&e)).unwrap();
    assert_eq!(decoded, e);
}

#[test]
fn round_trip_unknown_opcode() {
    let e = GatewayPayload {
        op: GatewayOpCodes::Unknown(5),
        d: Some(GatewayPayloadData::RawData {
            value: JsonValue::Obj(vec![("x".to_string(), JsonValue::Num("1".to_string()))]),
        }),
        s: None,
        t: None,
    };
    let decoded = decode(&encode(&e)).unwrap();
    assert_eq!(decoded, e);
}

#[test]
fn unknown_opcode_is_decoded_without_error() {
    let decoded = decode("{\"op\":5,\"d\":null,\"s\":null,\"t\":null}").unwrap();
    assert_eq!(decoded.op, GatewayOpCodes::Unknown(5));
    assert_eq!(decoded.d, None);

    let decoded = decode("{\"op\":99,\"d\":{\"weird\":[1,2,3]},\"s\":12,\"t\":null}").unwrap();
    assert_eq!(decoded.op, GatewayOpCodes::Unknown(99));
    assert!(matches!(decoded.d, Some(GatewayPayloadData::RawData { .. })));
    assert_eq!(decoded.s, Some(12));
}

#[test]
fn hello_frame_decodes_with_extra_fields() {
    let text =
        "{\"op\":10,\"d\":{\"_trace\":[\"gateway-prd\"],\"heartbeat_interval\":41250},\"s\":null,\"t\":null}";
    let decoded = decode(text).unwrap();
    assert_eq!(decoded.op, GatewayOpCodes::Hello);
    assert_eq!(
        decoded.d,
        Some(GatewayPayloadData::HelloData { heartbeat_interval: 41250 })
    );
}

#[test]
fn hello_without_interval_is_schema_mismatch() {
    let text = "{\"op\":10,\"d\":{\"_trace\":[\"gateway-prd\"]},\"s\":null,\"t\":null}";
    match decode(text) {
        Err(DecodeError::SchemaMismatch { op, raw }) => {
            assert_eq!(op, 10);
            assert_eq!(raw, text);
        }
        other => panic!("expected a schema mismatch, got {:?}", other),
    }
}

#[test]
fn hello_with_null_payload_is_schema_mismatch() {
    let text = "{\"op\":10,\"d\":null,\"s\":null,\"t\":null}";
    assert!(matches!(
        decode(text),
        Err(DecodeError::SchemaMismatch { op: 10, .. })
    ));
}

#[test]
fn hello_with_non_numeric_interval_is_schema_mismatch() {
    let text = "{\"op\":10,\"d\":{\"heartbeat_interval\":\"soon\"},\"s\":null,\"t\":null}";
    assert!(matches!(
        decode(text),
        Err(DecodeError::SchemaMismatch { op: 10, .. })
    ));
}

#[test]
fn malformed_text_is_invalid_json() {
    let text = "this is no envelope";
    match decode(text) {
        Err(DecodeError::InvalidJson { raw }) => assert_eq!(raw, text),
        other => panic!("expected invalid json, got {:?}", other),
    }
    assert!(matches!(decode(""), Err(DecodeError::InvalidJson { .. })));
    assert!(matches!(
        decode("{\"op\":1,\"d\":null"),
        Err(DecodeError::InvalidJson { .. })
    ));
}

#[test]
fn missing_opcode_is_invalid_json() {
    assert!(matches!(
        decode("{\"d\":null,\"s\":null,\"t\":null}"),
        Err(DecodeError::InvalidJson { .. })
    ));
    assert!(matches!(
        decode("{\"op\":\"one\",\"d\":null}"),
        Err(DecodeError::InvalidJson { .. })
    ));
}

#[test]
fn bad_sequence_number_is_schema_mismatch() {
    assert!(matches!(
        decode("{\"op\":0,\"d\":null,\"s\":\"x\",\"t\":null}"),
        Err(DecodeError::SchemaMismatch { op: 0, .. })
    ));
}

#[test]
fn whitespace_is_tolerated() {
    let text = " {\n  \"op\": 1,\t\"d\": null, \"s\": null, \"t\": null\r\n} ";
    let decoded = decode(text).unwrap();
    assert_eq!(decoded, heartbeat());
}

#[test]
fn fields_in_any_order() {
    let text = "{\"t\":null,\"s\":19,\"d\":null,\"op\":11}";
    let decoded = decode(text).unwrap();
    assert_eq!(decoded.op, GatewayOpCodes::HeartbeatAck);
    assert_eq!(decoded.s, Some(19));
}

#[test]
fn missing_optional_fields_mean_absent() {
    let decoded = decode("{\"op\":1}").unwrap();
    assert_eq!(decoded, heartbeat());
}

#[test]
fn large_sequence_numbers_round_trip() {
    let e = GatewayPayload {
        op: GatewayOpCodes::Dispatch,
        d: None,
        s: Some(u64::MAX),
        t: None,
    };
    let text = encode(&e);
    assert_eq!(text, "{\"op\":0,\"d\":null,\"s\":18446744073709551615,\"t\":null}");
    assert_eq!(decode(&text).unwrap(), e);
    assert!(matches!(
        decode("{\"op\":0,\"d\":null,\"s\":18446744073709551616,\"t\":null}"),
        Err(DecodeError::SchemaMismatch { op: 0, .. })
    ));
}

#[test]
fn identify_shape_mismatch_is_reported() {
    let text = "{\"op\":2,\"d\":{\"token\":\"x\"},\"s\":null,\"t\":null}";
    assert!(matches!(
        decode(text),
        Err(DecodeError::SchemaMismatch { op: 2, .. })
    ));
}

#[test]
fn decode_error_keeps_raw_text() {
    let text = "{\"op\":10,\"d\":{},\"s\":null,\"t\":null}";
    let err = decode(text).unwrap_err();
    assert_eq!(err.raw_text(), text);
}
