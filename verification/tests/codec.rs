use weave::envelope::{decode_envelope, encode_envelope, WeaveAck, WeaveEnvelope};
use weave::json::{int_to_string, json_text, JsonValue};

fn sample_envelope() -> WeaveEnvelope {
    WeaveEnvelope {
        v: 0,
        ty: "message.send".to_string(),
        id: "id-1".to_string(),
        ts: "2024-01-01T00:00:00Z".to_string(),
        src: "alice".to_string(),
        dst: Some("bob".to_string()),
        topic: None,
        session: Some("sess".to_string()),
        corr: None,
        payload: Some(JsonValue::Obj(vec![(
            "text".to_string(),
            JsonValue::Str("hi".to_string()),
        )])),
        ack: Some(WeaveAck {
            mode: Some("auto".to_string()),
            timeout_ms: Some(500),
        }),
        status: None,
        error: None,
    }
}

#[test]
fn envelope_codec_round_trips() {
    let encoded = encode_envelope(sample_envelope());
    let decoded = decode_envelope(encoded).expect("decode");
    assert_eq!(decoded, sample_envelope());
}

#[test]
fn decode_drops_unknown_keys_and_null_optionals() {
    let wire = JsonValue::Obj(vec![
        ("v".to_string(), JsonValue::Int(0)),
        ("type".to_string(), JsonValue::Str("session.list".to_string())),
        ("id".to_string(), JsonValue::Str("x".to_string())),
        ("ts".to_string(), JsonValue::Str("t".to_string())),
        ("src".to_string(), JsonValue::Str("code-cli".to_string())),
        ("dst".to_string(), JsonValue::Null),
        ("mystery".to_string(), JsonValue::Bool(true)),
    ]);
    let decoded = decode_envelope(wire).expect("decode");
    assert_eq!(decoded.ty, "session.list");
    assert_eq!(decoded.dst, None);
    assert_eq!(decoded.payload, None);
}

#[test]
fn decode_refuses_missing_required_fields() {
    let wire = JsonValue::Obj(vec![
        ("v".to_string(), JsonValue::Int(0)),
        ("type".to_string(), JsonValue::Str("session.list".to_string())),
    ]);
    assert!(decode_envelope(wire).is_err());
    assert!(decode_envelope(JsonValue::Str("nope".to_string())).is_err());
}

#[test]
fn json_text_renders_compact_escaped_lines() {
    let v = JsonValue::Obj(vec![
        ("a".to_string(), JsonValue::Int(-3)),
        ("b".to_string(), JsonValue::Str("x\"\n".to_string())),
        (
            "c".to_string(),
            JsonValue::Arr(vec![JsonValue::Null, JsonValue::Bool(true)]),
        ),
    ]);
    assert_eq!(json_text(&v), "{\"a\":-3,\"b\":\"x\\\"\\n\",\"c\":[null,true]}");
    assert!(!json_text(&v).contains('\n'));
}

#[test]
fn int_to_string_handles_extremes() {
    assert_eq!(int_to_string(0), "0");
    assert_eq!(int_to_string(42), "42");
    assert_eq!(int_to_string(-7), "-7");
    assert_eq!(int_to_string(i64::MIN), "-9223372036854775808");
    assert_eq!(int_to_string(i64::MAX), "9223372036854775807");
}
