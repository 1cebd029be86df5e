use weave::client::{
    agent_add_payload, build_agent_update, build_message_send, coord_socket_path, is_reply_to,
    message_payload, new_envelope, parse_agent_list_response, parse_close_session_response,
    parse_create_session_response, parse_session_list_response, response_error,
    session_socket_path, WeaveMessageMetadata,
};
use weave::envelope::{WeaveEnvelope, WeaveErrorDetail};
use weave::json::JsonValue;

fn response_with(status: Option<&str>, error: Option<WeaveErrorDetail>) -> WeaveEnvelope {
    WeaveEnvelope {
        v: 0,
        ty: "session.list".to_string(),
        id: "r1".to_string(),
        ts: "t".to_string(),
        src: "coord".to_string(),
        dst: None,
        topic: None,
        session: None,
        corr: Some("q1".to_string()),
        payload: None,
        ack: None,
        status: status.map(|s| s.to_string()),
        error,
    }
}

fn detail(code: &str, message: &str) -> WeaveErrorDetail {
    WeaveErrorDetail {
        code: code.to_string(),
        message: message.to_string(),
        detail: None,
    }
}

#[test]
fn socket_paths_are_fixed() {
    assert_eq!(coord_socket_path("/home/u/.weave"), "/home/u/.weave/coord.sock");
    assert_eq!(
        session_socket_path("/home/u/.weave", "s1"),
        "/home/u/.weave/sessions/s1/coord.sock"
    );
}

#[test]
fn response_error_joins_code_and_message() {
    assert_eq!(
        response_error(&response_with(Some("error"), Some(detail(" E1 ", " boom ")))),
        Some("E1: boom".to_string())
    );
    assert_eq!(
        response_error(&response_with(Some("error"), Some(detail("E1", " ")))),
        Some("E1".to_string())
    );
    assert_eq!(
        response_error(&response_with(Some("error"), Some(detail("", "boom")))),
        Some("boom".to_string())
    );
    assert_eq!(
        response_error(&response_with(Some("error"), Some(detail(" ", " ")))),
        Some("Weave request failed".to_string())
    );
    assert_eq!(
        response_error(&response_with(Some("error"), None)),
        Some("Weave request failed".to_string())
    );
    assert_eq!(response_error(&response_with(Some("ok"), None)), None);
    assert_eq!(response_error(&response_with(None, None)), None);
}

#[test]
fn request_envelopes_carry_verb_and_session() {
    let req = new_envelope("session.list", None, None);
    assert_eq!(req.ty, "session.list");
    assert_eq!(req.src, "code-cli");
    assert!(req.corr.is_none());
    assert!(!req.id.is_empty());

    let mut reply = response_with(Some("ok"), None);
    reply.corr = Some(req.id.clone());
    assert!(is_reply_to(&reply, &req.id));
    assert!(!is_reply_to(&reply, "other-id"));
}

#[test]
fn session_list_parses_entries_in_order() {
    let mut response = response_with(None, None);
    response.payload = Some(JsonValue::Obj(vec![(
        "sessions".to_string(),
        JsonValue::Arr(vec![
            JsonValue::Obj(vec![
                ("id".to_string(), JsonValue::Str("s1".to_string())),
                ("name".to_string(), JsonValue::Str(" Lobby ".to_string())),
            ]),
            JsonValue::Obj(vec![
                ("id".to_string(), JsonValue::Str("s2".to_string())),
                ("name".to_string(), JsonValue::Str("  ".to_string())),
            ]),
        ]),
    )]));

    let sessions = parse_session_list_response(&response).expect("sessions");
    assert_eq!(sessions.len(), 2);
    assert_eq!(sessions[0].id, "s1");
    assert_eq!(sessions[0].name, Some("Lobby".to_string()));
    assert_eq!(sessions[1].id, "s2");
    assert_eq!(sessions[1].name, None);
}

#[test]
fn session_list_propagates_errors() {
    let failed = response_with(Some("error"), Some(detail("E", "down")));
    assert_eq!(parse_session_list_response(&failed), Err("E: down".to_string()));

    let empty = response_with(None, None);
    assert!(parse_session_list_response(&empty).is_err());

    let mut malformed = response_with(None, None);
    malformed.payload = Some(JsonValue::Obj(vec![(
        "sessions".to_string(),
        JsonValue::Arr(vec![JsonValue::Obj(vec![(
            "id".to_string(),
            JsonValue::Str("s1".to_string()),
        )])]),
    )]));
    assert!(parse_session_list_response(&malformed).is_err());
}

#[test]
fn agent_list_allows_missing_names() {
    let mut response = response_with(None, None);
    response.payload = Some(JsonValue::Obj(vec![(
        "agents".to_string(),
        JsonValue::Arr(vec![
            JsonValue::Obj(vec![
                ("id".to_string(), JsonValue::Str("a1".to_string())),
                ("name".to_string(), JsonValue::Str("Alice".to_string())),
            ]),
            JsonValue::Obj(vec![("id".to_string(), JsonValue::Str("a2".to_string()))]),
            JsonValue::Obj(vec![
                ("id".to_string(), JsonValue::Str("a3".to_string())),
                ("name".to_string(), JsonValue::Null),
            ]),
        ]),
    )]));

    let agents = parse_agent_list_response(&response).expect("agents");
    assert_eq!(agents.len(), 3);
    assert_eq!(agents[0].name, Some("Alice".to_string()));
    assert_eq!(agents[1].name, None);
    assert_eq!(agents[2].name, None);
}

#[test]
fn create_and_close_session_responses() {
    let mut created = response_with(None, None);
    created.session = Some("s9".to_string());
    let session =
        parse_create_session_response(&created, Some("Room".to_string())).expect("session");
    assert_eq!(session.id, "s9");
    assert_eq!(session.name, Some("Room".to_string()));

    let missing = response_with(None, None);
    assert!(parse_create_session_response(&missing, None).is_err());

    assert!(parse_close_session_response(&response_with(None, None)).is_ok());
    assert_eq!(
        parse_close_session_response(&response_with(Some("error"), Some(detail("E", "no")))),
        Err("E: no".to_string())
    );
}

#[test]
fn agent_add_payload_filters_blank_names() {
    let with_name = agent_add_payload("a1", Some(" Alice "));
    assert_eq!(
        with_name.obj_get("name").and_then(|v| v.as_str()).map(|s| s.as_str()),
        Some("Alice")
    );
    let blank = agent_add_payload("a1", Some("   "));
    assert!(blank.obj_get("name").is_none());
    assert_eq!(
        blank.obj_get("id").and_then(|v| v.as_str()).map(|s| s.as_str()),
        Some("a1")
    );
}

#[test]
fn message_payload_carries_codex_metadata() {
    let metadata = WeaveMessageMetadata {
        conversation_id: "c1".to_string(),
        conversation_owner: "alice".to_string(),
        parent_message_id: Some("  ".to_string()),
    };
    let payload = message_payload("hi".to_string(), "Alice", Some("reply"), Some(&metadata));
    let codex = payload.obj_get("codex").expect("codex");
    assert_eq!(
        payload.obj_get("text").and_then(|v| v.as_str()).map(|s| s.as_str()),
        Some("hi")
    );
    assert_eq!(
        codex.obj_get("sender_name").and_then(|v| v.as_str()).map(|s| s.as_str()),
        Some("Alice")
    );
    assert_eq!(
        codex.obj_get("kind").and_then(|v| v.as_str()).map(|s| s.as_str()),
        Some("reply")
    );
    assert_eq!(
        codex.obj_get("conversation_id").and_then(|v| v.as_str()).map(|s| s.as_str()),
        Some("c1")
    );
    assert!(codex.obj_get("parent_message_id").is_none());
}

#[test]
fn message_send_respects_caller_message_id() {
    let payload = message_payload("hi".to_string(), "Alice", None, None);
    let env = build_message_send("alice", "sess", "bob".to_string(), payload, Some(" m-7 "));
    assert_eq!(env.ty, "message.send");
    assert_eq!(env.id, "m-7");
    assert_eq!(env.dst, Some("bob".to_string()));
    assert_eq!(env.session, Some("sess".to_string()));
}

#[test]
fn agent_update_refuses_blank_name() {
    assert!(build_agent_update("a1", "sess", "   ").is_err());
    let env = build_agent_update("a1", "sess", " New Name ").expect("envelope");
    assert_eq!(env.ty, "agent.update");
    let payload = env.payload.expect("payload");
    assert_eq!(
        payload.obj_get("name").and_then(|v| v.as_str()).map(|s| s.as_str()),
        Some("New Name")
    );
}
