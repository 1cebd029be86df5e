use weave::client::new_envelope_with_src;
use weave::json::JsonValue;
use weave::mux::{
    build_incoming_message, is_direct_message_for_agent, mux_step, MuxAction, MuxEvent, MuxPhase,
    MuxState, WeaveMessageKind,
};

fn fresh_state() -> MuxState {
    MuxState {
        session_id: "sess".to_string(),
        agent_id: "me".to_string(),
        agent_name: "Me".to_string(),
        remove_id: None,
        phase: MuxPhase::Active,
        pending: Vec::new(),
    }
}

fn wire_message(id: &str, src: &str, dst: &str, text: &str, auto_ack: bool) -> JsonValue {
    let mut fields = vec![
        ("v".to_string(), JsonValue::Int(0)),
        ("type".to_string(), JsonValue::Str("message.send".to_string())),
        ("id".to_string(), JsonValue::Str(id.to_string())),
        ("ts".to_string(), JsonValue::Str("t".to_string())),
        ("src".to_string(), JsonValue::Str(src.to_string())),
        ("dst".to_string(), JsonValue::Str(dst.to_string())),
        ("session".to_string(), JsonValue::Str("sess".to_string())),
        (
            "payload".to_string(),
            JsonValue::Obj(vec![(
                "text".to_string(),
                JsonValue::Str(text.to_string()),
            )]),
        ),
    ];
    if auto_ack {
        fields.push((
            "ack".to_string(),
            JsonValue::Obj(vec![(
                "mode".to_string(),
                JsonValue::Str("auto".to_string()),
            )]),
        ));
    }
    JsonValue::Obj(fields)
}

fn reply_to(request_id: &str) -> JsonValue {
    JsonValue::Obj(vec![
        ("v".to_string(), JsonValue::Int(0)),
        ("type".to_string(), JsonValue::Str("message.send".to_string())),
        ("id".to_string(), JsonValue::Str("resp".to_string())),
        ("ts".to_string(), JsonValue::Str("t".to_string())),
        ("src".to_string(), JsonValue::Str("coord".to_string())),
        ("corr".to_string(), JsonValue::Str(request_id.to_string())),
        ("status".to_string(), JsonValue::Str("ok".to_string())),
    ])
}

#[test]
fn request_resolves_exactly_once_on_its_reply() {
    let mut state = fresh_state();
    let request = new_envelope_with_src(
        "message.send",
        "me".to_string(),
        Some("sess".to_string()),
        None,
    );
    let request_id = request.id.clone();

    let actions = mux_step(
        &mut state,
        MuxEvent::Outgoing {
            envelope: request,
            token: 1,
        },
    );
    assert_eq!(actions.len(), 1);
    assert!(matches!(actions[0], MuxAction::Write(_)));
    assert_eq!(state.pending.len(), 1);

    let actions = mux_step(&mut state, MuxEvent::Line(reply_to(&request_id)));
    assert_eq!(actions.len(), 1);
    match &actions[0] {
        MuxAction::ResolveOk(token, env) => {
            assert_eq!(*token, 1);
            assert_eq!(env.corr, Some(request_id.clone()));
        }
        other => panic!("expected a resolution, got {other:?}"),
    }
    assert!(state.pending.is_empty());

    let actions = mux_step(&mut state, MuxEvent::Line(reply_to(&request_id)));
    assert!(actions.is_empty(), "a reply must resolve its call only once");
}

#[test]
fn shutdown_drains_pending_calls_exactly_once() {
    let mut state = fresh_state();
    let request = new_envelope_with_src(
        "message.send",
        "me".to_string(),
        Some("sess".to_string()),
        None,
    );
    mux_step(
        &mut state,
        MuxEvent::Outgoing {
            envelope: request,
            token: 7,
        },
    );

    let actions = mux_step(&mut state, MuxEvent::Shutdown);
    assert_eq!(actions.len(), 1);
    match &actions[0] {
        MuxAction::Write(env) => assert_eq!(env.ty, "agent.remove"),
        other => panic!("expected the remove request, got {other:?}"),
    }
    assert_eq!(state.phase, MuxPhase::Draining);

    // A second shutdown must not send agent.remove again.
    let actions = mux_step(&mut state, MuxEvent::Shutdown);
    assert!(actions.is_empty());

    let remove_id = state.remove_id.clone().expect("remove id");
    let actions = mux_step(&mut state, MuxEvent::Line(reply_to(&remove_id)));
    let mut resolved: usize = 0;
    let mut stopped: usize = 0;
    for action in &actions {
        match action {
            MuxAction::ResolveErr(token, message) => {
                assert_eq!(*token, 7);
                assert_eq!(message, "Weave agent connection closed");
                resolved += 1;
            }
            MuxAction::Stop => stopped += 1,
            other => panic!("unexpected action {other:?}"),
        }
    }
    assert_eq!(resolved, 1);
    assert_eq!(stopped, 1);
    assert!(state.pending.is_empty());
    assert_eq!(state.phase, MuxPhase::Closed);
}

#[test]
fn read_closed_fails_every_pending_call() {
    let mut state = fresh_state();
    for token in 0..3u64 {
        let request = new_envelope_with_src(
            "message.send",
            "me".to_string(),
            Some("sess".to_string()),
            None,
        );
        mux_step(
            &mut state,
            MuxEvent::Outgoing {
                envelope: request,
                token,
            },
        );
    }
    let actions = mux_step(&mut state, MuxEvent::ReadClosed);
    let mut tokens: Vec<u64> = actions
        .iter()
        .filter_map(|a| match a {
            MuxAction::ResolveErr(t, _) => Some(*t),
            _ => None,
        })
        .collect();
    tokens.sort();
    assert_eq!(tokens, vec![0, 1, 2]);
    assert!(state.pending.is_empty());

    // Submitting after close resolves immediately as closed.
    let late = new_envelope_with_src(
        "message.send",
        "me".to_string(),
        Some("sess".to_string()),
        None,
    );
    let actions = mux_step(
        &mut state,
        MuxEvent::Outgoing {
            envelope: late,
            token: 9,
        },
    );
    assert!(matches!(actions[0], MuxAction::ResolveErr(9, _)));
}

#[test]
fn inbound_message_is_delivered_and_acked() {
    let mut state = fresh_state();
    let actions = mux_step(
        &mut state,
        MuxEvent::Line(wire_message("m1", "alice", "me", "hello", true)),
    );
    assert_eq!(actions.len(), 2);
    match &actions[0] {
        MuxAction::Deliver(m) => {
            assert_eq!(m.session_id, "sess");
            assert_eq!(m.message_id, "m1");
            assert_eq!(m.src, "alice");
            assert_eq!(m.text, "hello");
            assert_eq!(m.kind, WeaveMessageKind::User);
            assert_eq!(m.conversation_id, "m1");
            assert_eq!(m.conversation_owner, "alice");
        }
        other => panic!("expected a delivery, got {other:?}"),
    }
    match &actions[1] {
        MuxAction::Write(ack) => {
            assert_eq!(ack.ty, "message.ack");
            assert_eq!(ack.corr, Some("m1".to_string()));
        }
        other => panic!("expected the ack, got {other:?}"),
    }
}

#[test]
fn self_echo_is_never_surfaced() {
    let mut state = fresh_state();
    let actions = mux_step(
        &mut state,
        MuxEvent::Line(wire_message("m2", "me", "me", "echo", false)),
    );
    assert!(actions.iter().all(|a| !matches!(a, MuxAction::Deliver(_))));

    // The display name counts as self too.
    let actions = mux_step(
        &mut state,
        MuxEvent::Line(wire_message("m3", "Me", "me", "echo", false)),
    );
    assert!(actions.iter().all(|a| !matches!(a, MuxAction::Deliver(_))));
}

#[test]
fn messages_for_other_agents_are_ignored() {
    let mut state = fresh_state();
    let actions = mux_step(
        &mut state,
        MuxEvent::Line(wire_message("m4", "alice", "someone-else", "psst", false)),
    );
    assert!(actions.iter().all(|a| !matches!(a, MuxAction::Deliver(_))));
}

#[test]
fn malformed_lines_are_dropped_silently() {
    let mut state = fresh_state();
    let actions = mux_step(&mut state, MuxEvent::Line(JsonValue::Str("garbage".to_string())));
    assert!(actions.is_empty());
    assert_eq!(state.phase, MuxPhase::Active);
}

#[test]
fn inbox_topic_addresses_the_agent() {
    let env = weave::envelope::WeaveEnvelope {
        v: 0,
        ty: "message.send".to_string(),
        id: "m5".to_string(),
        ts: "t".to_string(),
        src: "alice".to_string(),
        dst: None,
        topic: Some("agent.me.inbox".to_string()),
        session: Some("sess".to_string()),
        corr: None,
        payload: Some(JsonValue::Str("via topic".to_string())),
        ack: None,
        status: None,
        error: None,
    };
    assert!(is_direct_message_for_agent(&env, "me"));
    assert!(!is_direct_message_for_agent(&env, "bob"));
    let message = build_incoming_message(&env, "me", "Me").expect("message");
    assert_eq!(message.text, "via topic");
}

#[test]
fn reply_kind_comes_from_codex_metadata() {
    let wire = JsonValue::Obj(vec![
        ("v".to_string(), JsonValue::Int(0)),
        ("type".to_string(), JsonValue::Str("message.send".to_string())),
        ("id".to_string(), JsonValue::Str("m6".to_string())),
        ("ts".to_string(), JsonValue::Str("t".to_string())),
        ("src".to_string(), JsonValue::Str("alice".to_string())),
        ("dst".to_string(), JsonValue::Str("me".to_string())),
        ("session".to_string(), JsonValue::Str("sess".to_string())),
        (
            "payload".to_string(),
            JsonValue::Obj(vec![
                ("text".to_string(), JsonValue::Str("re".to_string())),
                (
                    "codex".to_string(),
                    JsonValue::Obj(vec![
                        ("kind".to_string(), JsonValue::Str("reply".to_string())),
                        (
                            "conversation_id".to_string(),
                            JsonValue::Str("c9".to_string()),
                        ),
                        (
                            "sender_name".to_string(),
                            JsonValue::Str(" Alice ".to_string()),
                        ),
                    ]),
                ),
            ]),
        ),
    ]);
    let mut state = fresh_state();
    let actions = mux_step(&mut state, MuxEvent::Line(wire));
    match &actions[0] {
        MuxAction::Deliver(m) => {
            assert_eq!(m.kind, WeaveMessageKind::Reply);
            assert_eq!(m.conversation_id, "c9");
            assert_eq!(m.src_name, Some("Alice".to_string()));
        }
        other => panic!("expected a delivery, got {other:?}"),
    }
}
