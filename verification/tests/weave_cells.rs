use weave::accent::{
    clear_weave_agent_accent_override, set_weave_agent_accent_override, weave_agent_accent_index,
    weave_agent_tone_for_id, AccentOverrides,
};
use weave::cells::{
    message_lines_from_text, new_weave_inbound, new_weave_outbound, MessageLineKind,
    PlainMessageState, TextTone,
};

fn tone_for_label(state: &PlainMessageState, label: &str) -> Option<TextTone> {
    state.lines.iter().find_map(|line| {
        line.spans
            .iter()
            .find(|span| span.text == label)
            .map(|span| span.tone)
    })
}

#[test]
fn weave_agent_tone_is_stable() {
    let mut overrides = AccentOverrides::new();
    clear_weave_agent_accent_override(&mut overrides, "alice");
    clear_weave_agent_accent_override(&mut overrides, "bob");
    assert_eq!(weave_agent_tone_for_id(&overrides, "alice"), TextTone::Accent(7));
    assert_eq!(weave_agent_tone_for_id(&overrides, "bob"), TextTone::Accent(4));
}

#[test]
fn weave_inbound_uses_agent_tones() {
    let overrides = AccentOverrides::new();
    let state = new_weave_inbound(
        &overrides,
        "alice".to_string(),
        "Alice".to_string(),
        "local".to_string(),
        "Local".to_string(),
        "hello".to_string(),
    );

    assert_eq!(tone_for_label(&state, "Alice"), Some(TextTone::Accent(7)));
    assert_eq!(tone_for_label(&state, "Local"), None);
}

#[test]
fn weave_agent_tone_can_be_overridden() {
    let mut overrides = AccentOverrides::new();
    set_weave_agent_accent_override(&mut overrides, "override-id".to_string(), 3);
    assert_eq!(
        weave_agent_tone_for_id(&overrides, "override-id"),
        TextTone::Accent(3)
    );
}

#[test]
fn weave_outbound_colors_each_recipient() {
    let overrides = AccentOverrides::new();
    let state = new_weave_outbound(
        &overrides,
        "local".to_string(),
        "Local".to_string(),
        vec![
            ("alice".to_string(), "Alice".to_string()),
            ("bob".to_string(), "Bob".to_string()),
        ],
        "ping".to_string(),
    );

    assert_eq!(tone_for_label(&state, "Local"), Some(TextTone::Accent(0)));
    assert_eq!(tone_for_label(&state, "Alice"), Some(TextTone::Accent(7)));
    assert_eq!(tone_for_label(&state, "Bob"), Some(TextTone::Accent(4)));
}

#[test]
fn accent_override_can_be_cleared_again() {
    let mut overrides = AccentOverrides::new();
    set_weave_agent_accent_override(&mut overrides, "alice".to_string(), 2);
    assert_eq!(weave_agent_tone_for_id(&overrides, "alice"), TextTone::Accent(2));
    clear_weave_agent_accent_override(&mut overrides, "alice");
    assert_eq!(weave_agent_tone_for_id(&overrides, "alice"), TextTone::Accent(7));
}

#[test]
fn accent_index_of_blank_id_is_zero() {
    assert_eq!(weave_agent_accent_index("   "), 0);
    assert!(weave_agent_accent_index("alice") < 8);
}

#[test]
fn message_lines_split_and_classify() {
    let lines = message_lines_from_text("first\n\nsecond\n");
    assert_eq!(lines.len(), 3);
    assert_eq!(lines[0].kind, MessageLineKind::Paragraph);
    assert_eq!(lines[0].spans[0].text, "first");
    assert_eq!(lines[1].kind, MessageLineKind::Blank);
    assert_eq!(lines[2].spans[0].text, "second");

    assert!(message_lines_from_text("").is_empty());
}

#[test]
fn inbound_pulls_first_line_into_header() {
    let overrides = AccentOverrides::new();
    let state = new_weave_inbound(
        &overrides,
        "alice".to_string(),
        "Alice".to_string(),
        "local".to_string(),
        "Local".to_string(),
        "first\nrest".to_string(),
    );
    let header = &state.lines[0];
    let texts: Vec<&str> = header.spans.iter().map(|s| s.text.as_str()).collect();
    assert_eq!(texts, vec!["Alice", ": ", "first"]);
    assert_eq!(state.lines[1].spans[0].text, "rest");
}

#[test]
fn outbound_without_recipients_says_so() {
    let overrides = AccentOverrides::new();
    let state = new_weave_outbound(
        &overrides,
        "local".to_string(),
        "Local".to_string(),
        vec![],
        "ping".to_string(),
    );
    assert_eq!(tone_for_label(&state, "(no recipients)"), Some(TextTone::Dim));
}
