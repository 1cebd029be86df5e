use weave::agents::{WeaveAgent, WeaveSession};
use weave::mentions::{find_weave_mentions, parse_weave_mention_label};

#[test]
fn find_weave_mentions_finds_named_agents() {
    let agents = vec![
        WeaveAgent {
            id: "alice-id".to_string(),
            name: Some("alice".to_string()),
        },
        WeaveAgent {
            id: "bob-id".to_string(),
            name: Some("bob".to_string()),
        },
    ];

    let recipients = find_weave_mentions("hi #alice and #bob", &agents, None);

    assert_eq!(recipients.len(), 2);
    assert_eq!(recipients[0].id, "alice-id");
    assert_eq!(recipients[1].id, "bob-id");
}

#[test]
fn find_weave_mentions_dedupes_and_skips_self() {
    let agents = vec![
        WeaveAgent {
            id: "me".to_string(),
            name: Some("me".to_string()),
        },
        WeaveAgent {
            id: "other".to_string(),
            name: Some("other".to_string()),
        },
    ];

    let recipients = find_weave_mentions("#me #other #other", &agents, Some("me"));

    assert_eq!(recipients.len(), 1);
    assert_eq!(recipients[0].id, "other");
}

#[test]
fn find_weave_mentions_matches_id_when_name_is_not_mentionable() {
    let agents = vec![WeaveAgent {
        id: "agent-123".to_string(),
        name: Some("alice smith".to_string()),
    }];

    let recipients = find_weave_mentions("#agent-123", &agents, None);

    assert_eq!(recipients.len(), 1);
    assert_eq!(recipients[0].id, "agent-123");
}

#[test]
fn find_weave_mentions_is_case_insensitive_and_strips_trailing_punctuation() {
    let agents = vec![WeaveAgent {
        id: "bob-id".to_string(),
        name: Some("bob".to_string()),
    }];

    let recipients = find_weave_mentions("hi #BoB, how are you?", &agents, None);

    assert_eq!(recipients.len(), 1);
    assert_eq!(recipients[0].id, "bob-id");
}

#[test]
fn mention_label_requires_alphanumeric_run() {
    assert_eq!(parse_weave_mention_label("#"), None);
    assert_eq!(parse_weave_mention_label("plain"), None);
    assert_eq!(parse_weave_mention_label("#ab-c_9,"), Some("ab-c_9".to_string()));
}

#[test]
fn display_names_fall_back_to_ids() {
    let unnamed = WeaveAgent {
        id: "a1".to_string(),
        name: None,
    };
    assert_eq!(unnamed.display_name(), "a1");
    assert_eq!(unnamed.mention_text(), "a1");

    let blank = WeaveAgent {
        id: "a2".to_string(),
        name: Some("   ".to_string()),
    };
    assert_eq!(blank.display_name(), "a2");

    let spaced = WeaveAgent {
        id: "a3".to_string(),
        name: Some("two words".to_string()),
    };
    assert_eq!(spaced.display_name(), "two words");
    assert_eq!(spaced.mention_text(), "a3");

    let session = WeaveSession {
        id: "s1".to_string(),
        name: Some("  Lobby ".to_string()),
    };
    assert_eq!(session.display_name(), "Lobby");
}
