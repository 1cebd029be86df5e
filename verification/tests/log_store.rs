use weave::log::{tail_entries, unread_count, WeaveLogEntry, WeaveLogRecipient};

fn entry(ts_ms: u64, message_id: &str, sender_id: &str, text: &str) -> WeaveLogEntry {
    WeaveLogEntry {
        v: 1,
        ts_ms,
        session_id: "sess".to_string(),
        message_id: message_id.to_string(),
        sender_id: sender_id.to_string(),
        sender_label: sender_id.to_string(),
        recipients: vec![WeaveLogRecipient {
            id: "me".to_string(),
            label: "Me".to_string(),
        }],
        text: text.to_string(),
    }
}

#[test]
fn unread_count_counts_inbound_since_last_read() {
    let entries = vec![
        WeaveLogEntry {
            v: 1,
            ts_ms: 90,
            session_id: "sess".to_string(),
            message_id: "m1".to_string(),
            sender_id: "other".to_string(),
            sender_label: "Other".to_string(),
            recipients: vec![WeaveLogRecipient {
                id: "me".to_string(),
                label: "Me".to_string(),
            }],
            text: "old".to_string(),
        },
        WeaveLogEntry {
            v: 1,
            ts_ms: 110,
            session_id: "sess".to_string(),
            message_id: "m2".to_string(),
            sender_id: "other".to_string(),
            sender_label: "Other".to_string(),
            recipients: vec![WeaveLogRecipient {
                id: "me".to_string(),
                label: "Me".to_string(),
            }],
            text: "new".to_string(),
        },
        WeaveLogEntry {
            v: 1,
            ts_ms: 120,
            session_id: "sess".to_string(),
            message_id: "m3".to_string(),
            sender_id: "me".to_string(),
            sender_label: "Me".to_string(),
            recipients: vec![WeaveLogRecipient {
                id: "other".to_string(),
                label: "Other".to_string(),
            }],
            text: "outbound".to_string(),
        },
    ];

    assert_eq!(unread_count(&entries, "me", 100), 1);
}

#[test]
fn unread_count_never_counts_own_messages() {
    let entries = vec![entry(10, "m1", "me", "a"), entry(20, "m2", "me", "b")];
    assert_eq!(unread_count(&entries, "me", 0), 0);
}

#[test]
fn tail_entries_dedupes_by_message_id() {
    let entries = vec![
        entry(1, "m1", "a", "hi"),
        entry(2, "m1", "a", "hi"),
        entry(3, "m2", "b", "yo"),
    ];

    let out = tail_entries(entries, 10);

    assert_eq!(out.len(), 2);
    assert_eq!(out[0].message_id, "m1");
    assert_eq!(out[0].ts_ms, 1);
    assert_eq!(out[1].message_id, "m2");
}

#[test]
fn tail_entries_appending_duplicate_changes_nothing() {
    let once = vec![entry(1, "m1", "a", "x"), entry(2, "m2", "b", "y")];
    let mut twice = once.clone();
    twice.push(entry(3, "m2", "b", "y again"));

    assert_eq!(tail_entries(once, 0), tail_entries(twice, 0));
}

#[test]
fn tail_entries_window_keeps_newest() {
    let entries = vec![
        entry(10, "m1", "a", "one"),
        entry(20, "m2", "a", "two"),
        entry(30, "m3", "a", "three"),
        entry(40, "m4", "a", "four"),
    ];

    let out = tail_entries(entries, 2);

    assert_eq!(out.len(), 2);
    assert_eq!(out[0].message_id, "m3");
    assert_eq!(out[1].message_id, "m4");
}

#[test]
fn tail_entries_zero_means_unlimited() {
    let entries = vec![
        entry(1, "m1", "a", "one"),
        entry(2, "m2", "a", "two"),
        entry(3, "m3", "a", "three"),
    ];
    assert_eq!(tail_entries(entries, 0).len(), 3);
}
