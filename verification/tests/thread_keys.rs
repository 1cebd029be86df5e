use weave::threads::{
    parse_dm_log_filename, parse_thread_key, room_log_path, room_thread_key, WeaveDmThread,
    WeaveThreadKey,
};

#[test]
fn dm_thread_is_symmetric() {
    let thread = WeaveDmThread::new("sess".to_string(), "b".to_string(), "a".to_string());

    assert_eq!(thread.session_id, "sess");
    assert_eq!(thread.a, "a");
    assert_eq!(thread.b, "b");
    assert_eq!(thread.key(), "dm:sess:a:b");
}

#[test]
fn dm_log_filename_roundtrips() {
    let thread = WeaveDmThread::new("sess".to_string(), "alice".to_string(), "bob".to_string());
    let path = thread.log_path("/tmp/code-home");
    let filename = path.rsplit('/').next().unwrap().to_string();

    let parsed = parse_dm_log_filename("sess", &filename).expect("parse");

    assert_eq!(parsed, thread);
}

#[test]
fn parse_thread_key_understands_room_and_dm() {
    let room = parse_thread_key("room:sess").expect("room");
    assert_eq!(
        room,
        WeaveThreadKey::Room {
            session_id: "sess".to_string()
        }
    );

    let dm = parse_thread_key("dm:sess:a:b").expect("dm");
    assert_eq!(dm.session_id(), "sess");
    assert_eq!(dm.key(), "dm:sess:a:b");
}

#[test]
fn room_log_path_is_stable() {
    let path = room_log_path("/tmp/code-home", "sess");
    assert!(path.ends_with("/weave/logs/sess/room.jsonl"));
}

#[test]
fn dm_key_ignores_argument_order() {
    let forward = WeaveDmThread::new("s".to_string(), "x".to_string(), "y".to_string());
    let backward = WeaveDmThread::new("s".to_string(), "y".to_string(), "x".to_string());
    assert_eq!(forward.key(), backward.key());
    assert_eq!(forward, backward);
}

#[test]
fn parse_thread_key_rejects_malformed_keys() {
    assert!(parse_thread_key("").is_none());
    assert!(parse_thread_key("room:").is_none());
    assert!(parse_thread_key("room:a:b").is_none());
    assert!(parse_thread_key("dm:s:a").is_none());
    assert!(parse_thread_key("dm:s:a:b:c").is_none());
    assert!(parse_thread_key("dm:s::b").is_none());
    assert!(parse_thread_key("lobby:s").is_none());
}

#[test]
fn parse_thread_key_trims_and_sorts() {
    let dm = parse_thread_key("  dm: s : b : a  ").expect("dm");
    assert_eq!(dm.key(), "dm:s:a:b");
    assert_eq!(dm.session_id(), "s");
}

#[test]
fn room_thread_key_trims_session() {
    assert_eq!(room_thread_key(" sess "), "room:sess");
}

#[test]
fn dm_log_filename_rejects_foreign_names() {
    assert!(parse_dm_log_filename("s", "room.jsonl").is_none());
    assert!(parse_dm_log_filename("s", "dm_ab.jsonl").is_none());
    assert!(parse_dm_log_filename("s", "dm_a_b.txt").is_none());
}
