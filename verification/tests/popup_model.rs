use weave::popup::MentionPopup;

fn names(items: &[&str]) -> Vec<String> {
    items.iter().map(|s| s.to_string()).collect()
}

#[test]
fn popup_starts_on_first_candidate() {
    let popup = MentionPopup::new(names(&["alice", "bob"]));
    assert_eq!(popup.match_count(), 2);
    assert_eq!(popup.selected_mention(), Some("alice".to_string()));

    let empty = MentionPopup::new(Vec::new());
    assert_eq!(empty.match_count(), 0);
    assert_eq!(empty.selected_mention(), None);
}

#[test]
fn set_candidates_sorts_and_dedupes() {
    let mut popup = MentionPopup::new(Vec::new());
    popup.set_candidates(names(&["bob", "alice", "bob", "carol"]));
    assert_eq!(popup.filtered_items(), names(&["alice", "bob", "carol"]));
}

#[test]
fn query_filters_case_insensitively() {
    let mut popup = MentionPopup::new(Vec::new());
    popup.set_candidates(names(&["alice", "bob", "alba"]));
    popup.on_query_change("AL".to_string());
    assert_eq!(popup.filtered_items(), names(&["alba", "alice"]));
    assert_eq!(popup.match_count(), 2);
    popup.on_query_change("zz".to_string());
    assert_eq!(popup.match_count(), 0);
    assert_eq!(popup.selected_mention(), None);
    assert_eq!(popup.calculate_required_height(), 1);
}

#[test]
fn selection_wraps_both_ways() {
    let mut popup = MentionPopup::new(names(&["a", "b", "c"]));
    assert_eq!(popup.selected_mention(), Some("a".to_string()));
    popup.move_up();
    assert_eq!(popup.selected_mention(), Some("c".to_string()));
    popup.move_down();
    assert_eq!(popup.selected_mention(), Some("a".to_string()));
    popup.move_down();
    assert_eq!(popup.selected_mention(), Some("b".to_string()));
}

#[test]
fn required_height_is_capped() {
    let many: Vec<String> = (0..20).map(|i| format!("agent{i:02}")).collect();
    let mut popup = MentionPopup::new(Vec::new());
    popup.set_candidates(many);
    assert_eq!(popup.match_count(), 20);
    assert_eq!(popup.calculate_required_height(), 8);
}
