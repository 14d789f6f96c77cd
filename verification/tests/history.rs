use devconsole::history::History;

fn filled() -> History {
    let mut history = History::default();
    history.push("cmd1");
    history.push("cmd2");
    history.push("cmd3");
    history
}

#[test]
fn history_round_trip() {
    let mut history = filled();
    assert_eq!(history.roll_back().cloned(), Some("cmd3".to_string()));
    assert_eq!(history.roll_back().cloned(), Some("cmd2".to_string()));
    assert_eq!(history.roll_back().cloned(), Some("cmd1".to_string()));
    assert_eq!(history.roll_back().cloned(), Some("cmd1".to_string()));
    assert_eq!(history.roll_forward().cloned(), Some("cmd2".to_string()));
    assert_eq!(history.roll_forward().cloned(), Some("cmd3".to_string()));
    assert_eq!(history.roll_forward().cloned(), None);
}

#[test]
fn roll_back_on_empty_history_is_none() {
    let mut history = History::default();
    assert_eq!(history.roll_back(), None);
    assert_eq!(history.roll_back(), None);
}

#[test]
fn roll_forward_on_empty_history_is_none() {
    let mut history = History::default();
    assert_eq!(history.roll_forward(), None);
    assert_eq!(history.roll_forward(), None);
}

#[test]
fn roll_forward_beyond_the_newest_line_ends_the_recall() {
    let mut history = filled();
    history.roll_back();
    assert_eq!(history.roll_forward(), None);
    assert_eq!(history.roll_back().cloned(), Some("cmd3".to_string()));
    assert_eq!(history.roll_back().cloned(), Some("cmd2".to_string()));
}

#[test]
fn roll_forward_at_the_live_edge_is_none() {
    let mut history = filled();
    assert_eq!(history.roll_forward(), None);
    assert_eq!(history.roll_back().cloned(), Some("cmd3".to_string()));
}

#[test]
fn push_resets_the_cursor() {
    let mut history = filled();
    history.roll_back();
    history.roll_back();
    history.push("cmd4");
    assert_eq!(history.roll_back().cloned(), Some("cmd4".to_string()));
    assert_eq!(history.roll_back().cloned(), Some("cmd3".to_string()));
}

#[test]
fn push_trims_surrounding_whitespace() {
    let mut history = History::default();
    history.push(" \t fps 1 \n");
    assert_eq!(history.roll_back().cloned(), Some("fps 1".to_string()));
}

#[test]
fn push_trims_unicode_whitespace() {
    let mut history = History::default();
    history.push("\u{3000}\u{a0}music play\u{2003}\u{85}");
    assert_eq!(history.roll_back().cloned(), Some("music play".to_string()));
}

#[test]
fn push_of_blank_line_stores_empty_text() {
    let mut history = History::default();
    history.push("   ");
    assert_eq!(history.roll_back().cloned(), Some(String::new()));
}
