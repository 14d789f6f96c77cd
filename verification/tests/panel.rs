use devconsole::panel::{Panel, Scroll};
use devconsole::record::{Level, Record};

fn numbered(count: usize) -> Record {
    let mut record = Record::new(100);
    for i in 0..count {
        record.push(&format!("{i}"), Level::Info);
    }
    record
}

fn texts(rows: &[(String, Level)]) -> Vec<&str> {
    rows.iter().map(|row| row.0.as_str()).collect()
}

#[test]
fn new_panel_follows_the_tail() {
    let panel = Panel::new(42);
    assert_eq!(panel.last_index, None);
    assert_eq!(panel.max_display, 42);
    assert_eq!(panel.scroll_step, 4);
}

#[test]
fn limit_display_sets_step_to_a_tenth() {
    let mut panel = Panel::new(5);
    assert_eq!(panel.scroll_step, 0);
    panel.last_index = Some(3);
    panel.limit_display(100);
    assert_eq!(panel.max_display, 100);
    assert_eq!(panel.scroll_step, 10);
    assert_eq!(panel.last_index, Some(3));
}

#[test]
fn bubble_returns_to_the_tail() {
    let mut panel = Panel::new(20);
    panel.last_index = Some(7);
    panel.bubble();
    assert_eq!(panel.last_index, None);
}

#[test]
fn dyeing_by_level() {
    let panel = Panel::new(1);
    assert_eq!(panel.dyeing(&Level::Info), (255, 255, 255, 255));
    assert_eq!(panel.dyeing(&Level::Success), (0, 255, 0, 255));
    assert_eq!(panel.dyeing(&Level::Error), (255, 0, 0, 255));
    assert_eq!(panel.dyeing(&Level::Warn), (255, 165, 0, 255));
    assert_eq!(panel.dyeing(&Level::Display), (255, 255, 255, 128));
}

#[test]
fn scroll_up_starts_at_the_newest_line() {
    let mut panel = Panel::new(30);
    panel.scroll_up(50);
    assert_eq!(panel.last_index, Some(47));
    panel.scroll_up(50);
    assert_eq!(panel.last_index, Some(44));
}

#[test]
fn scroll_up_stops_at_zero() {
    let mut panel = Panel::new(30);
    panel.last_index = Some(2);
    panel.scroll_up(50);
    assert_eq!(panel.last_index, Some(0));
}

#[test]
fn scroll_down_moves_only_an_anchored_view() {
    let mut panel = Panel::new(30);
    panel.scroll_down();
    assert_eq!(panel.last_index, None);
    panel.last_index = Some(10);
    panel.scroll_down();
    assert_eq!(panel.last_index, Some(13));
    panel.last_index = Some(usize::MAX - 1);
    panel.scroll_down();
    assert_eq!(panel.last_index, Some(usize::MAX));
}

#[test]
fn scroll_wheel_takes_each_notch() {
    let mut panel = Panel::new(20);
    panel.scroll_wheel(9, &vec![Scroll::Up, Scroll::Up, Scroll::Still, Scroll::Down]);
    assert_eq!(panel.last_index, Some(7));
    panel.scroll_wheel(9, &vec![Scroll::Up; 5]);
    assert_eq!(panel.last_index, Some(0));
}

#[test]
fn scroll_wheel_without_notches_anchors_the_view() {
    let mut panel = Panel::new(20);
    panel.scroll_wheel(9, &Vec::new());
    assert_eq!(panel.last_index, Some(9));
}

#[test]
fn refresh_pads_a_short_log() {
    let mut panel = Panel::new(4);
    panel.last_index = Some(0);
    let rows = panel.refresh(&numbered(2), 4);
    assert_eq!(panel.last_index, None);
    assert_eq!(texts(&rows), vec!["", "", "0", "1"]);
    assert_eq!(rows[0].1, Level::Display);
    assert_eq!(rows[2].1, Level::Info);
}

#[test]
fn refresh_of_empty_log_is_blank() {
    let mut panel = Panel::new(3);
    let rows = panel.refresh(&Record::new(10), 3);
    assert_eq!(texts(&rows), vec!["", "", ""]);
}

#[test]
fn refresh_follows_the_tail() {
    let mut panel = Panel::new(3);
    let rows = panel.refresh(&numbered(10), 3);
    assert_eq!(panel.last_index, None);
    assert_eq!(texts(&rows), vec!["7", "8", "9"]);
}

#[test]
fn refresh_shows_the_window_at_the_anchor() {
    let mut panel = Panel::new(3);
    panel.last_index = Some(5);
    let rows = panel.refresh(&numbered(10), 3);
    assert_eq!(panel.last_index, Some(5));
    assert_eq!(texts(&rows), vec!["3", "4", "5"]);
}

#[test]
fn refresh_holds_the_anchor_to_the_first_screen() {
    let mut panel = Panel::new(3);
    panel.last_index = Some(0);
    let rows = panel.refresh(&numbered(10), 3);
    assert_eq!(panel.last_index, Some(2));
    assert_eq!(texts(&rows), vec!["0", "1", "2"]);
}

#[test]
fn refresh_releases_an_anchor_at_the_tail() {
    let mut panel = Panel::new(3);
    panel.last_index = Some(9);
    panel.refresh(&numbered(10), 3);
    assert_eq!(panel.last_index, None);
    panel.last_index = Some(500);
    panel.refresh(&numbered(10), 3);
    assert_eq!(panel.last_index, None);
}

#[test]
fn refresh_on_fewer_labels_than_lines() {
    let mut panel = Panel::new(4);
    let rows = panel.refresh(&numbered(2), 3);
    assert_eq!(texts(&rows), vec!["", "", "0"]);
    assert!(panel.refresh(&numbered(2), 0).is_empty());
}
