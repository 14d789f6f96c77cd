use devconsole::record::{Level, Record};

fn line(text: &str, level: Level) -> (String, Level) {
    (text.to_string(), level)
}

fn all(record: &Record) -> Vec<(String, Level)> {
    record.get(&None, &usize::MAX)
}

fn numbered(count: usize, max: usize) -> Record {
    let mut record = Record::new(max);
    for i in 0..count {
        record.push(&format!("{i}"), Level::Info);
    }
    record
}

#[test]
fn new_record_is_empty() {
    let record = Record::new(8);
    assert_eq!(record.len(), 0);
    assert_eq!(record.last_index(), 0);
    assert_eq!(all(&record), vec![]);
}

#[test]
fn default_level_is_info() {
    assert_eq!(Level::default(), Level::Info);
}

#[test]
fn default_record_holds_nothing() {
    let mut record = Record::default();
    record.push("dropped", Level::Info);
    assert_eq!(record.len(), 0);
}

#[test]
fn push_splits_on_line_breaks() {
    let mut record = Record::new(10);
    record.push("a\nb\nc", Level::Info);
    assert_eq!(record.len(), 3);
    assert_eq!(
        all(&record),
        vec![line("a", Level::Info), line("b", Level::Info), line("c", Level::Info)]
    );
}

#[test]
fn push_keeps_empty_lines_between_breaks() {
    let mut record = Record::new(10);
    record.push("a\n\nb\n", Level::Warn);
    assert_eq!(
        all(&record),
        vec![
            line("a", Level::Warn),
            line("", Level::Warn),
            line("b", Level::Warn),
            line("", Level::Warn)
        ]
    );
}

#[test]
fn push_of_empty_message_is_one_line() {
    let mut record = Record::new(10);
    record.push("", Level::Info);
    assert_eq!(all(&record), vec![line("", Level::Info)]);
}

#[test]
fn each_line_counts_against_capacity() {
    let mut record = Record::new(2);
    record.push("a\nb\nc", Level::Info);
    assert_eq!(record.len(), 2);
    assert_eq!(all(&record), vec![line("b", Level::Info), line("c", Level::Info)]);
}

#[test]
fn capacity_holds_after_every_push() {
    let mut record = Record::new(3);
    for i in 0..20 {
        record.push(&format!("line {i}"), Level::Info);
        assert!(record.len() <= 3);
    }
    assert_eq!(
        all(&record),
        vec![
            line("line 17", Level::Info),
            line("line 18", Level::Info),
            line("line 19", Level::Info)
        ]
    );
}

#[test]
fn capacity_zero_keeps_nothing() {
    let mut record = Record::new(0);
    record.push("a\nb", Level::Error);
    assert_eq!(record.len(), 0);
    assert_eq!(all(&record), vec![]);
}

#[test]
fn push_empty_appends_display_lines() {
    let mut record = Record::new(10);
    record.push("x", Level::Success);
    record.push_empty(2);
    assert_eq!(
        all(&record),
        vec![line("x", Level::Success), line("", Level::Display), line("", Level::Display)]
    );
}

#[test]
fn push_empty_of_zero_changes_nothing() {
    let mut record = Record::new(10);
    record.push("x", Level::Info);
    record.push_empty(0);
    assert_eq!(all(&record), vec![line("x", Level::Info)]);
}

#[test]
fn replace_last_leaves_a_single_entry() {
    let mut record = Record::new(10);
    record.push("x", Level::Info);
    record.replace_last("y", Level::Success);
    assert_eq!(record.len(), 1);
    assert_eq!(all(&record), vec![line("y", Level::Success)]);
}

#[test]
fn replace_last_on_empty_log_appends() {
    let mut record = Record::new(10);
    record.replace_last("y", Level::Success);
    assert_eq!(all(&record), vec![line("y", Level::Success)]);
}

#[test]
fn replace_last_with_several_lines() {
    let mut record = Record::new(10);
    record.push("a\nb", Level::Info);
    record.replace_last("c\nd", Level::Warn);
    assert_eq!(
        all(&record),
        vec![line("a", Level::Info), line("c", Level::Warn), line("d", Level::Warn)]
    );
}

#[test]
fn clear_empties_and_keeps_capacity() {
    let mut record = numbered(5, 2);
    record.clear();
    assert_eq!(record.len(), 0);
    record.push("a\nb\nc", Level::Info);
    assert_eq!(record.len(), 2);
}

#[test]
fn window_at_the_tail() {
    let record = numbered(5, 5);
    assert_eq!(
        record.get(&None, &3),
        vec![line("2", Level::Info), line("3", Level::Info), line("4", Level::Info)]
    );
}

#[test]
fn window_collapses_to_start() {
    let record = numbered(5, 5);
    assert_eq!(record.get(&Some(0), &3), vec![line("0", Level::Info)]);
}

#[test]
fn window_ends_at_the_anchor() {
    let record = numbered(5, 5);
    assert_eq!(
        record.get(&Some(3), &2),
        vec![line("2", Level::Info), line("3", Level::Info)]
    );
}

#[test]
fn window_anchor_beyond_the_tail_is_held_back() {
    let record = numbered(5, 5);
    assert_eq!(
        record.get(&Some(99), &2),
        vec![line("3", Level::Info), line("4", Level::Info)]
    );
}

#[test]
fn window_of_one_returns_the_prefix() {
    let record = numbered(5, 5);
    assert_eq!(
        record.get(&Some(2), &1),
        vec![line("0", Level::Info), line("1", Level::Info), line("2", Level::Info)]
    );
}

#[test]
fn window_of_zero_is_empty() {
    let record = numbered(5, 5);
    assert_eq!(record.get(&None, &0), vec![]);
    assert_eq!(Record::new(5).get(&None, &0), vec![]);
}

#[test]
fn window_larger_than_the_log_returns_all() {
    let record = numbered(3, 5);
    assert_eq!(record.get(&None, &10).len(), 3);
}

#[test]
fn last_index_follows_the_length() {
    let record = numbered(4, 10);
    assert_eq!(record.len(), 4);
    assert_eq!(record.last_index(), 3);
}
