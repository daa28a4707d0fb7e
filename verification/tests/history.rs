use chatty::history::{HistoryBuffer, DEFAULT_HISTORY_CAPACITY};
use chatty::message::Message;

fn message(id: u64, content: &str) -> Message {
    Message::new(id, 1_700_000_000 + id, "ann".to_string(), content.to_string())
}

fn contents(messages: &[Message]) -> Vec<String> {
    messages.iter().map(|m| m.content.clone()).collect()
}

#[test]
fn new_buffer_is_empty() {
    let buffer = HistoryBuffer::new(3);
    assert!(buffer.is_empty());
    assert_eq!(buffer.len(), 0);
    assert_eq!(buffer.capacity(), 3);
    assert_eq!(buffer.snapshot(), Vec::<Message>::new());
}

#[test]
fn snapshot_keeps_insertion_order() {
    let mut buffer = HistoryBuffer::new(3);
    buffer.append(message(1, "A"));
    buffer.append(message(2, "B"));
    assert_eq!(buffer.len(), 2);
    assert!(!buffer.is_empty());
    assert_eq!(buffer.snapshot(), vec![message(1, "A"), message(2, "B")]);
}

#[test]
fn fourth_append_evicts_the_oldest_of_three() {
    let mut buffer = HistoryBuffer::new(3);
    buffer.append(message(1, "A"));
    buffer.append(message(2, "B"));
    buffer.append(message(3, "C"));
    buffer.append(message(4, "D"));
    assert_eq!(contents(&buffer.snapshot()), vec!["B", "C", "D"]);
    assert_eq!(buffer.snapshot(), vec![message(2, "B"), message(3, "C"), message(4, "D")]);
    assert_eq!(buffer.len(), 3);
}

#[test]
fn a_full_buffer_holds_exactly_its_capacity() {
    let mut buffer = HistoryBuffer::new(3);
    buffer.append(message(1, "A"));
    buffer.append(message(2, "B"));
    buffer.append(message(3, "C"));
    assert_eq!(contents(&buffer.snapshot()), vec!["A", "B", "C"]);
}

#[test]
fn more_appends_than_capacity_keep_the_latest() {
    let capacity = 5;
    let mut buffer = HistoryBuffer::new(capacity);
    for id in 1..=12u64 {
        buffer.append(message(id, &format!("m{}", id)));
        assert!(buffer.len() <= capacity);
    }
    let kept = buffer.snapshot();
    assert_eq!(kept.len(), capacity);
    let ids: Vec<u64> = kept.iter().map(|m| m.id).collect();
    assert_eq!(ids, vec![8, 9, 10, 11, 12]);
    assert_eq!(contents(&kept), vec!["m8", "m9", "m10", "m11", "m12"]);
}

#[test]
fn default_capacity_is_one_hundred() {
    assert_eq!(DEFAULT_HISTORY_CAPACITY, 100);
    let mut buffer = HistoryBuffer::new(DEFAULT_HISTORY_CAPACITY);
    for id in 0..150u64 {
        buffer.append(message(id, "x"));
    }
    let kept = buffer.snapshot();
    assert_eq!(kept.len(), 100);
    assert_eq!(kept[0].id, 50);
    assert_eq!(kept[99].id, 149);
}

#[test]
fn capacity_one_keeps_only_the_newest() {
    let mut buffer = HistoryBuffer::new(1);
    buffer.append(message(1, "A"));
    buffer.append(message(2, "B"));
    assert_eq!(buffer.snapshot(), vec![message(2, "B")]);
}

#[test]
fn capacity_zero_keeps_nothing() {
    let mut buffer = HistoryBuffer::new(0);
    buffer.append(message(1, "A"));
    buffer.append(message(2, "B"));
    assert!(buffer.is_empty());
    assert_eq!(buffer.snapshot(), Vec::<Message>::new());
}

#[test]
fn a_snapshot_is_a_copy() {
    let mut buffer = HistoryBuffer::new(2);
    buffer.append(message(1, "A"));
    let before = buffer.snapshot();
    buffer.append(message(2, "B"));
    buffer.append(message(3, "C"));
    assert_eq!(before, vec![message(1, "A")]);
    assert_eq!(contents(&buffer.snapshot()), vec!["B", "C"]);
}

#[test]
fn a_message_keeps_its_fields() {
    let first = Message::new(7, 1_700_000_007, "ann".to_string(), "hello".to_string());
    assert_eq!(first.id, 7);
    assert_eq!(first.timestamp, 1_700_000_007);
    assert_eq!(first.author, "ann");
    assert_eq!(first.content, "hello");
    let copy = first.clone();
    assert_eq!(copy, first);
}
