use alfons::chat::ChatHistory;
use alfons::recall::InputHistory;

#[test]
fn log_bounded_keeps_newest_in_order() {
    let mut log = ChatHistory::new(5);
    for i in 0..8u32 {
        let text = format!("msg-{}", i);
        log.add_message("Вы", &text);
    }
    let msgs = log.messages();
    assert_eq!(msgs.len(), 5);
    for (k, m) in msgs.iter().enumerate() {
        assert_eq!(m.text, format!("msg-{}", k + 3));
        assert_eq!(m.sender, "Вы");
        assert_eq!(m.timestamp.chars().count(), 8);
    }
}

#[test]
fn log_clear_empties() {
    let mut log = ChatHistory::new(10);
    log.add_message("a", "x");
    log.add_message("b", "y");
    log.clear();
    assert_eq!(log.messages().len(), 0);
}

#[test]
fn log_default_capacity() {
    let log = ChatHistory::default();
    assert_eq!(log.max_messages, 100);
    assert_eq!(log.messages().len(), 0);
}

#[test]
fn recall_dedup_consecutive() {
    let mut h = InputHistory::new();
    h.push("a");
    h.push("a");
    assert_eq!(h.entries.len(), 1);
    assert_eq!(h.entries[0], "a");
}

#[test]
fn recall_navigation_round() {
    let mut h = InputHistory::new();
    h.push("a");
    h.push("b");
    assert_eq!(h.up("c").as_deref(), Some("b"));
    assert_eq!(h.up("c").as_deref(), Some("a"));
    assert_eq!(h.down().as_deref(), Some("b"));
    assert_eq!(h.down().as_deref(), Some("c"));
}

#[test]
fn recall_up_stays_at_oldest() {
    let mut h = InputHistory::new();
    h.push("one");
    assert_eq!(h.up("draft").as_deref(), Some("one"));
    assert_eq!(h.up("draft").as_deref(), Some("one"));
}

#[test]
fn recall_blank_and_trim() {
    let mut h = InputHistory::new();
    h.push("   ");
    assert_eq!(h.entries.len(), 0);
    h.push("  hello  ");
    assert_eq!(h.entries[0], "hello");
}

#[test]
fn recall_eviction_at_capacity() {
    let mut h = InputHistory::new();
    for i in 0..55u32 {
        h.push(&format!("cmd-{}", i));
    }
    assert_eq!(h.entries.len(), 50);
    assert_eq!(h.entries[0], "cmd-5");
    assert_eq!(h.entries[49], "cmd-54");
}

#[test]
fn recall_reset_ends_navigation() {
    let mut h = InputHistory::new();
    h.push("a");
    let _ = h.up("z");
    h.reset();
    assert!(h.down().is_none());
}
