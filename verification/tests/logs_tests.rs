use solana_ui::logs::{add_log_entry, create_log_store, create_log_store_with_capacity, log_error,
    log_request, log_response, log_update, filter_logs, LogEntry, LogEntryType};

fn entry(n: u64) -> LogEntry {
    LogEntry {
        timestamp: n as i64,
        entry_type: LogEntryType::Request,
        operation: format!("op{}", n),
        url: "http://node".to_string(),
        content: format!("content {}", n),
        status: "Sent".to_string(),
    }
}

#[test]
fn test_default_store_is_empty_with_default_capacity() {
    let store = create_log_store();
    assert!(store.entries.is_empty());
    assert_eq!(store.capacity, 1000);
}

#[test]
fn test_eviction_keeps_last_entries_in_order() {
    // N + 5 entries into a store of capacity N leave exactly the last N,
    // oldest first.
    let n: usize = 6;
    let mut store = create_log_store_with_capacity(n);
    for k in 0..(n + 5) {
        add_log_entry(&mut store, entry(k as u64));
    }
    assert_eq!(store.entries.len(), n);
    for (i, e) in store.entries.iter().enumerate() {
        assert_eq!(e.operation, format!("op{}", i + 5));
    }
}

#[test]
fn test_no_eviction_below_capacity() {
    let mut store = create_log_store_with_capacity(10);
    for k in 0..4 {
        add_log_entry(&mut store, entry(k));
    }
    assert_eq!(store.entries.len(), 4);
    assert_eq!(store.entries[0].operation, "op0");
}

#[test]
fn test_log_request_fields() {
    let mut store = create_log_store();
    log_request(&mut store, 99, "get_slot", "http://node", "endpoint: http://node");
    assert_eq!(store.entries.len(), 1);
    let e = &store.entries[0];
    assert_eq!(e.timestamp, 99);
    assert_eq!(e.entry_type, LogEntryType::Request);
    assert_eq!(e.operation, "get_slot");
    assert_eq!(e.url, "http://node");
    assert_eq!(e.content, "endpoint: http://node");
    assert_eq!(e.status, "Sent");
}

#[test]
fn test_log_response_error_update_fields() {
    let mut store = create_log_store();
    log_response(&mut store, 1, "get_block", "http://node", "found 3 voters", "200 OK");
    log_error(&mut store, 2, "get_block", "http://node", "connection refused");
    log_update(&mut store, 3, "check_updates", "checking", "Starting");
    assert_eq!(store.entries.len(), 3);
    assert_eq!(store.entries[0].entry_type, LogEntryType::Response);
    assert_eq!(store.entries[0].status, "200 OK");
    assert_eq!(store.entries[1].entry_type, LogEntryType::Error);
    assert_eq!(store.entries[1].status, "Error");
    assert_eq!(store.entries[1].content, "connection refused");
    assert_eq!(store.entries[2].entry_type, LogEntryType::Update);
    assert_eq!(store.entries[2].url, "updater");
}

#[test]
fn test_clear_empties_the_store() {
    let mut store = create_log_store();
    log_request(&mut store, 1, "a", "b", "c");
    store.clear();
    assert!(store.entries.is_empty());
    assert_eq!(store.capacity, 1000);
}

#[test]
fn test_icons_per_kind() {
    assert_eq!(LogEntryType::Request.icon(), "\u{2b06}\u{fe0f}");
    assert_eq!(LogEntryType::Response.icon(), "\u{2b07}\u{fe0f}");
    assert_eq!(LogEntryType::Error.icon(), "\u{274c}");
    assert_eq!(LogEntryType::Update.icon(), "\u{1f504}");
}

#[test]
fn test_filter_logs_empty_term_keeps_all() {
    let logs = vec![entry(1), entry(2)];
    assert_eq!(filter_logs(&logs, "").len(), 2);
}

#[test]
fn test_filter_logs_case_insensitive_across_fields() {
    let mut a = entry(1);
    a.operation = "get_block".to_string();
    let mut b = entry(2);
    b.status = "Timeout".to_string();
    let logs = vec![a, b];
    // Matches only once both the needle and the field are lower-cased.
    let by_op = filter_logs(&logs, "BLOCK");
    assert_eq!(by_op.len(), 1);
    assert_eq!(by_op[0].operation, "get_block");
    let by_status = filter_logs(&logs, "timeout");
    assert_eq!(by_status.len(), 1);
    assert_eq!(by_status[0].status, "Timeout");
    assert!(filter_logs(&logs, "no such text").is_empty());
}
