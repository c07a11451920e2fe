use passclip::logs::{clear_logs, get_logs, log, uuid_text, LogEntry, LogState, MAX_LOG_ENTRIES};

fn entry(n: usize) -> LogEntry {
    LogEntry {
        id: format!("id{n}"),
        timestamp: "00:00:00".to_string(),
        level: "INFO".to_string(),
        message: format!("message {n}"),
    }
}

#[test]
fn new_log_is_empty() {
    let s = LogState::new();
    assert_eq!(s.len(), 0);
    assert!(get_logs(&s).is_empty());
}

#[test]
fn log_records_level_message_time_and_uuid() {
    let mut s = LogState::new();
    let e = log(&mut s, "INFO", "PassClip GUI initialized");
    assert_eq!(e.level, "INFO");
    assert_eq!(e.message, "PassClip GUI initialized");
    assert_eq!(e.timestamp.len(), 8);
    assert_eq!(&e.timestamp[2..3], ":");
    let parsed = uuid::Uuid::parse_str(&e.id).unwrap();
    assert_eq!(parsed.get_version_num(), 4);
    assert_eq!(parsed.to_string(), e.id);
    let logs = get_logs(&s);
    assert_eq!(logs.len(), 1);
    assert_eq!(logs[0].id, e.id);
}

#[test]
fn log_keeps_latest_two_hundred() {
    let mut s = LogState::new();
    for n in 0..250 {
        s.push_entry(entry(n));
    }
    assert_eq!(s.len(), MAX_LOG_ENTRIES);
    let logs = get_logs(&s);
    assert_eq!(logs[0].message, "message 50");
    assert_eq!(logs[199].message, "message 249");
}

#[test]
fn clear_logs_empties() {
    let mut s = LogState::new();
    s.push_entry(entry(1));
    clear_logs(&mut s);
    assert_eq!(s.len(), 0);
}

#[test]
fn uuid_text_matches_hyphenated_form() {
    assert_eq!(uuid_text(0xa1a2a3a4b1b2c1c2d1d2d3d4d5d6d7d8), "a1a2a3a4-b1b2-c1c2-d1d2-d3d4d5d6d7d8");
    assert_eq!(uuid_text(0), "00000000-0000-0000-0000-000000000000");
    let bits = 0x0123456789abcdef_fedcba9876543210u128;
    assert_eq!(uuid_text(bits), uuid::Uuid::from_u128(bits).to_string());
}

#[test]
fn clone_entry_copies_every_field() {
    let e = entry(3);
    let c = e.clone_entry();
    assert_eq!((c.id, c.timestamp, c.level, c.message), (e.id, e.timestamp, e.level, e.message));
}
