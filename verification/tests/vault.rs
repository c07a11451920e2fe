use passclip::vault::{MultiSlotVault, SlotMetadata, VaultSlot};

fn secrets(v: &mut MultiSlotVault) -> Vec<String> {
    let mut out = Vec::new();
    while let Some(s) = v.pop_latest() {
        out.push(s.secret);
    }
    out.reverse();
    out
}

#[test]
fn new_vault_is_empty() {
    let v = MultiSlotVault::new(5);
    assert!(v.is_empty());
    assert_eq!(v.len(), 0);
    assert_eq!(v.max_slots(), 5);
    assert!(v.list_metadata().is_empty());
}

#[test]
fn push_hands_out_consecutive_ids_from_one() {
    let mut v = MultiSlotVault::new(5);
    assert_eq!(v.push("alpha".to_string(), 0), 1);
    assert_eq!(v.push("beta".to_string(), 0), 2);
    assert_eq!(v.push("gamma".to_string(), 0), 3);
    assert_eq!(v.len(), 3);
    assert!(!v.is_empty());
}

#[test]
fn full_vault_evicts_oldest() {
    let mut v = MultiSlotVault::new(2);
    v.push_at("a".to_string(), 1, 10);
    v.push_at("b".to_string(), 2, 20);
    let id = v.push_at("c".to_string(), 3, 30);
    assert_eq!(id, 3);
    assert_eq!(v.len(), 2);
    let ids: Vec<u32> = v.list_metadata().iter().map(|m| m.id).collect();
    assert_eq!(ids, vec![2, 3]);
    assert_eq!(secrets(&mut v), vec!["b".to_string(), "c".to_string()]);
}

#[test]
fn zero_capacity_vault_still_keeps_the_newest() {
    let mut v = MultiSlotVault::new(0);
    v.push_at("a".to_string(), 0, 1);
    v.push_at("b".to_string(), 0, 2);
    assert_eq!(v.len(), 1);
    assert_eq!(v.pop_latest().unwrap().secret, "b");
}

#[test]
fn pop_by_id_gives_back_what_push_stored() {
    let mut v = MultiSlotVault::new(5);
    let a = v.push_at("first".to_string(), 7, 100);
    let b = v.push_at("second".to_string(), 8, 200);
    let s = v.pop_by_id(a).unwrap();
    assert_eq!(s.id, a);
    assert_eq!(s.secret, "first");
    assert_eq!(s.entropy_bits, 7);
    assert_eq!(s.timestamp_nanos, 100);
    assert!(v.pop_by_id(a).is_none());
    assert_eq!(v.len(), 1);
    assert_eq!(v.pop_by_id(b).unwrap().secret, "second");
    assert!(v.is_empty());
}

#[test]
fn pop_by_unknown_id_changes_nothing() {
    let mut v = MultiSlotVault::new(5);
    v.push_at("x".to_string(), 0, 1);
    assert!(v.pop_by_id(42).is_none());
    assert_eq!(v.len(), 1);
}

#[test]
fn pop_latest_returns_newest() {
    let mut v = MultiSlotVault::new(5);
    v.push_at("old".to_string(), 0, 1);
    v.push_at("new".to_string(), 0, 2);
    assert_eq!(v.pop_latest().unwrap().secret, "new");
    assert_eq!(v.pop_latest().unwrap().secret, "old");
    assert!(v.pop_latest().is_none());
}

#[test]
fn metadata_reports_byte_length_and_no_secret() {
    let mut v = MultiSlotVault::new(5);
    v.push_at("héllo".to_string(), 0x40900000, 5_000_000_000);
    let m = v.list_metadata();
    assert_eq!(
        m,
        vec![SlotMetadata { id: 1, entropy_bits: 0x40900000, timestamp_nanos: 5_000_000_000, len: 6 }]
    );
}

#[test]
fn cleanup_removes_expired_and_future_slots() {
    let mut v = MultiSlotVault::new(5);
    v.push_at("old".to_string(), 0, 100);
    v.push_at("fresh".to_string(), 0, 950);
    v.push_at("future".to_string(), 0, 2000);
    v.cleanup_expired_at(1000, 100);
    let ids: Vec<u32> = v.list_metadata().iter().map(|m| m.id).collect();
    assert_eq!(ids, vec![2]);
    v.cleanup_expired_at(1000, 100);
    assert_eq!(v.len(), 1);
    v.cleanup_expired_at(1050, 100);
    assert!(v.is_empty());
}

#[test]
fn cleanup_with_clock_keeps_recent_slots() {
    let mut v = MultiSlotVault::new(5);
    v.push("recent".to_string(), 0);
    v.cleanup_expired(600_000_000_000);
    assert_eq!(v.len(), 1);
    v.cleanup_expired(0);
    assert!(v.is_empty());
}

#[test]
fn clear_empties_and_keeps_numbering() {
    let mut v = MultiSlotVault::new(5);
    v.push_at("a".to_string(), 0, 1);
    v.push_at("b".to_string(), 0, 1);
    v.clear();
    assert!(v.is_empty());
    assert_eq!(v.push_at("c".to_string(), 0, 1), 3);
}

#[test]
fn clone_slot_copies_every_field() {
    let s = VaultSlot { id: 9, secret: "k".to_string(), entropy_bits: 3, timestamp_nanos: 4 };
    let c = s.clone_slot();
    assert_eq!((c.id, c.secret.as_str(), c.entropy_bits, c.timestamp_nanos), (9, "k", 3, 4));
}
