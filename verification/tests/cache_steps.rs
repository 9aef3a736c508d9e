use mprisence::cover::cache::{CacheEntry, CacheUsage, MAX_CACHED_IMAGE_BYTES, MAX_CACHE_SIZE_BYTES};
use mprisence::cover::cache_ops::{
    lookup_outcome, EntryRead, RemoveAction, RemoveEvent, RemoveOp, RemovePhase, StoreAction, StoreEvent, StoreOp,
    StorePhase,
};

fn entry(expires_at: u64) -> CacheEntry {
    CacheEntry {
        url: "https://img/x.png".to_string(),
        provider: "musicbrainz".to_string(),
        expires_at,
        last_validated: 0,
        data_file: None,
    }
}

#[test]
fn lookup_keeps_live_and_drops_expired_or_corrupt() {
    let (remove, got) = lookup_outcome(EntryRead::Parsed(entry(100)), 100);
    assert!(!remove);
    assert_eq!(got.unwrap().expires_at, 100);
    let (remove, got) = lookup_outcome(EntryRead::Parsed(entry(100)), 101);
    assert!(remove && got.is_none());
    let (remove, got) = lookup_outcome(EntryRead::Corrupt, 0);
    assert!(remove && got.is_none());
    let (remove, got) = lookup_outcome(EntryRead::Unreadable, 0);
    assert!(!remove && got.is_none());
    let (remove, got) = lookup_outcome(EntryRead::Missing, 0);
    assert!(!remove && got.is_none());
}

#[test]
fn store_with_bytes_writes_payload_then_entry() {
    let mut usage = CacheUsage::new();
    let (mut op, action) = StoreOp::start("k", "p", "u", Some(10), 60, Some(5), false, 0, 1000);
    assert_eq!(op.expires_at, 1010);
    match action {
        StoreAction::WritePayload { name } => assert_eq!(name, "k.bin"),
        other => panic!("unexpected {:?}", other),
    }
    match op.step(&mut usage, StoreEvent::PayloadWritten { ok: true }) {
        StoreAction::WriteEntry { entry } => {
            assert_eq!(entry.url, "u");
            assert_eq!(entry.provider, "p");
            assert_eq!(entry.expires_at, 1010);
            assert_eq!(entry.last_validated, 1000);
            assert_eq!(entry.data_file.as_deref(), Some("k.bin"));
        }
        other => panic!("unexpected {:?}", other),
    }
    assert_eq!(usage.bytes, 5);
    match op.step(&mut usage, StoreEvent::EntryWritten { len: Some(40) }) {
        StoreAction::Finish { ok } => assert!(ok),
        other => panic!("unexpected {:?}", other),
    }
    assert_eq!(usage.entries, 1);
    assert_eq!(usage.bytes, 45);
    assert_eq!(op.phase, StorePhase::Done);
}

#[test]
fn store_without_bytes_drops_the_old_payload() {
    let mut usage = CacheUsage { entries: 1, bytes: 100 };
    let (mut op, action) = StoreOp::start("k", "p", "u", None, 60, None, true, 30, 0);
    assert!(matches!(action, StoreAction::ReadExisting));
    match op.step(&mut usage, StoreEvent::ExistingRead { data_file: Some("k.bin".to_string()) }) {
        StoreAction::RemovePayload { name } => assert_eq!(name, "k.bin"),
        other => panic!("unexpected {:?}", other),
    }
    match op.step(&mut usage, StoreEvent::PayloadRemoved { removed_len: Some(50) }) {
        StoreAction::WriteEntry { entry } => assert!(entry.data_file.is_none()),
        other => panic!("unexpected {:?}", other),
    }
    assert_eq!(usage.bytes, 50);
    let last = op.step(&mut usage, StoreEvent::EntryWritten { len: Some(35) });
    assert!(matches!(last, StoreAction::Finish { ok: true }));
    assert_eq!(usage.entries, 1);
    assert_eq!(usage.bytes, 55);
}

#[test]
fn failed_entry_write_removes_the_new_payload_and_fails() {
    let mut usage = CacheUsage::new();
    let (mut op, _) = StoreOp::start("k", "p", "u", None, 60, Some(8), false, 0, 0);
    let _ = op.step(&mut usage, StoreEvent::PayloadWritten { ok: true });
    match op.step(&mut usage, StoreEvent::EntryWritten { len: None }) {
        StoreAction::RemovePayload { name } => assert_eq!(name, "k.bin"),
        other => panic!("unexpected {:?}", other),
    }
    let last = op.step(&mut usage, StoreEvent::PayloadRemoved { removed_len: Some(8) });
    assert!(matches!(last, StoreAction::Finish { ok: false }));
    assert_eq!(usage.bytes, 0);
}

#[test]
fn oversized_payload_is_skipped_and_limits_enforced_when_over() {
    let mut usage = CacheUsage { entries: 3, bytes: MAX_CACHE_SIZE_BYTES };
    let (mut op, action) = StoreOp::start("k", "p", "u", None, 60, Some(MAX_CACHED_IMAGE_BYTES + 1), false, 0, 0);
    assert!(matches!(action, StoreAction::WriteEntry { .. }));
    let next = op.step(&mut usage, StoreEvent::EntryWritten { len: Some(10) });
    assert!(matches!(next, StoreAction::EnforceLimits));
    let last = op.step(&mut usage, StoreEvent::LimitsEnforced { ok: true });
    assert!(matches!(last, StoreAction::Finish { ok: true }));
}

#[test]
fn removal_takes_payload_then_entry() {
    let mut usage = CacheUsage { entries: 2, bytes: 100 };
    let (mut op, action) = RemoveOp::start(true, 30);
    assert!(matches!(action, RemoveAction::ReadEntry));
    match op.step(&mut usage, RemoveEvent::EntryRead { data_file: Some("k.bin".to_string()) }) {
        RemoveAction::RemovePayload { name } => assert_eq!(name, "k.bin"),
        other => panic!("unexpected {:?}", other),
    }
    let next = op.step(&mut usage, RemoveEvent::PayloadRemoved { removed_len: Some(20) });
    assert!(matches!(next, RemoveAction::RemoveEntry));
    let last = op.step(&mut usage, RemoveEvent::EntryRemoved { ok: true });
    assert!(matches!(last, RemoveAction::Finish { ok: true }));
    assert_eq!(usage.entries, 1);
    assert_eq!(usage.bytes, 50);
    assert_eq!(op.phase, RemovePhase::Done);
    let (_, nothing) = RemoveOp::start(false, 0);
    assert!(matches!(nothing, RemoveAction::Finish { ok: true }));
}
