use std::hash::{Hash, Hasher};
use mprisence::bridge::{
    bridge_command_for, build_snapshot, compute_publish_decision, dbus_safe_value, format_site_name,
    make_track_id, read_message, select_best_url, simple_hash_exec, write_message, BridgeCommand,
    Capabilities, CapsSnapshot, CommandKind, ConfidenceLevel, FrameError, MetaSnapshot, MprisCommand,
    PublishDecision, PublishedSnapshot, SelectionReason, SourceMetadata, SourcePlayback,
    SourceRegistry, SourceState, Status, STALE_TIMEOUT_MS,
};

fn make_source(id: &str, status: Status, last_seen: u64) -> SourceState {
    SourceState {
        source_id: id.to_string(),
        url: format!("https://example.com/{id}"),
        origin: "https://example.com".into(),
        site: "generic".into(),
        playback: SourcePlayback { status, position_ms: 0, duration_ms: 100000 },
        metadata: SourceMetadata {
            title: Some("Test".into()),
            artist: vec![],
            album: None,
            album_artist: vec![],
            art_url: None,
            track_id: None,
        },
        capabilities: Capabilities {
            play_pause: true,
            next: false,
            previous: false,
            seek: false,
            set_position: false,
            raise: false,
        },
        confidence: ConfidenceLevel::Fallback,
        canonical_url: None,
        last_seen,
    }
}

#[test]
fn test_select_playing_over_paused() {
    let mut reg = SourceRegistry::new();
    let now = reg.now_millis();
    reg.upsert(make_source("tab:1", Status::Paused, now));
    reg.upsert(make_source("tab:2", Status::Playing, now));

    let (source, reason) = reg.select_active();
    assert_eq!(reason, SelectionReason::Playing);
    assert_eq!(source.unwrap().source_id, "tab:2");
}

#[test]
fn test_select_paused_when_no_playing() {
    let mut reg = SourceRegistry::new();
    let now = reg.now_millis();
    reg.upsert(make_source("tab:1", Status::Paused, now));
    reg.upsert(make_source("tab:2", Status::Stopped, now));

    let (source, reason) = reg.select_active();
    assert_eq!(reason, SelectionReason::Paused);
    assert_eq!(source.unwrap().source_id, "tab:1");
}

#[test]
fn test_no_source_when_empty() {
    let mut reg = SourceRegistry::new();
    let (_, reason) = reg.select_active();
    assert_eq!(reason, SelectionReason::NoSource);
}

#[test]
fn test_prune_stale_removes_old_sources() {
    let mut reg = SourceRegistry::new();
    let state = make_source("tab:1", Status::Playing, reg.now_millis() - STALE_TIMEOUT_MS - 1000);
    reg.upsert(state);

    let removed = reg.prune_stale();
    assert_eq!(removed.len(), 1);
    assert!(reg.is_empty());
}

#[test]
fn prune_at_keeps_fresh_and_forgets_active_stale() {
    let mut reg = SourceRegistry::new();
    reg.upsert(make_source("old", Status::Playing, 1_000));
    reg.upsert(make_source("new", Status::Paused, 20_000));
    let (src, _) = reg.select_active_at(1_500);
    assert_eq!(src.unwrap().source_id, "old");
    let removed = reg.prune_stale_at(20_000);
    assert_eq!(removed, vec!["old".to_string()]);
    assert_eq!(reg.source_count(), 1);
    assert!(reg.active_source_id().is_none());
    assert!(reg.get("new").is_some());
}

#[test]
fn freshest_playing_source_wins() {
    let mut reg = SourceRegistry::new();
    reg.upsert(make_source("a", Status::Playing, 100));
    reg.upsert(make_source("b", Status::Playing, 300));
    reg.upsert(make_source("c", Status::Playing, 200));
    let (src, reason) = reg.select_active_at(400);
    assert_eq!(src.unwrap().source_id, "b");
    assert_eq!(reason, SelectionReason::Playing);
    assert_eq!(reg.active_source_id(), Some("b"));
}

#[test]
fn upsert_replaces_and_get_finds() {
    let mut reg = SourceRegistry::new();
    reg.upsert(make_source("x", Status::Paused, 1));
    reg.upsert(make_source("x", Status::Playing, 2));
    assert_eq!(reg.source_count(), 1);
    let got = reg.get("x").unwrap();
    assert_eq!(got.playback.status, Status::Playing);
    assert_eq!(got.last_seen, 2);
    assert!(reg.get("y").is_none());
}

#[test]
fn remove_forgets_source_and_active_id() {
    let mut reg = SourceRegistry::new();
    reg.upsert(make_source("x", Status::Playing, 1));
    reg.upsert(make_source("y", Status::Paused, 1));
    let _ = reg.select_active_at(2);
    assert_eq!(reg.active_source_id(), Some("x"));
    reg.remove("x");
    assert!(reg.get("x").is_none());
    assert!(reg.get("y").is_some());
    assert!(reg.active_source_id().is_none());
}

fn snap() -> PublishedSnapshot {
    PublishedSnapshot {
        identity: "YouTube".into(),
        status: Some(Status::Playing),
        meta: MetaSnapshot {
            track_id: "/mprisence/track/abc".into(),
            title: "Song".into(),
            artists: vec!["Artist".into()],
            album: "Album".into(),
            album_artists: vec![],
            art_url: "https://x/a.jpg".into(),
            length_us: 200_000_000,
            url: "https://x/watch?v=abc".into(),
        },
        caps: CapsSnapshot { can_play_pause: true, can_next: false, can_previous: false, can_seek: false },
    }
}

#[test]
fn identical_snapshots_decide_nothing() {
    let d = compute_publish_decision(&snap(), &snap());
    assert!(!d.any());
}

#[test]
fn status_change_decides_status_only() {
    let mut next = snap();
    next.status = Some(Status::Paused);
    let d = compute_publish_decision(&snap(), &next);
    assert_eq!(d, PublishDecision { status: true, ..Default::default() });
}

#[test]
fn title_change_decides_metadata_only() {
    let mut next = snap();
    next.meta.title = "Different".into();
    let d = compute_publish_decision(&snap(), &next);
    assert_eq!(d, PublishDecision { metadata: true, ..Default::default() });
}

#[test]
fn caps_change_decides_caps_only() {
    let mut next = snap();
    next.caps.can_next = true;
    let d = compute_publish_decision(&snap(), &next);
    assert_eq!(d, PublishDecision { caps: true, ..Default::default() });
}

#[test]
fn identity_change_decides_identity_only() {
    let mut next = snap();
    next.identity = "SoundCloud".into();
    let d = compute_publish_decision(&snap(), &next);
    assert_eq!(d, PublishDecision { identity: true, ..Default::default() });
}

#[test]
fn frame_roundtrip() {
    let payload = br#"{"type":"hello","browser":"firefox","extension_version":"0.1.0"}"#;
    let mut encoded: Vec<u8> = Vec::new();
    write_message(&mut encoded, payload).unwrap();
    assert_eq!(&encoded[..4], &(payload.len() as u32).to_le_bytes());
    let decoded = read_message(&encoded).unwrap().unwrap();
    assert_eq!(decoded, payload.to_vec());
}

#[test]
fn frame_read_edge_cases() {
    assert_eq!(read_message(&[1, 0]), Ok(None));
    assert_eq!(read_message(&[5, 0, 0, 0, b'a']), Err(FrameError::Truncated));
    assert_eq!(read_message(&[0, 0, 0, 0]), Ok(Some(vec![])));
    assert_eq!(read_message(&[1, 0, 0, 0, b'z', b'q']), Ok(Some(vec![b'z'])));
}

#[test]
fn commands_map_to_extension_commands() {
    let c: BridgeCommand = bridge_command_for("tab:1", &MprisCommand::SetPosition(12_345_000));
    assert_eq!(c.command, CommandKind::SetPosition);
    assert_eq!(c.position_ms, Some(12_345));
    assert_eq!(c.source_id, "tab:1");
    let c = bridge_command_for("tab:1", &MprisCommand::SetPosition(-5));
    assert_eq!(c.position_ms, None);
    let c = bridge_command_for("tab:1", &MprisCommand::Stop);
    assert_eq!(c.command, CommandKind::Pause);
    let c = bridge_command_for("tab:1", &MprisCommand::Seek(1000));
    assert_eq!(c.command, CommandKind::Seek);
    assert_eq!(c.position_ms, None);
}

#[test]
fn site_names_are_capitalized_words() {
    assert_eq!(format_site_name("youtube_music"), "YouTube Music");
    assert_eq!(format_site_name("soundcloud"), "SoundCloud");
    assert_eq!(format_site_name("generic"), "Browser");
    assert_eq!(format_site_name("my_cool_site"), "My Cool Site");
    assert_eq!(format_site_name("x__y"), "X  Y");
}

#[test]
fn track_id_prefers_provider_id() {
    let mut s = make_source("tab:9", Status::Playing, 1);
    s.metadata.track_id = Some("abc".into());
    assert_eq!(make_track_id(&s, &s.metadata), "/mprisence/track/abc");
    s.metadata.track_id = Some("/x/y".into());
    assert_eq!(make_track_id(&s, &s.metadata), "/x/y");
    s.metadata.track_id = None;
    let h = simple_hash_exec(&s.url);
    assert_eq!(make_track_id(&s, &s.metadata), format!("/mprisence/track/{h}"));
    assert!(h.len() >= 8);
}

#[test]
fn best_url_skips_blob_urls() {
    let mut s = make_source("tab:9", Status::Playing, 1);
    s.url = "blob:https://example.com/123".into();
    assert_eq!(select_best_url(&s), "https://example.com");
    s.canonical_url = Some("https://example.com/watch".into());
    assert_eq!(select_best_url(&s), "https://example.com/watch");
}

#[test]
fn snapshot_of_source_projects_fields() {
    let mut s = make_source("tab:9", Status::Playing, 1);
    s.site = "deezer_radio".into();
    s.metadata.art_url = Some("file:///tmp/a.png".into());
    s.capabilities.set_position = true;
    let snap = build_snapshot(Some(&s));
    assert_eq!(snap.identity, "Deezer Radio");
    assert_eq!(snap.status, Some(Status::Playing));
    assert_eq!(snap.meta.title, "Test");
    assert_eq!(snap.meta.art_url, "");
    assert_eq!(snap.meta.length_us, 100_000_000);
    assert!(snap.caps.can_seek);
    let empty = build_snapshot(None);
    assert_eq!(empty.identity, "");
    assert_eq!(empty.status, None);
}

#[test]
fn dbus_values_are_sanitized() {
    assert_eq!(dbus_safe_value("tab:1/abc"), "tab_1_abc");
    assert_eq!(dbus_safe_value("Ünï_9"), "_n__9");
}

#[test]
fn bridge_hash_is_the_default_hash_of_the_source_id() {
    for id in ["tab:42", "", "ünïcödé:7"] {
        let mut h = std::collections::hash_map::DefaultHasher::new();
        id.hash(&mut h);
        assert_eq!(simple_hash_exec(id), format!("{:08x}", h.finish()));
    }
}

#[test]
fn bridge_player_suffix_keeps_the_mprisence_web_prefix() {
    let suffix = mprisence::bridge::bridge_player_suffix("tab:42", "youtube");
    assert_eq!(suffix, format!("mprisence_web.youtube.{}", simple_hash_exec("tab:42")));
    assert_eq!(mprisence::bridge::make_player_suffix("tab:42", "youtube"), format!("web.youtube.{}", simple_hash_exec("tab:42")));
}

#[test]
fn registry_clock_is_monotonic_and_starts_high_enough() {
    let mut reg = SourceRegistry::new();
    let a = reg.now_millis();
    assert!(a >= mprisence::health::CLOCK_START_MS);
    assert!(a >= STALE_TIMEOUT_MS + 1000);
    let b = reg.now_millis();
    assert!(b >= a);
}
