use mprisence::health::PlaybackStatus;
use mprisence::player::{
    bridge_confidence, bridge_group_key, bridge_is_active, bridge_site, canonical_player_bus_name,
    has_bridge_metadata_marker, is_mprisence_web_bridge_bus, is_playerctld_no_active_error, is_proxy_bus_name,
    metadata_richness, parse_track_path, select_bridge_winner, select_richest_player, select_winner_idx,
    BridgeCandidate, DBusErrorInfo, MetadataFields, PlaybackState, PlayerIdentifier, PlayerState, TrackSummary,
    BRIDGE_CONFIG_KEY,
};

fn playback_state(art_url: Option<&str>) -> PlaybackState {
    PlaybackState {
        playback_status: Some(PlaybackStatus::Playing),
        track_identifier: Some("track-1".into()),
        title: Some("Song".into()),
        position: Some(10),
        volume: Some(50),
        url: Some("https://music.example/track-1".into()),
        art_url: art_url.map(Into::into),
    }
}

#[test]
fn art_url_change_is_significant() {
    let previous = playback_state(Some("file:///tmp/old-cover.jpg"));
    let current = playback_state(Some("file:///tmp/new-cover.jpg"));
    assert!(current.has_significant_changes(&previous));
}

#[test]
fn unchanged_art_url_is_not_significant_by_itself() {
    let previous = playback_state(Some("file:///tmp/cover.jpg"));
    let current = playback_state(Some("file:///tmp/cover.jpg"));
    assert!(!current.has_significant_changes(&previous));
}

#[test]
fn keeps_reverse_dns_player_names() {
    let bus_name = "org.mpris.MediaPlayer2.io.github.htkhiem.euphonica";
    assert_eq!(canonical_player_bus_name(bus_name), "io.github.htkhiem.euphonica");
}

#[test]
fn strips_instance_suffix() {
    let bus_name = "org.mpris.MediaPlayer2.vlc.instance1234";
    assert_eq!(canonical_player_bus_name(bus_name), "vlc");
}

#[test]
fn trims_prefix_for_simple_names() {
    let bus_name = "org.mpris.MediaPlayer2.spotify";
    assert_eq!(canonical_player_bus_name(bus_name), "spotify");
}

#[test]
fn strips_numeric_suffix_but_keeps_single_segment() {
    assert_eq!(canonical_player_bus_name("org.mpris.MediaPlayer2.chromium.12345"), "chromium");
    assert_eq!(canonical_player_bus_name("org.mpris.MediaPlayer2.12345"), "12345");
    assert_eq!(canonical_player_bus_name("plain"), "plain");
}

#[test]
fn detects_bridge_bus_by_prefix() {
    assert!(is_mprisence_web_bridge_bus("org.mpris.MediaPlayer2.mprisence_web.youtube_music.habc1234"));
    assert!(is_mprisence_web_bridge_bus("org.mpris.MediaPlayer2.mprisence_web.soundcloud.hdef5678"));
    assert!(!is_mprisence_web_bridge_bus("org.mpris.MediaPlayer2.spotify"));
    assert!(!is_mprisence_web_bridge_bus("org.mpris.MediaPlayer2.plasma-browser-integration"));
}

#[test]
fn canonical_player_bus_name_preserves_bridge_prefix() {
    let canon = canonical_player_bus_name("org.mpris.MediaPlayer2.mprisence_web.youtube_music.habc1234");
    assert!(canon.starts_with("mprisence_web"));
    assert!(canon.contains("youtube_music"));
}

#[test]
fn bridge_group_key_extracts_site() {
    assert_eq!(BRIDGE_CONFIG_KEY, "mprisence_web");
}

fn meta(pairs: &[(&str, &str)]) -> MetadataFields {
    MetadataFields { entries: pairs.iter().map(|(k, v)| (k.to_string(), v.to_string())).collect() }
}

#[test]
fn bridge_metadata_accessors() {
    let m = meta(&[
        ("mprisence:bridge", "true"),
        ("mprisence:group", "youtube_music"),
        ("mprisence:site", "youtube_music"),
        ("mprisence:confidence", "provider"),
        ("mprisence:active", "true"),
    ]);
    assert!(has_bridge_metadata_marker(&m));
    assert_eq!(bridge_group_key(&m).as_deref(), Some("youtube_music"));
    assert_eq!(bridge_site(&m).as_deref(), Some("youtube_music"));
    assert_eq!(bridge_confidence(&m).as_deref(), Some("provider"));
    assert!(bridge_is_active(&m));
    let plain = meta(&[("mprisence:group", "x"), ("mprisence:bridge", "TRUE")]);
    assert!(!has_bridge_metadata_marker(&plain));
    assert_eq!(bridge_group_key(&plain), None);
    assert!(!bridge_is_active(&plain));
}

fn pid(bus: &str) -> PlayerIdentifier {
    PlayerIdentifier { player_bus_name: bus.into(), identity: "Firefox".into(), unique_name: ":1.2".into() }
}

#[test]
fn winner_prefers_current_then_non_proxy() {
    let c = vec![pid("playerctld"), pid("firefox"), pid("firefox.instance2")];
    assert_eq!(select_winner_idx(&c, Some("firefox.instance2")), 2);
    assert_eq!(select_winner_idx(&c, Some("missing")), 1);
    assert_eq!(select_winner_idx(&c, None), 1);
    assert_eq!(select_winner_idx(&[pid("playerctld")], None), 0);
}

fn cand(bus: &str, playing: bool, pairs: &[(&str, &str)]) -> BridgeCandidate {
    BridgeCandidate { player_bus_name: bus.into(), metadata: Some(meta(pairs)), is_playing: playing }
}

#[test]
fn bridge_winner_prefers_active_playing() {
    let players = vec![
        cand("a", true, &[("mprisence:seenAgeMs", "0")]),
        cand("b", true, &[("mprisence:active", "true"), ("mprisence:seenAgeMs", "0")]),
        cand("c", false, &[("mprisence:active", "true")]),
    ];
    assert_eq!(select_bridge_winner(&players, None), 1);
    // Stability bonus keeps the current bus on a close call.
    let tied = vec![cand("a", true, &[]), cand("b", true, &[])];
    assert_eq!(select_bridge_winner(&tied, Some("b")), 1);
    assert_eq!(select_bridge_winner(&tied, None), 0);
    // A stale playing tab can be overtaken on recency and confidence.
    let stale = vec![
        cand("a", true, &[("mprisence:seenAgeMs", "90000")]),
        cand("b", true, &[("mprisence:seenAgeMs", "0"), ("mprisence:confidence", "dom")]),
    ];
    assert_eq!(select_bridge_winner(&stale, None), 1);
    assert_eq!(select_bridge_winner(&stale[..1], None), 0);
}

#[test]
fn richness_counts_fields() {
    let full = Some(TrackSummary {
        title: Some("t".into()),
        album: Some("a".into()),
        artists: Some(vec!["".into(), "x".into()]),
        art_url: Some("u".into()),
        length: Some(1),
    });
    assert_eq!(metadata_richness(&full), 9);
    let sparse = Some(TrackSummary { title: Some("t".into()), album: Some("".into()), artists: Some(vec!["".into()]), art_url: None, length: None });
    assert_eq!(metadata_richness(&sparse), 1);
    assert_eq!(metadata_richness(&None), 0);
}

#[test]
fn richest_player_keeps_equally_rich_current_bus() {
    let buses: Vec<String> = vec!["a".into(), "b".into(), "c".into()];
    assert_eq!(select_richest_player(&[3, 6, 6], &buses, None), 1);
    assert_eq!(select_richest_player(&[3, 6, 6], &buses, Some("c")), 2);
    assert_eq!(select_richest_player(&[3, 6, 5], &buses, Some("c")), 1);
    assert_eq!(select_richest_player(&[3], &buses[..1], Some("a")), 0);
}

#[test]
fn playerctld_error_detection() {
    let by_name = DBusErrorInfo::TransportError {
        name: Some("com.github.altdesktop.playerctld.NoActivePlayer".into()),
        message: None,
    };
    let by_message = DBusErrorInfo::TransportError {
        name: Some("other".into()),
        message: Some("Error: No player is being controlled by playerctld.".into()),
    };
    let unrelated = DBusErrorInfo::TransportError { name: Some("other".into()), message: Some("nope".into()) };
    assert!(is_playerctld_no_active_error(&by_name));
    assert!(is_playerctld_no_active_error(&by_message));
    assert!(!is_playerctld_no_active_error(&unrelated));
    assert!(!is_playerctld_no_active_error(&DBusErrorInfo::Other));
    assert!(is_proxy_bus_name("playerctld"));
    assert!(!is_proxy_bus_name("vlc"));
}

#[test]
fn position_jumps_are_detected() {
    let mut prev = playback_state(None);
    let mut cur = playback_state(None);
    prev.position = Some(10);
    cur.position = Some(14);
    // 2 s poll + 0 s delay + 2 s buffer: up to 4 s is expected.
    assert!(!cur.has_position_jump(&prev, 2000, 0));
    cur.position = Some(15);
    assert!(cur.has_position_jump(&prev, 2000, 0));
    cur.position = Some(9);
    assert!(cur.has_position_jump(&prev, 2000, 0));
    cur.position = None;
    assert!(cur.has_position_jump(&prev, 2000, 0));
}

#[test]
fn player_state_changes() {
    let base = PlayerState {
        playback_status: Some(PlaybackStatus::Playing),
        track_id: Some("a".into()),
        url: None,
        title: Some("t".into()),
        position: Some(10),
        volume: Some(40),
    };
    let mut other = base.clone();
    other.title = Some("different".into());
    assert!(!other.has_metadata_changes(&base));
    other.volume = Some(41);
    assert!(other.has_metadata_changes(&base));
    let mut moved = base.clone();
    moved.position = Some(14);
    assert!(!moved.has_position_jump(&base, 2000));
    moved.position = Some(15);
    assert!(moved.has_position_jump(&base, 2000));
}

#[test]
fn parses_file_line() {
    let output = "status playing\nfile /music/test.flac\ntag artist Foo";
    assert_eq!(parse_track_path(output), Some("/music/test.flac".to_string()));
}

#[test]
fn ignores_non_file_lines() {
    let output = "status playing\nstream https://example.com/stream";
    assert_eq!(parse_track_path(output), None);
}

#[test]
fn ignores_relative_paths() {
    let output = "file relative/path.mp3";
    assert_eq!(parse_track_path(output), None);
}

#[test]
fn parse_track_path_skips_empty_and_trims() {
    let output = "file   \r\nfile  /a b/c.mp3  \r\nfile /second";
    assert_eq!(parse_track_path(output), Some("/a b/c.mp3".to_string()));
}
