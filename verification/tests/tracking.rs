use mprisence::config::{PlayerConfigLayer, WebPlayerConfigLayer};
use mprisence::resolve::{insert_player_layer, insert_web_layer, Config};
use mprisence::tracking::{buses_signature, dedup_update, DedupSelection, Removal};

fn browser_ignored_with_site() -> Config {
    let mut cfg = Config::default();
    insert_player_layer(&mut cfg.user_player, "firefox", PlayerConfigLayer { ignore: Some(true), ..Default::default() });
    insert_web_layer(
        &mut cfg.bundled_web_player,
        "soundcloud",
        WebPlayerConfigLayer { match_pattern: Some("soundcloud.com".into()), ..Default::default() },
    );
    cfg.rebuild_merged_player();
    cfg.rebuild_merged_web_player();
    cfg
}

#[test]
fn discovered_players_are_tracked_unless_ignored_or_disallowed() {
    let cfg = Config::default();
    assert!(cfg.admits_player("VLC media player", "vlc", None, None));
    let mut only_spotify = Config::default();
    only_spotify.allowed_players = vec!["spotify".to_string()];
    assert!(!only_spotify.admits_player("VLC media player", "vlc", None, None));
    assert!(only_spotify.admits_player("Spotify", "spotify", None, None));
}

#[test]
fn an_ignored_browser_playing_a_known_site_is_still_tracked() {
    let cfg = browser_ignored_with_site();
    assert!(!cfg.admits_player("Firefox", "firefox", None, None));
    assert!(cfg.admits_player("Firefox", "firefox", Some("https://soundcloud.com/a/b"), None));
    assert!(!cfg.admits_player("Firefox", "firefox", Some("https://example.com/"), None));
}

#[test]
fn tracked_players_are_dropped_with_a_reason() {
    let cfg = browser_ignored_with_site();
    assert_eq!(cfg.tracking_verdict(false, "VLC media player", "vlc", None, None), Some(Removal::Gone));
    assert_eq!(cfg.tracking_verdict(true, "Firefox", "firefox", None, None), Some(Removal::Ignored));
    assert_eq!(cfg.tracking_verdict(true, "Firefox", "firefox", Some("https://soundcloud.com/x"), None), None);
    let mut only_spotify = Config::default();
    only_spotify.allowed_players = vec!["spotify".to_string()];
    assert_eq!(only_spotify.tracking_verdict(true, "VLC media player", "vlc", None, None), Some(Removal::NotAllowed));
    assert_eq!(Removal::Gone.reason(), "player no longer exists");
    assert_eq!(Removal::Ignored.reason(), "player is now ignored");
    assert_eq!(Removal::NotAllowed.reason(), "player is not in the allowed list");
}

#[test]
fn duplicate_selections_are_recorded_when_they_change() {
    let buses = vec!["mpd".to_string(), "playerctld".to_string()];
    assert_eq!(buses_signature(&vec!["playerctld".to_string(), "mpd".to_string()]), "mpd, playerctld");
    let first = dedup_update(None, &buses, "mpd").unwrap();
    assert_eq!(first.buses_signature, "mpd, playerctld");
    assert_eq!(first.winner_bus, "mpd");
    assert!(dedup_update(Some(&first), &buses, "mpd").is_none());
    let changed = dedup_update(Some(&first), &buses, "playerctld").unwrap();
    assert_eq!(changed.winner_bus, "playerctld");
    let prev = DedupSelection { buses_signature: "mpd".to_string(), winner_bus: "mpd".to_string() };
    assert!(dedup_update(Some(&prev), &buses, "mpd").is_some());
}

#[test]
fn kept_players_are_admitted_again() {
    let cfg = browser_ignored_with_site();
    let url = Some("https://soundcloud.com/x");
    assert_eq!(cfg.tracking_verdict(true, "Firefox", "firefox", url, None), None);
    assert!(cfg.admits_player("Firefox", "firefox", url, None));
    assert_eq!(cfg.tracking_verdict(true, "VLC media player", "vlc", None, None), None);
    assert!(cfg.admits_player("VLC media player", "vlc", None, None));
}
