use mprisence::config::{ActivityType, PlayerConfigLayer};
use mprisence::file_settings::FileSettings;
use mprisence::resolve::{get_player_layer, Config};

#[test]
fn empty_file_gives_the_defaults() {
    let (cfg, clear) = Config::from_file_settings(FileSettings::new());
    assert!(!clear);
    assert_eq!(cfg.interval, 2000);
    assert_eq!(cfg.fallback_poll_interval, 30000);
    assert_eq!(cfg.template.details, "{{{title}}}");
    assert_eq!(cfg.cover.file_names, vec!["cover", "folder", "front", "album", "art"]);
    assert_eq!(cfg.cover.provider.provider, vec!["catbox", "musicbrainz"]);
    assert_eq!(cfg.cover.provider.musicbrainz.min_score, 95);
    assert!(cfg.user_player.is_empty());
}

#[test]
fn discovery_interval_is_the_older_name_of_the_fallback_interval() {
    let mut s = FileSettings::new();
    s.discovery_interval = Some(5000);
    let (cfg, _) = Config::from_file_settings(s.clone());
    assert_eq!(cfg.fallback_poll_interval, 5000);
    s.fallback_poll_interval = Some(7000);
    let (cfg, _) = Config::from_file_settings(s);
    assert_eq!(cfg.fallback_poll_interval, 7000);
}

#[test]
fn file_settings_override_and_player_keys_are_normalised() {
    let mut s = FileSettings::new();
    s.interval = Some(500);
    s.clear_on_pause = Some(true);
    s.template_detail = Some("old {{{title}}}".to_string());
    s.default_activity_type = Some(ActivityType::Watching);
    s.catbox_litter_hours = Some(12);
    s.players.push((
        "VLC Media Player".to_string(),
        PlayerConfigLayer { app_id: Some("A".to_string()), ..Default::default() },
    ));
    s.players.push((
        "vlc_media_player".to_string(),
        PlayerConfigLayer { app_id: Some("B".to_string()), ..Default::default() },
    ));
    let (cfg, clear) = Config::from_file_settings(s);
    assert!(clear);
    assert_eq!(cfg.interval, 500);
    assert_eq!(cfg.template.details, "old {{{title}}}");
    assert_eq!(cfg.activity_type.default, ActivityType::Watching);
    assert_eq!(cfg.cover.provider.catbox.litter_hours, 12);
    assert_eq!(cfg.user_player.len(), 1);
    let layer = get_player_layer(&cfg.user_player, "vlc_media_player").unwrap();
    assert_eq!(layer.app_id.as_deref(), Some("B"));
    let merged = get_player_layer(&cfg.merged_player, "vlc_media_player").unwrap();
    assert_eq!(merged.app_id.as_deref(), Some("B"));
}
