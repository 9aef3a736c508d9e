use mprisence::config::TemplateConfig;
use mprisence::preview::settings_of;
use mprisence::resolve::Config;
use mprisence::preview::scoped_player_row;
use mprisence::preview::{configured_only_row, live_player_row};
use mprisence::config::PlayerConfigLayer;
use mprisence::resolve::insert_player_layer;
use mprisence::config_lint::{config_warnings_of_text, parse_key_tables};
use mprisence::preview::{
    configured_only_identity, configured_only_keys, lookup_names, pick_preview_entry,
    preview_art_url, sample_page_url, web_preview_bus, web_preview_label, PreviewCandidate,
};

#[test]
fn raw_validation_reports_unknown_removed_and_deprecated_keys() {
    let body = "clear_on_pause = true\ndiscovery_interval = 1000\nwat = 1\n[template]\ndetail = \"x\"\n";
    let warnings = config_warnings_of_text(body);
    assert!(warnings.iter().any(|w| w.contains("clear_on_pause")));
    assert!(warnings.iter().any(|w| w.contains("discovery_interval")));
    assert!(warnings.iter().any(|w| w.contains("Unknown setting: wat")));
    assert!(warnings.iter().any(|w| w.contains("template.detail")));
}

#[test]
fn warnings_come_in_order_with_paths() {
    let body = "\
wat = 1
[cover.provider]
nope = 2
[cover.provider.catbox]
use_litter = true
bad = 3
[player.vlc]
allow_streaming = true
title_suffix = \"x\"
[web_player.default]
ignore = true
title_suffix = \" - YouTube\"
";
    let warnings = config_warnings_of_text(body);
    assert_eq!(
        warnings,
        vec![
            "Unknown setting: wat".to_string(),
            "Unknown setting: cover.provider.nope".to_string(),
            "Unknown setting: cover.provider.catbox.bad".to_string(),
            "Unknown setting: player.vlc.title_suffix".to_string(),
            "web_player.default.ignore is no longer used; set web_player_enabled = false to turn web players off".to_string(),
        ]
    );
}

#[test]
fn valid_or_unparsable_files_have_no_warnings() {
    let body = "interval = 100\n[template]\ndetails = \"{{title}}\"\n[time]\nshow = true\n";
    assert!(config_warnings_of_text(body).is_empty());
    assert!(config_warnings_of_text("[template\n").is_empty());
}

fn fake_entry(bus: &str, status: &str, title: Option<&str>) -> PreviewCandidate {
    PreviewCandidate {
        player_bus_name: bus.to_string(),
        status: Some(status.to_string()),
        has_title: title.is_some(),
    }
}

#[test]
fn pick_preview_entry_prefers_playing_and_skips_trackless() {
    let entries = vec![
        fake_entry("stopped_no_track", "Stopped", None),
        fake_entry("playing", "Playing", Some("Song")),
    ];
    let picked = pick_preview_entry(&entries, None).unwrap();
    assert_eq!(entries[picked].player_bus_name, "playing");

    let picked = pick_preview_entry(&entries, Some("stopped_no_track"));
    assert!(picked.is_none(), "trackless pick falls back to sample");

    let entries = vec![fake_entry("stopped_no_track", "Stopped", None)];
    assert!(pick_preview_entry(&entries, None).is_none());
}

#[test]
fn requested_player_wins_and_first_entry_is_the_fallback() {
    let entries = vec![
        fake_entry("a", "Paused", Some("A")),
        fake_entry("b", "Playing", Some("B")),
    ];
    assert_eq!(pick_preview_entry(&entries, Some("a")), Some(0));
    assert_eq!(pick_preview_entry(&entries, Some("zzz")), Some(1));
    let paused = vec![fake_entry("a", "Paused", Some("A")), fake_entry("b", "Stopped", Some("B"))];
    assert_eq!(pick_preview_entry(&paused, None), Some(0));
    assert_eq!(pick_preview_entry(&vec![], None), None);
}

#[test]
fn preview_addresses_and_labels() {
    assert_eq!(
        preview_art_url(Some("file:///tmp/a.png"), "vlc"),
        Some("/api/art?player_bus_name=vlc".to_string())
    );
    assert_eq!(preview_art_url(Some("https://x/a.png"), "vlc"), Some("https://x/a.png".to_string()));
    assert_eq!(preview_art_url(None, "vlc"), None);
    let patterns = vec!["re:.*".to_string(), "*.youtube.com".to_string(), "music.youtube.com".to_string()];
    assert_eq!(sample_page_url(&patterns), Some("https://music.youtube.com".to_string()));
    assert_eq!(sample_page_url(&vec!["a?b".to_string()]), None);
    assert_eq!(web_preview_label(None, "default"), "Website defaults");
    assert_eq!(web_preview_label(None, "youtube"), "youtube");
    assert_eq!(web_preview_label(Some("YouTube"), "youtube"), "YouTube");
    assert_eq!(web_preview_bus("youtube"), "mprisence_web.youtube");
}

#[test]
fn configured_only_rows() {
    let merged = vec!["vlc".to_string(), "default".to_string(), "audacious".to_string(), "spotify".to_string()];
    let running = vec!["spotify".to_string()];
    assert_eq!(
        configured_only_keys(&merged, &running),
        vec!["default".to_string(), "audacious".to_string(), "vlc".to_string()]
    );
    assert_eq!(configured_only_identity("default"), "Default (all players)");
    assert_eq!(configured_only_identity("vlc"), "vlc");
    let (i, b) = lookup_names("Firefox", "mprisence_web.youtube");
    assert_eq!((i.as_str(), b.as_str()), ("mprisence_web", "mprisence_web"));
    let (i, b) = lookup_names("VLC", "vlc");
    assert_eq!((i.as_str(), b.as_str()), ("VLC", "vlc"));
}

#[test]
fn settings_show_the_configuration_with_default_templates_for_reset() {
    let mut cfg = Config::default();
    cfg.interval = 5000;
    cfg.allowed_players = vec!["spotify".to_string()];
    cfg.template.details = "{{artist}}".to_string();
    let s = settings_of(&cfg, &TemplateConfig::default());
    assert_eq!(s.interval, 5000);
    assert_eq!(s.allowed_players, vec!["spotify".to_string()]);
    assert_eq!(s.activity_type, "listening");
    assert_eq!(s.details, "{{artist}}");
    assert_eq!(s.defaults.details, "{{{title}}}");
}

#[test]
fn scoped_preview_takes_the_first_non_web_row_of_the_key() {
    let keys = vec!["vlc".to_string(), "firefox".to_string(), "firefox".to_string()];
    assert_eq!(scoped_player_row(&keys, &vec![false, true, false], "firefox"), Some(2));
    assert_eq!(scoped_player_row(&keys, &vec![false, true, true], "firefox"), None);
    assert_eq!(scoped_player_row(&keys, &vec![false, false, false], "vlc"), Some(0));
    assert_eq!(scoped_player_row(&keys, &vec![false, false, false], "mpv"), None);
}

#[test]
fn get_settings_returns_effective_defaults() {
    let s = settings_of(&Config::default(), &TemplateConfig::default());
    assert_eq!(s.interval, 2000);
    assert_eq!(s.activity_type, "listening");
    assert_eq!(s.details, "{{{title}}}");
}

#[test]
fn get_settings_exposes_extended_fields() {
    let s = settings_of(&Config::default(), &TemplateConfig::default());
    assert!(s.event_driven);
    assert_eq!(s.fallback_poll_interval, 30000);
    assert!(s.allowed_players.is_empty());
    assert!(!s.cover_file_names.is_empty());
    assert_eq!(s.musicbrainz_min_score, 95);
    assert!(s.catbox_use_litter);
    assert_eq!(s.catbox_litter_hours, 24);
    assert_eq!(s.imgbb_expiration, 86400);
}

#[test]
fn config_text_is_read_as_its_tables() {
    let ts = parse_key_tables("a = 1\n[cover]\nfile_names = []\n[cover.provider]\nprovider = []\n[time]\nshow = true\n").unwrap();
    let got: Vec<(Vec<String>, Vec<String>)> = ts.tables.iter().map(|t| (t.path.clone(), t.keys.clone())).collect();
    let s = |v: &[&str]| v.iter().map(|x| x.to_string()).collect::<Vec<_>>();
    assert_eq!(got, vec![
        (s(&[]), s(&["a", "cover", "time"])),
        (s(&["cover"]), s(&["file_names", "provider"])),
        (s(&["cover", "provider"]), s(&["provider"])),
        (s(&["time"]), s(&["show"])),
    ]);
    assert!(parse_key_tables("[template\n").is_none());
}

fn rows_config() -> Config {
    let mut cfg = Config::default();
    insert_player_layer(&mut cfg.bundled_player, "vlc_media_player", PlayerConfigLayer {
        app_id: Some("BUNDLED".to_string()),
        ..Default::default()
    });
    insert_player_layer(&mut cfg.user_player, "vlc_media_player", PlayerConfigLayer {
        show_icon: Some(true),
        ..Default::default()
    });
    insert_player_layer(&mut cfg.user_player, "mpd", PlayerConfigLayer {
        icon: Some("mpd-icon".to_string()),
        ..Default::default()
    });
    cfg.rebuild_merged_player();
    cfg.allowed_players = vec!["vlc_media_player".to_string()];
    cfg
}

#[test]
fn live_row_edits_the_matched_entry() {
    let cfg = rows_config();
    let row = live_player_row(&cfg, "VLC media player", "org.mpris.MediaPlayer2.vlc.instance42", None, None);
    assert!(row.live);
    assert_eq!(row.identity, "VLC media player");
    assert_eq!(row.player_bus_name, "vlc");
    assert_eq!(row.config_key, "vlc_media_player");
    assert!(row.allowed);
    assert!(row.bundled);
    assert_eq!(row.resolved.app_id, "BUNDLED");
    assert!(row.resolved.show_icon);
    assert_eq!(row.effective.app_id.as_deref(), Some("BUNDLED"));
    assert_eq!(row.effective.show_icon, Some(true));
    assert_eq!(row.overrides.app_id, None);
    assert_eq!(row.overrides.show_icon, Some(true));
    assert_eq!(row.matches.len(), 2);
    assert!(row.matches.iter().all(|m| m.config_key == "vlc_media_player"));
    assert_eq!(row.web_player_key, None);
}

#[test]
fn live_row_of_an_unconfigured_player() {
    let cfg = rows_config();
    let row = live_player_row(&cfg, "Strawberry", "org.mpris.MediaPlayer2.strawberry", None, None);
    assert_eq!(row.config_key, "strawberry");
    assert!(!row.allowed);
    assert!(!row.bundled);
    assert!(row.matches.is_empty());
    assert_eq!(row.effective.app_id, None);
    assert_eq!(row.overrides.show_icon, None);
}

#[test]
fn configured_only_row_shows_the_entry() {
    let cfg = rows_config();
    let row = configured_only_row(&cfg, "mpd");
    assert!(!row.live);
    assert_eq!(row.identity, "mpd");
    assert_eq!(row.player_bus_name, "");
    assert_eq!(row.config_key, "mpd");
    assert!(!row.allowed);
    assert!(!row.bundled);
    assert_eq!(row.resolved.icon, "mpd-icon");
    assert_eq!(row.effective.icon.as_deref(), Some("mpd-icon"));
    assert_eq!(row.overrides.icon.as_deref(), Some("mpd-icon"));
    let default_row = configured_only_row(&cfg, "default");
    assert_eq!(default_row.identity, "Default (all players)");
    assert!(default_row.allowed);
    assert!(default_row.matches.is_empty());
}
