use mprisence::config::{ActivityType, ActivityTypesConfig, CoverConfig, PlayerConfig, StatusDisplayType, TemplateConfig, TimeConfig};
use mprisence::health::PlaybackStatus;
use mprisence::report::{
    config_report_lines, detail_status_text, format_cell, format_summary_title, format_track_length,
    format_vector, players_list_lines, sort_player_configs, status_icon, truncate_value, ConfigSummary,
    PlayerDisplay,
};

fn cfg(ignore: bool) -> PlayerConfig {
    PlayerConfig {
        name: None,
        ignore,
        app_id: "123".to_string(),
        icon: "icon.png".to_string(),
        show_icon: false,
        allow_streaming: true,
        status_display_type: StatusDisplayType::Name,
        override_activity_type: None,
    }
}

#[test]
fn status_words_and_icons() {
    assert_eq!(detail_status_text(Some(PlaybackStatus::Playing), false, true), "playing");
    assert_eq!(detail_status_text(Some(PlaybackStatus::Paused), true, false), "paused, ignored, disallowed");
    assert_eq!(detail_status_text(None, false, true), "unknown");
    assert_eq!(status_icon(Some(PlaybackStatus::Playing), true, true), "✖");
    assert_eq!(status_icon(None, false, true), "?");
    assert_eq!(status_icon(Some(PlaybackStatus::Paused), false, true), "⏸");
}

#[test]
fn cells_are_cut_and_padded() {
    assert_eq!(truncate_value("abcdef", 6), "abcdef");
    assert_eq!(truncate_value("abcdefg", 6), "abc...");
    assert_eq!(truncate_value("abcdefg", 2), "..");
    assert_eq!(format_cell("ab", 5), "ab   ");
    assert_eq!(format_cell("ab", 0), "");
    assert_eq!(format_cell("é", 3).chars().count(), 3);
}

#[test]
fn summary_titles_and_lengths() {
    assert_eq!(format_summary_title(Some("T"), Some("A")), "T — A");
    assert_eq!(format_summary_title(Some("T"), Some("")), "T");
    assert_eq!(format_summary_title(None, Some("A")), "A");
    assert_eq!(format_summary_title(Some(""), Some("A")), "—");
    assert_eq!(format_summary_title(None, None), "—");
    assert_eq!(format_track_length(65), "01:05");
    assert_eq!(format_track_length(6000), "100:00");
    assert_eq!(format_vector(&vec![]), "[]");
    assert_eq!(format_vector(&vec!["a".to_string(), "b".to_string()]), "[\"a\", \"b\"]");
}

fn display(identity: &str, status: Option<PlaybackStatus>, ignore: bool, allowed: bool) -> PlayerDisplay {
    PlayerDisplay {
        id: identity.to_lowercase(),
        player_bus_name: identity.to_lowercase(),
        identity: identity.to_string(),
        status,
        title: Some("Song".to_string()),
        artists: Some(vec!["A".to_string(), "B".to_string()]),
        album: None,
        length_secs: Some(125),
        config: cfg(ignore),
        allowed,
    }
}

#[test]
fn player_list_counts_and_details() {
    assert_eq!(players_list_lines(&vec![], true), vec!["No MPRIS players found".to_string()]);
    let entries = vec![
        display("VLC", Some(PlaybackStatus::Playing), false, true),
        display("Spotify", Some(PlaybackStatus::Paused), true, true),
    ];
    let lines = players_list_lines(&entries, true);
    assert_eq!(lines[0], "");
    assert_eq!(lines[1], "MPRIS players: 2 (1 playing, 1 paused, 1 excluded)");
    assert_eq!(lines[2], "─".repeat(56));
    let expected_summary = format!("▶ {:<32} {:<36} [playing]", "VLC", "Song");
    assert_eq!(lines[3], expected_summary);
    assert_eq!(lines[5], "");
    assert_eq!(lines[6], "Details");
    assert_eq!(lines[8], "▶ VLC  [playing]");
    assert_eq!(lines[9], "  Title    : Song");
    assert_eq!(lines[10], "  Artists  : A • B");
    assert_eq!(lines[11], "  Length   : 02:05");
    assert_eq!(lines[12], "  Presence : enabled (allow_streaming = true)");
    assert_eq!(lines[13], "  ID       : vlc");
    assert_eq!(lines[14], "  Bus Name : vlc");
    assert_eq!(lines[15], "");
    assert_eq!(lines[16], "✖ Spotify  [paused, ignored]");
    assert_eq!(lines[20], "  Presence : ignored (app_id = 123)");
    assert_eq!(lines.len(), 23);
    let short = players_list_lines(&entries, false);
    assert_eq!(short.len(), 5);
}

#[test]
fn overrides_sort_default_first() {
    let entries = vec![("vlc".to_string(), cfg(false)), ("default".to_string(), cfg(false)), ("amarok".to_string(), cfg(true))];
    let sorted: Vec<String> = sort_player_configs(&entries).into_iter().map(|(k, _)| k).collect();
    assert_eq!(sorted, vec!["default".to_string(), "amarok".to_string(), "vlc".to_string()]);
}

#[test]
fn config_report_sections() {
    let mut with_type = cfg(false);
    with_type.override_activity_type = Some(ActivityType::Watching);
    let summary = ConfigSummary {
        config_path: "/home/u/.config/mprisence/config.toml".to_string(),
        interval_ms: 2000,
        clear_on_pause: false,
        allowed_players: vec![],
        activity: ActivityTypesConfig::default(),
        time: TimeConfig::default(),
        cover: CoverConfig::default(),
        template: TemplateConfig::default(),
        player_configs: vec![("Music Player".to_string(), with_type)],
    };
    let lines = config_report_lines(&summary);
    assert_eq!(lines[1], "/home/u/.config/mprisence/config.toml )");
    assert_eq!(lines[4], "General");
    assert_eq!(lines[5], format!("  {:<18}: 2000 ms", "interval"));
    assert_eq!(lines[8], format!("  {:<18}: []", "allowed_players"));
    assert_eq!(lines[11], format!("  {:<18}: listening", "default_type"));
    let n = lines.len();
    assert_eq!(lines[n - 10], "Overrides Detail");
    assert_eq!(lines[n - 8], "▶ music_player");
    assert_eq!(lines[n - 1], format!("    {:<18}: watching", "activity_type"));
    let empty = ConfigSummary { player_configs: vec![], ..summary };
    let lines = config_report_lines(&empty);
    assert_eq!(lines.last().unwrap(), "  (none)");
}
