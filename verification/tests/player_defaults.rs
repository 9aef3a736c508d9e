use mprisence::config::player::{default_player_config, PlayerConfig};

fn entry(app_id: Option<&str>, show_icon: Option<bool>) -> PlayerConfig {
    PlayerConfig {
        app_id: app_id.map(|s| s.to_string()),
        icon: None,
        ignore: false,
        show_icon,
        allow_streaming: None,
    }
}

#[test]
fn fallback_is_built_in_without_a_default_entry() {
    let fallback = default_player_config(&Vec::new());
    assert_eq!(fallback.app_id.as_deref(), Some("1121632048155742288"));
    assert_eq!(fallback.show_icon, Some(false));
    assert_eq!(fallback.allow_streaming, Some(false));
    let p = entry(None, None);
    assert_eq!(p.app_id_or_default(&fallback), "1121632048155742288");
    assert_eq!(p.icon_or_default(&fallback), fallback.icon.as_deref().unwrap());
    assert!(!p.show_icon_or_default(&fallback));
    assert!(!p.allow_streaming_or_default(&fallback));
}

#[test]
fn default_entry_fills_unset_fields() {
    let players = vec![
        ("default".to_string(), entry(None, Some(true))),
        ("vlc_media_player".to_string(), entry(Some("VLC"), None)),
    ];
    let fallback = default_player_config(&players);
    assert_eq!(fallback.app_id.as_deref(), Some("1121632048155742288"));
    assert_eq!(fallback.show_icon, Some(true));
    let vlc = PlayerConfig::get_or_default(&players, &fallback, "VLC Media Player");
    assert_eq!(vlc.app_id_or_default(&fallback), "VLC");
    assert!(vlc.show_icon_or_default(&fallback));
    let other = PlayerConfig::get_or_default(&players, &fallback, "Strawberry");
    assert_eq!(other.app_id_or_default(&fallback), "1121632048155742288");
    assert_eq!(other.show_icon, Some(true));
}
