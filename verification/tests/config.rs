use mprisence::patterns::wildcard_regex_of;
use mprisence::config::{template_from_keys, PlayerConfigLayer, WebPlayerConfig, WebPlayerConfigLayer};
use mprisence::resolve::{insert_player_layer, insert_web_layer, Config};

fn is_player_allowed(cfg: &Config, identity: &str, player_bus_name: &str) -> bool {
    let resolution = cfg.resolve_player_config(identity, player_bus_name);
    let keys: Vec<String> = resolution.matches.iter().map(|m| m.config_key.clone()).collect();
    cfg.is_source_allowed(identity, player_bus_name, &keys, None)
}

    

    fn layer(
        show_icon: Option<bool>,
        ignore: Option<bool>,
        app_id: Option<&str>,
    ) -> PlayerConfigLayer {
        PlayerConfigLayer {
            show_icon,
            ignore,
            app_id: app_id.map(|s| s.to_string()),
            ..Default::default()
        }
    }

    #[test]
    fn matches_exact_before_wildcard() {
        let mut cfg = Config::default();
        insert_player_layer(&mut cfg.user_player, "vlc*",
            layer(Some(true), Some(false), Some("A")),
        );
        insert_player_layer(&mut cfg.user_player, "vlc_media_player",
            layer(Some(false), Some(false), Some("B")),
        );

        let res = cfg.get_player_config("VLC Media Player", "vlc");
        assert_eq!(res.app_id, "B");
        assert!(!res.show_icon);
    }

    #[test]
    fn chooses_more_specific_wildcard() {
        let mut cfg = Config::default();
        insert_player_layer(&mut cfg.user_player, "vlc_*",
            layer(Some(true), Some(false), Some("A")),
        );
        insert_player_layer(&mut cfg.user_player, "vlc_media_*",
            layer(Some(false), Some(false), Some("B")),
        );

        let res = cfg.get_player_config("vlc media classic", "vlc");
        assert_eq!(res.app_id, "B");
        assert!(!res.show_icon);
    }

    #[test]
    fn wildcard_only_then_default() {
        let mut cfg = Config::default();
        insert_player_layer(&mut cfg.user_player, "*spotify*",
            layer(Some(true), Some(true), Some("S")),
        );
        insert_player_layer(&mut cfg.bundled_player, "default",
            layer(Some(false), Some(false), Some("D")),
        );

        let sp = cfg.get_player_config("Spotify", "spotify");
        assert_eq!(sp.app_id, "S");
        assert!(sp.ignore);

        let other = cfg.get_player_config("Some Player", "other_player");
        assert_eq!(other.app_id, "D");
    }

    #[test]
    fn matches_player_bus_name_when_identity_differs() {
        let mut cfg = Config::default();
        insert_player_layer(&mut cfg.user_player, "vlc", layer(Some(true), Some(false), Some("A")));
        insert_player_layer(&mut cfg.bundled_player, "default",
            layer(Some(false), Some(false), Some("D")),
        );

        let res = cfg.get_player_config("Fancy VLC", "vlc");
        assert_eq!(res.app_id, "A");
        assert!(res.show_icon);
    }

    #[test]
    fn matches_regex_pattern_for_identity() {
        let mut cfg = Config::default();
        insert_player_layer(&mut cfg.user_player, "re:.*mpdris2.*",
            layer(Some(true), Some(false), Some("R")),
        );
        insert_player_layer(&mut cfg.bundled_player, "default",
            layer(Some(false), Some(false), Some("D")),
        );

        let res = cfg.get_player_config("Music Player Daemon (mpdris2-rs)", "mpd");
        assert_eq!(res.app_id, "R");
        assert!(res.show_icon);
    }

    #[test]
    fn regex_priority_over_wildcard() {
        let mut cfg = Config::default();
        insert_player_layer(&mut cfg.bundled_player, "*mpd*",
            layer(Some(false), Some(false), Some("G")),
        );
        insert_player_layer(&mut cfg.user_player, "re:.*mpdris2.*",
            layer(Some(true), Some(false), Some("R")),
        );
        insert_player_layer(&mut cfg.bundled_player, "default",
            layer(Some(false), Some(false), Some("D")),
        );

        let res = cfg.get_player_config("Music Player Daemon (mpdris2-rs)", "mpd");
        assert_eq!(res.app_id, "R");
        assert!(res.show_icon);
    }

    #[test]
    fn regex_matches_bus_name_when_identity_differs() {
        let mut cfg = Config::default();
        insert_player_layer(&mut cfg.user_player, "re:.*mpdris2.*",
            layer(Some(true), Some(false), Some("R")),
        );
        insert_player_layer(&mut cfg.bundled_player, "default",
            layer(Some(false), Some(false), Some("D")),
        );

        let res = cfg.get_player_config("Some Custom Player", "mpdris2-rs");
        assert_eq!(res.app_id, "R");
        assert!(res.show_icon);
    }

    #[test]
    fn user_patterns_override_defaults() {
        let mut cfg = Config::default();
        insert_player_layer(&mut cfg.bundled_player, "re:.*mpdris2.*",
            layer(Some(false), Some(false), Some("D")),
        );
        insert_player_layer(&mut cfg.user_player, "*mpd*",
            layer(Some(true), Some(false), Some("U")),
        );

        let res = cfg.get_player_config("Music Player Daemon (mpdris2-rs)", "mpd");
        assert_eq!(res.app_id, "U");
        assert!(res.show_icon);
    }

    #[test]
    fn cover_defaults_prefer_catbox_with_litter() {
        let cfg = Config::default();
        assert_eq!(
            cfg.cover.provider.provider,
            vec!["catbox".to_string(), "musicbrainz".to_string()]
        );
        assert!(cfg.cover.provider.catbox.use_litter);
        assert_eq!(cfg.cover.provider.catbox.litter_hours, 24);
    }

    #[test]
    fn user_layers_fill_missing_fields_from_bundled_match() {
        let mut cfg = Config::default();
        insert_player_layer(&mut cfg.bundled_player, "vlc",
            layer(Some(false), Some(false), Some("BUNDLED")),
        );
        insert_player_layer(&mut cfg.user_player, "vlc",
            PlayerConfigLayer {
                show_icon: Some(true),
                ..Default::default()
            },
        );

        let res = cfg.get_player_config("vlc", "vlc");
        assert_eq!(res.app_id, "BUNDLED"); // comes from bundled match
        assert!(res.show_icon); // overridden by user layer
        assert!(!res.ignore); // inherited from bundled + defaults
    }

    #[test]
    fn user_regex_overrides_bundled_exact_and_inherits_fields() {
        let mut cfg = Config::default();
        insert_player_layer(&mut cfg.bundled_player, "vlc_media_player",
            layer(Some(false), Some(true), Some("BUNDLED")),
        );
        insert_player_layer(&mut cfg.user_player, "re:vlc.*",
            PlayerConfigLayer {
                show_icon: Some(true),
                ..Default::default()
            },
        );

        let res = cfg.get_player_config("VLC media player", "vlc_media_player");
        assert_eq!(res.app_id, "BUNDLED"); // inherited
        assert!(res.show_icon); // overridden by user regex
        assert!(res.ignore); // bundled exact ignore persists unless user explicitly clears it
    }

    #[test]
    fn matched_player_entry_without_ignore_starts_enabled_from_default_policy() {
        let mut cfg = Config::default();
        insert_player_layer(&mut cfg.bundled_player, "default",
            PlayerConfigLayer {
                show_icon: Some(false),
                ignore_unmatched: Some(true),
                app_id: Some("MPRISENCE".to_string()),
                ..Default::default()
            },
        );
        insert_player_layer(&mut cfg.user_player, "custom_player",
            PlayerConfigLayer {
                app_id: Some("CUSTOM".to_string()),
                ..Default::default()
            },
        );

        let custom = cfg.get_player_config("Custom Player", "custom_player");
        assert_eq!(custom.app_id, "CUSTOM");
        assert!(!custom.ignore);

        let unknown = cfg.get_player_config("Unknown Player", "unknown_player");
        assert_eq!(unknown.app_id, "MPRISENCE");
        assert!(unknown.ignore);
    }

    #[test]
    fn explicit_ignore_true_on_matched_player_still_wins() {
        let mut cfg = Config::default();
        insert_player_layer(&mut cfg.bundled_player, "default",
            layer(Some(false), Some(true), Some("MPRISENCE")),
        );
        insert_player_layer(&mut cfg.user_player, "custom_player",
            PlayerConfigLayer {
                ignore: Some(true),
                app_id: Some("CUSTOM".to_string()),
                ..Default::default()
            },
        );

        let custom = cfg.get_player_config("Custom Player", "custom_player");
        assert_eq!(custom.app_id, "CUSTOM");
        assert!(custom.ignore);
    }

    #[test]
    fn effective_player_configs_show_matched_entries_as_enabled() {
        let mut cfg = Config::default();
        insert_player_layer(&mut cfg.bundled_player, "default",
            layer(Some(false), Some(true), Some("MPRISENCE")),
        );
        insert_player_layer(&mut cfg.user_player, "custom_player",
            PlayerConfigLayer {
                app_id: Some("CUSTOM".to_string()),
                ..Default::default()
            },
        );

        let effective = cfg.effective_player_configs();
        let custom = effective
            .iter()
            .find(|(key, _)| key == "custom_player")
            .map(|(_, config)| config)
            .expect("custom player config");
        assert_eq!(custom.app_id, "CUSTOM");
        assert!(!custom.ignore);
    }

    #[test]
    fn bus_name_layers_apply_even_when_identity_matches() {
        let mut cfg = Config::default();
        insert_player_layer(&mut cfg.bundled_player, "mpd",
            layer(Some(false), Some(false), Some("BUNDLED")),
        );
        insert_player_layer(&mut cfg.user_player, "*mpd*",
            PlayerConfigLayer {
                show_icon: Some(true),
                ..Default::default()
            },
        );

        let res = cfg.get_player_config("Music Player Daemon (mpdris2-rs)", "mpd");
        assert_eq!(res.app_id, "BUNDLED"); // inherited from bus-name match
        assert!(res.show_icon); // overridden by identity wildcard
    }

    #[test]
    fn user_exact_bus_name_overrides_identity_matches() {
        let mut cfg = Config::default();
        insert_player_layer(&mut cfg.user_player, "mpv",
            layer(Some(true), Some(false), Some("IDENTITY")),
        );
        insert_player_layer(&mut cfg.user_player, "playerctld",
            layer(Some(false), Some(true), Some("BUS")),
        );

        let res = cfg.get_player_config("mpv", "playerctld");
        assert_eq!(res.app_id, "BUS");
        assert!(res.ignore);
        assert!(!res.show_icon);
    }

    #[test]
    fn stable_player_key_uses_explicit_unscoped_patterns() {
        let mut cfg = Config::default();
        insert_player_layer(&mut cfg.bundled_player, "vlc",
            PlayerConfigLayer {
                match_patterns: Some(vec!["vlc_media_player".to_string()]),
                app_id: Some("VLC".to_string()),
                ..Default::default()
            },
        );
        cfg.rebuild_merged_player();

        let resolution = cfg.resolve_player_config("VLC Media Player", "vlc");
        assert_eq!(resolution.config.app_id, "VLC");
        assert_eq!(resolution.matches[0].config_key, "vlc");
        assert_eq!(resolution.matches[0].pattern, "vlc_media_player");
        assert!(!resolution.matches[0].legacy);
    }

    #[test]
    fn scoped_patterns_only_match_the_selected_field() {
        let mut cfg = Config::default();
        insert_player_layer(&mut cfg.user_player, "identity_only",
            PlayerConfigLayer {
                match_patterns: Some(vec!["identity:shared".to_string()]),
                app_id: Some("IDENTITY".to_string()),
                ..Default::default()
            },
        );
        insert_player_layer(&mut cfg.user_player, "bus_only",
            PlayerConfigLayer {
                match_patterns: Some(vec!["bus:shared".to_string()]),
                app_id: Some("BUS".to_string()),
                ..Default::default()
            },
        );
        cfg.rebuild_merged_player();

        assert_eq!(cfg.get_player_config("shared", "other").app_id, "IDENTITY");
        assert_eq!(cfg.get_player_config("other", "shared").app_id, "BUS");
    }

    #[test]
    fn patternless_user_override_inherits_bundled_player_patterns() {
        let mut cfg = Config::default();
        insert_player_layer(&mut cfg.bundled_player, "vlc",
            PlayerConfigLayer {
                match_patterns: Some(vec!["vlc_media_player".to_string()]),
                app_id: Some("BUNDLED".to_string()),
                ..Default::default()
            },
        );
        insert_player_layer(&mut cfg.user_player, "vlc",
            PlayerConfigLayer {
                show_icon: Some(true),
                ..Default::default()
            },
        );
        cfg.rebuild_merged_player();

        let resolved = cfg.get_player_config("VLC Media Player", "vlc");
        assert_eq!(resolved.app_id, "BUNDLED");
        assert!(resolved.show_icon);
    }

    #[test]
    fn allowed_players_supports_typed_source_selectors() {
        let mut cfg = Config {
            allowed_players: vec![
                "player:vlc".to_string(),
                "web_player:youtube_music".to_string(),
                "bus:special_bus".to_string(),
                "identity:special_identity".to_string(),
            ],
            ..Default::default()
        };
        insert_player_layer(&mut cfg.user_player, "vlc",
            PlayerConfigLayer {
                match_patterns: Some(vec!["vlc_media_player".to_string()]),
                ..Default::default()
            },
        );
        cfg.rebuild_merged_player();
        let keys = vec!["vlc".to_string()];

        assert!(cfg.is_source_allowed("other", "other", &keys, None));
        assert!(cfg.is_source_allowed("other", "other", &[], Some("youtube_music")));
        assert!(cfg.is_source_allowed("other", "special_bus", &[], None));
        assert!(cfg.is_source_allowed("special identity", "other", &[], None));
        assert!(!cfg.is_source_allowed("other", "other", &[], None));
    }

    #[test]
    fn allows_all_players_when_unset() {
        let cfg = Config::default();

        assert!(is_player_allowed(&cfg, "Any Player", "any_player"));
    }

    #[test]
    fn filters_players_by_allowed_patterns() {
        let cfg = Config {
            allowed_players: vec![
                "vlc_media_player".to_string(),
                "*mpd*".to_string(),
                "re:.*youtube_music.*".to_string(),
            ],
            ..Default::default()
        };

        assert!(is_player_allowed(&cfg, "VLC media player", "vlc"));
        assert!(is_player_allowed(&cfg, "Music Player Daemon (mpdris2-rs)", "mpd"));
        assert!(is_player_allowed(&cfg, "YouTube Music", "youtube-music"));
        assert!(!is_player_allowed(&cfg, "spotify", "spotify"));
    }

    
    
    

    

    fn web_player(match_pattern: &str, app_id: Option<&str>) -> WebPlayerConfigLayer {
        WebPlayerConfigLayer {
            match_pattern: Some(match_pattern.to_string()),
            app_id: app_id.map(|s| s.to_string()),
            ..Default::default()
        }
    }

    #[test]
    fn website_into_player_config_projects_fields_and_falls_back_to_defaults() {
        let layer = WebPlayerConfigLayer {
            match_pattern: Some("music.youtube.com".to_string()),
            name: Some("YouTube Music".into()),
            app_id: Some("WEB_PLAYER".into()),
            icon: Some("yt-icon".into()),
            ..Default::default()
        };
        let resolved = layer.apply_into_web_player(WebPlayerConfig::default());
        let player = resolved.into_player_config();

        assert_eq!(player.app_id, "WEB_PLAYER");
        assert_eq!(player.icon, "yt-icon");
        assert_eq!(player.name.as_deref(), Some("YouTube Music"));
        assert!(player.allow_streaming);
        // ignore wasn't set in the layer -> uses WebPlayerConfig::default
        // (false), matching the new authoritative-replace semantics.
        assert!(!player.ignore);
        // show_icon wasn't set -> falls back to mprisence default (false).
        assert!(!player.show_icon);
    }

    #[test]
    fn website_into_player_config_always_allows_streaming() {
        // A web player is matched because its URL is http(s), which is
        // exactly what `is_streaming_url` tests. Blocking streaming here
        // would hide the entry outright, which is what `ignore` is for.
        let layer = WebPlayerConfigLayer {
            match_pattern: Some("music.youtube.com".to_string()),
            ..Default::default()
        };
        let resolved = layer.apply_into_web_player(WebPlayerConfig::default());

        assert!(resolved.into_player_config().allow_streaming);
    }

    fn build_cfg(setup: impl FnOnce(&mut Config)) -> Config {
        let mut cfg = Config::default();
        setup(&mut cfg);
        cfg.rebuild_merged_web_player();
        cfg
    }

    #[test]
    fn web_player_match_host_swaps_app_id() {
        let cfg = build_cfg(|cfg| {
            insert_web_layer(&mut cfg.bundled_web_player, "youtube_music",
                web_player("music.youtube.com", Some("YT")),
            );
        });

        let resolved = cfg.get_player_config_with_url(
            "Firefox",
            "firefox",
            Some("https://music.youtube.com/watch?v=abc"),
        );
        assert_eq!(resolved.app_id, "YT");
        assert!(resolved.allow_streaming);
    }

    #[test]
    fn web_player_match_patterns_plural_any_entry_matches() {
        let cfg = build_cfg(|cfg| {
            insert_web_layer(&mut cfg.bundled_web_player, "soundcloud",
                WebPlayerConfigLayer {
                    match_patterns: Some(vec!["soundcloud.com".into(), "snd.sc".into()]),
                    app_id: Some("SC".into()),
                    ..Default::default()
                },
            );
        });

        let resolved_long = cfg.get_player_config_with_url(
            "Firefox",
            "firefox",
            Some("https://soundcloud.com/discover/sets/x"),
        );
        assert_eq!(resolved_long.app_id, "SC");
        assert!(resolved_long.allow_streaming);

        let resolved_short =
            cfg.get_player_config_with_url("Firefox", "firefox", Some("https://snd.sc/abc"));
        assert_eq!(resolved_short.app_id, "SC");
        assert!(resolved_short.allow_streaming);
    }

    #[test]
    fn web_player_match_regex_on_host() {
        let cfg = build_cfg(|cfg| {
            insert_web_layer(&mut cfg.bundled_web_player, "bandcamp",
                web_player("re:.*\\.bandcamp\\.com$", Some("BC")),
            );
        });

        let resolved = cfg.get_player_config_with_url(
            "Firefox",
            "firefox",
            Some("https://artist.bandcamp.com/track/y"),
        );
        assert_eq!(resolved.app_id, "BC");
    }

    #[test]
    fn website_unknown_http_url_forces_ignore() {
        let cfg = build_cfg(|cfg| {
            insert_web_layer(&mut cfg.bundled_web_player, "youtube_music",
                web_player("music.youtube.com", Some("YT")),
            );
        });

        let resolved = cfg.get_player_config_with_url(
            "Firefox",
            "firefox",
            Some("https://github.com/lazykern/mprisence"),
        );
        assert!(
            resolved.ignore,
            "unknown http URL should auto-ignore so random browser audio stays hidden"
        );
    }

    #[test]
    fn website_non_http_scheme_falls_through_to_base() {
        let cfg = build_cfg(|cfg| {
            insert_web_layer(&mut cfg.bundled_web_player, "youtube_music",
                web_player("music.youtube.com", Some("YT")),
            );
        });
        let baseline = cfg.get_player_config("Spotify", "spotify");

        let resolved =
            cfg.get_player_config_with_url("Spotify", "spotify", Some("spotify:track:abc123"));
        assert_eq!(resolved.app_id, baseline.app_id);
        assert_eq!(resolved.ignore, baseline.ignore);
    }

    #[test]
    fn website_file_url_falls_through_to_base() {
        let cfg = build_cfg(|cfg| {
            insert_web_layer(&mut cfg.bundled_web_player, "youtube_music",
                web_player("music.youtube.com", Some("YT")),
            );
        });
        let baseline = cfg.get_player_config("VLC", "vlc");

        let resolved =
            cfg.get_player_config_with_url("VLC", "vlc", Some("file:///home/user/track.flac"));
        assert_eq!(resolved.ignore, baseline.ignore);
    }

    #[test]
    fn website_no_url_returns_base_player_config() {
        let cfg = build_cfg(|cfg| {
            insert_web_layer(&mut cfg.bundled_web_player, "youtube_music",
                web_player("music.youtube.com", Some("YT")),
            );
        });
        let baseline = cfg.get_player_config("Firefox", "firefox");

        let resolved = cfg.get_player_config_with_url("Firefox", "firefox", None);
        assert_eq!(resolved.app_id, baseline.app_id);
    }

    #[test]
    fn website_user_overrides_bundled() {
        let cfg = build_cfg(|cfg| {
            insert_web_layer(&mut cfg.bundled_web_player, "youtube_music",
                web_player("music.youtube.com", Some("BUNDLED")),
            );
            insert_web_layer(&mut cfg.user_web_player, "youtube_music",
                web_player("music.youtube.com", Some("USER")),
            );
        });

        let resolved = cfg.get_player_config_with_url(
            "Firefox",
            "firefox",
            Some("https://music.youtube.com/watch?v=x"),
        );
        assert_eq!(resolved.app_id, "USER");
    }

    /// Per-site `ignore` remains load-bearing: bundled entries ship
    /// `ignore = true` as opt-in, and a user entry flips them on.
    #[test]
    fn per_site_ignore_still_controls_bundled_sites() {
        let mut cfg = Config::default();
        insert_web_layer(&mut cfg.bundled_web_player, "youtube",
            WebPlayerConfigLayer {
                match_pattern: Some("youtube.com".into()),
                name: Some("YT".into()),
                ignore: Some(true),
                ..Default::default()
            },
        );
        cfg.rebuild_merged_web_player();

        let disabled = cfg.get_player_config_with_url(
            "Firefox",
            "firefox",
            Some("https://youtube.com/watch?v=x"),
        );
        assert!(disabled.ignore);

        insert_web_layer(&mut cfg.user_web_player, "youtube",
            WebPlayerConfigLayer {
                ignore: Some(false),
                ..Default::default()
            },
        );
        cfg.rebuild_merged_web_player();
        let enabled = cfg.get_player_config_with_url(
            "Firefox",
            "firefox",
            Some("https://youtube.com/watch?v=x"),
        );
        assert!(!enabled.ignore);
    }

    /// `[web_player.default] ignore` is gone: it must not leak into site
    /// entries as an inheritance base, and unknown URLs stay hidden anyway.
    #[test]
    fn user_web_default_ignore_does_not_hide_matched_sites() {
        let mut cfg = Config::default();
        insert_web_layer(&mut cfg.bundled_web_player, "tidal",
            WebPlayerConfigLayer {
                match_pattern: Some("tidal.com".into()),
                ignore: Some(false),
                ..Default::default()
            },
        );
        insert_web_layer(&mut cfg.user_web_player, "default",
            WebPlayerConfigLayer {
                ignore: Some(true),
                ..Default::default()
            },
        );
        cfg.rebuild_merged_web_player();

        let matched =
            cfg.get_player_config_with_url("Firefox", "firefox", Some("https://tidal.com/track/1"));
        assert!(
            !matched.ignore,
            "default ignore must not hide a matched site"
        );

        let unmatched = cfg.get_player_config_with_url(
            "Firefox",
            "firefox",
            Some("https://unknown.example/track"),
        );
        assert!(unmatched.ignore, "unknown websites are always hidden");
    }

    /// Toggle off: neither detection channel fires. The URL channel must fall
    /// back to the browser's own `[player.*]` config, and the title-suffix
    /// channel must not rewrite the player or strip the suffix.
    #[test]
    fn disabled_web_players_fall_through_to_player_rules() {
        let mut cfg = Config {
            web_player_enabled: false,
            ..Default::default()
        };
        insert_player_layer(&mut cfg.bundled_player, "firefox",
            PlayerConfigLayer {
                match_patterns: Some(vec!["firefox".into()]),
                ignore: Some(false),
                name: Some("Firefox".into()),
                ..Default::default()
            },
        );
        insert_web_layer(&mut cfg.bundled_web_player, "youtube_music",
            WebPlayerConfigLayer {
                match_pattern: Some("music.youtube.com".into()),
                title_suffix: Some(" | YouTube Music".into()),
                name: Some("YouTube Music".into()),
                ignore: Some(false),
                ..Default::default()
            },
        );
        cfg.rebuild_merged_player();
        cfg.rebuild_merged_web_player();

        let by_url = cfg.resolve_source(
            "Firefox",
            "firefox",
            Some("https://music.youtube.com/watch?v=x"),
            None,
        );
        assert!(by_url.web_player_key.is_none());
        assert_eq!(by_url.config.name.as_deref(), Some("Firefox"));
        assert!(!by_url.config.ignore);

        let by_title = cfg.resolve_source("Firefox", "firefox", None, Some("Song | YouTube Music"));
        assert!(by_title.web_player_key.is_none());
        assert!(by_title.title_suffix.is_none());
        assert_eq!(by_title.config.name.as_deref(), Some("Firefox"));

        // Unknown http URLs are no longer force-hidden either - [player.*] rules govern.
        let unknown = cfg.resolve_source(
            "Firefox",
            "firefox",
            Some("https://unknown.example/x"),
            None,
        );
        assert!(!unknown.config.ignore);
    }

    /// The same URL, with the toggle on, still gets the website identity.
    #[test]
    fn enabled_web_players_still_override_browser() {
        let mut cfg = Config::default();
        insert_web_layer(&mut cfg.bundled_web_player, "youtube_music",
            WebPlayerConfigLayer {
                match_pattern: Some("music.youtube.com".into()),
                name: Some("YouTube Music".into()),
                ignore: Some(false),
                ..Default::default()
            },
        );
        cfg.rebuild_merged_web_player();

        let resolved = cfg.resolve_source(
            "Firefox",
            "firefox",
            Some("https://music.youtube.com/watch?v=x"),
            None,
        );
        assert_eq!(resolved.web_player_key.as_deref(), Some("youtube_music"));
        assert_eq!(resolved.config.name.as_deref(), Some("YouTube Music"));
    }

    #[test]
    fn website_ignore_propagates_to_resolved_player_config() {
        let cfg = build_cfg(|cfg| {
            insert_web_layer(&mut cfg.bundled_web_player, "spotify_web",
                WebPlayerConfigLayer {
                    match_pattern: Some("open.spotify.com".into()),
                    ignore: Some(true),
                    ..Default::default()
                },
            );
        });

        let resolved = cfg.get_player_config_with_url(
            "Firefox",
            "firefox",
            Some("https://open.spotify.com/track/abc"),
        );
        assert!(resolved.ignore);
    }

    #[test]
    fn website_pattern_more_specific_than_substring_wins() {
        let cfg = build_cfg(|cfg| {
            // Both patterns would match the URL; exact host should win over substring.
            insert_web_layer(&mut cfg.bundled_web_player, "youtube_dot_com",
                web_player("youtube.com", Some("GENERIC")),
            );
            insert_web_layer(&mut cfg.bundled_web_player, "youtube_music",
                web_player("music.youtube.com", Some("SPECIFIC")),
            );
        });

        let resolved = cfg.get_player_config_with_url(
            "Firefox",
            "firefox",
            Some("https://music.youtube.com/watch?v=x"),
        );
        assert_eq!(resolved.app_id, "SPECIFIC");
    }

    #[test]
    fn user_patternless_layer_inherits_bundled_patterns() {
        // The whole reason `merged_web_player` exists: a user entry like
        // `[web_player.youtube]\nignore = false` (no patterns) used to be
        // silently skipped by `find_matching_website_layer` because its
        // `effective_patterns()` returned empty. After per-key merge the
        // bundled patterns flow through, so the user's `ignore` flip
        // actually takes effect.
        let cfg = build_cfg(|cfg| {
            insert_web_layer(&mut cfg.bundled_web_player, "youtube",
                WebPlayerConfigLayer {
                    match_patterns: Some(vec!["youtube.com".into(), "youtu.be".into()]),
                    app_id: Some("YT_BUNDLED".into()),
                    ignore: Some(true),
                    ..Default::default()
                },
            );
            insert_web_layer(&mut cfg.user_web_player, "youtube",
                WebPlayerConfigLayer {
                    ignore: Some(false),
                    ..Default::default()
                },
            );
        });

        let resolved = cfg.get_player_config_with_url(
            "Firefox",
            "firefox",
            Some("https://www.youtube.com/watch?v=x"),
        );
        assert!(
            !resolved.ignore,
            "user override should flip ignore to false"
        );
        assert_eq!(
            resolved.app_id, "YT_BUNDLED",
            "bundled app_id should still apply since user didn't override it"
        );
        assert!(
            resolved.allow_streaming,
            "matched web_player should still allow streaming by default"
        );
    }

    #[test]
    fn website_fully_replaces_browser_player_config() {
        // The browser's [player.*] config (ignore=true, app_id=BROWSER) must
        // NOT bleed into the resolved config when the URL matches a web_player.
        // Only the web_player's fields plus mprisence defaults survive.
        let cfg = build_cfg(|cfg| {
            insert_player_layer(&mut cfg.bundled_player, "firefox",
                PlayerConfigLayer {
                    ignore: Some(true),
                    app_id: Some("BROWSER".into()),
                    icon: Some("browser-icon".into()),
                    allow_streaming: Some(true),
                    ..Default::default()
                },
            );
            insert_web_layer(&mut cfg.bundled_web_player, "youtube", web_player("youtube.com", Some("YT_SITE")));
        });

        let resolved = cfg.get_player_config_with_url(
            "Mozilla Firefox",
            "firefox",
            Some("https://www.youtube.com/watch?v=x"),
        );
        assert_eq!(
            resolved.app_id, "YT_SITE",
            "web_player app_id must win, not browser's"
        );
        assert!(
            !resolved.ignore,
            "web_player's ignore=false (default) must replace browser's ignore=true"
        );
        assert_ne!(
            resolved.icon, "browser-icon",
            "browser icon must not leak through when web_player matches"
        );
    }

    #[test]
    fn matched_web_player_for_url_returns_key_and_config() {
        let cfg = build_cfg(|cfg| {
            insert_web_layer(&mut cfg.bundled_web_player, "youtube",
                WebPlayerConfigLayer {
                    match_patterns: Some(vec!["youtube.com".into(), "youtu.be".into()]),
                    app_id: Some("YT".into()),
                    ..Default::default()
                },
            );
        });

        let (key, resolved) = cfg
            .matched_web_player_for_url(Some("https://www.youtube.com/watch?v=x"))
            .expect("youtube.com should match");
        assert_eq!(key, "youtube");
        assert_eq!(resolved.app_id.as_deref(), Some("YT"));

        assert!(cfg
            .matched_web_player_for_url(Some("https://unrelated.example/"))
            .is_none());
        assert!(cfg.matched_web_player_for_url(None).is_none());
    }

#[test]
fn template_keys_prefer_details_over_detail() {
    let t = template_from_keys(Some("new details".into()), Some("old".into()), None, None, None);
    assert_eq!(t.details, "new details");
    let t = template_from_keys(None, Some("legacy detail".into()), None, None, None);
    assert_eq!(t.details, "legacy detail");
    assert_eq!(t.state, "{{{artists}}}");
    let t = template_from_keys(None, None, None, None, None);
    assert_eq!(t.details, "{{{title}}}");
}

#[test]
fn title_suffix_selects_web_player() {
    let mut cfg = Config::default();
    insert_web_layer(&mut cfg.bundled_web_player, "youtube_music", WebPlayerConfigLayer {
        match_pattern: Some("music.youtube.com".into()),
        title_suffix: Some(" | YouTube Music".into()),
        name: Some("YouTube Music".into()),
        ..Default::default()
    });
    insert_web_layer(&mut cfg.bundled_web_player, "soundcloud", WebPlayerConfigLayer {
        name: Some("SoundCloud".into()),
        ..Default::default()
    });
    cfg.rebuild_merged_web_player();
    let r = cfg.resolve_source("Chromium", "chromium", None, Some("Song | YouTube Music"));
    assert_eq!(r.web_player_key.as_deref(), Some("youtube_music"));
    assert_eq!(r.title_suffix.as_deref(), Some(" | YouTube Music"));
    assert_eq!(r.config.name.as_deref(), Some("YouTube Music"));
    let r = cfg.resolve_source("Chromium", "chromium", None, Some("Track | SoundCloud"));
    assert_eq!(r.web_player_key.as_deref(), Some("soundcloud"));
    assert_eq!(r.title_suffix.as_deref(), Some(" | SoundCloud"));
    let r = cfg.resolve_source("Chromium", "chromium", None, Some("Just a title"));
    assert!(r.web_player_key.is_none());
}

#[test]
fn resolution_reports_matches_in_layer_order() {
    let mut cfg = Config::default();
    insert_player_layer(&mut cfg.bundled_player, "*vlc*", PlayerConfigLayer { app_id: Some("W".into()), ..Default::default() });
    insert_player_layer(&mut cfg.bundled_player, "vlc", PlayerConfigLayer { app_id: Some("E".into()), ..Default::default() });
    insert_player_layer(&mut cfg.user_player, "re:^vlc$", PlayerConfigLayer { show_icon: Some(true), ..Default::default() });
    let r = cfg.resolve_player_config("VLC", "vlc");
    let keys: Vec<&str> = r.matches.iter().map(|m| m.config_key.as_str()).collect();
    assert_eq!(keys, vec!["*vlc*", "vlc", "re:^vlc$"]);
    assert_eq!(r.config.app_id, "E");
    assert!(r.config.show_icon);
    assert!(r.matches[0].legacy);
}

#[test]
fn invalid_regex_falls_back_to_exact_text() {
    let mut cfg = Config::default();
    insert_player_layer(&mut cfg.user_player, "re:(", PlayerConfigLayer { app_id: Some("X".into()), ..Default::default() });
    assert_eq!(cfg.get_player_config("re:(", "other").app_id, "X");
    assert_eq!(cfg.get_player_config("(", "other").app_id, "1121632048155742288");
}

#[test]
fn effective_web_player_configs_resolve_each_key() {
    let mut cfg = Config::default();
    insert_web_layer(&mut cfg.bundled_web_player, "default", WebPlayerConfigLayer { icon: Some("I".into()), ignore: Some(true), ..Default::default() });
    insert_web_layer(&mut cfg.user_web_player, "tidal", WebPlayerConfigLayer { app_id: Some("T".into()), ..Default::default() });
    let all = cfg.effective_web_player_configs();
    assert_eq!(all.len(), 2);
    let tidal = &all.iter().find(|(k, _)| k == "tidal").unwrap().1;
    assert_eq!(tidal.icon.as_deref(), Some("I"));
    assert_eq!(tidal.app_id.as_deref(), Some("T"));
    assert!(!tidal.ignore);
}

fn template_of(body: &str) -> mprisence::config::TemplateConfig {
    let table: toml::Table = toml::from_str(body).expect("template should deserialize");
    let key = |k: &str| table.get(k).and_then(|v| v.as_str()).map(str::to_string);
    template_from_keys(key("details"), key("detail"), key("state"), key("large_text"), key("small_text"))
}

#[test]
fn template_details_key_is_supported() {
    let template = template_of("details = \"new details\"\n");
    assert_eq!(template.details, "new details");
}

#[test]
fn template_detail_key_is_still_supported() {
    let template = template_of("detail = \"legacy detail\"\n");
    assert_eq!(template.details, "legacy detail");
}

#[test]
fn template_details_takes_precedence_when_both_keys_exist() {
    let template = template_of("detail = \"legacy detail\"\ndetails = \"new details\"\n");
    assert_eq!(template.details, "new details");
}

#[test]
fn wildcards_become_anchored_regular_expressions() {
    assert_eq!(wildcard_regex_of("vlc*"), "^vlc.*$");
    assert_eq!(wildcard_regex_of("a.b?"), "^a\\.b.$");
}
