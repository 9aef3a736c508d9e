use mprisence::settings_api::{
    art_file_path, config_validation, fixed_response, json_to_toml, patch_plan, route, ArtEntry,
    Endpoint, HttpMethod, JsonValue, PatchChange, PatchRequest, TomlValue,
};

fn path(v: &[&str]) -> Vec<String> {
    v.iter().map(|s| s.to_string()).collect()
}

#[test]
fn requests_go_to_their_handlers() {
    assert_eq!(route(HttpMethod::Get, "/"), Endpoint::Index);
    assert_eq!(route(HttpMethod::Get, "/favicon.ico"), Endpoint::Favicon);
    assert_eq!(route(HttpMethod::Get, "/api/config"), Endpoint::ConfigText);
    assert_eq!(route(HttpMethod::Put, "/api/config"), Endpoint::SaveConfig);
    assert_eq!(route(HttpMethod::Post, "/api/config/validate"), Endpoint::ValidateConfig);
    assert_eq!(route(HttpMethod::Get, "/api/settings"), Endpoint::GetSettings);
    assert_eq!(route(HttpMethod::Patch, "/api/settings"), Endpoint::PatchSettings);
    assert_eq!(route(HttpMethod::Get, "/api/players"), Endpoint::ListPlayers);
    assert_eq!(route(HttpMethod::Get, "/api/web_players"), Endpoint::ListWebPlayers);
    assert_eq!(route(HttpMethod::Post, "/api/preview"), Endpoint::Preview);
    assert_eq!(route(HttpMethod::Get, "/api/art?player_bus_name=x"), Endpoint::CoverArt);
    assert_eq!(route(HttpMethod::Post, "/api/art?player_bus_name=x"), Endpoint::NotFound);
    assert_eq!(route(HttpMethod::Post, "/api/config"), Endpoint::NotFound);
    assert_eq!(route(HttpMethod::Other, "/"), Endpoint::NotFound);
    assert_eq!(route(HttpMethod::Get, "/nope"), Endpoint::NotFound);
}

#[test]
fn fixed_answers() {
    assert_eq!(fixed_response(Endpoint::Favicon), Some((204, "image/x-icon", String::new())));
    assert_eq!(fixed_response(Endpoint::NotFound), Some((404, "text/plain", "not found".to_string())));
    assert_eq!(fixed_response(Endpoint::GetSettings), None);
}

#[test]
fn json_values_become_toml_values() {
    assert_eq!(json_to_toml(&JsonValue::Null), Ok(None));
    assert_eq!(json_to_toml(&JsonValue::Bool(true)), Ok(Some(TomlValue::Bool(true))));
    assert_eq!(json_to_toml(&JsonValue::Number(Some(42), "42".to_string())), Ok(Some(TomlValue::Int(42))));
    assert_eq!(
        json_to_toml(&JsonValue::Number(None, "1.5".to_string())),
        Err("unsupported number: 1.5".to_string())
    );
    assert_eq!(json_to_toml(&JsonValue::Str("vlc".to_string())), Ok(Some(TomlValue::Str("vlc".to_string()))));
    assert_eq!(
        json_to_toml(&JsonValue::Array(vec![
            JsonValue::Str("a".to_string()),
            JsonValue::Array(vec![JsonValue::Number(Some(1), "1".to_string())]),
        ])),
        Ok(Some(TomlValue::Array(vec![
            TomlValue::Str("a".to_string()),
            TomlValue::Array(vec![TomlValue::Int(1)]),
        ])))
    );
    assert_eq!(
        json_to_toml(&JsonValue::Array(vec![JsonValue::Bool(false), JsonValue::Null])),
        Err("null in array".to_string())
    );
    assert_eq!(
        json_to_toml(&JsonValue::Array(vec![JsonValue::Object, JsonValue::Null])),
        Err("objects not supported; patch one key at a time".to_string())
    );
    assert_eq!(json_to_toml(&JsonValue::Array(vec![])), Ok(Some(TomlValue::Array(vec![]))));
}

#[test]
fn patch_requests_need_paths() {
    let refused = patch_plan(PatchRequest { path: vec![], value: JsonValue::Null, also: vec![] });
    assert_eq!(refused.unwrap_err(), "empty path");

    let plan = patch_plan(PatchRequest {
        path: path(&["interval"]),
        value: JsonValue::Number(Some(1000), "1000".to_string()),
        also: vec![
            PatchChange { path: path(&["cover", "provider", "provider"]), value: JsonValue::Null },
            PatchChange { path: vec![], value: JsonValue::Bool(true) },
            PatchChange { path: path(&["time", "show"]), value: JsonValue::Bool(true) },
        ],
    })
    .unwrap();
    assert_eq!(plan.changes.len(), 2);
    assert_eq!(plan.changes[0].path, path(&["interval"]));
    assert_eq!(plan.changes[1].path, path(&["cover", "provider", "provider"]));
    assert_eq!(plan.then_error, Some("empty secondary path".to_string()));

    let plain = patch_plan(PatchRequest { path: path(&["interval"]), value: JsonValue::Null, also: vec![] }).unwrap();
    assert_eq!(plain.changes.len(), 1);
    assert_eq!(plain.then_error, None);
}

#[test]
fn cover_requests_read_only_what_a_player_reports() {
    let entries = vec![
        ArtEntry { player_bus_name: "org.mpris.MediaPlayer2.vlc".to_string(), art_url: Some("file:///music/a%20b.jpg".to_string()) },
        ArtEntry { player_bus_name: "org.mpris.MediaPlayer2.mpv".to_string(), art_url: None },
        ArtEntry { player_bus_name: "org.mpris.MediaPlayer2.mpv".to_string(), art_url: Some("file:///x.png".to_string()) },
        ArtEntry { player_bus_name: "org.mpris.MediaPlayer2.web".to_string(), art_url: Some("https://example.com/a.png".to_string()) },
    ];
    assert_eq!(
        art_file_path("/api/art?player_bus_name=org.mpris.MediaPlayer2.vlc", &entries),
        Some("/music/a b.jpg".to_string())
    );
    assert_eq!(art_file_path("/api/art?player_bus_name=org.mpris.MediaPlayer2.mpv", &entries), None);
    assert_eq!(art_file_path("/api/art?player_bus_name=org.mpris.MediaPlayer2.web", &entries), None);
    assert_eq!(art_file_path("/api/art?player_bus_name=org.mpris.MediaPlayer2.none", &entries), None);
    assert_eq!(art_file_path("/api/art?path=/etc/passwd", &entries), None);
}

#[test]
fn validation_answers() {
    let ok = config_validation(Ok(()), vec!["w".to_string()]);
    assert!(ok.valid && ok.error.is_none() && ok.warnings == vec!["w".to_string()]);
    let bad = config_validation(Err("bad".to_string()), vec![]);
    assert!(!bad.valid && bad.error == Some("bad".to_string()) && bad.warnings.is_empty());
}

#[test]
fn unknown_route_is_404() {
    let (status, _, _) = fixed_response(route(HttpMethod::Get, "/nope")).unwrap();
    assert_eq!(status, 404);
}

