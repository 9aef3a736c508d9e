use std::collections::BTreeMap;

use mprisence::context::{context_data, AudioProperties, MetadataInfo, PlayerInfo, TagInfo};
use mprisence::health::PlaybackStatus;

fn as_map(entries: Vec<(String, String)>) -> BTreeMap<String, String> {
    let mut map = BTreeMap::new();
    for (k, v) in entries {
        map.insert(k, v);
    }
    map
}

#[test]
fn player_and_metadata_values() {
    let player = PlayerInfo {
        identity: "VLC".to_string(),
        position_secs: 75,
        status: Some(PlaybackStatus::Paused),
        volume_percent: Some(50),
    };
    let metadata = MetadataInfo {
        album_artists: Some(vec!["A".to_string(), "B".to_string()]),
        album_name: Some("LP".to_string()),
        artists: Some(vec!["C".to_string()]),
        auto_rating: None,
        disc_number: Some(-1),
        length_secs: Some(3599),
        title: Some("Song".to_string()),
        track_number: Some(7),
    };
    let data = as_map(context_data(&Some(player), &Some(metadata), &None, &None));
    assert_eq!(data["player"], "VLC");
    assert_eq!(data["position"], "01:15");
    assert_eq!(data["status"], "paused");
    assert_eq!(data["status_icon"], "⏸");
    assert_eq!(data["volume"], "50");
    assert_eq!(data["album_artists"], "A, B");
    assert_eq!(data["disc_number"], "-1");
    assert_eq!(data["length"], "59:59");
    assert_eq!(data["track_number"], "7");
    assert!(!data.contains_key("auto_rating"));
}

#[test]
fn tag_values_override_metadata_and_properties_follow() {
    let metadata = MetadataInfo {
        album_artists: None,
        album_name: None,
        artists: Some(vec!["From player".to_string()]),
        auto_rating: Some("0.5".to_string()),
        disc_number: None,
        length_secs: None,
        title: Some("Player title".to_string()),
        track_number: None,
    };
    let tag = TagInfo {
        track_artist: Some("From tag".to_string()),
        track_title: Some("Tag title".to_string()),
        performer: Some("P".to_string()),
        ..TagInfo::default()
    };
    let props = AudioProperties {
        audio_bitrate: Some(320),
        bit_depth: Some(16),
        channels: None,
        overall_bitrate: None,
        sample_rate: Some(44100),
    };
    let entries = context_data(&None, &Some(metadata), &Some(tag), &Some(props));
    let data = as_map(entries);
    assert_eq!(data["artists"], "From tag");
    assert_eq!(data["title"], "Tag title");
    assert_eq!(data["perfomer"], "P");
    assert_eq!(data["auto_rating"], "0.5");
    assert_eq!(data["audio_bitrate"], "320");
    assert_eq!(data["bit_depth"], "16");
    assert_eq!(data["sample_rate"], "44100");
    assert!(!data.contains_key("player"));
    assert!(context_data(&None, &None, &None, &None).is_empty());
}
