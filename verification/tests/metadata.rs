use mprisence::cover::art::ArtSource;
use mprisence::cover::cache::KeyFields;
use mprisence::metadata::{
    art_source_with_options, artists_from, effective_url, generate_cache_key,
    infer_art_url_from_url, is_http_art_url, select_art_source, ArtSourceOptions,
};

const YT_URL: &str = "https://www.youtube.com/watch?v=dQw4w9WgXcQ";
const YT_THUMB: &str = "https://i.ytimg.com/vi/dQw4w9WgXcQ/hqdefault.jpg";
const PLASMA_FILE: &str = "file:///tmp/plasma-browser-integration_artwork_zmXyTR.jpg";

fn youtube_inferred() -> Option<String> {
    infer_art_url_from_url(YT_URL)
}

#[test]
fn file_art_url_with_youtube_xesam_prefers_inferred_thumbnail() {
    let got = select_art_source(Some(PLASMA_FILE), youtube_inferred(), None);
    match got {
        Some(ArtSource::Url(url)) => assert_eq!(url, YT_THUMB),
        other => panic!("expected inferred YouTube URL, got {other:?}"),
    }
}

#[test]
fn remote_http_art_url_beats_inferred_thumbnail() {
    let curated = "https://cdn.example.com/cover.png";
    let got = select_art_source(Some(curated), youtube_inferred(), None);
    match got {
        Some(ArtSource::Url(url)) => assert_eq!(url, curated),
        other => panic!("expected curated http URL, got {other:?}"),
    }
}

#[test]
fn data_art_url_with_youtube_xesam_prefers_inferred_thumbnail() {
    let data_uri = "data:image/png;base64,iVBORw0KGgo=";
    let got = select_art_source(Some(data_uri), youtube_inferred(), None);
    match got {
        Some(ArtSource::Url(url)) => assert_eq!(url, YT_THUMB),
        other => panic!("expected inferred YouTube URL, got {other:?}"),
    }
}

#[test]
fn file_art_url_with_non_youtube_xesam_keeps_file() {
    let got = select_art_source(Some(PLASMA_FILE), None, None);
    match got {
        Some(ArtSource::File(path)) => {
            assert_eq!(path, "/tmp/plasma-browser-integration_artwork_zmXyTR.jpg")
        },
        other => panic!("expected file source, got {other:?}"),
    }
}

#[test]
fn no_art_url_with_youtube_xesam_returns_inferred() {
    let got = select_art_source(None, youtube_inferred(), None);
    match got {
        Some(ArtSource::Url(url)) => assert_eq!(url, YT_THUMB),
        other => panic!("expected inferred YouTube URL, got {other:?}"),
    }
}

#[test]
fn no_art_url_no_xesam_with_embedded_returns_bytes() {
    let bytes = vec![1u8, 2, 3, 4];
    let got = select_art_source(None, None, Some(bytes.clone()));
    match got {
        Some(ArtSource::Bytes(b)) => assert_eq!(b, bytes),
        other => panic!("expected embedded bytes, got {other:?}"),
    }
}

#[test]
fn data_art_url_without_inference_falls_back_to_base64() {
    let data_uri = "data:image/png;base64,iVBORw0KGgo=";
    let got = select_art_source(Some(data_uri), None, None);
    match got {
        Some(ArtSource::Base64(payload)) => assert_eq!(payload, "iVBORw0KGgo="),
        other => panic!("expected base64 source, got {other:?}"),
    }
}

#[test]
fn all_inputs_empty_returns_none() {
    assert!(select_art_source(None, None, None).is_none());
}

#[test]
fn youtube_watch_url_yields_thumbnail() {
    let got = infer_art_url_from_url("https://www.youtube.com/watch?v=dQw4w9WgXcQ");
    assert_eq!(got.as_deref(), Some("https://i.ytimg.com/vi/dQw4w9WgXcQ/hqdefault.jpg"));
}

#[test]
fn youtube_music_watch_url_yields_thumbnail() {
    let got = infer_art_url_from_url("https://music.youtube.com/watch?v=abcDEF12345&list=foo");
    assert_eq!(got.as_deref(), Some("https://i.ytimg.com/vi/abcDEF12345/hqdefault.jpg"));
}

#[test]
fn youtu_be_short_url_yields_thumbnail() {
    let got = infer_art_url_from_url("https://youtu.be/dQw4w9WgXcQ?t=42");
    assert_eq!(got.as_deref(), Some("https://i.ytimg.com/vi/dQw4w9WgXcQ/hqdefault.jpg"));
}

#[test]
fn youtube_shorts_url_yields_thumbnail() {
    let got = infer_art_url_from_url("https://www.youtube.com/shorts/abc_def-123");
    assert_eq!(got.as_deref(), Some("https://i.ytimg.com/vi/abc_def-123/hqdefault.jpg"));
}

#[test]
fn youtube_embed_and_live_urls_yield_thumbnail() {
    assert_eq!(
        infer_art_url_from_url("https://www.youtube.com/embed/dQw4w9WgXcQ").as_deref(),
        Some("https://i.ytimg.com/vi/dQw4w9WgXcQ/hqdefault.jpg")
    );
    assert_eq!(
        infer_art_url_from_url("https://www.youtube.com/live/dQw4w9WgXcQ").as_deref(),
        Some("https://i.ytimg.com/vi/dQw4w9WgXcQ/hqdefault.jpg")
    );
}

#[test]
fn youtube_nocookie_embed_url_yields_thumbnail() {
    let got = infer_art_url_from_url("https://www.youtube-nocookie.com/embed/dQw4w9WgXcQ?rel=0");
    assert_eq!(got.as_deref(), Some("https://i.ytimg.com/vi/dQw4w9WgXcQ/hqdefault.jpg"));
}

#[test]
fn unrecognized_host_returns_none() {
    assert!(infer_art_url_from_url("https://soundcloud.com/foo/bar").is_none());
    assert!(infer_art_url_from_url("https://example.com/watch?v=dQw4w9WgXcQ").is_none());
}

#[test]
fn youtube_homepage_returns_none() {
    assert!(infer_art_url_from_url("https://www.youtube.com/").is_none());
    assert!(infer_art_url_from_url("https://www.youtube.com/feed/subscriptions").is_none());
}

#[test]
fn non_http_scheme_returns_none() {
    assert!(infer_art_url_from_url("file:///tmp/song.mp3").is_none());
    assert!(infer_art_url_from_url("spotify:track:xyz").is_none());
}

#[test]
fn malformed_video_id_returns_none() {
    assert!(infer_art_url_from_url("https://www.youtube.com/watch?v=").is_none());
    assert!(infer_art_url_from_url("https://youtu.be/").is_none());
}

#[test]
fn video_id_stops_at_first_foreign_character_and_is_capped() {
    assert_eq!(
        infer_art_url_from_url("https://YOUTU.BE/abc.def").as_deref(),
        Some("https://i.ytimg.com/vi/abc/hqdefault.jpg")
    );
    let long = format!("https://www.youtube.com/watch?v={}", "a".repeat(33));
    assert!(infer_art_url_from_url(&long).is_none());
    let exact = format!("https://www.youtube.com/v/{}", "b".repeat(32));
    assert_eq!(
        infer_art_url_from_url(&exact),
        Some(format!("https://i.ytimg.com/vi/{}/hqdefault.jpg", "b".repeat(32)))
    );
}

#[test]
fn art_options_gate_inputs() {
    let both = ArtSourceOptions::default();
    let got = art_source_with_options(both, Some(PLASMA_FILE), Some(YT_URL), None);
    assert!(matches!(got, Some(ArtSource::Url(u)) if u == YT_THUMB));
    let no_infer = ArtSourceOptions { allow_inferred_url: false, allow_mpris_art_url: true };
    let got = art_source_with_options(no_infer, Some(PLASMA_FILE), Some(YT_URL), None);
    assert!(matches!(got, Some(ArtSource::File(_))));
    let none = ArtSourceOptions { allow_inferred_url: false, allow_mpris_art_url: false };
    let got = art_source_with_options(none, Some(PLASMA_FILE), Some(YT_URL), Some(vec![7]));
    assert!(matches!(got, Some(ArtSource::Bytes(b)) if b == vec![7]));
    assert!(is_http_art_url("http://x"));
    assert!(!is_http_art_url("file:///x"));
}

#[test]
fn page_url_and_artists_fallbacks() {
    assert_eq!(effective_url(Some("".to_string()), Some("p".to_string())), Some("p".to_string()));
    assert_eq!(effective_url(Some("o".to_string()), Some("p".to_string())), Some("o".to_string()));
    assert_eq!(effective_url(None, None), None);
    assert_eq!(artists_from(None, Some("Solo".to_string())), Some(vec!["Solo".to_string()]));
    assert_eq!(
        artists_from(Some(vec!["A".to_string()]), Some("Solo".to_string())),
        Some(vec!["A".to_string()])
    );
}

#[test]
fn metadata_cache_key_adds_art_url() {
    let f = KeyFields {
        title: Some("Song".to_string()),
        artists: None,
        album: None,
        album_artists: None,
        url: None,
        track_id: None,
    };
    let expected = blake3::hash(b"title:Song||art_url:file:///a.png").to_hex().to_string();
    assert_eq!(generate_cache_key(&f, Some("file:///a.png")), expected);
    let empty = KeyFields { title: None, artists: None, album: None, album_artists: None, url: None, track_id: None };
    let default_key = blake3::hash(b"default_mprisence_key").to_hex().to_string();
    assert_eq!(generate_cache_key(&empty, Some("")), default_key);
}
