use mprisence::cover::provider::is_legacy_picture_file;
use mprisence::cover::provider::release_matches;
use mprisence::cover::manager::is_local_cover_file;
use mprisence::cover::provider::CoverURLFinder;
use base64::Engine;
use mprisence::config::{CatboxConfig, ImgBBConfig};
use mprisence::cover::art::{content_key_exec, ArtSource, CoverArtError};
use mprisence::cover::cache::{
    clean_action, data_file_name, effective_ttl, generate_key, is_expired, needs_validation,
    payload_fits, recalculate_usage, CacheFile, CacheUsage, CleanAction, Eviction, KeyFields,
    ListedFile,
};
use mprisence::cover::manager::{
    cached_decision, check_outcome, configured_providers, direct_step, is_local_or_private_url,
    local_track_path, needs_http_check, next_provider, provider_source, CachedDecision, DirectStep,
    ProviderKind,
};
use mprisence::cover::provider::{
    all_artists, cache_key_text, lookup_cache_key, lookup_plan, release_front_cover_url,
    release_lookup_url, release_search_url, recording_search_url, releases_from_recordings,
    split_artist_names, split_on_text, ArtistCredit, Provider, Query, RecordingSearch,
    RecordingSearchReponse, ReleaseSearch,
};
use mprisence::cover::providers::{
    album_sources, build_album_query, build_search_url, build_track_query, cover_art_urls,
    plan_search, size_attempt_ends, track_sources, CatboxProvider, FetchOutcome, ImgbbProvider,
    ScoredId, ScoredRecording, ScoredRelease,
};

fn strings(v: &[&str]) -> Vec<String> {
    v.iter().map(|s| s.to_string()).collect()
}

#[test]
fn identical_content_has_same_cache_key_across_source_types() {
    let bytes = b"identical album cover".to_vec();
    let bytes_key = ArtSource::Bytes(bytes.clone()).cache_key(None).unwrap();
    let file_key = ArtSource::File("/tmp/cover.jpg".to_string())
        .cache_key(Some(&bytes))
        .unwrap();
    let encoded = base64::engine::general_purpose::STANDARD.encode(&bytes);
    let base64_key = ArtSource::Base64(encoded).cache_key(None).unwrap();
    assert_eq!(bytes_key, file_key);
    assert_eq!(bytes_key, base64_key);
}

#[test]
fn different_content_has_different_cache_keys() {
    let first = ArtSource::Bytes(b"first".to_vec()).cache_key(None).unwrap();
    let second = ArtSource::Bytes(b"second".to_vec()).cache_key(None).unwrap();
    assert_ne!(first, second);
}

#[test]
fn url_cache_keys_are_separate_from_content_keys() {
    let url = ArtSource::Url("https://cdn.example.com/cover.jpg".to_string())
        .cache_key(None)
        .unwrap();
    let content = ArtSource::Bytes(b"https://cdn.example.com/cover.jpg".to_vec())
        .cache_key(None)
        .unwrap();
    assert_ne!(url, content);
}

#[test]
fn content_key_is_blake3_of_prefixed_bytes() {
    let mut data = b"mprisence-cover-content-v1\0".to_vec();
    data.extend_from_slice(b"abc");
    let expected = blake3::hash(&data).to_hex().to_string();
    assert_eq!(content_key_exec(b"abc"), expected);
    let mut url_data = b"mprisence-cover-url-v1\0".to_vec();
    url_data.extend_from_slice(b"https://a.b/c.png");
    let url_expected = blake3::hash(&url_data).to_hex().to_string();
    let got = ArtSource::Url("https://a.b/c.png".to_string()).cache_key(None).unwrap();
    assert_eq!(got, url_expected);
}

#[test]
fn invalid_base64_has_no_cache_key() {
    let r = ArtSource::Base64("***".to_string()).cache_key(None);
    assert_eq!(r, Err(CoverArtError::InvalidBase64));
    let f = ArtSource::File("/x".to_string()).cache_key(None);
    assert!(matches!(f, Err(CoverArtError::Other(_))));
}

#[test]
fn art_url_kinds() {
    match ArtSource::from_art_url("data:image/png;base64,QUJD") {
        Some(ArtSource::Base64(d)) => assert_eq!(d, "QUJD"),
        other => panic!("unexpected {:?}", other),
    }
    match ArtSource::from_art_url("https://x.y/a.jpg") {
        Some(ArtSource::Url(u)) => assert_eq!(u, "https://x.y/a.jpg"),
        other => panic!("unexpected {:?}", other),
    }
    match ArtSource::from_art_url("file:///music/My%20Album/cover.jpg") {
        Some(ArtSource::File(p)) => assert_eq!(p, "/music/My Album/cover.jpg"),
        other => panic!("unexpected {:?}", other),
    }
    match ArtSource::from_art_url("/music/cover.jpg") {
        Some(ArtSource::File(p)) => assert_eq!(p, "/music/cover.jpg"),
        other => panic!("unexpected {:?}", other),
    }
    let inline = ArtSource::Base64("QUJD".to_string()).inline_bytes().unwrap();
    assert_eq!(inline, b"ABC".to_vec());
}

#[test]
fn cache_small_rules() {
    assert_eq!(data_file_name("abc"), "abc.bin");
    assert!(!payload_fits(0));
    assert!(payload_fits(8 * 1024 * 1024));
    assert!(!payload_fits(8 * 1024 * 1024 + 1));
    assert_eq!(effective_ttl(Some(10), 100), 10);
    assert_eq!(effective_ttl(Some(1000), 100), 100);
    assert_eq!(effective_ttl(None, 100), 100);
    assert!(is_expired(11, 10));
    assert!(!is_expired(10, 10));
    assert!(needs_validation(None));
    assert!(needs_validation(Some(3600)));
    assert!(!needs_validation(Some(3599)));
}

#[test]
fn cache_usage_saturates() {
    let mut u = CacheUsage::new();
    u.adjust(2, 100);
    assert_eq!(u, CacheUsage { entries: 2, bytes: 100 });
    u.adjust(-5, -1000);
    assert_eq!(u, CacheUsage { entries: 0, bytes: 0 });
    u.after_write(false, 0, 40);
    assert_eq!(u, CacheUsage { entries: 1, bytes: 40 });
    u.after_write(true, 40, 10);
    assert_eq!(u, CacheUsage { entries: 1, bytes: 10 });
    assert!(!u.exceeds_limits());
    let big = CacheUsage { entries: 1025, bytes: 0 };
    assert!(big.exceeds_limits());
}

#[test]
fn usage_recount_counts_entries_and_orphans() {
    let files = vec![
        ListedFile { is_payload: false, has_entry: false, len: 10, payload_len: Some(100) },
        ListedFile { is_payload: true, has_entry: true, len: 100, payload_len: None },
        ListedFile { is_payload: true, has_entry: false, len: 7, payload_len: None },
    ];
    let u = recalculate_usage(&files);
    assert_eq!(u, CacheUsage { entries: 1, bytes: 117 });
}

#[test]
fn cleanup_actions() {
    assert_eq!(clean_action(true, true, true, None, 0), CleanAction::Keep);
    assert_eq!(clean_action(true, false, true, None, 0), CleanAction::RemoveOrphanPayload);
    assert_eq!(clean_action(false, false, false, None, 0), CleanAction::Keep);
    assert_eq!(clean_action(false, false, true, None, 0), CleanAction::RemoveEntry);
    assert_eq!(clean_action(false, false, true, Some(5), 6), CleanAction::RemoveEntry);
    assert_eq!(clean_action(false, false, true, Some(5), 5), CleanAction::Keep);
}

#[test]
fn eviction_goes_oldest_first() {
    let small = vec![CacheFile { path: "a".to_string(), modified: 1, len: 1 }];
    assert!(Eviction::plan(small).is_none());
    let files = vec![
        CacheFile { path: "new".to_string(), modified: 30, len: 20 * 1024 * 1024 },
        CacheFile { path: "old".to_string(), modified: 10, len: 20 * 1024 * 1024 },
        CacheFile { path: "mid".to_string(), modified: 20, len: 1 },
    ];
    let mut e = Eviction::plan(files).unwrap();
    assert!(e.must_evict());
    assert_eq!(e.next_victim().unwrap().path, "old");
    e.record_removal(true);
    assert_eq!(e.total, 20 * 1024 * 1024 + 1);
    assert!(!e.must_evict());
    assert_eq!(e.next_victim().unwrap().path, "mid");
}

#[test]
fn track_key_sorts_artists_and_hashes_components() {
    let f = KeyFields {
        title: Some("Song".to_string()),
        artists: Some(strings(&["b", "a"])),
        album: Some("LP".to_string()),
        album_artists: Some(strings(&["b", "a"])),
        url: None,
        track_id: Some("".to_string()),
    };
    let expected = blake3::hash(b"title:Song||artists:a|b||album:LP").to_hex().to_string();
    assert_eq!(generate_key(&f), expected);
    let empty = KeyFields { title: None, artists: None, album: None, album_artists: None, url: None, track_id: None };
    let default_key = blake3::hash(b"default_mprisence_key").to_hex().to_string();
    assert_eq!(generate_key(&empty), default_key);
}

#[test]
fn providers_from_names() {
    let names = strings(&["musicbrainz", "imgbb", "catbox", "other"]);
    assert_eq!(
        configured_providers(&names, false),
        vec![ProviderKind::Musicbrainz, ProviderKind::Catbox]
    );
    assert_eq!(
        configured_providers(&names, true),
        vec![ProviderKind::Musicbrainz, ProviderKind::Imgbb, ProviderKind::Catbox]
    );
    let kinds = vec![ProviderKind::Catbox, ProviderKind::Musicbrainz];
    let url = ArtSource::Url("https://x/y.png".to_string());
    assert_eq!(next_provider(&kinds, 0, &url), Some(1));
    let bytes = ArtSource::Bytes(vec![1, 2]);
    assert_eq!(next_provider(&kinds, 0, &bytes), Some(0));
    assert_eq!(next_provider(&kinds, 2, &bytes), None);
}

#[test]
fn local_and_private_urls() {
    assert!(is_local_or_private_url("http://localhost:8080/a.png"));
    assert!(is_local_or_private_url("http://art.localhost/a.png"));
    assert!(is_local_or_private_url("http://127.0.0.1/a.png"));
    assert!(is_local_or_private_url("http://192.168.1.20/a.png"));
    assert!(is_local_or_private_url("http://172.16.0.1/a.png"));
    assert!(!is_local_or_private_url("http://172.32.0.1/a.png"));
    assert!(is_local_or_private_url("http://[::1]/a.png"));
    assert!(is_local_or_private_url("http://[fd00::1]/a.png"));
    assert!(!is_local_or_private_url("https://i.ytimg.com/vi/x/hqdefault.jpg"));
    assert!(!is_local_or_private_url("not a url"));
}

#[test]
fn cached_and_direct_decisions() {
    assert_eq!(cached_decision(false, false), CachedDecision::Serve { refresh_validated: false });
    assert_eq!(cached_decision(true, true), CachedDecision::Serve { refresh_validated: true });
    assert_eq!(cached_decision(true, false), CachedDecision::Discard);
    assert!(needs_http_check("https://a/b"));
    assert!(!needs_http_check("file:///a"));
    assert!(check_outcome(Some(405), Some(200)));
    assert!(check_outcome(Some(204), None));
    assert!(!check_outcome(Some(404), None));
    assert!(!check_outcome(None, None));
    let local = Some(ArtSource::Url("http://10.0.0.2/x.png".to_string()));
    assert_eq!(direct_step(&local), DirectStep::FetchPrivate("http://10.0.0.2/x.png".to_string()));
    let public = Some(ArtSource::Url("https://example.com/x.png".to_string()));
    assert_eq!(direct_step(&public), DirectStep::CheckDirect("https://example.com/x.png".to_string()));
    assert_eq!(direct_step(&None), DirectStep::NotUrl);
    match provider_source(Some(vec![9]), &public) {
        Some(ArtSource::Bytes(b)) => assert_eq!(b, vec![9]),
        other => panic!("unexpected {:?}", other),
    }
    assert!(provider_source(None, &None).is_none());
    assert_eq!(local_track_path("file:///a%20b/c.mp3"), Some("/a b/c.mp3".to_string()));
    assert_eq!(local_track_path("https://a/b"), None);
}

#[test]
fn catbox_settings_and_response_checks() {
    let mut cfg = CatboxConfig::default();
    cfg.use_litter = true;
    cfg.litter_hours = 5;
    let p = CatboxProvider::with_config(cfg);
    assert_eq!(p.provider_label(), "litterbox");
    assert_eq!(p.litter_time(), 24);
    assert_eq!(p.expiration(), Some(24 * 3600));
    assert!(CatboxProvider::validate_upload_response("catbox", "  https://files.catbox.moe/a.png \n").is_ok());
    assert_eq!(
        CatboxProvider::validate_upload_response("catbox", "   "),
        Err("catbox: upload returned empty body".to_string())
    );
    assert_eq!(
        CatboxProvider::validate_upload_response("catbox", "oops"),
        Err("catbox: upload returned non-URL response: 'oops'".to_string())
    );
    let long = "x".repeat(600);
    assert_eq!(
        CatboxProvider::validate_upload_response("litterbox", &long),
        Err("litterbox: upload returned non-URL payload (600 bytes); likely an HTML error page".to_string())
    );
    assert!(CatboxProvider::needs_resize_check(262145));
    assert!(!CatboxProvider::needs_resize_check(262144));
}

#[test]
fn imgbb_names_and_urls() {
    assert_eq!(ImgbbProvider::generate_image_name(Some("A"), Some("T")), "A - T");
    assert_eq!(ImgbbProvider::generate_image_name(None, Some("T")), "T");
    assert_eq!(ImgbbProvider::generate_image_name(Some("A"), Some("")), "A");
    assert_eq!(ImgbbProvider::generate_image_name(None, None), "mprisence_cover");
    let cfg = ImgBBConfig { api_key: Some("k".to_string()), expiration: 0 };
    let p = ImgbbProvider::with_config(cfg);
    assert_eq!(p.expiration(), None);
    assert_eq!(
        ImgbbProvider::hosted_url(None, Some("https://d".to_string())),
        Some("https://d".to_string())
    );
}

#[test]
fn musicbrainz_queries_and_urls() {
    let artists = strings(&["Daft Punk", "Other"]);
    assert_eq!(build_album_query("Discovery", &artists), "release-group:Discovery AND artist:Daft Punk");
    assert_eq!(build_album_query("Discovery", &vec![]), "release-group:Discovery");
    assert_eq!(
        build_track_query("One More Time", &artists, Some(320000)),
        "recording:One More Time AND artist:Daft Punk AND dur:[317000 TO 323000]"
    );
    assert_eq!(build_track_query("X", &vec![], Some(1000)), "recording:X AND dur:[0 TO 4000]");
    assert_eq!(
        build_search_url("release", "a b"),
        "https://musicbrainz.org/ws/2/release?query=a%20b&limit=5&fmt=json"
    );
    assert_eq!(
        cover_art_urls("release", "id1"),
        strings(&[
            "https://coverartarchive.org/release/id1/front-500",
            "https://coverartarchive.org/release/id1/front-250",
            "https://coverartarchive.org/release/id1/front-1200",
        ])
    );
    assert!(size_attempt_ends(FetchOutcome::Found));
    assert!(size_attempt_ends(FetchOutcome::TimedOut));
    assert!(!size_attempt_ends(FetchOutcome::NotFound));
}

#[test]
fn musicbrainz_candidates_respect_score() {
    let groups = vec![ScoredId { id: "g1".to_string(), score: 95 }, ScoredId { id: "g2".to_string(), score: 10 }];
    let releases = vec![ScoredId { id: "r1".to_string(), score: 90 }];
    let got = album_sources(&groups, &releases, 90);
    assert_eq!(
        got,
        vec![("release-group".to_string(), "g1".to_string()), ("release".to_string(), "r1".to_string())]
    );
    let recs = vec![ScoredRecording {
        id: "rec".to_string(),
        score: 100,
        releases: Some(vec![
            ScoredRelease { id: "a".to_string(), score: 100, group: Some(ScoredId { id: "ga".to_string(), score: 100 }) },
            ScoredRelease { id: "b".to_string(), score: 50, group: None },
            ScoredRelease { id: "c".to_string(), score: 100, group: None },
        ]),
    }];
    let got = track_sources(&recs, 90);
    assert_eq!(
        got,
        vec![("release".to_string(), "a".to_string()), ("release-group".to_string(), "ga".to_string())]
    );
}

#[test]
fn musicbrainz_search_plan() {
    let plan = plan_search(
        Some("rg".to_string()),
        None,
        Some("LP".to_string()),
        Some("Song".to_string()),
        Some(strings(&["A"])),
        Some(vec![]),
        Some(1000),
    );
    assert_eq!(plan.direct, vec![("release-group".to_string(), "rg".to_string())]);
    assert_eq!(plan.album, Some(("LP".to_string(), strings(&["A"]))));
    assert_eq!(plan.track, Some(("Song".to_string(), strings(&["A"]), Some(1000))));
    let none = plan_search(None, None, Some("LP".to_string()), None, None, None, None);
    assert!(none.album.is_none() && none.track.is_none() && none.direct.is_empty());
}

#[test]
fn empty_album_or_title_is_not_searched() {
    let plan = plan_search(
        None,
        None,
        Some(String::new()),
        Some(String::new()),
        Some(strings(&["A"])),
        Some(strings(&["B"])),
        None,
    );
    assert!(plan.album.is_none());
    assert!(plan.track.is_none());
}

#[test]
fn query_text_follows_term_order() {
    let mut q = Query::new();
    q.artist("B").recording("T").release("A");
    assert_eq!(q.build(), "recording:T AND release:A AND artist:B");
    let mut r = Query::new();
    r.release("Album");
    assert_eq!(r.build(), "release:Album");
    assert_eq!(Query::new().build(), "");
}

#[test]
fn text_split_matches_std() {
    for (s, sep) in [("a and b and c", " and "), ("a,,b,", ","), ("", ","), ("and", " and ")] {
        let chars: Vec<char> = s.chars().collect();
        let sep_chars: Vec<char> = sep.chars().collect();
        let got: Vec<String> = split_on_text(&chars, &sep_chars).iter().map(|p| p.iter().collect()).collect();
        let want: Vec<String> = s.split(sep).map(|p| p.to_string()).collect();
        assert_eq!(got, want);
    }
}

#[test]
fn artist_names_are_split_and_unique() {
    let names = split_artist_names(&strings(&["A & B", "C feat. D"]));
    assert_eq!(names, strings(&["A & B", "A", "B", "C feat. D", "C", "D"]));
    let all = all_artists(Some(&names), Some(&strings(&["B", "Z"]))).unwrap();
    assert_eq!(all, strings(&["A", "A & B", "B", "C", "C feat. D", "D", "Z"]));
    assert_eq!(all_artists(None, Some(&strings(&["b", "a", "b"]))), Some(strings(&["a", "b", "b"])));
    assert_eq!(all_artists(None, None), None);
}

#[test]
fn lookup_cache_key_prefers_album_artists() {
    let artists = strings(&["A", "B"]);
    let album_artists = strings(&["V"]);
    assert_eq!(
        cache_key_text(Some("T"), Some("L"), Some(&artists), Some(&album_artists)),
        Some("V-L".to_string())
    );
    assert_eq!(cache_key_text(Some("T"), Some("L"), Some(&artists), None), Some("A, B-L".to_string()));
    assert_eq!(cache_key_text(Some("T"), Some("L"), None, None), Some("T-L".to_string()));
    assert_eq!(cache_key_text(Some("T"), None, Some(&artists), None), Some("A, B-T".to_string()));
    assert_eq!(cache_key_text(Some("T"), None, None, None), None);
    let key = lookup_cache_key(Some("T"), Some("L"), None, None).unwrap();
    assert_eq!(key, sha256::digest("T-L"));
    assert_eq!(key.len(), 64);
}

#[test]
fn lookup_addresses() {
    assert_eq!(
        recording_search_url("recording:x"),
        "https://musicbrainz.org/ws/2/recording/?query=recording:x&fmt=json&limit=5"
    );
    assert_eq!(
        release_search_url("release:y"),
        "https://musicbrainz.org/ws/2/release/?query=release:y&fmt=json&limit=5"
    );
    assert_eq!(release_lookup_url("id9"), "https://musicbrainz.org/ws/2/release/id9?fmt=json");
    assert_eq!(release_front_cover_url("id9"), "https://coverartarchive.org/release/id9/front-250");
}

#[test]
fn recording_releases_take_the_recording_credits() {
    let resp = RecordingSearchReponse {
        recordings: vec![RecordingSearch {
            id: "rec".to_string(),
            title: "T".to_string(),
            artist_credit: vec![ArtistCredit { name: "Singer".to_string() }],
            releases: vec![
                ReleaseSearch { id: "r1".to_string(), title: "L1".to_string(), artist_credit: vec![] },
                ReleaseSearch {
                    id: "r2".to_string(),
                    title: "L2".to_string(),
                    artist_credit: vec![ArtistCredit { name: "Other".to_string() }],
                },
            ],
        }],
    };
    let out = releases_from_recordings(&resp);
    assert_eq!(out.len(), 2);
    assert_eq!(out[0].id, "r1");
    assert_eq!(out[1].title, "L2");
    assert_eq!(out[1].artist_credit.len(), 1);
    assert_eq!(out[1].artist_credit[0].name, "Singer");
}

#[test]
fn lookup_plan_orders_searches() {
    let artists = strings(&["A", "B"]);
    let all = strings(&["A", "B", "V"]);
    let plan = lookup_plan(Some("T"), Some(&artists), Some("L"), Some(&all));
    assert_eq!(
        plan.recording_queries,
        strings(&["recording:T AND release:L AND artist:A", "recording:T AND release:L AND artist:B"])
    );
    assert_eq!(
        plan.release_queries,
        strings(&["release:L AND artist:A", "release:L AND artist:B", "release:L AND artist:V", "release:L"])
    );
    let none = lookup_plan(Some("T"), Some(&artists), None, None);
    assert!(none.recording_queries.is_empty() && none.release_queries.is_empty());
}

#[test]
fn provider_chosen_by_name() {
    match Provider::new("ImgBB", Some("key")) {
        Provider::ImgBB { client } => {
            assert_eq!(client.api_key, "key");
            assert_eq!(client.cache_namespace, "imgbb");
        },
        _ => panic!("expected imgbb"),
    }
    assert!(matches!(Provider::new("imgbb", None), Provider::Unknown));
    assert!(matches!(Provider::new("MusicBrainz", None), Provider::MusicBrainz { .. }));
    assert!(matches!(Provider::new("other", Some("k")), Provider::Unknown));
}

#[test]
fn local_cover_files_match_names_and_image_extensions_ignoring_case() {
    let names = strings(&["cover", "Folder"]);
    assert!(is_local_cover_file("Cover", "JPG", &names));
    assert!(is_local_cover_file("folder", "webp", &names));
    assert!(!is_local_cover_file("cover", "txt", &names));
    assert!(!is_local_cover_file("front", "png", &names));
}

#[test]
fn legacy_finder_uploads_only_to_imgbb() {
    match CoverURLFinder::new("ImgBB", Some("k1")).provider {
        Some(Provider::ImgBB { client }) => assert_eq!(client.api_key, "k1"),
        _ => panic!("expected imgbb"),
    }
    match CoverURLFinder::new("imgbb", None).provider {
        Some(Provider::ImgBB { client }) => assert_eq!(client.api_key, ""),
        _ => panic!("expected imgbb"),
    }
    assert!(CoverURLFinder::new("musicbrainz", Some("k1")).provider.is_none());
    match Provider::new_imgbb("key") {
        Provider::ImgBB { client } => assert_eq!(client.cache_namespace, "imgbb"),
        _ => panic!("expected imgbb"),
    }
}

fn found(title: &str, credits: &[&str]) -> ReleaseSearch {
    ReleaseSearch {
        id: "id".to_string(),
        title: title.to_string(),
        artist_credit: credits.iter().map(|n| ArtistCredit { name: n.to_string() }).collect(),
    }
}

#[test]
fn releases_are_kept_by_title_and_credited_names() {
    let names = strings(&["The Beatles"]);
    let abbey = found("Abbey Road", &["the beatles"]);
    assert!(release_matches(&abbey, Some("Abbey Road Deluxe"), Some(&names), false, &vec![]));
    assert!(!release_matches(&abbey, Some("Let It Be"), Some(&names), false, &vec![]));
    assert!(release_matches(&abbey, Some("Let It Be"), Some(&names), true, &vec![]));
    assert!(!release_matches(&abbey, Some("Abbey Road"), None, true, &vec![]));
    let other = found("Abbey Road", &["Beatles Tribute Band Orchestra"]);
    assert!(!release_matches(&other, None, Some(&strings(&["The Beetles"])), false, &vec![vec![false]]));
    assert!(release_matches(&other, None, Some(&strings(&["The Beetles"])), false, &vec![vec![true]]));
    assert!(release_matches(&found("X", &["Paul McCartney & Wings"]), None, Some(&strings(&["wings"])), false, &vec![]));
}

#[test]
fn covers_larger_than_512_pixels_are_scaled() {
    assert!(CatboxProvider::fits_cover_size(512, 512));
    assert!(CatboxProvider::fits_cover_size(32, 32));
    assert!(!CatboxProvider::fits_cover_size(513, 10));
    assert!(!CatboxProvider::fits_cover_size(10, 1024));
}

#[test]
fn legacy_pictures_match_the_name_before_the_first_dot() {
    let names = strings(&["cover", "folder"]);
    assert!(is_legacy_picture_file("cover.jpg", &names));
    assert!(is_legacy_picture_file("folder.large.png", &names));
    assert!(is_legacy_picture_file("cover", &names));
    assert!(!is_legacy_picture_file("Cover.jpg", &names));
    assert!(!is_legacy_picture_file("album.cover.jpg", &names));
}
