use mprisence::cover::art::ArtSource;
use mprisence::cover::lookup::{CoverLookup, LookupAction, LookupEvent};
use mprisence::cover::manager::ProviderKind;
use mprisence::cover::providers::CoverResult;

fn result(url: &str, provider: &str) -> CoverResult {
    CoverResult { url: url.to_string(), provider: provider.to_string(), expiration: Some(60) }
}

#[test]
fn fresh_cache_entry_is_served_without_a_check() {
    let l = CoverLookup::new(vec![ProviderKind::Catbox], None, None);
    let (l, a) = l.step(LookupEvent::Start);
    assert!(matches!(a, LookupAction::ReadCache));
    let (_, a) = l.step(LookupEvent::CacheEntry(Some(("https://c/x.png".to_string(), false))));
    match a {
        LookupAction::ServeCached { url, refresh_validated } => {
            assert_eq!(url, "https://c/x.png");
            assert!(!refresh_validated);
        },
        _ => panic!("expected the cached URL"),
    }
}

#[test]
fn failed_cache_check_sends_recovered_bytes_to_providers() {
    let l = CoverLookup::new(vec![ProviderKind::Musicbrainz, ProviderKind::Catbox], None, None);
    let (l, _) = l.step(LookupEvent::Start);
    let (l, a) = l.step(LookupEvent::CacheEntry(Some(("https://c/x.png".to_string(), true))));
    assert!(matches!(a, LookupAction::CheckUrl(ref u) if u == "https://c/x.png"));
    let (l, a) = l.step(LookupEvent::UrlChecked(false));
    assert!(matches!(a, LookupAction::DiscardCached));
    let (l, a) = l.step(LookupEvent::BytesRecovered(Some(vec![1, 2, 3])));
    match a {
        LookupAction::AskProvider { index, source: ArtSource::Bytes(b) } => {
            assert_eq!(index, 0);
            assert_eq!(b, vec![1, 2, 3]);
        },
        _ => panic!("expected the first provider"),
    }
    let (l, a) = l.step(LookupEvent::ProviderAnswered(None));
    assert!(matches!(a, LookupAction::AskProvider { index: 1, .. }));
    let (l, a) = l.step(LookupEvent::ProviderAnswered(Some(result("https://files.catbox.moe/a.png", "catbox"))));
    assert!(matches!(a, LookupAction::CheckUrl(ref u) if u == "https://files.catbox.moe/a.png"));
    let (_, a) = l.step(LookupEvent::UrlChecked(true));
    match a {
        LookupAction::StoreAndServe { provider, url, expiration, payload_source } => {
            assert_eq!(provider.as_deref(), Some("catbox"));
            assert_eq!(url, "https://files.catbox.moe/a.png");
            assert_eq!(expiration, Some(60));
            assert!(matches!(payload_source, Some(ArtSource::Bytes(_))));
        },
        _ => panic!("expected the provider's URL"),
    }
}

#[test]
fn public_direct_url_is_used_once_it_checks_out() {
    let src = Some(ArtSource::Url("https://cdn.example.com/c.jpg".to_string()));
    let l = CoverLookup::new(vec![ProviderKind::Catbox], src, None);
    let (l, _) = l.step(LookupEvent::Start);
    let (l, a) = l.step(LookupEvent::CacheEntry(None));
    assert!(matches!(a, LookupAction::CheckUrl(ref u) if u == "https://cdn.example.com/c.jpg"));
    let (_, a) = l.step(LookupEvent::UrlChecked(true));
    assert!(matches!(a, LookupAction::StoreAndServe { provider: None, .. }));
}

#[test]
fn private_url_is_fetched_and_local_art_tried_first() {
    let src = Some(ArtSource::Url("http://127.0.0.1:8000/art.png".to_string()));
    let l = CoverLookup::new(vec![ProviderKind::Catbox], src, Some("/music/album".to_string()));
    let (l, _) = l.step(LookupEvent::Start);
    let (l, a) = l.step(LookupEvent::CacheEntry(None));
    assert!(matches!(a, LookupAction::FetchBytes(ref u) if u == "http://127.0.0.1:8000/art.png"));
    let (l, a) = l.step(LookupEvent::PrivateFetched(Some(vec![9])));
    assert!(matches!(a, LookupAction::SearchLocal(ref d) if d == "/music/album"));
    let (l, a) = l.step(LookupEvent::LocalSearched(Some(ArtSource::File("/music/album/cover.jpg".to_string()))));
    assert!(matches!(a, LookupAction::AskProvider { index: 0, source: ArtSource::File(_) }));
    let (l, _) = l.step(LookupEvent::ProviderAnswered(Some(result("https://x/1.png", "catbox"))));
    let (l, a) = l.step(LookupEvent::UrlChecked(false));
    match a {
        LookupAction::AskProvider { index, source: ArtSource::Bytes(b) } => {
            assert_eq!(index, 0);
            assert_eq!(b, vec![9]);
        },
        _ => panic!("expected the fetched bytes to go to the providers"),
    }
    let (_, a) = l.step(LookupEvent::ProviderAnswered(None));
    assert!(matches!(a, LookupAction::GiveUp));
}

#[test]
fn no_source_and_no_local_file_gives_up() {
    let l = CoverLookup::new(vec![ProviderKind::Musicbrainz], None, None);
    let (l, _) = l.step(LookupEvent::Start);
    let (l, a) = l.step(LookupEvent::CacheEntry(None));
    assert!(matches!(a, LookupAction::GiveUp));
    let (_, a) = l.step(LookupEvent::UrlChecked(true));
    assert!(matches!(a, LookupAction::Ignore));
}
