use mprisence::grouping::{
    compute_presence_migrations, compute_url_merges, BucketSummary, GroupSnapshot,
    PresenceDrop, PresenceMigration,
};

fn snap(norm_id: &str, richness: u8, urls: &[&str]) -> GroupSnapshot {
    GroupSnapshot {
        norm_id: norm_id.to_string(),
        max_richness: richness,
        urls: urls.iter().map(|s| (*s).to_string()).collect(),
    }
}

#[test]
fn merge_target_is_richer_group_regardless_of_input_order() {
    let firefox = snap("mozilla_zen", 3, &["https://youtube.com/watch?v=x"]);
    let plasma = snap("zen_browser", 6, &["https://youtube.com/watch?v=x"]);

    let order1 = compute_url_merges(&vec![firefox.clone(), plasma.clone()]);
    let order2 = compute_url_merges(&vec![plasma, firefox]);

    assert_eq!(order1, order2);
    assert_eq!(order1.len(), 1);
    let (from, into) = &order1[0];
    assert_eq!(into.as_str(), "zen_browser");
    assert_eq!(from.as_str(), "mozilla_zen");
}

#[test]
fn merge_target_breaks_ties_alphabetically() {
    let a = snap("mozilla_zen", 5, &["https://example.com/"]);
    let b = snap("zen_browser", 5, &["https://example.com/"]);

    let merges = compute_url_merges(&vec![a.clone(), b.clone()]);
    assert_eq!(merges.len(), 1);
    assert_eq!(merges[0].1.as_str(), "mozilla_zen");
    assert_eq!(merges[0].0.as_str(), "zen_browser");

    let merges_rev = compute_url_merges(&vec![b, a]);
    assert_eq!(merges, merges_rev);
}

#[test]
fn no_merge_when_urls_differ() {
    let a = snap("a", 5, &["https://example.com/one"]);
    let b = snap("b", 5, &["https://example.com/two"]);
    assert!(compute_url_merges(&vec![a, b]).is_empty());
}

#[test]
fn empty_url_is_ignored() {
    let a = snap("a", 5, &["", "https://shared/"]);
    let b = snap("b", 5, &["https://shared/"]);
    let merges = compute_url_merges(&vec![a, b]);
    assert_eq!(merges.len(), 1);
    assert_eq!(merges[0].1.as_str(), "a");
}

#[test]
fn single_group_produces_no_merge() {
    let a = snap("a", 5, &["https://example.com/"]);
    assert!(compute_url_merges(&vec![a]).is_empty());
}

#[test]
fn origin_only_merges_with_specific_url_rich_origin_first() {
    let plasma = snap("zen_browser", 6, &["https://www.youtube.com/"]);
    let firefox = snap("mozilla_zen", 3, &["https://www.youtube.com/watch?v=abc"]);

    let order1 = compute_url_merges(&vec![plasma.clone(), firefox.clone()]);
    let order2 = compute_url_merges(&vec![firefox, plasma]);

    assert_eq!(order1, order2);
    assert_eq!(order1.len(), 1);
    assert_eq!(order1[0].1.as_str(), "zen_browser");
    assert_eq!(order1[0].0.as_str(), "mozilla_zen");
}

#[test]
fn origin_only_merges_with_specific_url_rich_specific_first() {
    let firefox = snap("mozilla_zen", 6, &["https://www.youtube.com/watch?v=abc"]);
    let plasma = snap("zen_browser", 3, &["https://www.youtube.com/"]);

    let order1 = compute_url_merges(&vec![firefox.clone(), plasma.clone()]);
    let order2 = compute_url_merges(&vec![plasma, firefox]);

    assert_eq!(order1, order2);
    assert_eq!(order1.len(), 1);
    assert_eq!(order1[0].1.as_str(), "mozilla_zen");
    assert_eq!(order1[0].0.as_str(), "zen_browser");
}

#[test]
fn two_specific_urls_same_origin_no_merge() {
    let a = snap("a", 5, &["https://www.youtube.com/watch?v=aaa"]);
    let b = snap("b", 5, &["https://www.youtube.com/watch?v=bbb"]);
    assert!(compute_url_merges(&vec![a, b]).is_empty());
}

#[test]
fn two_origin_only_groups_merge_into_the_first() {
    let a = snap("a", 5, &["https://site.example"]);
    let b = snap("b", 4, &["https://site.example/"]);
    let merges = compute_url_merges(&vec![b, a]);
    assert_eq!(merges, vec![("b".to_string(), "a".to_string())]);
}

#[test]
fn same_group_repeating_an_address_is_not_merged() {
    let a = snap("a", 5, &["https://x.example/p", "https://x.example/p"]);
    assert!(compute_url_merges(&vec![a]).is_empty());
}

fn bucket(norm_id: &str, buses: &[&str], winner: &str) -> BucketSummary {
    BucketSummary {
        norm_id: norm_id.to_string(),
        bus_names: buses.iter().map(|b| b.to_string()).collect(),
        winner_bus: winner.to_string(),
    }
}

fn existing_from(pairs: &[(&str, &str)]) -> Vec<(String, String)> {
    pairs.iter().map(|(k, v)| (k.to_string(), v.to_string())).collect()
}

#[test]
fn migration_coalesce_renames_old_key() {
    let existing = existing_from(&[("mozilla_zen", "firefox")]);
    let buckets = vec![bucket(
        "zen_browser",
        &["firefox", "plasma-browser-integration"],
        "plasma-browser-integration",
    )];

    let (migrations, drops) = compute_presence_migrations(&existing, &buckets);

    assert_eq!(
        migrations,
        vec![PresenceMigration { from_key: "mozilla_zen".to_string(), to_key: "zen_browser".to_string() }]
    );
    assert!(drops.is_empty());
}

#[test]
fn migration_split_renames_old_key() {
    let existing = existing_from(&[("zen_browser", "firefox")]);
    let buckets = vec![bucket("mozilla_zen", &["firefox"], "firefox")];

    let (migrations, drops) = compute_presence_migrations(&existing, &buckets);

    assert_eq!(
        migrations,
        vec![PresenceMigration { from_key: "zen_browser".to_string(), to_key: "mozilla_zen".to_string() }]
    );
    assert!(drops.is_empty());
}

#[test]
fn migration_no_change_when_key_already_correct() {
    let existing = existing_from(&[("zen_browser", "plasma-browser-integration")]);
    let buckets = vec![bucket(
        "zen_browser",
        &["firefox", "plasma-browser-integration"],
        "plasma-browser-integration",
    )];

    let (migrations, drops) = compute_presence_migrations(&existing, &buckets);

    assert!(migrations.is_empty());
    assert!(drops.is_empty());
}

#[test]
fn migration_double_match_prefers_winner_bus() {
    let existing = existing_from(&[
        ("mozilla_zen", "firefox"),
        ("zen_browser", "plasma-browser-integration"),
    ]);
    let buckets = vec![bucket(
        "zen_browser",
        &["firefox", "plasma-browser-integration"],
        "plasma-browser-integration",
    )];

    let (migrations, drops) = compute_presence_migrations(&existing, &buckets);

    assert!(migrations.is_empty());
    assert_eq!(
        drops,
        vec![PresenceDrop { key: "mozilla_zen".to_string(), superseded_by: "zen_browser".to_string() }]
    );
}

#[test]
fn migration_double_match_alphabetical_when_neither_is_winner() {
    let existing = existing_from(&[("zoo", "a"), ("abc", "b")]);
    let buckets = vec![bucket("youtube_app", &["a", "b"], "c")];

    let (migrations, drops) = compute_presence_migrations(&existing, &buckets);

    assert_eq!(
        migrations,
        vec![PresenceMigration { from_key: "abc".to_string(), to_key: "youtube_app".to_string() }]
    );
    assert_eq!(
        drops,
        vec![PresenceDrop { key: "zoo".to_string(), superseded_by: "abc".to_string() }]
    );
}

#[test]
fn migration_unrelated_presence_not_migrated() {
    let existing = existing_from(&[
        ("zen_browser", "plasma-browser-integration"),
        ("firefox", "plasma-browser-integration-1285737"),
    ]);
    let buckets = vec![
        bucket(
            "zen_browser",
            &["firefox", "plasma-browser-integration"],
            "plasma-browser-integration",
        ),
        bucket(
            "firefox",
            &["firefox", "plasma-browser-integration-1285737"],
            "plasma-browser-integration-1285737",
        ),
    ];

    let (migrations, drops) = compute_presence_migrations(&existing, &buckets);

    assert!(migrations.is_empty());
    assert!(drops.is_empty());
}

#[test]
fn migration_orders_drops_by_rank() {
    let existing = existing_from(&[("k3", "a"), ("k1", "b"), ("k2", "w")]);
    let buckets = vec![bucket("group", &["a", "b", "w"], "w")];
    let (migrations, drops) = compute_presence_migrations(&existing, &buckets);
    assert_eq!(
        migrations,
        vec![PresenceMigration { from_key: "k2".to_string(), to_key: "group".to_string() }]
    );
    assert_eq!(
        drops,
        vec![
            PresenceDrop { key: "k1".to_string(), superseded_by: "k2".to_string() },
            PresenceDrop { key: "k3".to_string(), superseded_by: "k2".to_string() },
        ]
    );
}
