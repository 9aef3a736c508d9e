//! The configuration a user's file describes: each setting it gives, laid
//! over the defaults, with its player and web player entries stored under
//! their config-key form.
use vstd::prelude::*;
use crate::config::{
    views, ActivityType, PlayerConfigLayer, WebPlayerConfigLayer, DEFAULT_ACTIVITY_TYPE, DEFAULT_CATBOX_LITTER_HOURS,
    DEFAULT_CATBOX_USE_LITTER, DEFAULT_COVER_CACHE_MAX_ENTRIES, DEFAULT_COVER_CACHE_MAX_SIZE_MB,
    DEFAULT_COVER_CACHE_TTL_HOURS, DEFAULT_COVER_LOCAL_SEARCH_DEPTH, DEFAULT_EVENT_DRIVEN,
    DEFAULT_FALLBACK_POLL_INTERVAL, DEFAULT_IMGBB_EXPIRATION, DEFAULT_INTERVAL, DEFAULT_MUSICBRAINZ_MIN_SCORE,
    DEFAULT_TEMPLATE_DETAIL, DEFAULT_TEMPLATE_LARGE_TEXT, DEFAULT_TEMPLATE_SMALL_TEXT, DEFAULT_TEMPLATE_STATE,
    DEFAULT_TIME_AS_ELAPSED, DEFAULT_TIME_SHOW, DEFAULT_USE_CONTENT_TYPE, DEFAULT_WEB_PLAYER_ENABLED,
    clone_vec, default_file_names, default_providers, template_from_keys, CoverConfig,
};
use crate::resolve::{
    insert_player_layer, insert_web_layer, keys_of, layer_get, merged_player_entry, merged_web_entry, web_get,
    Config,
};
use crate::text::{clone_opt_string, normalize_identity, normalize_player_identity, opt_view};

verus! {

broadcast use vstd::string::group_string_axioms;

/// The settings a configuration file gives, each as written (`None` where
/// the file leaves it out), and its `[player.*]` and `[web_player.*]`
/// entries in the file's order.
#[derive(Debug, Clone)]
pub struct FileSettings {
    pub interval: Option<u64>,
    pub event_driven: Option<bool>,
    pub fallback_poll_interval: Option<u64>,
    /// The older name of `fallback_poll_interval`.
    pub discovery_interval: Option<u64>,
    pub allowed_players: Option<Vec<String>>,
    pub web_player_enabled: Option<bool>,
    pub clear_on_pause: Option<bool>,
    pub template_details: Option<String>,
    /// The older name of `template_details`.
    pub template_detail: Option<String>,
    pub template_state: Option<String>,
    pub template_large_text: Option<String>,
    pub template_small_text: Option<String>,
    pub time_show: Option<bool>,
    pub time_as_elapsed: Option<bool>,
    pub use_content_type: Option<bool>,
    pub default_activity_type: Option<ActivityType>,
    pub cover_file_names: Option<Vec<String>>,
    pub cover_local_search_depth: Option<usize>,
    pub cache_max_size_mb: Option<u64>,
    pub cache_max_entries: Option<usize>,
    pub cache_ttl_hours: Option<u64>,
    pub cover_providers: Option<Vec<String>>,
    pub imgbb_api_key: Option<String>,
    pub imgbb_expiration: Option<u64>,
    pub musicbrainz_min_score: Option<u8>,
    pub catbox_user_hash: Option<String>,
    pub catbox_use_litter: Option<bool>,
    pub catbox_litter_hours: Option<u8>,
    pub players: Vec<(String, PlayerConfigLayer)>,
    pub web_players: Vec<(String, WebPlayerConfigLayer)>,
}

impl FileSettings {
    /// A file that sets nothing.
    pub fn new() -> (r: Self)
        ensures
            r.interval is None && r.event_driven is None && r.fallback_poll_interval is None,
            r.discovery_interval is None && r.allowed_players is None && r.web_player_enabled is None,
            r.clear_on_pause is None && r.template_details is None && r.template_detail is None,
            r.template_state is None && r.template_large_text is None && r.template_small_text is None,
            r.time_show is None && r.time_as_elapsed is None && r.use_content_type is None,
            r.default_activity_type is None && r.cover_file_names is None && r.cover_local_search_depth is None,
            r.cache_max_size_mb is None && r.cache_max_entries is None && r.cache_ttl_hours is None,
            r.cover_providers is None && r.imgbb_api_key is None && r.imgbb_expiration is None,
            r.musicbrainz_min_score is None && r.catbox_user_hash is None && r.catbox_use_litter is None,
            r.catbox_litter_hours is None && r.players@.len() == 0 && r.web_players@.len() == 0,
    {
        FileSettings {
            interval: None,
            event_driven: None,
            fallback_poll_interval: None,
            discovery_interval: None,
            allowed_players: None,
            web_player_enabled: None,
            clear_on_pause: None,
            template_details: None,
            template_detail: None,
            template_state: None,
            template_large_text: None,
            template_small_text: None,
            time_show: None,
            time_as_elapsed: None,
            use_content_type: None,
            default_activity_type: None,
            cover_file_names: None,
            cover_local_search_depth: None,
            cache_max_size_mb: None,
            cache_max_entries: None,
            cache_ttl_hours: None,
            cover_providers: None,
            imgbb_api_key: None,
            imgbb_expiration: None,
            musicbrainz_min_score: None,
            catbox_user_hash: None,
            catbox_use_litter: None,
            catbox_litter_hours: None,
            players: Vec::new(),
            web_players: Vec::new(),
        }
    }
}

/// The value given, else the default.
pub open spec fn given<T>(o: Option<T>, default: T) -> T {
    match o {
        Some(v) => v,
        None => default,
    }
}

/// The layer the file gives a player key: that of its last entry whose
/// name has this config-key form.
pub open spec fn file_player_layer(entries: Seq<(String, PlayerConfigLayer)>, k: Seq<char>) -> Option<crate::config::PlayerLayerV>
    decreases entries.len(),
{
    if entries.len() == 0 {
        None
    } else if normalize_identity(entries.last().0@) == k {
        Some(entries.last().1@)
    } else {
        file_player_layer(entries.drop_last(), k)
    }
}

/// The layer the file gives a web player key, in the same way.
pub open spec fn file_web_layer(entries: Seq<(String, WebPlayerConfigLayer)>, k: Seq<char>) -> Option<crate::config::WebLayerV>
    decreases entries.len(),
{
    if entries.len() == 0 {
        None
    } else if normalize_identity(entries.last().0@) == k {
        Some(entries.last().1@)
    } else {
        file_web_layer(entries.drop_last(), k)
    }
}

fn user_players(entries: &Vec<(String, PlayerConfigLayer)>) -> (r: Vec<(String, PlayerConfigLayer)>)
    ensures
        forall|k: Seq<char>| #[trigger] layer_get(r@, k) == file_player_layer(entries@, k),
{
    let mut m: Vec<(String, PlayerConfigLayer)> = Vec::new();
    let mut i: usize = 0;
    while i < entries.len()
        invariant
            i <= entries@.len(),
            forall|k: Seq<char>| #[trigger] layer_get(m@, k) == file_player_layer(entries@.take(i as int), k),
        decreases entries@.len() - i,
    {
        let key = normalize_player_identity(entries[i].0.as_str());
        let layer = entries[i].1.clone_layer();
        insert_player_layer(&mut m, key.as_str(), layer);
        proof {
            let t = entries@.take(i + 1);
            assert(t.drop_last() =~= entries@.take(i as int));
            assert(t.last() == entries@[i as int]);
        }
        i += 1;
    }
    assert(entries@.take(entries@.len() as int) =~= entries@);
    m
}

fn user_web_players(entries: &Vec<(String, WebPlayerConfigLayer)>) -> (r: Vec<(String, WebPlayerConfigLayer)>)
    ensures
        forall|k: Seq<char>| #[trigger] web_get(r@, k) == file_web_layer(entries@, k),
{
    let mut m: Vec<(String, WebPlayerConfigLayer)> = Vec::new();
    let mut i: usize = 0;
    while i < entries.len()
        invariant
            i <= entries@.len(),
            forall|k: Seq<char>| #[trigger] web_get(m@, k) == file_web_layer(entries@.take(i as int), k),
        decreases entries@.len() - i,
    {
        let key = normalize_player_identity(entries[i].0.as_str());
        let layer = entries[i].1.clone_layer();
        insert_web_layer(&mut m, key.as_str(), layer);
        proof {
            let t = entries@.take(i + 1);
            assert(t.drop_last() =~= entries@.take(i as int));
            assert(t.last() == entries@[i as int]);
        }
        i += 1;
    }
    assert(entries@.take(entries@.len() as int) =~= entries@);
    m
}

/// The cover settings of a file, over the defaults.
pub open spec fn cover_from_file(s: FileSettings, c: CoverConfig) -> bool {
    &&& views(c.file_names@) == (match s.cover_file_names { Some(v) => views(v@), None => default_file_names() })
    &&& c.local_search_depth == given(s.cover_local_search_depth, DEFAULT_COVER_LOCAL_SEARCH_DEPTH)
    &&& c.cache.max_size_mb == given(s.cache_max_size_mb, DEFAULT_COVER_CACHE_MAX_SIZE_MB)
    &&& c.cache.max_entries == given(s.cache_max_entries, DEFAULT_COVER_CACHE_MAX_ENTRIES)
    &&& c.cache.ttl_hours == given(s.cache_ttl_hours, DEFAULT_COVER_CACHE_TTL_HOURS)
    &&& views(c.provider.provider@) == (match s.cover_providers { Some(v) => views(v@), None => default_providers() })
    &&& opt_view(c.provider.imgbb.api_key) == opt_view(s.imgbb_api_key)
    &&& c.provider.imgbb.expiration == given(s.imgbb_expiration, DEFAULT_IMGBB_EXPIRATION)
    &&& c.provider.musicbrainz.min_score == given(s.musicbrainz_min_score, DEFAULT_MUSICBRAINZ_MIN_SCORE)
    &&& opt_view(c.provider.catbox.user_hash) == opt_view(s.catbox_user_hash)
    &&& c.provider.catbox.use_litter == given(s.catbox_use_litter, DEFAULT_CATBOX_USE_LITTER)
    &&& c.provider.catbox.litter_hours == given(s.catbox_litter_hours, DEFAULT_CATBOX_LITTER_HOURS)
}

fn cover_of(s: &FileSettings) -> (c: CoverConfig)
    ensures
        cover_from_file(*s, c),
{
    let mut c = CoverConfig::default();
    match &s.cover_file_names { Some(v) => { c.file_names = clone_vec(v); }, None => {} }
    match s.cover_local_search_depth { Some(v) => { c.local_search_depth = v; }, None => {} }
    match s.cache_max_size_mb { Some(v) => { c.cache.max_size_mb = v; }, None => {} }
    match s.cache_max_entries { Some(v) => { c.cache.max_entries = v; }, None => {} }
    match s.cache_ttl_hours { Some(v) => { c.cache.ttl_hours = v; }, None => {} }
    match &s.cover_providers { Some(v) => { c.provider.provider = clone_vec(v); }, None => {} }
    c.provider.imgbb.api_key = clone_opt_string(&s.imgbb_api_key);
    match s.imgbb_expiration { Some(v) => { c.provider.imgbb.expiration = v; }, None => {} }
    match s.musicbrainz_min_score { Some(v) => { c.provider.musicbrainz.min_score = v; }, None => {} }
    c.provider.catbox.user_hash = clone_opt_string(&s.catbox_user_hash);
    match s.catbox_use_litter { Some(v) => { c.provider.catbox.use_litter = v; }, None => {} }
    match s.catbox_litter_hours { Some(v) => { c.provider.catbox.litter_hours = v; }, None => {} }
    c
}

impl Config {
    /// The configuration a file describes, over the defaults, and whether
    /// it asks to clear the presence on pause. `fallback_poll_interval`
    /// may also be given by its older name `discovery_interval`; the
    /// template's `details` by its older name `detail`.
    pub fn from_file_settings(s: FileSettings) -> (r: (Config, bool))
        ensures
            r.0.interval == given(s.interval, DEFAULT_INTERVAL),
            r.0.event_driven == given(s.event_driven, DEFAULT_EVENT_DRIVEN),
            r.0.fallback_poll_interval == (match s.fallback_poll_interval {
                Some(v) => v,
                None => given(s.discovery_interval, DEFAULT_FALLBACK_POLL_INTERVAL),
            }),
            views(r.0.allowed_players@) == (match s.allowed_players { Some(v) => views(v@), None => Seq::empty() }),
            r.0.web_player_enabled == given(s.web_player_enabled, DEFAULT_WEB_PLAYER_ENABLED),
            r.1 == given(s.clear_on_pause, false),
            r.0.template.details@ == (match s.template_details {
                Some(d) => d@,
                None => match s.template_detail { Some(d) => d@, None => DEFAULT_TEMPLATE_DETAIL@ },
            }),
            r.0.template.state@ == (match s.template_state { Some(v) => v@, None => DEFAULT_TEMPLATE_STATE@ }),
            r.0.template.large_text@ == (match s.template_large_text { Some(v) => v@, None => DEFAULT_TEMPLATE_LARGE_TEXT@ }),
            r.0.template.small_text@ == (match s.template_small_text { Some(v) => v@, None => DEFAULT_TEMPLATE_SMALL_TEXT@ }),
            r.0.time.show == given(s.time_show, DEFAULT_TIME_SHOW),
            r.0.time.as_elapsed == given(s.time_as_elapsed, DEFAULT_TIME_AS_ELAPSED),
            r.0.activity_type.use_content_type == given(s.use_content_type, DEFAULT_USE_CONTENT_TYPE),
            r.0.activity_type.default == given(s.default_activity_type, DEFAULT_ACTIVITY_TYPE),
            cover_from_file(s, r.0.cover),
            r.0.bundled_player@.len() == 0,
            r.0.bundled_web_player@.len() == 0,
            forall|k: Seq<char>| #[trigger] layer_get(r.0.user_player@, k) == file_player_layer(s.players@, k),
            forall|k: Seq<char>| #[trigger] web_get(r.0.user_web_player@, k) == file_web_layer(s.web_players@, k),
            forall|k: Seq<char>| #[trigger] layer_get(r.0.merged_player@, k) == (
                if keys_of(r.0.user_player@).contains(k) {
                    Some(merged_player_entry(r.0.bundled_player@, r.0.user_player@, k))
                } else {
                    None
                }),
            forall|k: Seq<char>| #[trigger] web_get(r.0.merged_web_player@, k) == (
                if keys_of(r.0.user_web_player@).contains(k) {
                    Some(merged_web_entry(r.0.bundled_web_player@, r.0.user_web_player@, k))
                } else {
                    None
                }),
    {
        let base = Config::default();
        let mut cfg = Config {
            template: crate::config::TemplateConfig::default(),
            time: crate::config::TimeConfig::default(),
            cover: cover_of(&s),
            activity_type: crate::config::ActivityTypesConfig::default(),
            ..base
        };
        match s.interval { Some(v) => { cfg.interval = v; }, None => {} }
        match s.event_driven { Some(v) => { cfg.event_driven = v; }, None => {} }
        match s.fallback_poll_interval {
            Some(v) => { cfg.fallback_poll_interval = v; },
            None => match s.discovery_interval { Some(v) => { cfg.fallback_poll_interval = v; }, None => {} },
        }
        match s.allowed_players { Some(v) => { cfg.allowed_players = v; }, None => {} }
        proof {
            if s.allowed_players is None {
                assert(views(cfg.allowed_players@) =~= Seq::<Seq<char>>::empty());
            }
        }
        match s.web_player_enabled { Some(v) => { cfg.web_player_enabled = v; }, None => {} }
        let clear_on_pause = match s.clear_on_pause { Some(v) => v, None => false };
        cfg.template = template_from_keys(
            s.template_details,
            s.template_detail,
            s.template_state,
            s.template_large_text,
            s.template_small_text,
        );
        match s.time_show { Some(v) => { cfg.time.show = v; }, None => {} }
        match s.time_as_elapsed { Some(v) => { cfg.time.as_elapsed = v; }, None => {} }
        match s.use_content_type { Some(v) => { cfg.activity_type.use_content_type = v; }, None => {} }
        match s.default_activity_type { Some(v) => { cfg.activity_type.default = v; }, None => {} }
        cfg.user_player = user_players(&s.players);
        cfg.user_web_player = user_web_players(&s.web_players);
        cfg.rebuild_merged_player();
        cfg.rebuild_merged_web_player();
        proof {
            assert forall|k: Seq<char>| !keys_of(cfg.bundled_player@).contains(k) by {}
            assert forall|k: Seq<char>| !keys_of(cfg.bundled_web_player@).contains(k) by {}
        }
        (cfg, clear_on_pause)
    }
}

} // verus!
