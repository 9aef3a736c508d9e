//! Configuration values, their defaults, and the layers user and bundled
//! configuration are merged from.
use vstd::prelude::*;

pub mod player;

verus! {

pub const DEFAULT_INTERVAL: u64 = 2000;
pub const DEFAULT_EVENT_DRIVEN: bool = true;
pub const DEFAULT_FALLBACK_POLL_INTERVAL: u64 = 30000;
pub const DEFAULT_WEB_PLAYER_ENABLED: bool = true;
pub const DEFAULT_USE_CONTENT_TYPE: bool = true;
pub const DEFAULT_TIME_SHOW: bool = true;
pub const DEFAULT_TIME_AS_ELAPSED: bool = false;
pub const DEFAULT_IMGBB_EXPIRATION: u64 = 86400;
pub const DEFAULT_PLAYER_APP_ID: &'static str = "1121632048155742288";
pub const DEFAULT_PLAYER_ICON: &'static str = "https://raw.githubusercontent.com/lazykern/mprisence/main/assets/icon.png";
pub const DEFAULT_PLAYER_IGNORE: bool = false;
pub const DEFAULT_PLAYER_SHOW_ICON: bool = false;
pub const DEFAULT_PLAYER_ALLOW_STREAMING: bool = false;
pub const DEFAULT_TEMPLATE_DETAIL: &'static str = "{{{title}}}";
pub const DEFAULT_TEMPLATE_STATE: &'static str = "{{{artists}}}";
pub const DEFAULT_TEMPLATE_LARGE_TEXT: &'static str = "{{#if album includeZero=true}}{{{album}}}{{else}}{{{title}}}{{/if}}";
pub const DEFAULT_TEMPLATE_SMALL_TEXT: &'static str = "{{{player}}}";
pub const DEFAULT_COVER_LOCAL_SEARCH_DEPTH: usize = 2;
pub const DEFAULT_COVER_CACHE_MAX_SIZE_MB: u64 = 32;
pub const DEFAULT_COVER_CACHE_MAX_ENTRIES: usize = 1024;
pub const DEFAULT_COVER_CACHE_TTL_HOURS: u64 = 24;
pub const DEFAULT_MUSICBRAINZ_MIN_SCORE: u8 = 95;
pub const DEFAULT_CATBOX_USE_LITTER: bool = true;
pub const DEFAULT_CATBOX_LITTER_HOURS: u8 = 24;

/// What the configuration tells its subscribers after a change of its file:
/// it was reloaded, or reading it failed with the given message.
#[derive(Debug, Clone, PartialEq, Eq)]
pub enum ConfigChange {
    Reloaded,
    Error(String),
}

/// Discord activity type shown for a player.
#[derive(Debug, Clone, Copy, PartialEq, Eq, Structural)]
pub enum ActivityType {
    Listening,
    Watching,
    Playing,
    Competing,
}

impl Default for ActivityType {
    fn default() -> (r: Self)
        ensures
            r == ActivityType::Listening,
    {
        ActivityType::Listening
    }
}

/// Which activity field Discord shows in the status line.
#[derive(Debug, Clone, Copy, PartialEq, Eq, Structural)]
pub enum StatusDisplayType {
    Name,
    State,
    Details,
}

impl Default for StatusDisplayType {
    fn default() -> (r: Self)
        ensures
            r == StatusDisplayType::Name,
    {
        StatusDisplayType::Name
    }
}

pub const DEFAULT_ACTIVITY_TYPE: ActivityType = ActivityType::Listening;
pub const DEFAULT_PLAYER_STATUS_DISPLAY_TYPE: StatusDisplayType = StatusDisplayType::Name;

#[derive(Debug, Clone)]
pub struct ActivityTypesConfig {
    pub use_content_type: bool,
    pub default: ActivityType,
}

impl Default for ActivityTypesConfig {
    fn default() -> (r: Self)
        ensures
            r.use_content_type == DEFAULT_USE_CONTENT_TYPE,
            r.default == DEFAULT_ACTIVITY_TYPE,
    {
        ActivityTypesConfig { use_content_type: DEFAULT_USE_CONTENT_TYPE, default: DEFAULT_ACTIVITY_TYPE }
    }
}

/// Handlebars templates of the activity's text fields.
#[derive(Debug, Clone)]
pub struct TemplateConfig {
    pub details: String,
    pub state: String,
    pub large_text: String,
    pub small_text: String,
}

impl Default for TemplateConfig {
    fn default() -> (r: Self)
        ensures
            r.details@ == DEFAULT_TEMPLATE_DETAIL@,
            r.state@ == DEFAULT_TEMPLATE_STATE@,
            r.large_text@ == DEFAULT_TEMPLATE_LARGE_TEXT@,
            r.small_text@ == DEFAULT_TEMPLATE_SMALL_TEXT@,
    {
        TemplateConfig {
            details: DEFAULT_TEMPLATE_DETAIL.to_owned(),
            state: DEFAULT_TEMPLATE_STATE.to_owned(),
            large_text: DEFAULT_TEMPLATE_LARGE_TEXT.to_owned(),
            small_text: DEFAULT_TEMPLATE_SMALL_TEXT.to_owned(),
        }
    }
}

/// The template section as read: `details` wins over the older `detail`
/// key, and each missing template takes its default.
pub fn template_from_keys(
    details: Option<String>,
    detail: Option<String>,
    state: Option<String>,
    large_text: Option<String>,
    small_text: Option<String>,
) -> (r: TemplateConfig)
    ensures
        r.details@ == (match details {
            Some(d) => d@,
            None => match detail { Some(d) => d@, None => DEFAULT_TEMPLATE_DETAIL@ },
        }),
        r.state@ == (match state { Some(s) => s@, None => DEFAULT_TEMPLATE_STATE@ }),
        r.large_text@ == (match large_text { Some(s) => s@, None => DEFAULT_TEMPLATE_LARGE_TEXT@ }),
        r.small_text@ == (match small_text { Some(s) => s@, None => DEFAULT_TEMPLATE_SMALL_TEXT@ }),
{
    let details = match details {
        Some(d) => d,
        None => match detail {
            Some(d) => d,
            None => DEFAULT_TEMPLATE_DETAIL.to_owned(),
        },
    };
    let state = match state { Some(s) => s, None => DEFAULT_TEMPLATE_STATE.to_owned() };
    let large_text = match large_text { Some(s) => s, None => DEFAULT_TEMPLATE_LARGE_TEXT.to_owned() };
    let small_text = match small_text { Some(s) => s, None => DEFAULT_TEMPLATE_SMALL_TEXT.to_owned() };
    TemplateConfig { details, state, large_text, small_text }
}

/// Whether and how the elapsed/remaining time is shown.
#[derive(Debug, Clone, Copy)]
pub struct TimeConfig {
    pub show: bool,
    pub as_elapsed: bool,
}

impl Default for TimeConfig {
    fn default() -> (r: Self)
        ensures
            r.show == DEFAULT_TIME_SHOW,
            r.as_elapsed == DEFAULT_TIME_AS_ELAPSED,
    {
        TimeConfig { show: DEFAULT_TIME_SHOW, as_elapsed: DEFAULT_TIME_AS_ELAPSED }
    }
}

/// The default time settings.
pub fn default_time_config() -> (r: TimeConfig)
    ensures
        r.show == DEFAULT_TIME_SHOW,
        r.as_elapsed == DEFAULT_TIME_AS_ELAPSED,
{
    TimeConfig::default()
}

/// Limits of the cover-art cache.
#[derive(Debug, Clone, Copy)]
pub struct CoverCacheConfig {
    pub max_size_mb: u64,
    pub max_entries: usize,
    pub ttl_hours: u64,
}

impl Default for CoverCacheConfig {
    fn default() -> (r: Self)
        ensures
            r.max_size_mb == DEFAULT_COVER_CACHE_MAX_SIZE_MB,
            r.max_entries == DEFAULT_COVER_CACHE_MAX_ENTRIES,
            r.ttl_hours == DEFAULT_COVER_CACHE_TTL_HOURS,
    {
        CoverCacheConfig {
            max_size_mb: DEFAULT_COVER_CACHE_MAX_SIZE_MB,
            max_entries: DEFAULT_COVER_CACHE_MAX_ENTRIES,
            ttl_hours: DEFAULT_COVER_CACHE_TTL_HOURS,
        }
    }
}

/// A cache limit read from the configuration: zero is refused.
pub fn positive_limit(value: u64) -> (r: Result<u64, String>)
    ensures
        match r {
            Ok(v) => value > 0 && v == value,
            Err(m) => value == 0 && m@ == "must be greater than zero"@,
        },
{
    if value == 0 {
        return Err("must be greater than zero".to_owned());
    }
    Ok(value)
}

#[derive(Debug, Clone, Copy)]
pub struct MusicbrainzConfig {
    pub min_score: u8,
}

impl Default for MusicbrainzConfig {
    fn default() -> (r: Self)
        ensures
            r.min_score == DEFAULT_MUSICBRAINZ_MIN_SCORE,
    {
        MusicbrainzConfig { min_score: DEFAULT_MUSICBRAINZ_MIN_SCORE }
    }
}

#[derive(Debug, Clone)]
pub struct ImgBBConfig {
    pub api_key: Option<String>,
    pub expiration: u64,
}

impl Default for ImgBBConfig {
    fn default() -> (r: Self)
        ensures
            r.api_key is None,
            r.expiration == DEFAULT_IMGBB_EXPIRATION,
    {
        ImgBBConfig { api_key: None, expiration: DEFAULT_IMGBB_EXPIRATION }
    }
}

#[derive(Debug, Clone)]
pub struct CatboxConfig {
    pub user_hash: Option<String>,
    pub use_litter: bool,
    pub litter_hours: u8,
}

impl Default for CatboxConfig {
    fn default() -> (r: Self)
        ensures
            r.user_hash is None,
            r.use_litter == DEFAULT_CATBOX_USE_LITTER,
            r.litter_hours == DEFAULT_CATBOX_LITTER_HOURS,
    {
        CatboxConfig { user_hash: None, use_litter: DEFAULT_CATBOX_USE_LITTER, litter_hours: DEFAULT_CATBOX_LITTER_HOURS }
    }
}

/// Cover-art providers, in the order they are tried, and their settings.
#[derive(Debug, Clone)]
pub struct CoverProviderConfig {
    pub provider: Vec<String>,
    pub imgbb: ImgBBConfig,
    pub musicbrainz: MusicbrainzConfig,
    pub catbox: CatboxConfig,
}

pub open spec fn default_providers() -> Seq<Seq<char>> {
    seq!["catbox"@, "musicbrainz"@]
}

pub open spec fn default_file_names() -> Seq<Seq<char>> {
    seq!["cover"@, "folder"@, "front"@, "album"@, "art"@]
}

pub open spec fn views(v: Seq<String>) -> Seq<Seq<char>> {
    v.map_values(|s: String| s@)
}

impl Default for CoverProviderConfig {
    fn default() -> (r: Self)
        ensures
            views(r.provider@) == default_providers(),
            r.imgbb.api_key is None && r.imgbb.expiration == DEFAULT_IMGBB_EXPIRATION,
            r.musicbrainz.min_score == DEFAULT_MUSICBRAINZ_MIN_SCORE,
            r.catbox.user_hash is None && r.catbox.use_litter == DEFAULT_CATBOX_USE_LITTER
                && r.catbox.litter_hours == DEFAULT_CATBOX_LITTER_HOURS,
    {
        let mut provider: Vec<String> = Vec::new();
        provider.push("catbox".to_owned());
        provider.push("musicbrainz".to_owned());
        assert(views(provider@) =~= default_providers());
        CoverProviderConfig {
            provider,
            imgbb: ImgBBConfig::default(),
            musicbrainz: MusicbrainzConfig::default(),
            catbox: CatboxConfig::default(),
        }
    }
}

/// Where and how cover art is looked for.
#[derive(Debug, Clone)]
pub struct CoverConfig {
    pub file_names: Vec<String>,
    pub provider: CoverProviderConfig,
    pub local_search_depth: usize,
    pub cache: CoverCacheConfig,
}

impl Default for CoverConfig {
    fn default() -> (r: Self)
        ensures
            views(r.file_names@) == default_file_names(),
            views(r.provider.provider@) == default_providers(),
            r.provider.imgbb.api_key is None && r.provider.imgbb.expiration == DEFAULT_IMGBB_EXPIRATION,
            r.provider.catbox.user_hash is None,
            r.provider.catbox.use_litter == DEFAULT_CATBOX_USE_LITTER,
            r.provider.catbox.litter_hours == DEFAULT_CATBOX_LITTER_HOURS,
            r.provider.musicbrainz.min_score == DEFAULT_MUSICBRAINZ_MIN_SCORE,
            r.local_search_depth == DEFAULT_COVER_LOCAL_SEARCH_DEPTH,
            r.cache.max_size_mb == DEFAULT_COVER_CACHE_MAX_SIZE_MB,
            r.cache.max_entries == DEFAULT_COVER_CACHE_MAX_ENTRIES,
            r.cache.ttl_hours == DEFAULT_COVER_CACHE_TTL_HOURS,
    {
        let mut file_names: Vec<String> = Vec::new();
        file_names.push("cover".to_owned());
        file_names.push("folder".to_owned());
        file_names.push("front".to_owned());
        file_names.push("album".to_owned());
        file_names.push("art".to_owned());
        assert(views(file_names@) =~= default_file_names());
        CoverConfig {
            file_names,
            provider: CoverProviderConfig::default(),
            local_search_depth: DEFAULT_COVER_LOCAL_SEARCH_DEPTH,
            cache: CoverCacheConfig::default(),
        }
    }
}

/// Resolved settings of one player.
#[derive(Debug, Clone)]
pub struct PlayerConfig {
    pub name: Option<String>,
    pub ignore: bool,
    pub app_id: String,
    pub icon: String,
    pub show_icon: bool,
    pub allow_streaming: bool,
    pub status_display_type: StatusDisplayType,
    pub override_activity_type: Option<ActivityType>,
}

/// Mathematical form of `PlayerConfig`.
pub struct PlayerConfigV {
    pub name: Option<Seq<char>>,
    pub ignore: bool,
    pub app_id: Seq<char>,
    pub icon: Seq<char>,
    pub show_icon: bool,
    pub allow_streaming: bool,
    pub status_display_type: StatusDisplayType,
    pub override_activity_type: Option<ActivityType>,
}

pub open spec fn opt_seq(o: Option<String>) -> Option<Seq<char>> {
    match o {
        Some(s) => Some(s@),
        None => None,
    }
}

pub open spec fn opt_seqs(o: Option<Vec<String>>) -> Option<Seq<Seq<char>>> {
    match o {
        Some(v) => Some(views(v@)),
        None => None,
    }
}

impl View for PlayerConfig {
    type V = PlayerConfigV;

    open spec fn view(&self) -> PlayerConfigV {
        PlayerConfigV {
            name: opt_seq(self.name),
            ignore: self.ignore,
            app_id: self.app_id@,
            icon: self.icon@,
            show_icon: self.show_icon,
            allow_streaming: self.allow_streaming,
            status_display_type: self.status_display_type,
            override_activity_type: self.override_activity_type,
        }
    }
}

/// The built-in player settings.
pub open spec fn default_player() -> PlayerConfigV {
    PlayerConfigV {
        name: None,
        ignore: DEFAULT_PLAYER_IGNORE,
        app_id: DEFAULT_PLAYER_APP_ID@,
        icon: DEFAULT_PLAYER_ICON@,
        show_icon: DEFAULT_PLAYER_SHOW_ICON,
        allow_streaming: DEFAULT_PLAYER_ALLOW_STREAMING,
        status_display_type: DEFAULT_PLAYER_STATUS_DISPLAY_TYPE,
        override_activity_type: None,
    }
}

impl Default for PlayerConfig {
    fn default() -> (r: Self)
        ensures
            r@ == default_player(),
    {
        PlayerConfig {
            name: None,
            ignore: DEFAULT_PLAYER_IGNORE,
            app_id: DEFAULT_PLAYER_APP_ID.to_owned(),
            icon: DEFAULT_PLAYER_ICON.to_owned(),
            show_icon: DEFAULT_PLAYER_SHOW_ICON,
            allow_streaming: DEFAULT_PLAYER_ALLOW_STREAMING,
            status_display_type: DEFAULT_PLAYER_STATUS_DISPLAY_TYPE,
            override_activity_type: None,
        }
    }
}

/// One `[player.*]` table: every field optional, unset fields inherit.
#[derive(Debug, Clone)]
pub struct PlayerConfigLayer {
    pub match_pattern: Option<String>,
    pub match_patterns: Option<Vec<String>>,
    pub name: Option<String>,
    pub ignore: Option<bool>,
    pub ignore_unmatched: Option<bool>,
    pub app_id: Option<String>,
    pub icon: Option<String>,
    pub show_icon: Option<bool>,
    pub allow_streaming: Option<bool>,
    pub status_display_type: Option<StatusDisplayType>,
    pub override_activity_type: Option<ActivityType>,
}

/// Mathematical form of `PlayerConfigLayer`.
pub struct PlayerLayerV {
    pub match_pattern: Option<Seq<char>>,
    pub match_patterns: Option<Seq<Seq<char>>>,
    pub name: Option<Seq<char>>,
    pub ignore: Option<bool>,
    pub ignore_unmatched: Option<bool>,
    pub app_id: Option<Seq<char>>,
    pub icon: Option<Seq<char>>,
    pub show_icon: Option<bool>,
    pub allow_streaming: Option<bool>,
    pub status_display_type: Option<StatusDisplayType>,
    pub override_activity_type: Option<ActivityType>,
}

impl View for PlayerConfigLayer {
    type V = PlayerLayerV;

    open spec fn view(&self) -> PlayerLayerV {
        PlayerLayerV {
            match_pattern: opt_seq(self.match_pattern),
            match_patterns: opt_seqs(self.match_patterns),
            name: opt_seq(self.name),
            ignore: self.ignore,
            ignore_unmatched: self.ignore_unmatched,
            app_id: opt_seq(self.app_id),
            icon: opt_seq(self.icon),
            show_icon: self.show_icon,
            allow_streaming: self.allow_streaming,
            status_display_type: self.status_display_type,
            override_activity_type: self.override_activity_type,
        }
    }
}

impl Default for PlayerConfigLayer {
    fn default() -> (r: Self)
        ensures
            r@ == empty_player_layer(),
    {
        PlayerConfigLayer {
            match_pattern: None,
            match_patterns: None,
            name: None,
            ignore: None,
            ignore_unmatched: None,
            app_id: None,
            icon: None,
            show_icon: None,
            allow_streaming: None,
            status_display_type: None,
            override_activity_type: None,
        }
    }
}

pub open spec fn empty_player_layer() -> PlayerLayerV {
    PlayerLayerV {
        match_pattern: None,
        match_patterns: None,
        name: None,
        ignore: None,
        ignore_unmatched: None,
        app_id: None,
        icon: None,
        show_icon: None,
        allow_streaming: None,
        status_display_type: None,
        override_activity_type: None,
    }
}

/// `a`, else `b`.
pub open spec fn or<T>(a: Option<T>, b: Option<T>) -> Option<T> {
    if a is Some { a } else { b }
}

/// Non-empty patterns of `match_pattern` then `match_patterns`, in order.
pub open spec fn effective_patterns_of(single: Option<Seq<char>>, many: Option<Seq<Seq<char>>>) -> Seq<Seq<char>> {
    let first = match single {
        Some(p) => if p.len() > 0 { seq![p] } else { Seq::<Seq<char>>::empty() },
        None => Seq::<Seq<char>>::empty(),
    };
    let rest = match many {
        Some(v) => v.filter(|p: Seq<char>| p.len() > 0),
        None => Seq::<Seq<char>>::empty(),
    };
    first + rest
}

fn effective_patterns_exec(single: &Option<String>, many: &Option<Vec<String>>) -> (r: Vec<String>)
    ensures
        views(r@) == effective_patterns_of(opt_seq(*single), opt_seqs(*many)),
{
    let mut out: Vec<String> = Vec::new();
    match single {
        Some(p) => {
            if crate::text::char_len(p.as_str()) > 0 {
                out.push(p.clone());
            }
        },
        None => {},
    }
    let ghost first = views(out@);
    match many {
        Some(v) => {
            let ghost vs = views(v@);
            let ghost f = |p: Seq<char>| p.len() > 0;
            assert(vs.take(0).filter(f) =~= Seq::<Seq<char>>::empty());
            let mut i: usize = 0;
            while i < v.len()
                invariant
                    vs == views(v@),
                    f == (|p: Seq<char>| p.len() > 0),
                    i <= v@.len(),
                    views(out@) == first + vs.take(i as int).filter(f),
                decreases v@.len() - i,
            {
                proof {
                    assert(vs.take(i + 1) =~= vs.take(i as int).push(vs[i as int]));
                    vs.take(i as int).lemma_filter_push(vs[i as int], f);
                }
                if crate::text::char_len(v[i].as_str()) > 0 {
                    let ghost before = views(out@);
                    out.push(v[i].clone());
                    assert(views(out@) =~= before.push(vs[i as int]));
                }
                i += 1;
            }
            assert(vs.take(v@.len() as int) =~= vs);
        },
        None => {
            assert(views(out@) =~= first + Seq::<Seq<char>>::empty());
        },
    }
    out
}

/// The layer's settings over `base`: each field the layer sets wins.
pub open spec fn apply_layer(l: PlayerLayerV, base: PlayerConfigV) -> PlayerConfigV {
    PlayerConfigV {
        name: or(l.name, base.name),
        ignore: match l.ignore { Some(v) => v, None => base.ignore },
        app_id: match l.app_id { Some(v) => v, None => base.app_id },
        icon: match l.icon { Some(v) => v, None => base.icon },
        show_icon: match l.show_icon { Some(v) => v, None => base.show_icon },
        allow_streaming: match l.allow_streaming { Some(v) => v, None => base.allow_streaming },
        status_display_type: match l.status_display_type { Some(v) => v, None => base.status_display_type },
        override_activity_type: or(l.override_activity_type, base.override_activity_type),
    }
}

/// `a` merged over `b`: each field of `a` that is set wins.
pub open spec fn merged_layer(b: PlayerLayerV, a: PlayerLayerV) -> PlayerLayerV {
    PlayerLayerV {
        match_pattern: or(a.match_pattern, b.match_pattern),
        match_patterns: or(a.match_patterns, b.match_patterns),
        name: or(a.name, b.name),
        ignore: or(a.ignore, b.ignore),
        ignore_unmatched: or(a.ignore_unmatched, b.ignore_unmatched),
        app_id: or(a.app_id, b.app_id),
        icon: or(a.icon, b.icon),
        show_icon: or(a.show_icon, b.show_icon),
        allow_streaming: or(a.allow_streaming, b.allow_streaming),
        status_display_type: or(a.status_display_type, b.status_display_type),
        override_activity_type: or(a.override_activity_type, b.override_activity_type),
    }
}

fn or_string(a: Option<String>, b: Option<String>) -> (r: Option<String>)
    ensures
        r == or(a, b),
{
    match a {
        Some(x) => Some(x),
        None => b,
    }
}

impl PlayerConfigLayer {
    /// The layer's match patterns, empty ones dropped.
    pub fn effective_patterns(&self) -> (r: Vec<String>)
        ensures
            views(r@) == effective_patterns_of(self@.match_pattern, self@.match_patterns),
    {
        effective_patterns_exec(&self.match_pattern, &self.match_patterns)
    }

    /// `base` with this layer's settings applied.
    pub fn apply_over(&self, base: PlayerConfig) -> (r: PlayerConfig)
        ensures
            r@ == apply_layer(self@, base@),
    {
        let mut base = base;
        if let Some(value) = &self.name {
            base.name = Some(value.clone());
        }
        if let Some(value) = self.ignore {
            base.ignore = value;
        }
        if let Some(value) = &self.app_id {
            base.app_id = value.clone();
        }
        if let Some(value) = &self.icon {
            base.icon = value.clone();
        }
        if let Some(value) = self.show_icon {
            base.show_icon = value;
        }
        if let Some(value) = self.allow_streaming {
            base.allow_streaming = value;
        }
        if let Some(value) = self.status_display_type {
            base.status_display_type = value;
        }
        if let Some(value) = self.override_activity_type {
            base.override_activity_type = Some(value);
        }
        base
    }

    /// Merge `other` over this layer: fields `other` sets win.
    pub fn merge_from(&mut self, other: PlayerConfigLayer)
        ensures
            final(self)@ == merged_layer(old(self)@, other@),
    {
        let old_self = self.clone_layer();
        *self = PlayerConfigLayer {
            match_pattern: or_string(other.match_pattern, old_self.match_pattern),
            match_patterns: match other.match_patterns { Some(v) => Some(v), None => old_self.match_patterns },
            name: or_string(other.name, old_self.name),
            ignore: match other.ignore { Some(v) => Some(v), None => old_self.ignore },
            ignore_unmatched: match other.ignore_unmatched { Some(v) => Some(v), None => old_self.ignore_unmatched },
            app_id: or_string(other.app_id, old_self.app_id),
            icon: or_string(other.icon, old_self.icon),
            show_icon: match other.show_icon { Some(v) => Some(v), None => old_self.show_icon },
            allow_streaming: match other.allow_streaming { Some(v) => Some(v), None => old_self.allow_streaming },
            status_display_type: match other.status_display_type { Some(v) => Some(v), None => old_self.status_display_type },
            override_activity_type: match other.override_activity_type { Some(v) => Some(v), None => old_self.override_activity_type },
        };
    }

    /// A copy of the layer.
    pub fn clone_layer(&self) -> (r: PlayerConfigLayer)
        ensures
            r@ == self@,
    {
        PlayerConfigLayer {
            match_pattern: self.match_pattern.clone(),
            match_patterns: match &self.match_patterns {
                Some(v) => Some(clone_vec(v)),
                None => None,
            },
            name: self.name.clone(),
            ignore: self.ignore,
            ignore_unmatched: self.ignore_unmatched,
            app_id: self.app_id.clone(),
            icon: self.icon.clone(),
            show_icon: self.show_icon,
            allow_streaming: self.allow_streaming,
            status_display_type: self.status_display_type,
            override_activity_type: self.override_activity_type,
        }
    }
}

/// A copy of a vector of strings.
pub fn clone_vec(v: &Vec<String>) -> (r: Vec<String>)
    ensures
        r@ == v@,
{
    let mut out: Vec<String> = Vec::new();
    let mut i: usize = 0;
    while i < v.len()
        invariant
            i <= v@.len(),
            out@ == v@.take(i as int),
        decreases v@.len() - i,
    {
        out.push(v[i].clone());
        i += 1;
        assert(out@ =~= v@.take(i as int));
    }
    assert(v@.take(v@.len() as int) =~= v@);
    out
}

impl PlayerConfig {
    /// A copy of the settings.
    pub fn clone_config(&self) -> (r: PlayerConfig)
        ensures
            r@ == self@,
    {
        PlayerConfig {
            name: self.name.clone(),
            ignore: self.ignore,
            app_id: self.app_id.clone(),
            icon: self.icon.clone(),
            show_icon: self.show_icon,
            allow_streaming: self.allow_streaming,
            status_display_type: self.status_display_type,
            override_activity_type: self.override_activity_type,
        }
    }
}

/// One `[web_player.*]` table.
#[derive(Debug, Clone)]
pub struct WebPlayerConfigLayer {
    pub match_pattern: Option<String>,
    pub match_patterns: Option<Vec<String>>,
    pub title_suffix: Option<String>,
    pub name: Option<String>,
    pub ignore: Option<bool>,
    pub app_id: Option<String>,
    pub icon: Option<String>,
    pub show_icon: Option<bool>,
    pub status_display_type: Option<StatusDisplayType>,
    pub override_activity_type: Option<ActivityType>,
}

/// Mathematical form of `WebPlayerConfigLayer`.
pub struct WebLayerV {
    pub match_pattern: Option<Seq<char>>,
    pub match_patterns: Option<Seq<Seq<char>>>,
    pub title_suffix: Option<Seq<char>>,
    pub name: Option<Seq<char>>,
    pub ignore: Option<bool>,
    pub app_id: Option<Seq<char>>,
    pub icon: Option<Seq<char>>,
    pub show_icon: Option<bool>,
    pub status_display_type: Option<StatusDisplayType>,
    pub override_activity_type: Option<ActivityType>,
}

impl View for WebPlayerConfigLayer {
    type V = WebLayerV;

    open spec fn view(&self) -> WebLayerV {
        WebLayerV {
            match_pattern: opt_seq(self.match_pattern),
            match_patterns: opt_seqs(self.match_patterns),
            title_suffix: opt_seq(self.title_suffix),
            name: opt_seq(self.name),
            ignore: self.ignore,
            app_id: opt_seq(self.app_id),
            icon: opt_seq(self.icon),
            show_icon: self.show_icon,
            status_display_type: self.status_display_type,
            override_activity_type: self.override_activity_type,
        }
    }
}

pub open spec fn empty_web_layer() -> WebLayerV {
    WebLayerV {
        match_pattern: None,
        match_patterns: None,
        title_suffix: None,
        name: None,
        ignore: None,
        app_id: None,
        icon: None,
        show_icon: None,
        status_display_type: None,
        override_activity_type: None,
    }
}

impl Default for WebPlayerConfigLayer {
    fn default() -> (r: Self)
        ensures
            r@ == empty_web_layer(),
    {
        WebPlayerConfigLayer {
            match_pattern: None,
            match_patterns: None,
            title_suffix: None,
            name: None,
            ignore: None,
            app_id: None,
            icon: None,
            show_icon: None,
            status_display_type: None,
            override_activity_type: None,
        }
    }
}

/// A resolved web player entry; unset fields fall back to the defaults
/// when it becomes a player's settings.
#[derive(Debug, Clone)]
pub struct WebPlayerConfig {
    pub match_patterns: Vec<String>,
    pub title_suffix: Option<String>,
    pub name: Option<String>,
    pub ignore: bool,
    pub app_id: Option<String>,
    pub icon: Option<String>,
    pub show_icon: Option<bool>,
    pub status_display_type: Option<StatusDisplayType>,
    pub override_activity_type: Option<ActivityType>,
}

/// Mathematical form of `WebPlayerConfig`.
pub struct WebConfigV {
    pub match_patterns: Seq<Seq<char>>,
    pub title_suffix: Option<Seq<char>>,
    pub name: Option<Seq<char>>,
    pub ignore: bool,
    pub app_id: Option<Seq<char>>,
    pub icon: Option<Seq<char>>,
    pub show_icon: Option<bool>,
    pub status_display_type: Option<StatusDisplayType>,
    pub override_activity_type: Option<ActivityType>,
}

impl View for WebPlayerConfig {
    type V = WebConfigV;

    open spec fn view(&self) -> WebConfigV {
        WebConfigV {
            match_patterns: views(self.match_patterns@),
            title_suffix: opt_seq(self.title_suffix),
            name: opt_seq(self.name),
            ignore: self.ignore,
            app_id: opt_seq(self.app_id),
            icon: opt_seq(self.icon),
            show_icon: self.show_icon,
            status_display_type: self.status_display_type,
            override_activity_type: self.override_activity_type,
        }
    }
}

pub open spec fn empty_web_config() -> WebConfigV {
    WebConfigV {
        match_patterns: Seq::<Seq<char>>::empty(),
        title_suffix: None,
        name: None,
        ignore: false,
        app_id: None,
        icon: None,
        show_icon: None,
        status_display_type: None,
        override_activity_type: None,
    }
}

impl Default for WebPlayerConfig {
    fn default() -> (r: Self)
        ensures
            r@ == empty_web_config(),
    {
        let match_patterns: Vec<String> = Vec::new();
        assert(views(match_patterns@) =~= Seq::<Seq<char>>::empty());
        WebPlayerConfig {
            match_patterns,
            title_suffix: None,
            name: None,
            ignore: false,
            app_id: None,
            icon: None,
            show_icon: None,
            status_display_type: None,
            override_activity_type: None,
        }
    }
}

/// `a` merged over `b` (web player layers).
pub open spec fn merged_web_layer(b: WebLayerV, a: WebLayerV) -> WebLayerV {
    WebLayerV {
        match_pattern: or(a.match_pattern, b.match_pattern),
        match_patterns: or(a.match_patterns, b.match_patterns),
        title_suffix: or(a.title_suffix, b.title_suffix),
        name: or(a.name, b.name),
        ignore: or(a.ignore, b.ignore),
        app_id: or(a.app_id, b.app_id),
        icon: or(a.icon, b.icon),
        show_icon: or(a.show_icon, b.show_icon),
        status_display_type: or(a.status_display_type, b.status_display_type),
        override_activity_type: or(a.override_activity_type, b.override_activity_type),
    }
}

/// The web layer's settings over a resolved entry; patterns are replaced
/// only by a layer that has some.
pub open spec fn apply_web_layer(l: WebLayerV, base: WebConfigV) -> WebConfigV {
    let pats = effective_patterns_of(l.match_pattern, l.match_patterns);
    WebConfigV {
        match_patterns: if pats.len() > 0 { pats } else { base.match_patterns },
        title_suffix: or(l.title_suffix, base.title_suffix),
        name: or(l.name, base.name),
        ignore: match l.ignore { Some(v) => v, None => base.ignore },
        app_id: or(l.app_id, base.app_id),
        icon: or(l.icon, base.icon),
        show_icon: or(l.show_icon, base.show_icon),
        status_display_type: or(l.status_display_type, base.status_display_type),
        override_activity_type: or(l.override_activity_type, base.override_activity_type),
    }
}

/// `p` is the player settings the resolved web player entry `w` stands for:
/// its values over the defaults, streaming always allowed.
pub open spec fn web_into_player(w: WebConfigV) -> PlayerConfigV {
    PlayerConfigV {
        name: w.name,
        ignore: w.ignore,
        app_id: match w.app_id { Some(a) => a, None => DEFAULT_PLAYER_APP_ID@ },
        icon: match w.icon { Some(a) => a, None => DEFAULT_PLAYER_ICON@ },
        show_icon: match w.show_icon { Some(v) => v, None => DEFAULT_PLAYER_SHOW_ICON },
        allow_streaming: true,
        status_display_type: match w.status_display_type { Some(v) => v, None => DEFAULT_PLAYER_STATUS_DISPLAY_TYPE },
        override_activity_type: w.override_activity_type,
    }
}


impl WebPlayerConfigLayer {
    /// The layer as the shared inheritance base: its `ignore` is dropped.
    pub fn default_base(&self) -> (r: Self)
        ensures
            r@ == (WebLayerV { ignore: None, ..self@ }),
    {
        let mut r = self.clone_layer();
        r.ignore = None;
        r
    }

    /// A copy of the layer.
    pub fn clone_layer(&self) -> (r: WebPlayerConfigLayer)
        ensures
            r@ == self@,
    {
        WebPlayerConfigLayer {
            match_pattern: self.match_pattern.clone(),
            match_patterns: match &self.match_patterns {
                Some(v) => Some(clone_vec(v)),
                None => None,
            },
            title_suffix: self.title_suffix.clone(),
            name: self.name.clone(),
            ignore: self.ignore,
            app_id: self.app_id.clone(),
            icon: self.icon.clone(),
            show_icon: self.show_icon,
            status_display_type: self.status_display_type,
            override_activity_type: self.override_activity_type,
        }
    }

    /// The layer's match patterns, empty ones dropped.
    pub fn effective_patterns(&self) -> (r: Vec<String>)
        ensures
            views(r@) == effective_patterns_of(self@.match_pattern, self@.match_patterns),
    {
        effective_patterns_exec(&self.match_pattern, &self.match_patterns)
    }

    /// Merge `other` over this layer: fields `other` sets win.
    pub fn merge_from(&mut self, other: WebPlayerConfigLayer)
        ensures
            final(self)@ == merged_web_layer(old(self)@, other@),
    {
        let old_self = self.clone_layer();
        *self = WebPlayerConfigLayer {
            match_pattern: or_string(other.match_pattern, old_self.match_pattern),
            match_patterns: match other.match_patterns { Some(v) => Some(v), None => old_self.match_patterns },
            title_suffix: or_string(other.title_suffix, old_self.title_suffix),
            name: or_string(other.name, old_self.name),
            ignore: match other.ignore { Some(v) => Some(v), None => old_self.ignore },
            app_id: or_string(other.app_id, old_self.app_id),
            icon: or_string(other.icon, old_self.icon),
            show_icon: match other.show_icon { Some(v) => Some(v), None => old_self.show_icon },
            status_display_type: match other.status_display_type { Some(v) => Some(v), None => old_self.status_display_type },
            override_activity_type: match other.override_activity_type { Some(v) => Some(v), None => old_self.override_activity_type },
        };
    }

    /// `base` with this layer's settings applied.
    pub fn apply_into_web_player(&self, base: WebPlayerConfig) -> (r: WebPlayerConfig)
        ensures
            r@ == apply_web_layer(self@, base@),
    {
        let mut base = base;
        let patterns = self.effective_patterns();
        if patterns.len() > 0 {
            base.match_patterns = patterns;
        }
        if let Some(value) = &self.title_suffix {
            base.title_suffix = Some(value.clone());
        }
        if let Some(value) = &self.name {
            base.name = Some(value.clone());
        }
        if let Some(value) = self.ignore {
            base.ignore = value;
        }
        if let Some(value) = &self.app_id {
            base.app_id = Some(value.clone());
        }
        if let Some(value) = &self.icon {
            base.icon = Some(value.clone());
        }
        if let Some(value) = self.show_icon {
            base.show_icon = Some(value);
        }
        if let Some(value) = self.status_display_type {
            base.status_display_type = Some(value);
        }
        if let Some(value) = self.override_activity_type {
            base.override_activity_type = Some(value);
        }
        base
    }
}

impl WebPlayerConfig {
    /// The player settings this web player stands for: its explicit values
    /// over the defaults, with streaming always allowed.
    pub fn into_player_config(self) -> (r: PlayerConfig)
        ensures
            r@ == web_into_player(self@),
    {
        let mut p = PlayerConfig::default();
        if let Some(name) = self.name {
            p.name = Some(name);
        }
        p.ignore = self.ignore;
        if let Some(app_id) = self.app_id {
            p.app_id = app_id;
        }
        if let Some(icon) = self.icon {
            p.icon = icon;
        }
        if let Some(show_icon) = self.show_icon {
            p.show_icon = show_icon;
        }
        p.allow_streaming = true;
        if let Some(sdt) = self.status_display_type {
            p.status_display_type = sdt;
        }
        if let Some(act) = self.override_activity_type {
            p.override_activity_type = Some(act);
        }
        p
    }
}

} // verus!
