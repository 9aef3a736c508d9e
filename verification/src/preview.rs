//! Decisions of the settings page: which player a template preview shows,
//! the sample address and label of a web player's preview, and the player
//! rows: those of running players and of configured players that are not
//! running.
use vstd::prelude::*;
use crate::cover::cache::{sort_strings, sorted_strs, strs};
use crate::cover::provider::strings_contain;
use crate::player::{canonical_bus, is_mprisence_web_bridge_bus, BRIDGE_CONFIG_KEY};
use crate::resolve::{
    effective_player_spec, get_player_layer, infos_view, keys_of, layer_get, match_keys, player_allowed, player_resolution,
    resolve_web_spec, source_allowed, title_match_spec, web_for_url_spec, web_override_spec, Config,
    PlayerConfigMatch, MatchInfoV,
};
use crate::config::{empty_player_layer, opt_seq, web_into_player, PlayerConfig, PlayerConfigLayer, PlayerConfigV, PlayerLayerV};
use crate::metadata::opt_str;
use crate::config::views;
use crate::text::{chars_of, concat_str, has_char, normalize_identity, normalize_player_identity, opt_view, str_eq, str_starts_with};

verus! {

broadcast use vstd::string::group_string_axioms;

/// A listed player as the preview sees it: its bus name, its playback
/// status, and whether it has a current track title.
#[derive(Debug, Clone)]
pub struct PreviewCandidate {
    pub player_bus_name: String,
    pub status: Option<String>,
    pub has_title: bool,
}

pub open spec fn shift(o: Option<int>, k: int) -> Option<int> {
    match o {
        Some(i) => Some(i + k),
        None => None,
    }
}

pub open spec fn is_bus(c: PreviewCandidate, bus: Option<&str>) -> bool {
    bus is Some && c.player_bus_name@ == bus->0@
}

pub open spec fn is_playing(c: PreviewCandidate) -> bool {
    c.status is Some && c.status->0@ == "Playing"@
}

/// The position of the first entry with the requested bus name.
pub open spec fn first_bus(es: Seq<PreviewCandidate>, bus: Option<&str>) -> Option<int>
    decreases es.len(),
{
    if es.len() == 0 {
        None
    } else if is_bus(es[0], bus) {
        Some(0)
    } else {
        shift(first_bus(es.drop_first(), bus), 1)
    }
}

/// The position of the first playing entry.
pub open spec fn first_playing(es: Seq<PreviewCandidate>) -> Option<int>
    decreases es.len(),
{
    if es.len() == 0 {
        None
    } else if is_playing(es[0]) {
        Some(0)
    } else {
        shift(first_playing(es.drop_first()), 1)
    }
}

/// The entry a preview shows: the requested player, else the first one
/// playing, else the first one; none when that entry has no track.
pub open spec fn preview_pick(es: Seq<PreviewCandidate>, bus: Option<&str>) -> Option<int> {
    let picked = if first_bus(es, bus) is Some {
        first_bus(es, bus)
    } else if first_playing(es) is Some {
        first_playing(es)
    } else if es.len() > 0 {
        Some(0int)
    } else {
        None
    };
    match picked {
        Some(i) => if 0 <= i < es.len() && es[i].has_title { Some(i) } else { None },
        None => None,
    }
}

fn find_first_bus(es: &Vec<PreviewCandidate>, bus: Option<&str>) -> (r: Option<usize>)
    ensures
        match r {
            Some(i) => first_bus(es@, bus) == Some(i as int) && i < es@.len(),
            None => first_bus(es@, bus) is None,
        },
{
    assert(es@.skip(0) =~= es@);
    let mut i: usize = 0;
    while i < es.len()
        invariant
            i <= es@.len(),
            first_bus(es@, bus) == shift(first_bus(es@.skip(i as int), bus), i as int),
        decreases es@.len() - i,
    {
        assert(es@.skip(i as int).drop_first() =~= es@.skip(i + 1));
        assert(es@.skip(i as int)[0] == es@[i as int]);
        let hit = match bus {
            Some(b) => str_eq(es[i].player_bus_name.as_str(), b),
            None => false,
        };
        if hit {
            return Some(i);
        }
        i += 1;
    }
    assert(es@.skip(i as int) =~= Seq::<PreviewCandidate>::empty());
    None
}

fn find_first_playing(es: &Vec<PreviewCandidate>) -> (r: Option<usize>)
    ensures
        match r {
            Some(i) => first_playing(es@) == Some(i as int) && i < es@.len(),
            None => first_playing(es@) is None,
        },
{
    assert(es@.skip(0) =~= es@);
    let mut i: usize = 0;
    while i < es.len()
        invariant
            i <= es@.len(),
            first_playing(es@) == shift(first_playing(es@.skip(i as int)), i as int),
        decreases es@.len() - i,
    {
        assert(es@.skip(i as int).drop_first() =~= es@.skip(i + 1));
        assert(es@.skip(i as int)[0] == es@[i as int]);
        let playing = match &es[i].status {
            Some(s) => str_eq(s.as_str(), "Playing"),
            None => false,
        };
        if playing {
            return Some(i);
        }
        i += 1;
    }
    assert(es@.skip(i as int) =~= Seq::<PreviewCandidate>::empty());
    None
}

/// The entry a template preview shows, by index.
pub fn pick_preview_entry(entries: &Vec<PreviewCandidate>, bus_name: Option<&str>) -> (r: Option<usize>)
    ensures
        match r {
            Some(i) => preview_pick(entries@, bus_name) == Some(i as int),
            None => preview_pick(entries@, bus_name) is None,
        },
{
    let picked = match find_first_bus(entries, bus_name) {
        Some(i) => Some(i),
        None => match find_first_playing(entries) {
            Some(i) => Some(i),
            None => if entries.len() > 0 { Some(0) } else { None },
        },
    };
    match picked {
        Some(i) => if entries[i].has_title { Some(i) } else { None },
        None => None,
    }
}

/// The art address a preview shows: a local file through the page's art
/// route for the player, any other address as it is.
pub open spec fn preview_art_spec(art_url: Option<Seq<char>>, bus: Seq<char>) -> Option<Seq<char>> {
    match art_url {
        Some(u) => if "file://"@.is_prefix_of(u) { Some("/api/art?player_bus_name="@ + bus) } else { Some(u) },
        None => None,
    }
}

pub fn preview_art_url(art_url: Option<&str>, player_bus_name: &str) -> (r: Option<String>)
    ensures
        opt_view(r) == preview_art_spec(match art_url { Some(u) => Some(u@), None => None }, player_bus_name@),
{
    match art_url {
        Some(u) => if str_starts_with(u, "file://") {
            Some(concat_str("/api/art?player_bus_name=", player_bus_name))
        } else {
            Some(u.to_owned())
        },
        None => None,
    }
}

/// A plain host pattern: not a regular expression and without wildcards.
pub open spec fn plain_pattern(p: Seq<char>) -> bool {
    !"re:"@.is_prefix_of(p) && !p.contains('*') && !p.contains('?')
}

/// The sample page address of a web player's preview: `https://` and its
/// first plain host pattern.
pub open spec fn sample_page_spec(patterns: Seq<Seq<char>>) -> Option<Seq<char>>
    decreases patterns.len(),
{
    if patterns.len() == 0 {
        None
    } else if plain_pattern(patterns[0]) {
        Some("https://"@ + patterns[0])
    } else {
        sample_page_spec(patterns.drop_first())
    }
}

pub fn sample_page_url(patterns: &Vec<String>) -> (r: Option<String>)
    ensures
        opt_view(r) == sample_page_spec(strs(patterns@)),
{
    let ghost ps = strs(patterns@);
    assert(ps.skip(0) =~= ps);
    let mut i: usize = 0;
    while i < patterns.len()
        invariant
            i <= patterns@.len(),
            ps == strs(patterns@),
            sample_page_spec(ps) == sample_page_spec(ps.skip(i as int)),
        decreases patterns@.len() - i,
    {
        assert(ps.skip(i as int).drop_first() =~= ps.skip(i + 1));
        assert(ps.skip(i as int)[0] == ps[i as int]);
        let p = patterns[i].as_str();
        let cs = chars_of(p);
        if !str_starts_with(p, "re:") && !has_char(cs.as_slice(), '*') && !has_char(cs.as_slice(), '?') {
            return Some(concat_str("https://", p));
        }
        i += 1;
    }
    assert(ps.skip(i as int) =~= Seq::<Seq<char>>::empty());
    None
}

/// The label of a web player's preview: its name, else `Website defaults`
/// for the default entry, else its key.
pub fn web_preview_label(name: Option<&str>, key: &str) -> (r: String)
    ensures
        r@ == match name {
            Some(n) => n@,
            None => if key@ == "default"@ { "Website defaults"@ } else { key@ },
        },
{
    match name {
        Some(n) => n.to_owned(),
        None => if str_eq(key, "default") { "Website defaults".to_owned() } else { key.to_owned() },
    }
}

/// The bus name a web player's preview shows.
pub fn web_preview_bus(key: &str) -> (r: String)
    ensures
        r@ == "mprisence_web."@ + key@,
{
    concat_str("mprisence_web.", key)
}

/// The rows of configured players that are not running: `default` first,
/// then every other merged key without a running row, in key order.
pub open spec fn configured_only_spec(merged: Seq<Seq<char>>, running: Seq<Seq<char>>) -> Seq<Seq<char>> {
    seq!["default"@] + sorted_strs(merged.filter(|k: Seq<char>| k != "default"@ && !running.contains(k)))
}

pub fn configured_only_keys(merged_keys: &Vec<String>, running_keys: &Vec<String>) -> (r: Vec<String>)
    ensures
        strs(r@) == configured_only_spec(strs(merged_keys@), strs(running_keys@)),
{
    let ghost ms = strs(merged_keys@);
    let ghost pred = |k: Seq<char>| k != "default"@ && !strs(running_keys@).contains(k);
    let mut offline: Vec<String> = Vec::new();
    proof {
        reveal(Seq::filter);
        assert(ms.take(0).filter(pred) =~= Seq::<Seq<char>>::empty());
    }
    let mut i: usize = 0;
    while i < merged_keys.len()
        invariant
            i <= merged_keys@.len(),
            ms == strs(merged_keys@),
            pred == (|k: Seq<char>| k != "default"@ && !strs(running_keys@).contains(k)),
            strs(offline@) == ms.take(i as int).filter(pred),
        decreases merged_keys@.len() - i,
    {
        assert(ms.take(i + 1).drop_last() =~= ms.take(i as int));
        proof {
            reveal(Seq::filter);
        }
        let k = merged_keys[i].as_str();
        if !str_eq(k, "default") && !strings_contain(running_keys, k) {
            let ghost prev = strs(offline@);
            offline.push(k.to_owned());
            assert(strs(offline@) =~= prev.push(ms[i as int]));
        }
        i += 1;
    }
    assert(ms.take(merged_keys@.len() as int) =~= ms);
    let sorted = sort_strings(&offline);
    let mut out: Vec<String> = Vec::new();
    out.push("default".to_owned());
    let mut j: usize = 0;
    while j < sorted.len()
        invariant
            j <= sorted@.len(),
            strs(out@) == seq!["default"@] + strs(sorted@).take(j as int),
        decreases sorted@.len() - j,
    {
        let ghost prev = strs(out@);
        out.push(sorted[j].clone());
        assert(strs(out@) =~= prev.push(strs(sorted@)[j as int]));
        j += 1;
        assert(strs(sorted@).take(j as int) =~= strs(sorted@).take(j - 1).push(strs(sorted@)[j - 1]));
    }
    assert(strs(sorted@).take(sorted@.len() as int) =~= strs(sorted@));
    out
}

/// Whether a configured-only row shows as allowed: the default row always;
/// another key when the player it names, or its entry, is admitted.
pub open spec fn configured_only_allowed_spec(cfg: Config, key: Seq<char>) -> bool {
    key == "default"@ || player_allowed(cfg, key, key) || source_allowed(cfg.allowed_players@, key, key, seq![key], None)
}

pub fn configured_only_allowed(cfg: &Config, key: &str) -> (r: bool)
    ensures
        r == configured_only_allowed_spec(*cfg, key@),
{
    if str_eq(key, "default") {
        return true;
    }
    if cfg.is_player_allowed(key, key) {
        return true;
    }
    let keys: Vec<String> = vec![key.to_owned()];
    assert(views(keys@) =~= seq![key@]);
    cfg.is_source_allowed(key, key, keys.as_slice(), None)
}

/// The label of a configured-only row.
pub fn configured_only_identity(key: &str) -> (r: String)
    ensures
        r@ == if key@ == "default"@ { "Default (all players)"@ } else { key@ },
{
    if str_eq(key, "default") { "Default (all players)".to_owned() } else { key.to_owned() }
}

/// The identity and bus name a listed player's settings are looked up
/// by: the bridge entry for players of the web bridge, else its own.
pub fn lookup_names(identity: &str, player_bus_name: &str) -> (r: (String, String))
    ensures
        BRIDGE_CONFIG_KEY@.is_prefix_of(canonical_bus(player_bus_name@)) ==> r.0@ == BRIDGE_CONFIG_KEY@ && r.1@ == BRIDGE_CONFIG_KEY@,
        !BRIDGE_CONFIG_KEY@.is_prefix_of(canonical_bus(player_bus_name@)) ==> r.0@ == identity@ && r.1@ == player_bus_name@,
{
    if is_mprisence_web_bridge_bus(player_bus_name) {
        (BRIDGE_CONFIG_KEY.to_owned(), BRIDGE_CONFIG_KEY.to_owned())
    } else {
        (identity.to_owned(), player_bus_name.to_owned())
    }
}

/// The entry key of a listed player: that of its last matched entry, else
/// its normalised identity.
pub fn row_config_key(matches: &Vec<PlayerConfigMatch>, identity: &str) -> (r: String)
    ensures
        r@ == if matches@.len() > 0 { matches@.last().config_key@ } else { normalize_identity(identity@) },
{
    if matches.len() > 0 {
        matches[matches.len() - 1].config_key.clone()
    } else {
        normalize_player_identity(identity)
    }
}

/// A player row of the settings page: the player, the entry its settings
/// are kept under, whether it may be shown, and its settings as resolved,
/// as merged for its entry, and as the user wrote them.
#[derive(Debug, Clone)]
pub struct PlayerRow {
    pub identity: String,
    pub player_bus_name: String,
    /// Key of the `[player.<key>]` entry the row edits.
    pub config_key: String,
    /// False for rows of configured players that are not running.
    pub live: bool,
    pub bundled: bool,
    pub allowed: bool,
    pub resolved: PlayerConfig,
    pub effective: PlayerConfigLayer,
    pub overrides: PlayerConfigLayer,
    pub matches: Vec<PlayerConfigMatch>,
    pub web_player_key: Option<String>,
}

/// The identity and bus name a player's settings are looked up by.
pub open spec fn lookup_names_spec(identity: Seq<char>, bus: Seq<char>) -> (Seq<char>, Seq<char>) {
    if BRIDGE_CONFIG_KEY@.is_prefix_of(canonical_bus(bus)) {
        (BRIDGE_CONFIG_KEY@, BRIDGE_CONFIG_KEY@)
    } else {
        (identity, bus)
    }
}

/// The settings, matched entries and web player of a source, as
/// `Config::resolve_source` gives them.
pub open spec fn source_resolution_spec(
    cfg: Config,
    identity: Seq<char>,
    bus: Seq<char>,
    url: Option<Seq<char>>,
    title: Option<Seq<char>>,
    config: PlayerConfigV,
    infos: Seq<MatchInfoV>,
    web_key: Option<Seq<char>>,
) -> bool {
    &&& infos == player_resolution(cfg, identity, bus).1
    &&& match url {
        Some(u) => config == web_override_spec(cfg, player_resolution(cfg, identity, bus).0, Some(u))
            && web_key == match web_for_url_spec(cfg, Some(u)) {
                Some((k, _)) => Some(k),
                None => None,
            },
        None => if cfg.web_player_enabled && title is Some
            && title_match_spec(cfg.merged_web_player@, title.unwrap()) is Some {
            let (k, _, _) = title_match_spec(cfg.merged_web_player@, title.unwrap()).unwrap();
            config == web_into_player(resolve_web_spec(cfg, k)) && web_key == Some(k)
        } else {
            config == player_resolution(cfg, identity, bus).0 && web_key is None
        },
    }
}

/// The layer stored under `key`, or an empty one.
pub open spec fn layer_or_empty(m: Seq<(String, PlayerConfigLayer)>, key: Seq<char>) -> PlayerLayerV {
    match layer_get(m, key) {
        Some(l) => l,
        None => empty_player_layer(),
    }
}

fn layer_or_default(m: &Vec<(String, PlayerConfigLayer)>, key: &str) -> (r: PlayerConfigLayer)
    ensures
        r@ == layer_or_empty(m@, key@),
{
    match get_player_layer(m, key) {
        Some(l) => l.clone_layer(),
        None => PlayerConfigLayer::default(),
    }
}

/// The row of a running player, from its identity, its bus name as
/// reported, and its track's URL and title. Players of the web bridge are
/// looked up by the bridge entry; the row edits the entry the player
/// matched last, else the one named by its normalised identity.
pub fn live_player_row(cfg: &Config, identity: &str, bus_name: &str, url: Option<&str>, title: Option<&str>)
    -> (r: PlayerRow)
    ensures
        r.identity@ == identity@,
        r.player_bus_name@ == canonical_bus(bus_name@),
        r.live,
        source_resolution_spec(*cfg, lookup_names_spec(identity@, canonical_bus(bus_name@)).0,
            lookup_names_spec(identity@, canonical_bus(bus_name@)).1, opt_str(url), opt_str(title),
            r.resolved@, infos_view(r.matches@), opt_seq(r.web_player_key)),
        r.allowed == source_allowed(cfg.allowed_players@, identity@, canonical_bus(bus_name@),
            match_keys(infos_view(r.matches@)), opt_seq(r.web_player_key)),
        r.config_key@ == if r.matches@.len() > 0 { r.matches@.last().config_key@ } else { normalize_identity(identity@) },
        r.effective@ == layer_or_empty(cfg.merged_player@, r.config_key@),
        r.overrides@ == layer_or_empty(cfg.user_player@, r.config_key@),
        r.bundled == layer_get(cfg.bundled_player@, r.config_key@) is Some,
{
    let bus = crate::player::canonical_player_bus_name(bus_name);
    let (ci, cb) = lookup_names(identity, bus.as_str());
    let resolution = cfg.resolve_source(ci.as_str(), cb.as_str(), url, title);
    let mut keys: Vec<String> = Vec::new();
    let mut i: usize = 0;
    while i < resolution.player_matches.len()
        invariant
            i <= resolution.player_matches@.len(),
            views(keys@) == match_keys(infos_view(resolution.player_matches@)).take(i as int),
        decreases resolution.player_matches@.len() - i,
    {
        let ghost prev = views(keys@);
        keys.push(resolution.player_matches[i].config_key.clone());
        assert(views(keys@) =~= prev.push(resolution.player_matches@[i as int].config_key@));
        i += 1;
        assert(match_keys(infos_view(resolution.player_matches@)).take(i as int)
            =~= match_keys(infos_view(resolution.player_matches@)).take(i - 1).push(resolution.player_matches@[i - 1].config_key@));
    }
    assert(match_keys(infos_view(resolution.player_matches@)).take(resolution.player_matches@.len() as int)
        =~= match_keys(infos_view(resolution.player_matches@)));
    let web_key: Option<&str> = match &resolution.web_player_key {
        Some(k) => Some(k.as_str()),
        None => None,
    };
    let allowed = cfg.is_source_allowed(identity, bus.as_str(), keys.as_slice(), web_key);
    let config_key = row_config_key(&resolution.player_matches, identity);
    let effective = layer_or_default(&cfg.merged_player, config_key.as_str());
    let overrides = layer_or_default(&cfg.user_player, config_key.as_str());
    let bundled = get_player_layer(&cfg.bundled_player, config_key.as_str()).is_some();
    PlayerRow {
        identity: identity.to_owned(),
        player_bus_name: bus,
        config_key,
        live: true,
        bundled,
        allowed,
        resolved: resolution.config,
        effective,
        overrides,
        matches: resolution.player_matches,
        web_player_key: resolution.web_player_key,
    }
}

/// Settings a configured-only row shows: those listed for its entry, or,
/// for `default` and keys of neither layer map, the settings a player of
/// that name would get.
pub open spec fn configured_only_resolved(cfg: Config, key: Seq<char>) -> PlayerConfigV {
    if key != "default"@ && (keys_of(cfg.bundled_player@).contains(key) || keys_of(cfg.user_player@).contains(key)) {
        effective_player_spec(cfg, key)
    } else {
        player_resolution(cfg, key, key).0
    }
}

/// The row of a configured player that is not running.
pub fn configured_only_row(cfg: &Config, key: &str) -> (r: PlayerRow)
    ensures
        r.identity@ == (if key@ == "default"@ { "Default (all players)"@ } else { key@ }),
        r.player_bus_name@ == Seq::<char>::empty(),
        r.config_key@ == key@,
        !r.live,
        r.allowed == configured_only_allowed_spec(*cfg, key@),
        r.resolved@ == configured_only_resolved(*cfg, key@),
        r.effective@ == layer_or_empty(cfg.merged_player@, key@),
        r.overrides@ == layer_or_empty(cfg.user_player@, key@),
        r.bundled == layer_get(cfg.bundled_player@, key@) is Some,
        r.matches@.len() == 0,
        r.web_player_key is None,
{
    let listed = cfg.effective_player_configs();
    let mut found: Option<PlayerConfig> = None;
    let mut i: usize = 0;
    while i < listed.len()
        invariant
            i <= listed@.len(),
            forall|j: int| 0 <= j < listed@.len() ==> (#[trigger] listed@[j]).1@ == effective_player_spec(*cfg, listed@[j].0@),
            match found {
                Some(c) => c@ == effective_player_spec(*cfg, key@) && keys_of(listed@).contains(key@),
                None => forall|j: int| 0 <= j < i ==> (#[trigger] listed@[j]).0@ != key@,
            },
        decreases listed@.len() - i,
    {
        if found.is_none() && str_eq(listed[i].0.as_str(), key) {
            assert(keys_of(listed@)[i as int] == key@);
            found = Some(listed[i].1.clone_config());
        }
        i += 1;
    }
    let resolved = match found {
        Some(c) => c,
        None => {
            proof {
                if keys_of(listed@).contains(key@) {
                    let j = choose|j: int| 0 <= j < keys_of(listed@).len() && keys_of(listed@)[j] == key@;
                    assert(listed@[j].0@ == key@);
                }
                if key@ != "default"@ && (keys_of(cfg.bundled_player@).contains(key@) || keys_of(cfg.user_player@).contains(key@)) {
                    assert(keys_of(listed@).contains(key@));
                }
            }
            cfg.get_player_config(key, key)
        },
    };
    PlayerRow {
        identity: configured_only_identity(key),
        player_bus_name: String::new(),
        config_key: key.to_owned(),
        live: false,
        bundled: get_player_layer(&cfg.bundled_player, key).is_some(),
        allowed: configured_only_allowed(cfg, key),
        resolved,
        effective: layer_or_default(&cfg.merged_player, key),
        overrides: layer_or_default(&cfg.user_player, key),
        matches: Vec::new(),
        web_player_key: None,
    }
}

/// A preview never shows a player without a current track: the picked
/// entry, when there is one, has a title.
pub proof fn law_picked_entry_has_track(es: Seq<PreviewCandidate>, bus: Option<&str>)
    ensures
        preview_pick(es, bus) matches Some(i) ==> 0 <= i < es.len() && es[i].has_title,
{
}

/// Default template strings, so the page can offer a per-field reset.
#[derive(Debug, Clone)]
pub struct TemplateDefaults {
    pub details: String,
    pub state: String,
    pub large_text: String,
    pub small_text: String,
}

/// The common settings the page shows as controls.
#[derive(Debug, Clone)]
pub struct Settings {
    pub interval: u64,
    pub event_driven: bool,
    pub fallback_poll_interval: u64,
    pub allowed_players: Vec<String>,
    pub web_player_enabled: bool,
    pub activity_type: String,
    pub use_content_type: bool,
    pub time_show: bool,
    pub time_as_elapsed: bool,
    pub details: String,
    pub state: String,
    pub large_text: String,
    pub small_text: String,
    pub cover_providers: Vec<String>,
    pub cover_file_names: Vec<String>,
    pub cover_local_search_depth: usize,
    pub musicbrainz_min_score: u8,
    pub imgbb_api_key: Option<String>,
    pub imgbb_expiration: u64,
    pub catbox_user_hash: Option<String>,
    pub catbox_use_litter: bool,
    pub catbox_litter_hours: u8,
    pub defaults: TemplateDefaults,
}

/// The settings the page shows for a configuration, with the templates of
/// the default configuration as the reset values.
pub fn settings_of(cfg: &Config, default_template: &crate::config::TemplateConfig) -> (r: Settings)
    ensures
        r.interval == cfg.interval,
        r.event_driven == cfg.event_driven,
        r.fallback_poll_interval == cfg.fallback_poll_interval,
        views(r.allowed_players@) == views(cfg.allowed_players@),
        r.web_player_enabled == cfg.web_player_enabled,
        r.activity_type@ == crate::report::activity_text(cfg.activity_type.default),
        r.use_content_type == cfg.activity_type.use_content_type,
        r.time_show == cfg.time.show,
        r.time_as_elapsed == cfg.time.as_elapsed,
        r.details@ == cfg.template.details@,
        r.state@ == cfg.template.state@,
        r.large_text@ == cfg.template.large_text@,
        r.small_text@ == cfg.template.small_text@,
        views(r.cover_providers@) == views(cfg.cover.provider.provider@),
        views(r.cover_file_names@) == views(cfg.cover.file_names@),
        r.cover_local_search_depth == cfg.cover.local_search_depth,
        r.musicbrainz_min_score == cfg.cover.provider.musicbrainz.min_score,
        opt_view(r.imgbb_api_key) == opt_view(cfg.cover.provider.imgbb.api_key),
        r.imgbb_expiration == cfg.cover.provider.imgbb.expiration,
        opt_view(r.catbox_user_hash) == opt_view(cfg.cover.provider.catbox.user_hash),
        r.catbox_use_litter == cfg.cover.provider.catbox.use_litter,
        r.catbox_litter_hours == cfg.cover.provider.catbox.litter_hours,
        r.defaults.details@ == default_template.details@,
        r.defaults.state@ == default_template.state@,
        r.defaults.large_text@ == default_template.large_text@,
        r.defaults.small_text@ == default_template.small_text@,
{
    Settings {
        interval: cfg.interval,
        event_driven: cfg.event_driven,
        fallback_poll_interval: cfg.fallback_poll_interval,
        allowed_players: crate::config::clone_vec(&cfg.allowed_players),
        web_player_enabled: cfg.web_player_enabled,
        activity_type: crate::report::format_activity_type(Some(cfg.activity_type.default)).to_owned(),
        use_content_type: cfg.activity_type.use_content_type,
        time_show: cfg.time.show,
        time_as_elapsed: cfg.time.as_elapsed,
        details: cfg.template.details.clone(),
        state: cfg.template.state.clone(),
        large_text: cfg.template.large_text.clone(),
        small_text: cfg.template.small_text.clone(),
        cover_providers: crate::config::clone_vec(&cfg.cover.provider.provider),
        cover_file_names: crate::config::clone_vec(&cfg.cover.file_names),
        cover_local_search_depth: cfg.cover.local_search_depth,
        musicbrainz_min_score: cfg.cover.provider.musicbrainz.min_score,
        imgbb_api_key: crate::text::clone_opt_string(&cfg.cover.provider.imgbb.api_key),
        imgbb_expiration: cfg.cover.provider.imgbb.expiration,
        catbox_user_hash: crate::text::clone_opt_string(&cfg.cover.provider.catbox.user_hash),
        catbox_use_litter: cfg.cover.provider.catbox.use_litter,
        catbox_litter_hours: cfg.cover.provider.catbox.litter_hours,
        defaults: TemplateDefaults {
            details: default_template.details.clone(),
            state: default_template.state.clone(),
            large_text: default_template.large_text.clone(),
            small_text: default_template.small_text.clone(),
        },
    }
}

/// The row of a configured player that a scoped preview shows: the first
/// row of that entry key that is not a web player's.
pub open spec fn scoped_row_spec(keys: Seq<Seq<char>>, web: Seq<bool>, key: Seq<char>) -> Option<int>
    decreases keys.len(),
{
    if keys.len() == 0 || web.len() != keys.len() {
        None
    } else if keys[0] == key && !web[0] {
        Some(0)
    } else {
        shift(scoped_row_spec(keys.drop_first(), web.drop_first(), key), 1)
    }
}

/// The row a player-scoped preview shows, by index, from each row's entry
/// key and whether it is a web player's.
pub fn scoped_player_row(config_keys: &Vec<String>, is_web: &Vec<bool>, key: &str) -> (r: Option<usize>)
    requires
        config_keys@.len() == is_web@.len(),
    ensures
        match r {
            Some(i) => scoped_row_spec(strs(config_keys@), is_web@, key@) == Some(i as int),
            None => scoped_row_spec(strs(config_keys@), is_web@, key@) is None,
        },
{
    let ghost ks = strs(config_keys@);
    assert(ks.skip(0) =~= ks && is_web@.skip(0) =~= is_web@);
    let mut i: usize = 0;
    while i < config_keys.len()
        invariant
            i <= config_keys@.len(),
            config_keys@.len() == is_web@.len(),
            ks == strs(config_keys@),
            scoped_row_spec(ks, is_web@, key@) == shift(scoped_row_spec(ks.skip(i as int), is_web@.skip(i as int), key@), i as int),
        decreases config_keys@.len() - i,
    {
        assert(ks.skip(i as int).drop_first() =~= ks.skip(i + 1));
        assert(is_web@.skip(i as int).drop_first() =~= is_web@.skip(i + 1));
        assert(ks.skip(i as int)[0] == ks[i as int]);
        if str_eq(config_keys[i].as_str(), key) && !is_web[i] {
            return Some(i);
        }
        i += 1;
    }
    assert(ks.skip(i as int) =~= Seq::<Seq<char>>::empty());
    None
}

} // verus!
