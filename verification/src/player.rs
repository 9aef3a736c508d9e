//! Player identities on D-Bus, bridge players, change detection and the
//! selection of one winner among players that expose the same content.
use vstd::prelude::*;
use crate::health::PlaybackStatus;
use crate::text::{
    all_ascii_digits, chars_of, has_prefix, is_all_ascii_digits, join_chars, join_seqs, opt_view, seqs_of,
    split_chars, split_on, str_eq, str_starts_with, string_from, trim_prefix_all, trim_prefix_all_exec,
    parse_u64, parse_u64_spec, str_contains, contains_seq, opt_string_eq, lines_chars, lines_of, trim,
    trim_chars, trim_str,
};

verus! {

broadcast use vstd::string::group_string_axioms;

pub const MPRIS_BUS_PREFIX: &'static str = "org.mpris.MediaPlayer2.";
pub const PLAYERCTLD_NO_ACTIVE_PLAYER_ERROR: &'static str = "com.github.altdesktop.playerctld.NoActivePlayer";
pub const PLAYERCTLD_NO_ACTIVE_PLAYER_MESSAGE: &'static str = "No player is being controlled by playerctld";
/// The stable config key all bridge MPRIS players resolve to.
pub const BRIDGE_CONFIG_KEY: &'static str = "mprisence_web";
pub const PROXY_BUS_NAME: &'static str = "playerctld";
pub const INSTANCE_PREFIX: &'static str = "instance";

/// The bus-name segments after the MPRIS prefix, with an instance suffix
/// (`instance…` or all digits) dropped when there is more than one segment.
pub open spec fn canonical_segments(raw: Seq<char>) -> Seq<Seq<char>> {
    let segs = split_on(trim_prefix_all(raw, MPRIS_BUS_PREFIX@), '.');
    if segs.len() > 1 && (INSTANCE_PREFIX@.is_prefix_of(segs.last()) || all_ascii_digits(segs.last())) {
        segs.drop_last()
    } else {
        segs
    }
}

/// The player part of a bus name, e.g. `vlc` for `org.mpris.MediaPlayer2.vlc.instance12`.
pub open spec fn canonical_bus(raw: Seq<char>) -> Seq<char> {
    join_seqs(canonical_segments(raw), seq!['.'])
}

/// Strip the MPRIS prefix and any instance suffix from a bus name.
pub fn canonical_player_bus_name(raw_bus_name: &str) -> (r: String)
    ensures
        r@ == canonical_bus(raw_bus_name@),
{
    let raw = chars_of(raw_bus_name);
    let prefix = chars_of(MPRIS_BUS_PREFIX);
    let without_prefix = trim_prefix_all_exec(raw.as_slice(), prefix.as_slice());
    let mut segments = split_chars(without_prefix.as_slice(), '.');
    let ghost segs = seqs_of(segments@);
    if segments.len() > 1 {
        let last_idx = segments.len() - 1;
        let instance = chars_of(INSTANCE_PREFIX);
        let drop = has_prefix(segments[last_idx].as_slice(), instance.as_slice())
            || is_all_ascii_digits(segments[last_idx].as_slice());
        if drop {
            segments.pop();
            assert(seqs_of(segments@) =~= segs.drop_last());
        }
    }
    let dot = ['.'];
    assert(dot@ == seq!['.']);
    let joined = join_chars(segments.as_slice(), &dot);
    string_from(joined.as_slice())
}

/// A known proxy bus (playerctld) that forwards another player's events.
pub fn is_proxy_bus_name(canonical_bus_name: &str) -> (r: bool)
    ensures
        r == (canonical_bus_name@ == PROXY_BUS_NAME@),
{
    str_eq(canonical_bus_name, PROXY_BUS_NAME)
}

/// A bridge player of the web bridge: its canonical name starts with `mprisence_web`.
pub fn is_mprisence_web_bridge_bus(raw_bus_name: &str) -> (r: bool)
    ensures
        r == BRIDGE_CONFIG_KEY@.is_prefix_of(canonical_bus(raw_bus_name@)),
{
    let canon = canonical_player_bus_name(raw_bus_name);
    str_starts_with(canon.as_str(), BRIDGE_CONFIG_KEY)
}

/// String-valued entries of MPRIS metadata, keyed by metadata name.
#[derive(Debug, Clone)]
pub struct MetadataFields {
    pub entries: Vec<(String, String)>,
}

/// The value of the first entry named `key`, if any.
pub open spec fn lookup(entries: Seq<(String, String)>, key: Seq<char>) -> Option<Seq<char>>
    decreases entries.len(),
{
    if entries.len() == 0 {
        None
    } else if entries[0].0@ == key {
        Some(entries[0].1@)
    } else {
        lookup(entries.drop_first(), key)
    }
}

impl MetadataFields {
    /// The string value stored under `key`.
    pub fn get(&self, key: &str) -> (r: Option<String>)
        ensures
            opt_view(r) == lookup(self.entries@, key@),
    {
        let mut i: usize = 0;
        assert(self.entries@.skip(0) =~= self.entries@);
        while i < self.entries.len()
            invariant
                i <= self.entries@.len(),
                lookup(self.entries@, key@) == lookup(self.entries@.skip(i as int), key@),
            decreases self.entries@.len() - i,
        {
            let ghost rest = self.entries@.skip(i as int);
            assert(rest.drop_first() =~= self.entries@.skip(i + 1));
            if str_eq(self.entries[i].0.as_str(), key) {
                return Some(self.entries[i].1.clone());
            }
            i += 1;
        }
        None
    }
}

pub const BRIDGE_MARKER_KEY: &'static str = "mprisence:bridge";
pub const BRIDGE_GROUP_KEY: &'static str = "mprisence:group";
pub const BRIDGE_SITE_KEY: &'static str = "mprisence:site";
pub const BRIDGE_CONFIDENCE_KEY: &'static str = "mprisence:confidence";
pub const BRIDGE_ACTIVE_KEY: &'static str = "mprisence:active";
pub const BRIDGE_SEEN_AGE_KEY: &'static str = "mprisence:seenAgeMs";
pub const TRUE_TEXT: &'static str = "true";

/// The entry `key` holds the text `true`.
pub open spec fn flag_set(m: MetadataFields, key: Seq<char>) -> bool {
    lookup(m.entries@, key) == Some(TRUE_TEXT@)
}

fn flag_exec(metadata: &MetadataFields, key: &str) -> (r: bool)
    ensures
        r == flag_set(*metadata, key@),
{
    match metadata.get(key) {
        Some(v) => str_eq(v.as_str(), TRUE_TEXT),
        None => false,
    }
}

/// The metadata carries the bridge marker.
pub fn has_bridge_metadata_marker(metadata: &MetadataFields) -> (r: bool)
    ensures
        r == flag_set(*metadata, BRIDGE_MARKER_KEY@),
{
    flag_exec(metadata, BRIDGE_MARKER_KEY)
}

/// The bridge group (site) of a bridge player; `None` without the marker.
pub fn bridge_group_key(metadata: &MetadataFields) -> (r: Option<String>)
    ensures
        opt_view(r) == (if flag_set(*metadata, BRIDGE_MARKER_KEY@) { lookup(metadata.entries@, BRIDGE_GROUP_KEY@) } else { None }),
{
    if !has_bridge_metadata_marker(metadata) {
        return None;
    }
    metadata.get(BRIDGE_GROUP_KEY)
}

/// The site a bridge player reports.
pub fn bridge_site(metadata: &MetadataFields) -> (r: Option<String>)
    ensures
        opt_view(r) == lookup(metadata.entries@, BRIDGE_SITE_KEY@),
{
    metadata.get(BRIDGE_SITE_KEY)
}

/// The confidence a bridge player reports.
pub fn bridge_confidence(metadata: &MetadataFields) -> (r: Option<String>)
    ensures
        opt_view(r) == lookup(metadata.entries@, BRIDGE_CONFIDENCE_KEY@),
{
    metadata.get(BRIDGE_CONFIDENCE_KEY)
}

/// Whether the bridge marks this source as the active one.
pub fn bridge_is_active(metadata: &MetadataFields) -> (r: bool)
    ensures
        r == flag_set(*metadata, BRIDGE_ACTIVE_KEY@),
{
    flag_exec(metadata, BRIDGE_ACTIVE_KEY)
}

/// Identity of one player on the bus.
#[derive(Debug, Clone)]
pub struct PlayerIdentifier {
    pub player_bus_name: String,
    pub identity: String,
    pub unique_name: String,
}

/// Candidate `i` is on the bus `current` (when one is given).
pub open spec fn on_current_bus(c: Seq<PlayerIdentifier>, current: Option<&str>, i: int) -> bool {
    match current {
        Some(b) => c[i].player_bus_name@ == b@,
        None => false,
    }
}

/// Candidate `i` is not the proxy bus.
pub open spec fn not_proxy(c: Seq<PlayerIdentifier>, i: int) -> bool {
    c[i].player_bus_name@ != PROXY_BUS_NAME@
}

/// The winner among buses of one identity: the first on the current bus,
/// else the first non-proxy bus, else index 0.
pub fn select_winner_idx(candidates: &[PlayerIdentifier], current_bus: Option<&str>) -> (r: usize)
    ensures
        ({
            let c = candidates@;
            if exists|j: int| 0 <= j < c.len() && on_current_bus(c, current_bus, j) {
                &&& r < c.len()
                &&& on_current_bus(c, current_bus, r as int)
                &&& forall|k: int| 0 <= k < r ==> !on_current_bus(c, current_bus, k)
            } else if exists|j: int| 0 <= j < c.len() && not_proxy(c, j) {
                &&& r < c.len()
                &&& not_proxy(c, r as int)
                &&& forall|k: int| 0 <= k < r ==> !not_proxy(c, k)
            } else {
                r == 0
            }
        }),
{
    let ghost c = candidates@;
    if let Some(current) = current_bus {
        let mut i: usize = 0;
        while i < candidates.len()
            invariant
                c == candidates@,
                current_bus == Some(current),
                i <= c.len(),
                forall|j: int| 0 <= j < i ==> !on_current_bus(c, current_bus, j),
            decreases c.len() - i,
        {
            if str_eq(candidates[i].player_bus_name.as_str(), current) {
                return i;
            }
            i += 1;
        }
    }
    let mut i: usize = 0;
    while i < candidates.len()
        invariant
            c == candidates@,
            i <= c.len(),
            forall|j: int| 0 <= j < c.len() ==> !on_current_bus(c, current_bus, j),
            forall|j: int| 0 <= j < i ==> !not_proxy(c, j),
        decreases c.len() - i,
    {
        if !is_proxy_bus_name(candidates[i].player_bus_name.as_str()) {
            return i;
        }
        i += 1;
    }
    0
}

/// What the bridge winner selection reads of one bridge player.
#[derive(Debug, Clone)]
pub struct BridgeCandidate {
    /// Canonical bus name of the player.
    pub player_bus_name: String,
    /// The player's metadata, when it could be read.
    pub metadata: Option<MetadataFields>,
    /// The player reports `Playing`.
    pub is_playing: bool,
}

pub const PROVIDER_CONFIDENCE: &'static str = "provider";
pub const DOM_CONFIDENCE: &'static str = "dom";

/// Points for the confidence the bridge reports.
pub open spec fn confidence_points(m: Option<MetadataFields>) -> int {
    match m {
        Some(md) => match lookup(md.entries@, BRIDGE_CONFIDENCE_KEY@) {
            Some(c) => if c == PROVIDER_CONFIDENCE@ { 3 } else if c == DOM_CONFIDENCE@ { 2 } else { 1 },
            None => 0,
        },
        None => 0,
    }
}

/// Age (ms) since the bridge last saw the source; 0 when absent or unparsable.
pub open spec fn seen_age(m: Option<MetadataFields>) -> u64 {
    match m {
        Some(md) => match lookup(md.entries@, BRIDGE_SEEN_AGE_KEY@) {
            Some(t) => match parse_u64_spec(t) { Some(v) => v, None => 0 },
            None => 0,
        },
        None => 0,
    }
}

/// Recency points: `60_000 - age` (age truncated to 32 bits, floored at 0), in seconds.
pub open spec fn recency_points(age: u64) -> int {
    let a = (age % 0x1_0000_0000) as int;
    if a >= 60000 { 0 } else { (60000 - a) / 1000 }
}

/// Score of a bridge player: activity and playback first, then confidence,
/// recency, and a small bonus for staying on the current bus.
pub open spec fn bridge_score(c: BridgeCandidate, current_bus: Option<&str>) -> int {
    let active = match c.metadata { Some(m) => flag_set(m, BRIDGE_ACTIVE_KEY@), None => false };
    let base = if active && c.is_playing { 200int } else if c.is_playing { 150int } else if active { 120int } else { 80int };
    let stability = match current_bus { Some(b) => if b@ == c.player_bus_name@ { 5int } else { 0int }, None => 0int };
    base + confidence_points(c.metadata) + recency_points(seen_age(c.metadata)) + stability
}

fn confidence_points_exec(m: &Option<MetadataFields>) -> (r: u32)
    ensures
        r == confidence_points(*m),
{
    match m {
        Some(md) => match bridge_confidence(md) {
            Some(c) => if str_eq(c.as_str(), PROVIDER_CONFIDENCE) { 3 } else if str_eq(c.as_str(), DOM_CONFIDENCE) { 2 } else { 1 },
            None => 0,
        },
        None => 0,
    }
}

fn seen_age_exec(m: &Option<MetadataFields>) -> (r: u64)
    ensures
        r == seen_age(*m),
{
    match m {
        Some(md) => match md.get(BRIDGE_SEEN_AGE_KEY) {
            Some(t) => match parse_u64(t.as_str()) { Some(v) => v, None => 0 },
            None => 0,
        },
        None => 0,
    }
}

/// Score of one bridge candidate.
pub fn bridge_score_exec(c: &BridgeCandidate, current_bus: Option<&str>) -> (r: u32)
    ensures
        r == bridge_score(*c, current_bus),
{
    let active = match &c.metadata { Some(m) => bridge_is_active(m), None => false };
    let mut score: u32 = if active && c.is_playing { 200 } else if c.is_playing { 150 } else if active { 120 } else { 80 };
    score += confidence_points_exec(&c.metadata);
    let age = seen_age_exec(&c.metadata);
    let age32 = (age % 0x1_0000_0000) as u32;
    let rest: u32 = if age32 >= 60000 { 0 } else { 60000 - age32 };
    score += rest / 1000;
    match current_bus {
        Some(b) => if str_eq(b, c.player_bus_name.as_str()) { score += 5; },
        None => {},
    }
    score
}

/// Index of the winner among bridge players of one site: the first with
/// the highest score; 0 for fewer than two players.
pub fn select_bridge_winner(players: &[BridgeCandidate], current_bus: Option<&str>) -> (r: usize)
    ensures
        players@.len() <= 1 ==> r == 0,
        players@.len() > 1 ==> {
            &&& r < players@.len()
            &&& forall|j: int| 0 <= j < players@.len() ==> bridge_score(players@[j], current_bus) <= bridge_score(players@[r as int], current_bus)
            &&& forall|j: int| 0 <= j < r ==> bridge_score(players@[j], current_bus) < bridge_score(players@[r as int], current_bus)
        },
{
    if players.len() <= 1 {
        return 0;
    }
    let mut best: usize = 0;
    let mut best_score = bridge_score_exec(&players[0], current_bus);
    let mut i: usize = 1;
    while i < players.len()
        invariant
            1 <= i <= players@.len(),
            best < i,
            best_score == bridge_score(players@[best as int], current_bus),
            forall|j: int| 0 <= j < i ==> bridge_score(players@[j], current_bus) <= best_score,
            forall|j: int| 0 <= j < best ==> bridge_score(players@[j], current_bus) < best_score,
        decreases players@.len() - i,
    {
        let sc = bridge_score_exec(&players[i], current_bus);
        if sc > best_score {
            best = i;
            best_score = sc;
        }
        i += 1;
    }
    best
}

/// What the richness score reads of a player's metadata.
#[derive(Debug, Clone)]
pub struct TrackSummary {
    pub title: Option<String>,
    pub album: Option<String>,
    pub artists: Option<Vec<String>>,
    pub art_url: Option<String>,
    /// Track length (ms).
    pub length: Option<u64>,
}

pub open spec fn some_nonempty(artists: Option<Vec<String>>) -> bool {
    match artists {
        Some(a) => exists|i: int| 0 <= i < a@.len() && a@[i]@.len() > 0,
        None => false,
    }
}

/// Richness of metadata: title 1, non-empty album 2, a non-empty artist 2,
/// art URL 3, length 1; no metadata scores 0.
pub open spec fn richness(m: Option<TrackSummary>) -> int {
    match m {
        Some(t) => (if t.title is Some { 1int } else { 0int })
            + (if t.album is Some && t.album->0@.len() > 0 { 2int } else { 0int })
            + (if some_nonempty(t.artists) { 2int } else { 0int })
            + (if t.art_url is Some { 3int } else { 0int })
            + (if t.length is Some { 1int } else { 0int }),
        None => 0,
    }
}

/// Metadata richness score (higher is richer).
pub fn metadata_richness(m: &Option<TrackSummary>) -> (r: u8)
    ensures
        r == richness(*m),
{
    let mut score: u8 = 0;
    if let Some(t) = m {
        if t.title.is_some() {
            score += 1;
        }
        match &t.album {
            Some(a) => if chars_of(a.as_str()).len() > 0 { score += 2; },
            None => {},
        }
        match &t.artists {
            Some(a) => {
                let mut found = false;
                let mut i: usize = 0;
                while i < a.len()
                    invariant
                        i <= a@.len(),
                        found == exists|k: int| 0 <= k < i && a@[k]@.len() > 0,
                    decreases a@.len() - i,
                {
                    if chars_of(a[i].as_str()).len() > 0 {
                        found = true;
                    }
                    i += 1;
                }
                if found { score += 2; }
            },
            None => {},
        }
        if t.art_url.is_some() {
            score += 3;
        }
        if t.length.is_some() {
            score += 1;
        }
    }
    score
}

/// `k` is the first index of the current bus.
pub open spec fn first_current(buses: Seq<String>, current_bus: Option<&str>, k: int) -> bool {
    match current_bus {
        Some(c) => 0 <= k < buses.len() && buses[k]@ == c@ && forall|j: int| 0 <= j < k ==> buses[j]@ != c@,
        None => false,
    }
}

/// Score `k` is a maximum of the scores.
pub open spec fn is_max_score(sc: Seq<u8>, k: int) -> bool {
    0 <= k < sc.len() && forall|j: int| 0 <= j < sc.len() ==> sc[j] <= sc[k]
}

/// `k` is the first index holding the maximum score.
pub open spec fn first_max_score(sc: Seq<u8>, k: int) -> bool {
    is_max_score(sc, k) && forall|j: int| 0 <= j < k ==> sc[j] < sc[k]
}

/// Among players exposing the same content: the richest (first on ties),
/// unless the current bus is at least as rich.
pub fn select_richest_player(richness_scores: &[u8], bus_names: &[String], current_bus: Option<&str>) -> (r: usize)
    requires
        richness_scores@.len() == bus_names@.len(),
    ensures
        richness_scores@.len() <= 1 ==> r == 0,
        richness_scores@.len() > 1 ==> if exists|k: int| #[trigger] first_current(bus_names@, current_bus, k) && is_max_score(richness_scores@, k) {
            first_current(bus_names@, current_bus, r as int) && is_max_score(richness_scores@, r as int)
        } else {
            first_max_score(richness_scores@, r as int)
        },
{
    let n = richness_scores.len();
    if n <= 1 {
        return 0;
    }
    let mut best_idx: usize = 0;
    let mut best_score = richness_scores[0];
    let mut i: usize = 1;
    while i < n
        invariant
            n == richness_scores@.len(),
            1 <= i <= n,
            best_idx < i,
            best_score == richness_scores@[best_idx as int],
            forall|j: int| 0 <= j < i ==> richness_scores@[j] <= best_score,
            forall|j: int| 0 <= j < best_idx ==> richness_scores@[j] < best_score,
        decreases n - i,
    {
        if richness_scores[i] > best_score {
            best_score = richness_scores[i];
            best_idx = i;
        }
        i += 1;
    }
    if let Some(current) = current_bus {
        let mut k: usize = 0;
        while k < n
            invariant
                n == richness_scores@.len(),
                n == bus_names@.len(),
                n > 1,
                current_bus == Some(current),
                k <= n,
                best_idx < n,
                best_score == richness_scores@[best_idx as int],
                forall|j: int| 0 <= j < n ==> richness_scores@[j] <= best_score,
                forall|j: int| 0 <= j < best_idx ==> richness_scores@[j] < best_score,
                forall|j: int| 0 <= j < k ==> bus_names@[j]@ != current@,
            decreases n - k,
        {
            if str_eq(bus_names[k].as_str(), current) {
                assert(first_current(bus_names@, current_bus, k as int));
                if richness_scores[k] >= best_score {
                    return k;
                }
                assert forall|k2: int| #[trigger] first_current(bus_names@, current_bus, k2) implies k2 == k by {
                    if k2 < k { } else if k2 > k { assert(bus_names@[k as int]@ == current@); }
                }
                assert(!is_max_score(richness_scores@, k as int));
                return best_idx;
            }
            k += 1;
        }
        assert forall|k2: int| !#[trigger] first_current(bus_names@, current_bus, k2) by {
            if 0 <= k2 < n { assert(bus_names@[k2]@ != current@); }
        }
    }
    best_idx
}

/// What `is_playerctld_no_active_error` reads of a D-Bus error.
#[derive(Debug, Clone)]
pub enum DBusErrorInfo {
    /// A transport error with its D-Bus error name and message.
    TransportError { name: Option<String>, message: Option<String> },
    /// Any other error.
    Other,
}

/// playerctld reports that it controls no player.
pub fn is_playerctld_no_active_error(error: &DBusErrorInfo) -> (r: bool)
    ensures
        r == (match *error {
            DBusErrorInfo::TransportError { name, message } =>
                opt_view(name) == Some(PLAYERCTLD_NO_ACTIVE_PLAYER_ERROR@)
                || (message is Some && contains_seq(message->0@, PLAYERCTLD_NO_ACTIVE_PLAYER_MESSAGE@)),
            DBusErrorInfo::Other => false,
        }),
{
    match error {
        DBusErrorInfo::TransportError { name, message } => {
            let by_name = match name {
                Some(n) => str_eq(n.as_str(), PLAYERCTLD_NO_ACTIVE_PLAYER_ERROR),
                None => false,
            };
            by_name || match message {
                Some(m) => str_contains(m.as_str(), PLAYERCTLD_NO_ACTIVE_PLAYER_MESSAGE),
                None => false,
            }
        },
        DBusErrorInfo::Other => false,
    }
}

/// `a < b` for optional positions, with `None` below every value.
pub open spec fn opt_lt(a: Option<u32>, b: Option<u32>) -> bool {
    match (a, b) {
        (None, Some(_)) => true,
        (Some(x), Some(y)) => x < y,
        _ => false,
    }
}

/// Position (s) or zero.
pub open spec fn pos_or_zero(a: Option<u32>) -> int {
    match a { Some(x) => x as int, None => 0 }
}

fn opt_lt_exec(a: Option<u32>, b: Option<u32>) -> (r: bool)
    ensures
        r == opt_lt(a, b),
{
    match (a, b) {
        (None, Some(_)) => true,
        (Some(x), Some(y)) => x < y,
        _ => false,
    }
}

fn opt_status_eq(a: Option<PlaybackStatus>, b: Option<PlaybackStatus>) -> (r: bool)
    ensures
        r == (a == b),
{
    match (a, b) {
        (Some(x), Some(y)) => x == y,
        (None, None) => true,
        _ => false,
    }
}

/// Playback state of one player, as read each tick.
#[derive(Debug, Clone)]
pub struct PlaybackState {
    pub playback_status: Option<PlaybackStatus>,
    pub track_identifier: Option<String>,
    pub title: Option<String>,
    /// Position (s).
    pub position: Option<u32>,
    /// Volume (%).
    pub volume: Option<u8>,
    pub url: Option<String>,
    pub art_url: Option<String>,
}

/// Track identity, URL, art URL, status or volume changed.
pub open spec fn significant_change(cur: PlaybackState, prev: PlaybackState) -> bool {
    ||| opt_view(cur.track_identifier) != opt_view(prev.track_identifier)
    ||| opt_view(cur.url) != opt_view(prev.url)
    ||| opt_view(cur.art_url) != opt_view(prev.art_url)
    ||| cur.playback_status != prev.playback_status
    ||| cur.volume != prev.volume
}

/// Largest position change (s) expected between two polls: the poll
/// interval plus D-Bus delay plus a 2 s buffer, in whole seconds (32-bit).
pub open spec fn max_expected_change(polling_interval_ms: u64, dbus_delay_ms: u64) -> int {
    (((polling_interval_ms + dbus_delay_ms + 2000) / 1000) % 0x1_0000_0000) as int
}

/// A backward move, or a forward move beyond the expected change.
pub open spec fn position_jump(cur: Option<u32>, prev: Option<u32>, max_change: int) -> bool {
    ||| opt_lt(cur, prev)
    ||| (if pos_or_zero(cur) >= pos_or_zero(prev) { pos_or_zero(cur) - pos_or_zero(prev) } else { 0 }) > max_change
}

impl PlaybackState {
    /// Whether anything that matters to the presence changed.
    pub fn has_significant_changes(&self, previous: &Self) -> (r: bool)
        ensures
            r == significant_change(*self, *previous),
    {
        if !opt_string_eq(&self.track_identifier, &previous.track_identifier) {
            return true;
        }
        if !opt_string_eq(&self.url, &previous.url) {
            return true;
        }
        if !opt_string_eq(&self.art_url, &previous.art_url) {
            return true;
        }
        !opt_status_eq(self.playback_status, previous.playback_status) || self.volume != previous.volume
    }

    /// Whether the position moved in a way normal playback does not explain.
    pub fn has_position_jump(&self, previous: &Self, polling_interval_ms: u64, dbus_delay_ms: u64) -> (r: bool)
        requires
            polling_interval_ms + dbus_delay_ms + 2000 <= u64::MAX,
        ensures
            r == position_jump(self.position, previous.position, max_expected_change(polling_interval_ms, dbus_delay_ms)),
    {
        let total = polling_interval_ms + dbus_delay_ms + 2000;
        let max_change = ((total / 1000) % 0x1_0000_0000) as u32;
        if opt_lt_exec(self.position, previous.position) {
            return true;
        }
        let cur = match self.position { Some(p) => p, None => 0 };
        let prev = match previous.position { Some(p) => p, None => 0 };
        let elapsed = if cur >= prev { cur - prev } else { 0 };
        elapsed > max_change
    }
}

/// Player state of the earlier event loop.
#[derive(Debug, Clone)]
pub struct PlayerState {
    pub playback_status: Option<PlaybackStatus>,
    pub track_id: Option<String>,
    pub url: Option<String>,
    pub title: Option<String>,
    /// Position (s).
    pub position: Option<u32>,
    /// Volume (%).
    pub volume: Option<u8>,
}

impl PlayerState {
    /// Track identity, status or volume changed.
    pub fn has_metadata_changes(&self, previous: &Self) -> (r: bool)
        ensures
            r == (opt_view(self.track_id) != opt_view(previous.track_id)
                || opt_view(self.url) != opt_view(previous.url)
                || self.playback_status != previous.playback_status
                || self.volume != previous.volume),
    {
        if !opt_string_eq(&self.track_id, &previous.track_id) || !opt_string_eq(&self.url, &previous.url) {
            return true;
        }
        !opt_status_eq(self.playback_status, previous.playback_status) || self.volume != previous.volume
    }

    /// A backward move, or a forward move beyond twice the poll interval (whole seconds).
    pub fn has_position_jump(&self, previous: &Self, polling_interval_ms: u64) -> (r: bool)
        requires
            ((polling_interval_ms / 1000) % 0x1_0000_0000) * 2 <= u32::MAX,
        ensures
            r == position_jump(self.position, previous.position, ((polling_interval_ms / 1000) % 0x1_0000_0000) * 2),
    {
        let secs = ((polling_interval_ms / 1000) % 0x1_0000_0000) as u32;
        let max_change = secs * 2;
        if opt_lt_exec(self.position, previous.position) {
            return true;
        }
        let cur = match self.position { Some(p) => p, None => 0 };
        let prev = match previous.position { Some(p) => p, None => 0 };
        let elapsed = if cur >= prev { cur - prev } else { 0 };
        elapsed > max_change
    }
}

pub const CMUS_FILE_PREFIX: &'static str = "file ";

/// The path of a `file <path>` line, trimmed; absolute means starting with `/`.
pub open spec fn file_line_path(l: Seq<char>) -> Option<Seq<char>> {
    if CMUS_FILE_PREFIX@.is_prefix_of(l) {
        let p = trim(l.skip(CMUS_FILE_PREFIX@.len() as int));
        if p.len() > 0 && p[0] == '/' { Some(p) } else { None }
    } else {
        None
    }
}

/// The first absolute `file` path among the lines.
pub open spec fn first_track_path(lines: Seq<Seq<char>>) -> Option<Seq<char>>
    decreases lines.len(),
{
    if lines.len() == 0 {
        None
    } else if file_line_path(lines[0]) is Some {
        file_line_path(lines[0])
    } else {
        first_track_path(lines.drop_first())
    }
}

/// The current track path in `cmus-remote -Q` output.
pub fn parse_track_path(output: &str) -> (r: Option<String>)
    ensures
        opt_view(r) == first_track_path(lines_of(output@)),
{
    let chars = chars_of(output);
    let lines = lines_chars(chars.as_slice());
    let ghost ls = lines_of(output@);
    let prefix = chars_of(CMUS_FILE_PREFIX);
    let plen = prefix.len();
    let mut i: usize = 0;
    assert(ls.skip(0) =~= ls);
    while i < lines.len()
        invariant
            ls == crate::text::seqs_of(lines@),
            ls == lines_of(output@),
            prefix@ == CMUS_FILE_PREFIX@,
            plen == prefix@.len(),
            i <= lines@.len(),
            first_track_path(ls) == first_track_path(ls.skip(i as int)),
        decreases lines@.len() - i,
    {
        assert(ls.skip(i as int).drop_first() =~= ls.skip(i + 1));
        assert(ls.skip(i as int)[0] == lines@[i as int]@);
        let line = &lines[i];
        if has_prefix(line.as_slice(), prefix.as_slice()) {
            let mut rest: Vec<char> = Vec::new();
            let mut k: usize = plen;
            while k < line.len()
                invariant
                    plen <= k <= line@.len(),
                    rest@ == line@.subrange(plen as int, k as int),
                decreases line@.len() - k,
            {
                rest.push(line[k]);
                k += 1;
                assert(line@.subrange(plen as int, k as int) =~= line@.subrange(plen as int, k - 1).push(line@[k - 1]));
            }
            assert(rest@ =~= line@.skip(plen as int));
            let path = trim_chars(rest.as_slice());
            if path.len() > 0 && path[0] == '/' {
                return Some(string_from(path.as_slice()));
            }
        }
        i += 1;
    }
    None
}

/// How long `cmus-remote` may take to answer, in milliseconds.
pub const CMUS_REMOTE_TIMEOUT_MS: u64 = 2000;

/// Why asking `cmus-remote` for the current track failed.
#[derive(Debug, Clone, PartialEq, Eq)]
pub enum CmusRemoteError {
    /// No answer within the given number of milliseconds.
    Timeout(u64),
    /// The program could not be started; the launch error's message.
    Launch(String),
    /// The program exited unsuccessfully, with its exit code, if any, and
    /// what it said.
    NonZeroExit { status: Option<i32>, stderr: String },
}

/// What an unsuccessful run said: its error output trimmed, else its
/// standard output trimmed, else `no output`.
pub open spec fn exit_message(stdout: Seq<char>, stderr: Seq<char>) -> Seq<char> {
    if trim(stderr).len() > 0 {
        trim(stderr)
    } else if trim(stdout).len() > 0 {
        trim(stdout)
    } else {
        "no output"@
    }
}

/// The answer of a finished `cmus-remote -Q` run: the current track path
/// when it succeeded, otherwise the exit failure with its message.
pub fn cmus_remote_result(success: bool, code: Option<i32>, stdout: &str, stderr: &str) -> (r: Result<Option<String>, CmusRemoteError>)
    ensures
        success ==> (r matches Ok(p) && opt_view(p) == first_track_path(lines_of(stdout@))),
        !success ==> (r matches Err(CmusRemoteError::NonZeroExit { status, stderr: m }) && status == code
            && m@ == exit_message(stdout@, stderr@)),
{
    if success {
        return Ok(parse_track_path(stdout));
    }
    let err = trim_str(stderr);
    let message = if crate::text::char_len(err.as_str()) > 0 {
        err
    } else {
        let out = trim_str(stdout);
        if crate::text::char_len(out.as_str()) > 0 {
            out
        } else {
            proof {
                reveal_strlit("no output");
            }
            "no output".to_string()
        }
    };
    Err(CmusRemoteError::NonZeroExit { status: code, stderr: message })
}

/// The token cmus's current track is known by: its track id, else its
/// URL, else its title.
pub fn cmus_track_token(track_id: Option<&str>, url: Option<&str>, title: Option<&str>) -> (r: Option<String>)
    ensures
        opt_view(r) == match track_id {
            Some(t) => Some(t@),
            None => match url {
                Some(u) => Some(u@),
                None => match title { Some(t) => Some(t@), None => None },
            },
        },
{
    match track_id {
        Some(t) => Some(t.to_string()),
        None => match url {
            Some(u) => Some(u.to_string()),
            None => match title {
                Some(t) => Some(t.to_string()),
                None => None,
            },
        },
    }
}

/// What is known of cmus's current track between ticks: its token, the
/// file path `cmus-remote` reported for it, and whether a failure was
/// already reported for it.
#[derive(Debug, Clone)]
pub struct CmusState {
    pub track_id: Option<String>,
    pub path: Option<String>,
    pub error_logged: bool,
}

/// Name of the `file://` URL `url::Url::from_file_path` makes of a path;
/// none for a path that is not absolute.
pub uninterp spec fn file_url_of(path: Seq<char>) -> Option<Seq<char>>;

/// Wraps `url::Url::from_file_path` and `Url::to_string`; the outcome is
/// named by `file_url_of`.
#[verifier::external_body]
fn file_url(path: &str) -> (r: Option<String>)
    ensures
        opt_view(r) == file_url_of(path@),
{
    url::Url::from_file_path(path).ok().map(|u| u.to_string())
}

impl CmusState {
    /// Nothing known yet.
    pub fn new() -> (r: Self)
        ensures
            r.track_id is None && r.path is None && !r.error_logged,
    {
        CmusState { track_id: None, path: None, error_logged: false }
    }

    /// Forget everything.
    pub fn reset(&mut self)
        ensures
            final(self).track_id is None && final(self).path is None && !final(self).error_logged,
    {
        self.track_id = None;
        self.path = None;
        self.error_logged = false;
    }

    /// Note the current track's token: a different one forgets the path and
    /// the reported failure.
    pub fn observe_track(&mut self, token: Option<String>)
        ensures
            if opt_view(token) == opt_view(old(self).track_id) {
                *final(self) == *old(self)
            } else {
                opt_view(final(self).track_id) == opt_view(token) && final(self).path is None && !final(self).error_logged
            },
    {
        if !crate::text::opt_string_eq(&token, &self.track_id) {
            self.track_id = token;
            self.path = None;
            self.error_logged = false;
        }
    }

    /// Whether `cmus-remote` has to be asked for the path.
    pub fn needs_path(&self) -> (r: bool)
        ensures
            r == (self.path is None),
    {
        self.path.is_none()
    }

    /// Take the answer of `cmus-remote`: a path is kept; a failure is
    /// reported (`true`) only the first time for the track.
    pub fn record_answer(&mut self, answer: Result<Option<String>, CmusRemoteError>) -> (report: bool)
        ensures
            final(self).track_id == old(self).track_id,
            match answer {
                Ok(Some(p)) => opt_view(final(self).path) == Some(p@) && final(self).error_logged == old(self).error_logged && !report,
                Ok(None) => final(self).path == old(self).path && final(self).error_logged == old(self).error_logged && !report,
                Err(_) => final(self).path == old(self).path && final(self).error_logged && report == !old(self).error_logged,
            },
    {
        match answer {
            Ok(Some(p)) => {
                self.path = Some(p);
                false
            },
            Ok(None) => false,
            Err(_) => {
                let report = !self.error_logged;
                self.error_logged = true;
                report
            },
        }
    }

    /// The `file://` URL of the known path, and whether a failure to make
    /// one is to be reported (only the first time for the track).
    pub fn current_url(&mut self) -> (r: (Option<String>, bool))
        ensures
            final(self).track_id == old(self).track_id,
            final(self).path == old(self).path,
            match old(self).path {
                None => r.0 is None && !r.1 && final(self).error_logged == old(self).error_logged,
                Some(p) => opt_view(r.0) == file_url_of(p@) && match file_url_of(p@) {
                    Some(_) => !r.1 && final(self).error_logged == old(self).error_logged,
                    None => final(self).error_logged && r.1 == !old(self).error_logged,
                },
            },
    {
        let url = match &self.path {
            Some(p) => file_url(p.as_str()),
            None => return (None, false),
        };
        match url {
            Some(u) => (Some(u), false),
            None => {
                let report = !self.error_logged;
                self.error_logged = true;
                (None, report)
            },
        }
    }
}

/// Among bridge players whose confidence, recency and place on the current
/// bus agree, a playing one scores above one that is not playing, and
/// with the same playback the one the bridge marks active scores above
/// one it does not.
pub proof fn law_bridge_playing_first(c1: BridgeCandidate, c2: BridgeCandidate, current_bus: Option<&str>)
    requires
        confidence_points(c1.metadata) == confidence_points(c2.metadata),
        seen_age(c1.metadata) == seen_age(c2.metadata),
        match current_bus {
            Some(b) => (b@ == c1.player_bus_name@) == (b@ == c2.player_bus_name@),
            None => true,
        },
    ensures
        c1.is_playing && !c2.is_playing ==> bridge_score(c1, current_bus) > bridge_score(c2, current_bus),
        c1.is_playing == c2.is_playing
            && (match c1.metadata { Some(m) => flag_set(m, BRIDGE_ACTIVE_KEY@), None => false })
            && !(match c2.metadata { Some(m) => flag_set(m, BRIDGE_ACTIVE_KEY@), None => false })
            ==> bridge_score(c1, current_bus) > bridge_score(c2, current_bus),
{
}

/// Between bridge players that agree in everything but their bus, the one
/// on the current bus scores higher.
pub proof fn law_bridge_current_bus_bonus(c1: BridgeCandidate, c2: BridgeCandidate, b: &str)
    requires
        c1.metadata == c2.metadata,
        c1.is_playing == c2.is_playing,
        c1.player_bus_name@ == b@,
        c2.player_bus_name@ != b@,
    ensures
        bridge_score(c1, Some(b)) > bridge_score(c2, Some(b)),
{
}

} // verus!
