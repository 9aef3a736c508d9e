//! Which `[player.*]` and `[web_player.*]` entries apply to a player, in what
//! order they are layered, and what settings result.
use vstd::prelude::*;
use crate::config::{
    apply_layer, default_player, empty_player_layer, merged_layer, or, views, ActivityTypesConfig, CoverConfig,
    PlayerConfig, PlayerConfigLayer, PlayerConfigV, PlayerLayerV, TemplateConfig, TimeConfig,
    DEFAULT_EVENT_DRIVEN, DEFAULT_FALLBACK_POLL_INTERVAL, DEFAULT_INTERVAL, DEFAULT_WEB_PLAYER_ENABLED,
};
use crate::patterns::{
    byte_len, compile_single_pattern, compile_spec, compiled_matches, compiled_ok, is_regex, is_regex_pattern,
    match_target, parse_match_target, pattern_specificity, specificity, str_byte_len, CompiledPattern, CompiledV,
    PlayerMatchTarget,
};
use crate::text::{lex_less, normalize_identity, normalize_player_identity, str_eq, str_less, contains_seq, str_contains};
use crate::config::{
    apply_web_layer, effective_patterns_of, empty_web_config, merged_web_layer, web_into_player, WebConfigV, WebLayerV,
    WebPlayerConfig, WebPlayerConfigLayer,
};
use crate::patterns::{is_wildcard, is_wildcard_pattern};
use crate::urls::{host_for_match, is_http, is_http_url, url_host_for_match};

verus! {

broadcast use vstd::string::group_string_axioms;

/// The layer stored under `k` (the first entry with that key).
pub open spec fn layer_get(m: Seq<(String, PlayerConfigLayer)>, k: Seq<char>) -> Option<PlayerLayerV>
    decreases m.len(),
{
    if m.len() == 0 {
        None
    } else if m[0].0@ == k {
        Some(m[0].1@)
    } else {
        layer_get(m.drop_first(), k)
    }
}

/// The layer stored under `k`.
pub fn get_player_layer<'a>(m: &'a Vec<(String, PlayerConfigLayer)>, k: &str) -> (r: Option<&'a PlayerConfigLayer>)
    ensures
        match r {
            Some(l) => layer_get(m@, k@) == Some(l@),
            None => layer_get(m@, k@) is None,
        },
{
    let mut i: usize = 0;
    assert(m@.skip(0) =~= m@);
    while i < m.len()
        invariant
            i <= m@.len(),
            layer_get(m@, k@) == layer_get(m@.skip(i as int), k@),
        decreases m@.len() - i,
    {
        let ghost rest = m@.skip(i as int);
        assert(rest[0] == m@[i as int]);
        if str_eq(m[i].0.as_str(), k) {
            return Some(&m[i].1);
        }
        assert(rest.drop_first() =~= m@.skip(i + 1));
        i += 1;
    }
    None
}

/// Store `layer` under `key`, replacing the first entry with that key.
pub fn insert_player_layer(m: &mut Vec<(String, PlayerConfigLayer)>, key: &str, layer: PlayerConfigLayer)
    ensures
        layer_get(final(m)@, key@) == Some(layer@),
        forall|k: Seq<char>| k != key@ ==> layer_get(final(m)@, k) == layer_get(old(m)@, k),
{
    let ghost old_m = m@;
    let ghost lv = layer@;
    let ghost kv = key@;
    let mut i: usize = 0;
    while i < m.len()
        invariant
            i <= m@.len(),
            m@ == old_m,
            old_m == old(m)@,
            kv == key@,
            lv == layer@,
            forall|j: int| 0 <= j < i ==> m@[j].0@ != kv,
        decreases m@.len() - i,
    {
        if str_eq(m[i].0.as_str(), key) {
            m.set(i, (key.to_owned(), layer));
            proof {
                let e = m@[i as int];
                assert(m@ == old_m.update(i as int, e));
                assert(e.0@ == kv);
                lemma_layer_get_update(old_m, i as int, e);
                assert forall|k: Seq<char>| k != kv implies layer_get(m@, k) == layer_get(old_m, k) by {
                }
            }
            return;
        }
        assert(m@[i as int].0@ != kv);
        i += 1;
    }
    m.push((key.to_owned(), layer));
    proof { lemma_layer_get_push(old_m, m@[old_m.len() as int]); }
}

proof fn lemma_layer_get_update(m: Seq<(String, PlayerConfigLayer)>, i: int, e: (String, PlayerConfigLayer))
    requires
        0 <= i < m.len(),
        m[i].0@ == e.0@,
        forall|j: int| 0 <= j < i ==> m[j].0@ != e.0@,
    ensures
        layer_get(m.update(i, e), e.0@) == Some(e.1@),
        forall|k: Seq<char>| k != e.0@ ==> layer_get(m.update(i, e), k) == layer_get(m, k),
    decreases i,
{
    let u = m.update(i, e);
    if i == 0 {
        assert(u[0] == e);
        assert(u.drop_first() =~= m.drop_first());
        assert forall|k: Seq<char>| k != e.0@ implies layer_get(u, k) == layer_get(m, k) by {
            assert(u[0].0@ != k);
            assert(m[0].0@ != k);
        }
    } else {
        lemma_layer_get_update(m.drop_first(), i - 1, e);
        assert(u.drop_first() =~= m.drop_first().update(i - 1, e));
        assert(u[0] == m[0]);
        assert(m[0].0@ != e.0@);
        assert forall|k: Seq<char>| k != e.0@ implies layer_get(u, k) == layer_get(m, k) by {
            if m[0].0@ != k {
                assert(layer_get(u, k) == layer_get(u.drop_first(), k));
                assert(layer_get(m, k) == layer_get(m.drop_first(), k));
            }
        }
    }
}

proof fn lemma_layer_get_push(m: Seq<(String, PlayerConfigLayer)>, e: (String, PlayerConfigLayer))
    requires
        forall|j: int| 0 <= j < m.len() ==> m[j].0@ != e.0@,
    ensures
        layer_get(m.push(e), e.0@) == Some(e.1@),
        forall|k: Seq<char>| k != e.0@ ==> layer_get(m.push(e), k) == layer_get(m, k),
    decreases m.len(),
{
    let u = m.push(e);
    if m.len() == 0 {
        assert(u[0] == e);
        assert(u.drop_first().len() == 0);
        assert forall|k: Seq<char>| k != e.0@ implies layer_get(u, k) == layer_get(m, k) by {
            assert(u[0].0@ != k);
            assert(layer_get(u, k) == layer_get(u.drop_first(), k));
        }
    } else {
        assert forall|j: int| 0 <= j < m.drop_first().len() implies m.drop_first()[j].0@ != e.0@ by {
            assert(m.drop_first()[j] == m[j + 1]);
        }
        lemma_layer_get_push(m.drop_first(), e);
        assert(u.drop_first() =~= m.drop_first().push(e));
        assert(u[0] == m[0]);
        assert(m[0].0@ != e.0@);
        assert forall|k: Seq<char>| k != e.0@ implies layer_get(u, k) == layer_get(m, k) by {
            if m[0].0@ != k {
                assert(layer_get(u, k) == layer_get(u.drop_first(), k));
                assert(layer_get(m, k) == layer_get(m.drop_first(), k));
            }
        }
    }
}

/// A player pattern ready for matching.
#[derive(Debug, Clone)]
pub struct CompiledPlayerPattern {
    pub target: PlayerMatchTarget,
    pub raw: String,
    pub matcher: CompiledPattern,
    pub legacy: bool,
}

pub struct PlayerPatternV {
    pub target: PlayerMatchTarget,
    pub raw: Seq<char>,
    pub matcher: CompiledV,
    pub legacy: bool,
}

impl View for CompiledPlayerPattern {
    type V = PlayerPatternV;

    open spec fn view(&self) -> PlayerPatternV {
        PlayerPatternV { target: self.target, raw: self.raw@, matcher: self.matcher@, legacy: self.legacy }
    }
}

/// How a `[player.*]` pattern compiles: the target prefix selects the field
/// (any by default); a non-regex body is normalised like player names.
pub open spec fn player_pattern_spec(pattern: Seq<char>, legacy: bool) -> PlayerPatternV {
    let (target, body) = match_target(pattern);
    let normalized = if is_regex(body) { body } else { normalize_identity(body) };
    PlayerPatternV {
        target: match target { Some(t) => t, None => PlayerMatchTarget::Any },
        raw: pattern,
        matcher: compile_spec(normalized),
        legacy,
    }
}

pub fn compile_player_pattern(pattern: &str, legacy: bool) -> (r: CompiledPlayerPattern)
    ensures
        r@ == player_pattern_spec(pattern@, legacy),
{
    let (target, body) = parse_match_target(pattern);
    let target = match target {
        Some(t) => t,
        None => PlayerMatchTarget::Any,
    };
    let normalized = if is_regex_pattern(body.as_str()) { body } else { normalize_player_identity(body.as_str()) };
    CompiledPlayerPattern {
        target,
        raw: pattern.to_owned(),
        matcher: compile_single_pattern(normalized.as_str()),
        legacy,
    }
}

/// A pattern that matched, and how strongly.
#[derive(Debug, Clone)]
pub struct MatchedPlayerPattern {
    pub target: PlayerMatchTarget,
    pub pattern: String,
    pub value: String,
    pub legacy: bool,
    pub rank: Rank,
}

pub struct MatchedV {
    pub target: PlayerMatchTarget,
    pub pattern: Seq<char>,
    pub value: Seq<char>,
    pub legacy: bool,
    pub rank: Rank,
}

impl View for MatchedPlayerPattern {
    type V = MatchedV;

    open spec fn view(&self) -> MatchedV {
        MatchedV { target: self.target, pattern: self.pattern@, value: self.value@, legacy: self.legacy, rank: self.rank }
    }
}

/// Strength of a match: pattern kind (wildcard 0, regex 1, exact 2), scope
/// (either field 0, identity 1, bus 2), then specificity.
#[derive(Debug, Clone, Copy, PartialEq, Eq, Structural)]
pub struct Rank {
    pub kind: u8,
    pub scope: u8,
    pub specificity: usize,
}

/// Lexicographic order of match ranks: pattern kind (wildcard < regex <
/// exact), then scope (either field < identity < bus), then specificity.
pub open spec fn rank_le(a: Rank, b: Rank) -> bool {
    a.kind < b.kind || (a.kind == b.kind && (a.scope < b.scope || (a.scope == b.scope && a.specificity <= b.specificity)))
}

pub open spec fn rank_lt(a: Rank, b: Rank) -> bool {
    a.kind < b.kind || (a.kind == b.kind && (a.scope < b.scope || (a.scope == b.scope && a.specificity < b.specificity)))
}

/// Whether and how a player pattern matches the (normalised) identity and
/// bus name. An unscoped pattern tries the bus name first.
pub open spec fn match_player_spec(pp: PlayerPatternV, identity: Seq<char>, bus: Seq<char>) -> Option<MatchedV> {
    let hit: Option<(PlayerMatchTarget, Seq<char>, u8)> = match pp.target {
        PlayerMatchTarget::Identity => if compiled_matches(pp.matcher, identity) {
            Some((PlayerMatchTarget::Identity, identity, 1u8))
        } else {
            None
        },
        PlayerMatchTarget::Bus => if compiled_matches(pp.matcher, bus) {
            Some((PlayerMatchTarget::Bus, bus, 2u8))
        } else {
            None
        },
        PlayerMatchTarget::Any => if compiled_matches(pp.matcher, bus) {
            Some((PlayerMatchTarget::Bus, bus, 0u8))
        } else if compiled_matches(pp.matcher, identity) {
            Some((PlayerMatchTarget::Identity, identity, 0u8))
        } else {
            None
        },
    };
    match hit {
        Some((target, value, scope)) => Some(MatchedV {
            target,
            pattern: pp.raw,
            value,
            legacy: pp.legacy,
            rank: match pp.matcher {
                CompiledV::Wildcard(_) => Rank { kind: 0u8, scope, specificity: specificity(pp.raw) as usize },
                CompiledV::Regex(_) => Rank { kind: 1u8, scope, specificity: byte_len(pp.raw) as usize },
                CompiledV::Exact(_) => Rank { kind: 2u8, scope, specificity: byte_len(pp.raw) as usize },
            },
        }),
        None => None,
    }
}

pub fn match_compiled_player_pattern(pattern: &CompiledPlayerPattern, identity: &str, bus: &str)
    -> (r: Option<MatchedPlayerPattern>)
    requires
        compiled_ok(pattern@.matcher),
    ensures
        match r {
            Some(m) => match_player_spec(pattern@, identity@, bus@) == Some(m@),
            None => match_player_spec(pattern@, identity@, bus@) is None,
        },
{
    let hit: Option<(PlayerMatchTarget, &str, u8)> = match pattern.target {
        PlayerMatchTarget::Identity => if pattern.matcher.matches(identity) {
            Some((PlayerMatchTarget::Identity, identity, 1u8))
        } else {
            None
        },
        PlayerMatchTarget::Bus => if pattern.matcher.matches(bus) {
            Some((PlayerMatchTarget::Bus, bus, 2u8))
        } else {
            None
        },
        PlayerMatchTarget::Any => if pattern.matcher.matches(bus) {
            Some((PlayerMatchTarget::Bus, bus, 0u8))
        } else if pattern.matcher.matches(identity) {
            Some((PlayerMatchTarget::Identity, identity, 0u8))
        } else {
            None
        },
    };
    match hit {
        Some((target, value, scope)) => {
            let rank = match &pattern.matcher {
                CompiledPattern::Wildcard(_) => Rank { kind: 0u8, scope, specificity: pattern_specificity(pattern.raw.as_str()) },
                CompiledPattern::Regex(_) => Rank { kind: 1u8, scope, specificity: str_byte_len(pattern.raw.as_str()) },
                CompiledPattern::Exact(_) => Rank { kind: 2u8, scope, specificity: str_byte_len(pattern.raw.as_str()) },
            };
            Some(MatchedPlayerPattern {
                target,
                pattern: pattern.raw.clone(),
                value: value.to_owned(),
                legacy: pattern.legacy,
                rank,
            })
        },
        None => None,
    }
}

/// The strongest match among the patterns; on equal ranks the later wins.
pub open spec fn best_match(pps: Seq<PlayerPatternV>, identity: Seq<char>, bus: Seq<char>) -> Option<MatchedV>
    decreases pps.len(),
{
    if pps.len() == 0 {
        None
    } else {
        let prev = best_match(pps.drop_last(), identity, bus);
        match match_player_spec(pps.last(), identity, bus) {
            Some(m) => match prev {
                Some(p) => if rank_le(p.rank, m.rank) { Some(m) } else { prev },
                None => Some(m),
            },
            None => prev,
        }
    }
}

fn rank_le_exec(a: Rank, b: Rank) -> (r: bool)
    ensures
        r == rank_le(a, b),
{
    a.kind < b.kind || (a.kind == b.kind && (a.scope < b.scope || (a.scope == b.scope && a.specificity <= b.specificity)))
}

fn rank_lt_exec(a: Rank, b: Rank) -> (r: bool)
    ensures
        r == rank_lt(a, b),
{
    a.kind < b.kind || (a.kind == b.kind && (a.scope < b.scope || (a.scope == b.scope && a.specificity < b.specificity)))
}

pub open spec fn patterns_view(v: Seq<CompiledPlayerPattern>) -> Seq<PlayerPatternV> {
    v.map_values(|p: CompiledPlayerPattern| p@)
}

fn best_player_match(patterns: &Vec<CompiledPlayerPattern>, identity: &str, bus: &str) -> (r: Option<MatchedPlayerPattern>)
    requires
        forall|i: int| 0 <= i < patterns@.len() ==> compiled_ok(#[trigger] patterns@[i]@.matcher),
    ensures
        match r {
            Some(m) => best_match(patterns_view(patterns@), identity@, bus@) == Some(m@),
            None => best_match(patterns_view(patterns@), identity@, bus@) is None,
        },
{
    let ghost pv = patterns_view(patterns@);
    let mut best: Option<MatchedPlayerPattern> = None;
    let mut i: usize = 0;
    while i < patterns.len()
        invariant
            i <= patterns@.len(),
            pv == patterns_view(patterns@),
            forall|k: int| 0 <= k < patterns@.len() ==> compiled_ok(#[trigger] patterns@[k]@.matcher),
            match best {
                Some(m) => best_match(pv.take(i as int), identity@, bus@) == Some(m@),
                None => best_match(pv.take(i as int), identity@, bus@) is None,
            },
        decreases patterns@.len() - i,
    {
        assert(pv.take(i + 1).drop_last() =~= pv.take(i as int));
        assert(pv.take(i + 1).last() == patterns@[i as int]@);
        let m = match_compiled_player_pattern(&patterns[i], identity, bus);
        match m {
            Some(m) => {
                let take = match &best {
                    Some(b) => rank_le_exec(b.rank, m.rank),
                    None => true,
                };
                if take {
                    best = Some(m);
                }
            },
            None => {},
        }
        i += 1;
    }
    assert(pv.take(patterns@.len() as int) =~= pv);
    best
}

/// Patterns of a player key: those of its (merged) entry, else the key
/// itself as a legacy pattern.
pub open spec fn key_patterns(merged: Seq<(String, PlayerConfigLayer)>, key: Seq<char>) -> Seq<PlayerPatternV> {
    let eff = match layer_get(merged, key) {
        Some(l) => crate::config::effective_patterns_of(l.match_pattern, l.match_patterns),
        None => Seq::<Seq<char>>::empty(),
    };
    if eff.len() == 0 {
        seq![player_pattern_spec(key, true)]
    } else {
        eff.map_values(|p: Seq<char>| player_pattern_spec(p, false))
    }
}

/// Which entry matched, through which pattern and value.
#[derive(Debug, Clone)]
pub struct PlayerConfigMatch {
    pub config_key: String,
    pub target: PlayerMatchTarget,
    pub pattern: String,
    pub matched_value: String,
    pub legacy: bool,
}

pub struct MatchInfoV {
    pub config_key: Seq<char>,
    pub target: PlayerMatchTarget,
    pub pattern: Seq<char>,
    pub matched_value: Seq<char>,
    pub legacy: bool,
}

impl View for PlayerConfigMatch {
    type V = MatchInfoV;

    open spec fn view(&self) -> MatchInfoV {
        MatchInfoV {
            config_key: self.config_key@,
            target: self.target,
            pattern: self.pattern@,
            matched_value: self.matched_value@,
            legacy: self.legacy,
        }
    }
}

/// An entry that matched, with its layer and rank.
#[derive(Debug, Clone)]
pub struct OrderedPlayerMatch {
    pub layer: PlayerConfigLayer,
    pub info: PlayerConfigMatch,
    pub rank: Rank,
}

pub struct CandV {
    pub layer: PlayerLayerV,
    pub info: MatchInfoV,
    pub rank: Rank,
}

impl View for OrderedPlayerMatch {
    type V = CandV;

    open spec fn view(&self) -> CandV {
        CandV { layer: self.layer@, info: self.info@, rank: self.rank }
    }
}

/// The entries of `source` (but `default`) that match, in the map's order,
/// each with its best match.
pub open spec fn candidates(
    source: Seq<(String, PlayerConfigLayer)>,
    merged: Seq<(String, PlayerConfigLayer)>,
    identity: Seq<char>,
    bus: Seq<char>,
) -> Seq<CandV>
    decreases source.len(),
{
    if source.len() == 0 {
        Seq::<CandV>::empty()
    } else {
        let prev = candidates(source.drop_last(), merged, identity, bus);
        let key = source.last().0@;
        if key == "default"@ {
            prev
        } else {
            match best_match(key_patterns(merged, key), identity, bus) {
                Some(m) => prev.push(CandV {
                    layer: source.last().1@,
                    info: MatchInfoV {
                        config_key: key,
                        target: m.target,
                        pattern: m.pattern,
                        matched_value: m.value,
                        legacy: m.legacy,
                    },
                    rank: m.rank,
                }),
                None => prev,
            }
        }
    }
}

/// Ordering of matched entries: by rank, then by key.
pub open spec fn cand_less(a: CandV, b: CandV) -> bool {
    rank_lt(a.rank, b.rank) || (a.rank == b.rank && lex_less(a.info.config_key, b.info.config_key))
}

/// `x` inserted before the first element it sorts before.
pub open spec fn insert_sorted(s: Seq<CandV>, x: CandV) -> Seq<CandV>
    decreases s.len(),
{
    if s.len() == 0 {
        seq![x]
    } else if cand_less(x, s[0]) {
        seq![x] + s
    } else {
        seq![s[0]] + insert_sorted(s.drop_first(), x)
    }
}

/// The matched entries in increasing (rank, key) order.
pub open spec fn sort_cands(s: Seq<CandV>) -> Seq<CandV>
    decreases s.len(),
{
    if s.len() == 0 { s } else { insert_sorted(sort_cands(s.drop_last()), s.last()) }
}

pub open spec fn cands_view(v: Seq<OrderedPlayerMatch>) -> Seq<CandV> {
    v.map_values(|c: OrderedPlayerMatch| c@)
}

proof fn lemma_insert_at(s: Seq<CandV>, x: CandV, i: int)
    requires
        0 <= i <= s.len(),
        forall|j: int| 0 <= j < i ==> !cand_less(x, #[trigger] s[j]),
        i < s.len() ==> cand_less(x, s[i]),
    ensures
        insert_sorted(s, x) == s.take(i) + seq![x] + s.skip(i),
    decreases s.len(),
{
    if s.len() == 0 {
        assert(s.take(0) + seq![x] + s.skip(0) =~= seq![x]);
    } else if i == 0 {
        assert(s.take(0) + seq![x] + s.skip(0) =~= seq![x] + s);
    } else {
        assert(!cand_less(x, s[0]));
        assert forall|j: int| 0 <= j < i - 1 implies !cand_less(x, #[trigger] s.drop_first()[j]) by {
            assert(s.drop_first()[j] == s[j + 1]);
        }
        lemma_insert_at(s.drop_first(), x, i - 1);
        assert(seq![s[0]] + (s.drop_first().take(i - 1) + seq![x] + s.drop_first().skip(i - 1))
            =~= s.take(i) + seq![x] + s.skip(i));
    }
}

fn cand_less_exec(a: &OrderedPlayerMatch, b: &OrderedPlayerMatch) -> (r: bool)
    ensures
        r == cand_less(a@, b@),
{
    rank_lt_exec(a.rank, b.rank) || (a.rank == b.rank && str_less(a.info.config_key.as_str(), b.info.config_key.as_str()))
}

/// Insert into a sorted list of matches.
fn insert_match(v: &mut Vec<OrderedPlayerMatch>, x: OrderedPlayerMatch)
    ensures
        cands_view(final(v)@) == insert_sorted(cands_view(old(v)@), x@),
{
    let ghost sv = cands_view(v@);
    let mut i: usize = 0;
    while i < v.len() && !cand_less_exec(&x, &v[i])
        invariant
            i <= v@.len(),
            sv == cands_view(v@),
            forall|j: int| 0 <= j < i ==> !cand_less(x@, #[trigger] sv[j]),
        decreases v@.len() - i,
    {
        i += 1;
    }
    proof { lemma_insert_at(sv, x@, i as int); }
    let ghost xv = x@;
    v.insert(i, x);
    assert(cands_view(v@) =~= sv.take(i as int) + seq![xv] + sv.skip(i as int));
}

/// What the default entries give: the base settings and whether players no
/// entry matches are ignored. The user's default applies over the bundled one.
pub open spec fn default_base(bundled: Seq<(String, PlayerConfigLayer)>, user: Seq<(String, PlayerConfigLayer)>) -> (PlayerConfigV, bool) {
    let p0 = default_player();
    let (p1, i1) = match layer_get(bundled, "default"@) {
        Some(l) => (apply_layer(l, p0), match l.ignore_unmatched { Some(v) => v, None => p0.ignore }),
        None => (p0, p0.ignore),
    };
    match layer_get(user, "default"@) {
        Some(l) => (apply_layer(l, p1), match l.ignore_unmatched { Some(v) => v, None => i1 }),
        None => (p1, i1),
    }
}

/// The layers applied in order over `base`.
pub open spec fn apply_layers(base: PlayerConfigV, layers: Seq<PlayerLayerV>) -> PlayerConfigV
    decreases layers.len(),
{
    if layers.len() == 0 { base } else { apply_layer(layers.last(), apply_layers(base, layers.drop_last())) }
}

/// Settings of a player: without a matching entry the base with
/// `ignore` from the default policy; otherwise the matching layers over the
/// base with `ignore` cleared.
pub open spec fn resolve_layers_spec(base: PlayerConfigV, ignore_unmatched: bool, layers: Seq<PlayerLayerV>) -> PlayerConfigV {
    if layers.len() == 0 {
        PlayerConfigV { ignore: ignore_unmatched, ..base }
    } else {
        apply_layers(PlayerConfigV { ignore: false, ..base }, layers)
    }
}

pub open spec fn cand_layers(c: Seq<CandV>) -> Seq<PlayerLayerV> {
    c.map_values(|x: CandV| x.layer)
}

pub open spec fn cand_infos(c: Seq<CandV>) -> Seq<MatchInfoV> {
    c.map_values(|x: CandV| x.info)
}

pub open spec fn infos_view(v: Seq<PlayerConfigMatch>) -> Seq<MatchInfoV> {
    v.map_values(|m: PlayerConfigMatch| m@)
}

/// Settings and matches of a player.
#[derive(Debug, Clone)]
pub struct PlayerResolution {
    pub config: PlayerConfig,
    pub matches: Vec<PlayerConfigMatch>,
}

/// Entries of the web players: `(key, layer)`.
pub type WebPlayerMap = Vec<(String, crate::config::WebPlayerConfigLayer)>;

/// The configuration the daemon runs with. Player and web player entries are
/// kept as bundled, user, and merged (user over bundled, per key) maps.
#[derive(Debug, Clone)]
pub struct Config {
    pub interval: u64,
    pub event_driven: bool,
    pub fallback_poll_interval: u64,
    pub allowed_players: Vec<String>,
    pub web_player_enabled: bool,
    pub template: TemplateConfig,
    pub time: TimeConfig,
    pub cover: CoverConfig,
    pub activity_type: ActivityTypesConfig,
    pub bundled_player: Vec<(String, PlayerConfigLayer)>,
    pub user_player: Vec<(String, PlayerConfigLayer)>,
    pub merged_player: Vec<(String, PlayerConfigLayer)>,
    pub bundled_web_player: WebPlayerMap,
    pub user_web_player: WebPlayerMap,
    pub merged_web_player: WebPlayerMap,
}

impl Default for Config {
    fn default() -> (r: Self)
        ensures
            r.interval == DEFAULT_INTERVAL,
            r.event_driven == DEFAULT_EVENT_DRIVEN,
            r.fallback_poll_interval == DEFAULT_FALLBACK_POLL_INTERVAL,
            r.allowed_players@.len() == 0,
            r.web_player_enabled == DEFAULT_WEB_PLAYER_ENABLED,
            r.bundled_player@.len() == 0 && r.user_player@.len() == 0 && r.merged_player@.len() == 0,
            r.bundled_web_player@.len() == 0 && r.user_web_player@.len() == 0 && r.merged_web_player@.len() == 0,
    {
        Config {
            interval: DEFAULT_INTERVAL,
            event_driven: DEFAULT_EVENT_DRIVEN,
            fallback_poll_interval: DEFAULT_FALLBACK_POLL_INTERVAL,
            allowed_players: Vec::new(),
            web_player_enabled: DEFAULT_WEB_PLAYER_ENABLED,
            template: TemplateConfig::default(),
            time: TimeConfig::default(),
            cover: CoverConfig::default(),
            activity_type: ActivityTypesConfig::default(),
            bundled_player: Vec::new(),
            user_player: Vec::new(),
            merged_player: Vec::new(),
            bundled_web_player: Vec::new(),
            user_web_player: Vec::new(),
            merged_web_player: Vec::new(),
        }
    }
}

/// The full resolution of a player: matching bundled entries in order, then
/// matching user entries in order, layered over the default base.
pub open spec fn player_resolution(cfg: Config, identity: Seq<char>, bus: Seq<char>) -> (PlayerConfigV, Seq<MatchInfoV>) {
    let ni = normalize_identity(identity);
    let nb = normalize_identity(bus);
    let ms = sort_cands(candidates(cfg.bundled_player@, cfg.merged_player@, ni, nb))
        + sort_cands(candidates(cfg.user_player@, cfg.merged_player@, ni, nb));
    let (base, ignore_unmatched) = default_base(cfg.bundled_player@, cfg.user_player@);
    (resolve_layers_spec(base, ignore_unmatched, cand_layers(ms)), cand_infos(ms))
}

impl Config {
    /// Compiled patterns of a player key.
    pub fn key_player_patterns(&self, key: &str) -> (r: Vec<CompiledPlayerPattern>)
        ensures
            patterns_view(r@) == key_patterns(self.merged_player@, key@),
            forall|i: int| 0 <= i < r@.len() ==> compiled_ok(#[trigger] r@[i]@.matcher),
    {
        let effective: Vec<String> = match get_player_layer(&self.merged_player, key) {
            Some(l) => l.effective_patterns(),
            None => Vec::new(),
        };
        let ghost eff = views(effective@);
        assert(eff =~= (match layer_get(self.merged_player@, key@) {
            Some(l) => crate::config::effective_patterns_of(l.match_pattern, l.match_patterns),
            None => Seq::<Seq<char>>::empty(),
        }));
        let mut out: Vec<CompiledPlayerPattern> = Vec::new();
        if effective.len() == 0 {
            let p = compile_player_pattern(key, true);
            out.push(p);
            assert(patterns_view(out@) =~= seq![player_pattern_spec(key@, true)]);
            proof {
                crate::patterns::lemma_compile_ok(normalize_identity(match_target(key@).1));
                crate::patterns::lemma_compile_ok(match_target(key@).1);
            }
        } else {
            let mut i: usize = 0;
            while i < effective.len()
                invariant
                    i <= effective@.len(),
                    eff == views(effective@),
                    patterns_view(out@) == eff.take(i as int).map_values(|p: Seq<char>| player_pattern_spec(p, false)),
                    forall|k: int| 0 <= k < out@.len() ==> compiled_ok(#[trigger] out@[k]@.matcher),
                decreases effective@.len() - i,
            {
                let p = compile_player_pattern(effective[i].as_str(), false);
                proof {
                    crate::patterns::lemma_compile_ok(normalize_identity(match_target(effective@[i as int]@).1));
                    crate::patterns::lemma_compile_ok(match_target(effective@[i as int]@).1);
                }
                let ghost before = patterns_view(out@);
                out.push(p);
                assert(patterns_view(out@) =~= before.push(p@));
                assert(eff.take(i + 1).map_values(|p: Seq<char>| player_pattern_spec(p, false))
                    =~= eff.take(i as int).map_values(|p: Seq<char>| player_pattern_spec(p, false)).push(player_pattern_spec(eff[i as int], false)));
                i += 1;
            }
            assert(eff.take(effective@.len() as int) =~= eff);
        }
        out
    }

    /// The matching entries of `source`, sorted by rank then key.
    pub fn collect_ordered_player_matches(&self, source: &Vec<(String, PlayerConfigLayer)>, identity: &str, bus: &str)
        -> (r: Vec<OrderedPlayerMatch>)
        ensures
            cands_view(r@) == sort_cands(candidates(source@, self.merged_player@, identity@, bus@)),
    {
        let mut out: Vec<OrderedPlayerMatch> = Vec::new();
        let mut i: usize = 0;
        while i < source.len()
            invariant
                i <= source@.len(),
                cands_view(out@) == sort_cands(candidates(source@.take(i as int), self.merged_player@, identity@, bus@)),
            decreases source@.len() - i,
        {
            let ghost pre = source@.take(i as int);
            assert(source@.take(i + 1).drop_last() =~= pre);
            assert(source@.take(i + 1).last() == source@[i as int]);
            let ghost prev = candidates(pre, self.merged_player@, identity@, bus@);
            let key = &source[i].0;
            if !str_eq(key.as_str(), "default") {
                let patterns = self.key_player_patterns(key.as_str());
                match best_player_match(&patterns, identity, bus) {
                    Some(m) => {
                        let c = OrderedPlayerMatch {
                            layer: source[i].1.clone_layer(),
                            info: PlayerConfigMatch {
                                config_key: key.clone(),
                                target: m.target,
                                pattern: m.pattern,
                                matched_value: m.value,
                                legacy: m.legacy,
                            },
                            rank: m.rank,
                        };
                        let ghost cv = c@;
                        assert(candidates(source@.take(i + 1), self.merged_player@, identity@, bus@) == prev.push(cv));
                        assert(prev.push(cv).drop_last() =~= prev);
                        insert_match(&mut out, c);
                    },
                    None => {
                        assert(candidates(source@.take(i + 1), self.merged_player@, identity@, bus@) == prev);
                    },
                }
            } else {
                assert(candidates(source@.take(i + 1), self.merged_player@, identity@, bus@) == prev);
            }
            i += 1;
        }
        assert(source@.take(source@.len() as int) =~= source@);
        out
    }

    /// The default base settings and the policy for unmatched players.
    pub fn resolve_default_player_base(&self) -> (r: (PlayerConfig, bool))
        ensures
            (r.0@, r.1) == default_base(self.bundled_player@, self.user_player@),
    {
        let mut resolved = PlayerConfig::default();
        let mut ignore_unmatched = resolved.ignore;
        match get_player_layer(&self.bundled_player, "default") {
            Some(layer) => {
                ignore_unmatched = match layer.ignore_unmatched { Some(v) => v, None => ignore_unmatched };
                resolved = layer.apply_over(resolved);
            },
            None => {},
        }
        match get_player_layer(&self.user_player, "default") {
            Some(layer) => {
                ignore_unmatched = match layer.ignore_unmatched { Some(v) => v, None => ignore_unmatched };
                resolved = layer.apply_over(resolved);
            },
            None => {},
        }
        (resolved, ignore_unmatched)
    }

    /// Layer the matched entries over the default base.
    pub fn resolve_player_layers(&self, matches: &Vec<OrderedPlayerMatch>) -> (r: PlayerConfig)
        ensures
            r@ == resolve_layers_spec(
                default_base(self.bundled_player@, self.user_player@).0,
                default_base(self.bundled_player@, self.user_player@).1,
                cand_layers(cands_view(matches@)),
            ),
    {
        let (mut resolved, ignore_unmatched) = self.resolve_default_player_base();
        if matches.len() == 0 {
            resolved.ignore = ignore_unmatched;
            return resolved;
        }
        resolved.ignore = false;
        let ghost base = resolved@;
        let ghost ls = cand_layers(cands_view(matches@));
        let mut i: usize = 0;
        assert(ls.take(0) =~= Seq::<PlayerLayerV>::empty());
        while i < matches.len()
            invariant
                i <= matches@.len(),
                ls == cand_layers(cands_view(matches@)),
                resolved@ == apply_layers(base, ls.take(i as int)),
            decreases matches@.len() - i,
        {
            assert(ls.take(i + 1).drop_last() =~= ls.take(i as int));
            resolved = matches[i].layer.apply_over(resolved);
            i += 1;
        }
        assert(ls.take(matches@.len() as int) =~= ls);
        resolved
    }

    /// Settings and matches of a player, by identity and bus name.
    pub fn resolve_player_config(&self, identity: &str, player_bus_name: &str) -> (r: PlayerResolution)
        ensures
            (r.config@, infos_view(r.matches@)) == player_resolution(*self, identity@, player_bus_name@),
    {
        let ni = normalize_player_identity(identity);
        let nb = normalize_player_identity(player_bus_name);
        let bundled = self.collect_ordered_player_matches(&self.bundled_player, ni.as_str(), nb.as_str());
        let user = self.collect_ordered_player_matches(&self.user_player, ni.as_str(), nb.as_str());
        let matched = concat_matches(bundled, &user);
        let config = self.resolve_player_layers(&matched);
        let infos = infos_of(&matched);
        PlayerResolution { config, matches: infos }
    }

    /// Settings of a player.
    pub fn get_player_config(&self, identity: &str, player_bus_name: &str) -> (r: PlayerConfig)
        ensures
            r@ == player_resolution(*self, identity@, player_bus_name@).0,
    {
        self.resolve_player_config(identity, player_bus_name).config
    }
}

fn concat_matches(a: Vec<OrderedPlayerMatch>, b: &Vec<OrderedPlayerMatch>) -> (r: Vec<OrderedPlayerMatch>)
    ensures
        cands_view(r@) == cands_view(a@) + cands_view(b@),
{
    let mut out = a;
    let ghost av = cands_view(out@);
    let ghost bv = cands_view(b@);
    let mut i: usize = 0;
    while i < b.len()
        invariant
            i <= b@.len(),
            bv == cands_view(b@),
            cands_view(out@) == av + bv.take(i as int),
        decreases b@.len() - i,
    {
        let c = b[i].clone_match();
        let ghost before = cands_view(out@);
        out.push(c);
        assert(cands_view(out@) =~= before.push(bv[i as int]));
        assert(av + bv.take(i + 1) =~= (av + bv.take(i as int)).push(bv[i as int]));
        i += 1;
    }
    assert(bv.take(b@.len() as int) =~= bv);
    out
}

fn infos_of(v: &Vec<OrderedPlayerMatch>) -> (r: Vec<PlayerConfigMatch>)
    ensures
        infos_view(r@) == cand_infos(cands_view(v@)),
{
    let ghost all = cands_view(v@);
    let mut infos: Vec<PlayerConfigMatch> = Vec::new();
    let mut k: usize = 0;
    while k < v.len()
        invariant
            k <= v@.len(),
            all == cands_view(v@),
            infos_view(infos@) == cand_infos(all.take(k as int)),
        decreases v@.len() - k,
    {
        let c = v[k].info.clone_info();
        let ghost before = infos_view(infos@);
        infos.push(c);
        assert(infos_view(infos@) =~= before.push(all[k as int].info));
        assert(cand_infos(all.take(k + 1)) =~= cand_infos(all.take(k as int)).push(all[k as int].info));
        k += 1;
    }
    assert(all.take(v@.len() as int) =~= all);
    infos
}

impl PlayerConfigMatch {
    pub fn clone_info(&self) -> (r: PlayerConfigMatch)
        ensures
            r@ == self@,
    {
        PlayerConfigMatch {
            config_key: self.config_key.clone(),
            target: self.target,
            pattern: self.pattern.clone(),
            matched_value: self.matched_value.clone(),
            legacy: self.legacy,
        }
    }
}

impl OrderedPlayerMatch {
    pub fn clone_match(&self) -> (r: OrderedPlayerMatch)
        ensures
            r@ == self@,
    {
        OrderedPlayerMatch { layer: self.layer.clone_layer(), info: self.info.clone_info(), rank: self.rank }
    }
}

/// The web layer stored under `k` (the first entry with that key).
pub open spec fn web_get(m: Seq<(String, WebPlayerConfigLayer)>, k: Seq<char>) -> Option<WebLayerV>
    decreases m.len(),
{
    if m.len() == 0 {
        None
    } else if m[0].0@ == k {
        Some(m[0].1@)
    } else {
        web_get(m.drop_first(), k)
    }
}

/// The web layer stored under `k`.
pub fn get_web_layer<'a>(m: &'a Vec<(String, WebPlayerConfigLayer)>, k: &str) -> (r: Option<&'a WebPlayerConfigLayer>)
    ensures
        match r {
            Some(l) => web_get(m@, k@) == Some(l@),
            None => web_get(m@, k@) is None,
        },
{
    let mut i: usize = 0;
    assert(m@.skip(0) =~= m@);
    while i < m.len()
        invariant
            i <= m@.len(),
            web_get(m@, k@) == web_get(m@.skip(i as int), k@),
        decreases m@.len() - i,
    {
        let ghost rest = m@.skip(i as int);
        assert(rest[0] == m@[i as int]);
        if str_eq(m[i].0.as_str(), k) {
            return Some(&m[i].1);
        }
        assert(rest.drop_first() =~= m@.skip(i + 1));
        i += 1;
    }
    None
}

proof fn lemma_web_get_update(m: Seq<(String, WebPlayerConfigLayer)>, i: int, e: (String, WebPlayerConfigLayer))
    requires
        0 <= i < m.len(),
        m[i].0@ == e.0@,
        forall|j: int| 0 <= j < i ==> m[j].0@ != e.0@,
    ensures
        web_get(m.update(i, e), e.0@) == Some(e.1@),
        forall|k: Seq<char>| k != e.0@ ==> web_get(m.update(i, e), k) == web_get(m, k),
    decreases i,
{
    let u = m.update(i, e);
    if i == 0 {
        assert(u[0] == e);
        assert(u.drop_first() =~= m.drop_first());
        assert forall|k: Seq<char>| k != e.0@ implies web_get(u, k) == web_get(m, k) by {
            assert(u[0].0@ != k);
            assert(m[0].0@ != k);
        }
    } else {
        lemma_web_get_update(m.drop_first(), i - 1, e);
        assert(u.drop_first() =~= m.drop_first().update(i - 1, e));
        assert(u[0] == m[0]);
        assert(m[0].0@ != e.0@);
        assert forall|k: Seq<char>| k != e.0@ implies web_get(u, k) == web_get(m, k) by {
            if m[0].0@ != k {
                assert(web_get(u, k) == web_get(u.drop_first(), k));
                assert(web_get(m, k) == web_get(m.drop_first(), k));
            }
        }
    }
}

proof fn lemma_web_get_push(m: Seq<(String, WebPlayerConfigLayer)>, e: (String, WebPlayerConfigLayer))
    requires
        forall|j: int| 0 <= j < m.len() ==> m[j].0@ != e.0@,
    ensures
        web_get(m.push(e), e.0@) == Some(e.1@),
        forall|k: Seq<char>| k != e.0@ ==> web_get(m.push(e), k) == web_get(m, k),
    decreases m.len(),
{
    let u = m.push(e);
    if m.len() == 0 {
        assert(u[0] == e);
        assert(u.drop_first().len() == 0);
        assert forall|k: Seq<char>| k != e.0@ implies web_get(u, k) == web_get(m, k) by {
            assert(u[0].0@ != k);
            assert(web_get(u, k) == web_get(u.drop_first(), k));
        }
    } else {
        assert forall|j: int| 0 <= j < m.drop_first().len() implies m.drop_first()[j].0@ != e.0@ by {
            assert(m.drop_first()[j] == m[j + 1]);
        }
        lemma_web_get_push(m.drop_first(), e);
        assert(u.drop_first() =~= m.drop_first().push(e));
        assert(u[0] == m[0]);
        assert(m[0].0@ != e.0@);
        assert forall|k: Seq<char>| k != e.0@ implies web_get(u, k) == web_get(m, k) by {
            if m[0].0@ != k {
                assert(web_get(u, k) == web_get(u.drop_first(), k));
                assert(web_get(m, k) == web_get(m.drop_first(), k));
            }
        }
    }
}

/// Store a web layer under `key`, replacing the first entry with that key.
pub fn insert_web_layer(m: &mut Vec<(String, WebPlayerConfigLayer)>, key: &str, layer: WebPlayerConfigLayer)
    ensures
        web_get(final(m)@, key@) == Some(layer@),
        forall|k: Seq<char>| k != key@ ==> web_get(final(m)@, k) == web_get(old(m)@, k),
{
    let ghost old_m = m@;
    let mut i: usize = 0;
    while i < m.len()
        invariant
            i <= m@.len(),
            m@ == old_m,
            old_m == old(m)@,
            forall|j: int| 0 <= j < i ==> m@[j].0@ != key@,
        decreases m@.len() - i,
    {
        if str_eq(m[i].0.as_str(), key) {
            m.set(i, (key.to_owned(), layer));
            proof {
                let e = m@[i as int];
                assert(m@ == old_m.update(i as int, e));
                lemma_web_get_update(old_m, i as int, e);
            }
            return;
        }
        assert(m@[i as int].0@ != key@);
        i += 1;
    }
    m.push((key.to_owned(), layer));
    proof { lemma_web_get_push(old_m, m@[old_m.len() as int]); }
}

/// The inheritance base a web layer gives: the layer without `ignore`.
pub open spec fn as_base(l: WebLayerV) -> WebLayerV {
    WebLayerV { ignore: None, ..l }
}

/// A web player's resolved entry: bundled default (as base), bundled entry,
/// user default (as base), user entry, applied in that order.
pub open spec fn resolve_web_spec(cfg: Config, key: Seq<char>) -> WebConfigV {
    let r0 = empty_web_config();
    let r1 = match web_get(cfg.bundled_web_player@, "default"@) { Some(l) => apply_web_layer(as_base(l), r0), None => r0 };
    let r2 = if key != "default"@ {
        match web_get(cfg.bundled_web_player@, key) { Some(l) => apply_web_layer(l, r1), None => r1 }
    } else {
        r1
    };
    let r3 = match web_get(cfg.user_web_player@, "default"@) { Some(l) => apply_web_layer(as_base(l), r2), None => r2 };
    if key != "default"@ {
        match web_get(cfg.user_web_player@, key) { Some(l) => apply_web_layer(l, r3), None => r3 }
    } else {
        r3
    }
}

/// Score of one web pattern against a host: exact host 3, regex 2,
/// wildcard 1, plain substring 0; then the pattern's length or specificity.
pub open spec fn web_score(p: Seq<char>, host: Seq<char>) -> Option<(u8, usize)> {
    let c = compile_spec(p);
    if c matches CompiledV::Exact(k) && k == host {
        Some((3u8, byte_len(p) as usize))
    } else if c is Regex && compiled_matches(c, host) {
        Some((2u8, byte_len(p) as usize))
    } else if c is Wildcard && compiled_matches(c, host) {
        Some((1u8, specificity(p) as usize))
    } else if !is_regex(p) && !is_wildcard(p) && contains_seq(host, p) {
        Some((0u8, byte_len(p) as usize))
    } else {
        None
    }
}

pub open spec fn score_lt(a: (u8, usize), b: (u8, usize)) -> bool {
    a.0 < b.0 || (a.0 == b.0 && a.1 < b.1)
}

/// The best web entry so far: key, layer and score.
pub struct WebBestV {
    pub key: Seq<char>,
    pub layer: WebLayerV,
    pub score: (u8, usize),
}

/// Fold the patterns of one entry into the best so far; only a strictly
/// better score replaces it.
pub open spec fn best_in_patterns(
    best: Option<WebBestV>,
    key: Seq<char>,
    layer: WebLayerV,
    pats: Seq<Seq<char>>,
    host: Seq<char>,
) -> Option<WebBestV>
    decreases pats.len(),
{
    if pats.len() == 0 {
        best
    } else {
        let prev = best_in_patterns(best, key, layer, pats.drop_last(), host);
        match web_score(pats.last(), host) {
            Some(sc) => match prev {
                Some(b) => if score_lt(b.score, sc) { Some(WebBestV { key, layer, score: sc }) } else { prev },
                None => Some(WebBestV { key, layer, score: sc }),
            },
            None => prev,
        }
    }
}

/// The web entry (but `default`) whose pattern best matches the host; the
/// first in the map's order among equal scores.
pub open spec fn find_web_spec(source: Seq<(String, WebPlayerConfigLayer)>, host: Seq<char>) -> Option<WebBestV>
    decreases source.len(),
{
    if source.len() == 0 {
        None
    } else {
        let prev = find_web_spec(source.drop_last(), host);
        let e = source.last();
        if e.0@ == "default"@ {
            prev
        } else {
            best_in_patterns(prev, e.0@, e.1@, effective_patterns_of(e.1@.match_pattern, e.1@.match_patterns), host)
        }
    }
}

fn web_score_exec(p: &str, host: &str) -> (r: Option<(u8, usize)>)
    ensures
        r == web_score(p@, host@),
{
    let c = compile_single_pattern(p);
    proof { crate::patterns::lemma_compile_ok(p@); }
    match &c {
        CompiledPattern::Exact(k) => {
            if str_eq(k.as_str(), host) {
                return Some((3u8, str_byte_len(p)));
            }
        },
        CompiledPattern::Regex(_) => {
            if c.matches(host) {
                return Some((2u8, str_byte_len(p)));
            }
        },
        CompiledPattern::Wildcard(_) => {
            if c.matches(host) {
                return Some((1u8, pattern_specificity(p)));
            }
        },
    }
    if !is_regex_pattern(p) && !is_wildcard_pattern(p) && str_contains(host, p) {
        Some((0u8, str_byte_len(p)))
    } else {
        None
    }
}

/// The entry of `source` whose patterns best match `url_host`.
pub fn find_matching_web_player_entry(source: &Vec<(String, WebPlayerConfigLayer)>, url_host: &str)
    -> (r: Option<(String, WebPlayerConfigLayer)>)
    ensures
        match r {
            Some((k, l)) => match find_web_spec(source@, url_host@) {
                Some(b) => b.key == k@ && b.layer == l@,
                None => false,
            },
            None => find_web_spec(source@, url_host@) is None,
        },
{
    let mut best: Option<(usize, (u8, usize))> = None;
    let mut i: usize = 0;
    while i < source.len()
        invariant
            i <= source@.len(),
            match best {
                Some((bi, sc)) => bi < i && match find_web_spec(source@.take(i as int), url_host@) {
                    Some(b) => b.key == source@[bi as int].0@ && b.layer == source@[bi as int].1@ && b.score == sc,
                    None => false,
                },
                None => find_web_spec(source@.take(i as int), url_host@) is None,
            },
        decreases source@.len() - i,
    {
        let ghost pre = source@.take(i as int);
        assert(source@.take(i + 1).drop_last() =~= pre);
        assert(source@.take(i + 1).last() == source@[i as int]);
        let ghost prev = find_web_spec(pre, url_host@);
        if !str_eq(source[i].0.as_str(), "default") {
            let pats = source[i].1.effective_patterns();
            let ghost pv = views(pats@);
            let ghost key = source@[i as int].0@;
            let ghost layer = source@[i as int].1@;
            let mut j: usize = 0;
            while j < pats.len()
                invariant
                    i < source@.len(),
                    j <= pats@.len(),
                    pv == views(pats@),
                    key == source@[i as int].0@,
                    layer == source@[i as int].1@,
                    match best {
                        Some((bi, sc)) => bi <= i && match best_in_patterns(prev, key, layer, pv.take(j as int), url_host@) {
                            Some(b) => b.key == source@[bi as int].0@ && b.layer == source@[bi as int].1@ && b.score == sc,
                            None => false,
                        },
                        None => best_in_patterns(prev, key, layer, pv.take(j as int), url_host@) is None,
                    },
                decreases pats@.len() - j,
            {
                assert(pv.take(j + 1).drop_last() =~= pv.take(j as int));
                assert(pv.take(j + 1).last() == pats@[j as int]@);
                match web_score_exec(pats[j].as_str(), url_host) {
                    Some(sc) => {
                        let better = match best {
                            Some((_, cur)) => cur.0 < sc.0 || (cur.0 == sc.0 && cur.1 < sc.1),
                            None => true,
                        };
                        if better {
                            best = Some((i, sc));
                        }
                    },
                    None => {},
                }
                j += 1;
            }
            assert(pv.take(pats@.len() as int) =~= pv);
        }
        i += 1;
    }
    assert(source@.take(source@.len() as int) =~= source@);
    match best {
        Some((bi, _)) => Some((source[bi].0.clone(), source[bi].1.clone_layer())),
        None => None,
    }
}

/// Source settings: the player's own, or those of the web player its URL
/// or title points to.
#[derive(Debug, Clone)]
pub struct SourceResolution {
    pub config: PlayerConfig,
    pub player_matches: Vec<PlayerConfigMatch>,
    pub web_player_key: Option<String>,
    pub title_suffix: Option<String>,
}

/// What settings a URL gives a player whose own settings are `base`: none
/// when web players are off or there is no URL; the matching web player's
/// settings; an unknown `http(s)` page is ignored; anything else keeps `base`.
pub open spec fn web_override_spec(cfg: Config, base: PlayerConfigV, url: Option<Seq<char>>) -> PlayerConfigV {
    if !cfg.web_player_enabled {
        base
    } else {
        match url {
            None => base,
            Some(u) => if u.len() == 0 {
                base
            } else {
                match find_web_spec(cfg.merged_web_player@, host_for_match(u)) {
                    Some(b) => web_into_player(resolve_web_spec(cfg, b.key)),
                    None => if is_http(u) { PlayerConfigV { ignore: true, ..base } } else { base },
                }
            },
        }
    }
}

/// The web player a URL matches, with its resolved entry.
pub open spec fn web_for_url_spec(cfg: Config, url: Option<Seq<char>>) -> Option<(Seq<char>, WebConfigV)> {
    if !cfg.web_player_enabled {
        None
    } else {
        match url {
            None => None,
            Some(u) => if u.len() == 0 {
                None
            } else {
                match find_web_spec(cfg.merged_web_player@, host_for_match(u)) {
                    Some(b) => Some((b.key, resolve_web_spec(cfg, b.key))),
                    None => None,
                }
            },
        }
    }
}

/// First merged entry (in the map's order) whose `title_suffix` ends the title.
pub open spec fn suffix_pass(m: Seq<(String, WebPlayerConfigLayer)>, title: Seq<char>) -> Option<(Seq<char>, WebLayerV, Seq<char>)>
    decreases m.len(),
{
    if m.len() == 0 {
        None
    } else {
        match m[0].1@.title_suffix {
            Some(sfx) => if sfx.is_suffix_of(title) { Some((m[0].0@, m[0].1@, sfx)) } else { suffix_pass(m.drop_first(), title) },
            None => suffix_pass(m.drop_first(), title),
        }
    }
}

/// First merged entry whose ` | <name>` ends the title.
pub open spec fn name_pass(m: Seq<(String, WebPlayerConfigLayer)>, title: Seq<char>) -> Option<(Seq<char>, WebLayerV, Seq<char>)>
    decreases m.len(),
{
    if m.len() == 0 {
        None
    } else {
        match m[0].1@.name {
            Some(n) => if (" | "@ + n).is_suffix_of(title) {
                Some((m[0].0@, m[0].1@, " | "@ + n))
            } else {
                name_pass(m.drop_first(), title)
            },
            None => name_pass(m.drop_first(), title),
        }
    }
}

/// The web player a title names: by an explicit suffix first, then by
/// ` | <name>`.
pub open spec fn title_match_spec(m: Seq<(String, WebPlayerConfigLayer)>, title: Seq<char>) -> Option<(Seq<char>, WebLayerV, Seq<char>)> {
    match suffix_pass(m, title) {
        Some(x) => Some(x),
        None => name_pass(m, title),
    }
}

fn ends_with_str(s: &str, suffix: &str) -> (r: bool)
    ensures
        r == suffix@.is_suffix_of(s@),
{
    let sv = crate::text::chars_of(s);
    let pv = crate::text::chars_of(suffix);
    crate::text::has_suffix(sv.as_slice(), pv.as_slice())
}

impl Config {
    /// A web player's entry as resolved from the bundled and user layers.
    pub fn resolve_web_player_config(&self, key: &str) -> (r: WebPlayerConfig)
        ensures
            r@ == resolve_web_spec(*self, key@),
    {
        let mut resolved = WebPlayerConfig::default();
        let is_default = str_eq(key, "default");
        if let Some(layer) = get_web_layer(&self.bundled_web_player, "default") {
            resolved = layer.default_base().apply_into_web_player(resolved);
        }
        if !is_default {
            if let Some(layer) = get_web_layer(&self.bundled_web_player, key) {
                resolved = layer.apply_into_web_player(resolved);
            }
        }
        if let Some(layer) = get_web_layer(&self.user_web_player, "default") {
            resolved = layer.default_base().apply_into_web_player(resolved);
        }
        if !is_default {
            if let Some(layer) = get_web_layer(&self.user_web_player, key) {
                resolved = layer.apply_into_web_player(resolved);
            }
        }
        resolved
    }

    /// The settings a URL gives a player whose own settings are `base`.
    pub fn apply_web_player_overrides(&self, base: PlayerConfig, url: Option<&str>) -> (r: PlayerConfig)
        ensures
            r@ == web_override_spec(*self, base@, match url { Some(u) => Some(u@), None => None }),
    {
        if !self.web_player_enabled {
            return base;
        }
        let raw_url = match url {
            Some(u) => u,
            None => return base,
        };
        if crate::text::char_len(raw_url) == 0 {
            return base;
        }
        let host = url_host_for_match(raw_url);
        match find_matching_web_player_entry(&self.merged_web_player, host.as_str()) {
            Some((key, _)) => {
                return self.resolve_web_player_config(key.as_str()).into_player_config();
            },
            None => {},
        }
        if is_http_url(raw_url) {
            let mut hidden = base;
            hidden.ignore = true;
            return hidden;
        }
        base
    }

    /// The web player a URL matches and its resolved entry.
    pub fn matched_web_player_for_url(&self, url: Option<&str>) -> (r: Option<(String, WebPlayerConfig)>)
        ensures
            match r {
                Some((k, w)) => web_for_url_spec(*self, match url { Some(u) => Some(u@), None => None }) == Some((k@, w@)),
                None => web_for_url_spec(*self, match url { Some(u) => Some(u@), None => None }) is None,
            },
    {
        if !self.web_player_enabled {
            return None;
        }
        let raw_url = match url {
            Some(u) => u,
            None => return None,
        };
        if crate::text::char_len(raw_url) == 0 {
            return None;
        }
        let host = url_host_for_match(raw_url);
        match find_matching_web_player_entry(&self.merged_web_player, host.as_str()) {
            Some((key, _)) => {
                let resolved = self.resolve_web_player_config(key.as_str());
                Some((key, resolved))
            },
            None => None,
        }
    }

    /// The web player a title names, its merged layer and the suffix matched.
    pub fn match_web_player_by_title_suffix(&self, title: &str) -> (r: Option<(String, WebPlayerConfigLayer, String)>)
        ensures
            match r {
                Some((k, l, s)) => title_match_spec(self.merged_web_player@, title@) == Some((k@, l@, s@)),
                None => title_match_spec(self.merged_web_player@, title@) is None,
            },
    {
        let m = &self.merged_web_player;
        let mut i: usize = 0;
        assert(m@.skip(0) =~= m@);
        while i < m.len()
            invariant
                i <= m@.len(),
                m@ == self.merged_web_player@,
                suffix_pass(m@, title@) == suffix_pass(m@.skip(i as int), title@),
            decreases m@.len() - i,
        {
            let ghost rest = m@.skip(i as int);
            assert(rest[0] == m@[i as int]);
            assert(rest.drop_first() =~= m@.skip(i + 1));
            if let Some(suffix) = &m[i].1.title_suffix {
                if ends_with_str(title, suffix.as_str()) {
                    assert(rest[0].1@.title_suffix == Some(suffix@));
                    assert(suffix_pass(rest, title@) == Some((m@[i as int].0@, m@[i as int].1@, suffix@)));
                    return Some((m[i].0.clone(), m[i].1.clone_layer(), suffix.clone()));
                }
            }
            i += 1;
        }
        let mut i: usize = 0;
        while i < m.len()
            invariant
                i <= m@.len(),
                m@ == self.merged_web_player@,
                suffix_pass(m@, title@) is None,
                name_pass(m@, title@) == name_pass(m@.skip(i as int), title@),
            decreases m@.len() - i,
        {
            let ghost rest = m@.skip(i as int);
            assert(rest[0] == m@[i as int]);
            assert(rest.drop_first() =~= m@.skip(i + 1));
            if let Some(name) = &m[i].1.name {
                let suffix = crate::text::concat_str(" | ", name.as_str());
                if ends_with_str(title, suffix.as_str()) {
                    assert(rest[0].1@.name == Some(name@));
                    assert(name_pass(rest, title@) == Some((m@[i as int].0@, m@[i as int].1@, suffix@)));
                    return Some((m[i].0.clone(), m[i].1.clone_layer(), suffix));
                }
            }
            i += 1;
        }
        None
    }

    /// The web player a title names and its resolved entry.
    pub fn matched_web_player_for_title(&self, title: Option<&str>) -> (r: Option<(String, WebPlayerConfig, String)>)
        ensures
            match r {
                Some((k, w, s)) => {
                    &&& self.web_player_enabled
                    &&& title is Some
                    &&& title_match_spec(self.merged_web_player@, title.unwrap()@) is Some
                    &&& title_match_spec(self.merged_web_player@, title.unwrap()@).unwrap().0 == k@
                    &&& title_match_spec(self.merged_web_player@, title.unwrap()@).unwrap().2 == s@
                    &&& w@ == resolve_web_spec(*self, k@)
                },
                None => !self.web_player_enabled || title is None
                    || title_match_spec(self.merged_web_player@, title.unwrap()@) is None,
            },
    {
        if !self.web_player_enabled {
            return None;
        }
        let t = match title {
            Some(t) => t,
            None => return None,
        };
        match self.match_web_player_by_title_suffix(t) {
            Some((key, _, suffix)) => {
                let resolved = self.resolve_web_player_config(key.as_str());
                Some((key, resolved, suffix))
            },
            None => None,
        }
    }

    /// A player's settings with the web player its URL matches laid over.
    pub fn get_player_config_with_url(&self, identity: &str, player_bus_name: &str, url: Option<&str>) -> (r: PlayerConfig)
        ensures
            r@ == web_override_spec(*self, player_resolution(*self, identity@, player_bus_name@).0,
                match url { Some(u) => Some(u@), None => None }),
    {
        let base = self.get_player_config(identity, player_bus_name);
        self.apply_web_player_overrides(base, url)
    }

    /// Settings of a source: through its URL when it has one, else through a
    /// title naming a web player, else the player's own.
    pub fn resolve_source(&self, identity: &str, player_bus_name: &str, url: Option<&str>, title: Option<&str>)
        -> (r: SourceResolution)
        ensures
            infos_view(r.player_matches@) == player_resolution(*self, identity@, player_bus_name@).1,
            match url {
                Some(u) => r.config@ == web_override_spec(*self, player_resolution(*self, identity@, player_bus_name@).0, Some(u@))
                    && r.title_suffix is None
                    && match web_for_url_spec(*self, Some(u@)) {
                        Some((k, _)) => (r.web_player_key matches Some(rk) && rk@ == k),
                        None => r.web_player_key is None,
                    },
                None => if self.web_player_enabled && title is Some
                    && title_match_spec(self.merged_web_player@, title.unwrap()@) is Some {
                    let (k, _, sfx) = title_match_spec(self.merged_web_player@, title.unwrap()@).unwrap();
                    &&& r.config@ == web_into_player(resolve_web_spec(*self, k))
                    &&& (r.web_player_key matches Some(rk) && rk@ == k)
                    &&& (r.title_suffix matches Some(rs) && rs@ == sfx)
                } else {
                    &&& r.config@ == player_resolution(*self, identity@, player_bus_name@).0
                    &&& r.web_player_key is None
                    &&& r.title_suffix is None
                },
            },
    {
        let native = self.resolve_player_config(identity, player_bus_name);
        match url {
            Some(u) => {
                let matched = self.matched_web_player_for_url(Some(u));
                let config = self.get_player_config_with_url(identity, player_bus_name, Some(u));
                let web_player_key = match matched {
                    Some((k, _)) => Some(k),
                    None => None,
                };
                SourceResolution { config, player_matches: native.matches, web_player_key, title_suffix: None }
            },
            None => {
                match self.matched_web_player_for_title(title) {
                    Some((key, web, suffix)) => SourceResolution {
                        config: web.into_player_config(),
                        player_matches: native.matches,
                        web_player_key: Some(key),
                        title_suffix: Some(suffix),
                    },
                    None => SourceResolution {
                        config: native.config,
                        player_matches: native.matches,
                        web_player_key: None,
                        title_suffix: None,
                    },
                }
            },
        }
    }
}

/// A pattern matched against an already normalised value: a non-regex
/// pattern is normalised the same way first.
pub open spec fn normalized_pattern_matches(pattern: Seq<char>, candidate: Seq<char>) -> bool {
    let normalized = if is_regex(pattern) { pattern } else { normalize_identity(pattern) };
    compiled_matches(compile_spec(normalized), candidate)
}

pub fn matches_normalized_pattern(pattern: &str, candidate: &str) -> (r: bool)
    ensures
        r == normalized_pattern_matches(pattern@, candidate@),
{
    let normalized = if is_regex_pattern(pattern) { pattern.to_owned() } else { normalize_player_identity(pattern) };
    let c = compile_single_pattern(normalized.as_str());
    proof { crate::patterns::lemma_compile_ok(normalized@); }
    c.matches(candidate)
}

/// Whether one `allowed_players` entry admits a source: `identity:` and
/// `bus:` select a field, `player:` and `web_player:` name matched entries,
/// anything else is tried on the identity and the bus name.
pub open spec fn allowed_by(
    pattern: Seq<char>,
    identity: Seq<char>,
    bus: Seq<char>,
    keys: Seq<Seq<char>>,
    web_key: Option<Seq<char>>,
) -> bool {
    let (target, body) = match_target(pattern);
    match target {
        Some(PlayerMatchTarget::Identity) => normalized_pattern_matches(body, identity),
        Some(PlayerMatchTarget::Bus) => normalized_pattern_matches(body, bus),
        _ => if "player:"@.is_prefix_of(pattern) {
            let b = crate::text::trim_prefix_all(pattern, "player:"@);
            exists|i: int| 0 <= i < keys.len() && #[trigger] normalized_pattern_matches(b, keys[i])
        } else if "web_player:"@.is_prefix_of(pattern) {
            let b = crate::text::trim_prefix_all(pattern, "web_player:"@);
            match web_key { Some(k) => normalized_pattern_matches(b, k), None => false }
        } else {
            normalized_pattern_matches(pattern, identity) || normalized_pattern_matches(pattern, bus)
        },
    }
}

/// Whether a source passes `allowed_players` (an empty list admits all).
pub open spec fn source_allowed(
    allowed: Seq<String>,
    identity: Seq<char>,
    bus: Seq<char>,
    keys: Seq<Seq<char>>,
    web_key: Option<Seq<char>>,
) -> bool {
    allowed.len() == 0 || exists|i: int| 0 <= i < allowed.len()
        && #[trigger] allowed_by(allowed[i]@, normalize_identity(identity), normalize_identity(bus), keys, web_key)
}

fn trim_prefix_str(s: &str, p: &str) -> (r: String)
    ensures
        r@ == crate::text::trim_prefix_all(s@, p@),
{
    let sv = crate::text::chars_of(s);
    let pv = crate::text::chars_of(p);
    let t = crate::text::trim_prefix_all_exec(sv.as_slice(), pv.as_slice());
    crate::text::string_from(t.as_slice())
}

fn allowed_by_exec(pattern: &str, identity: &str, bus: &str, keys: &[String], web_key: Option<&str>) -> (r: bool)
    ensures
        r == allowed_by(pattern@, identity@, bus@, views(keys@), match web_key { Some(k) => Some(k@), None => None }),
{
    let (target, body) = parse_match_target(pattern);
    match target {
        Some(PlayerMatchTarget::Identity) => matches_normalized_pattern(body.as_str(), identity),
        Some(PlayerMatchTarget::Bus) => matches_normalized_pattern(body.as_str(), bus),
        _ => {
            proof {
                reveal_strlit("player:");
                reveal_strlit("web_player:");
            }
            let pv = crate::text::chars_of(pattern);
            let pl: [char; 7] = ['p', 'l', 'a', 'y', 'e', 'r', ':'];
            let wp: [char; 11] = ['w', 'e', 'b', '_', 'p', 'l', 'a', 'y', 'e', 'r', ':'];
            assert(pl@ =~= "player:"@);
            assert(wp@ =~= "web_player:"@);
            if crate::text::has_prefix(pv.as_slice(), &pl) {
                let b = trim_prefix_str(pattern, "player:");
                let ghost kv = views(keys@);
                let mut i: usize = 0;
                while i < keys.len()
                    invariant
                        i <= keys@.len(),
                        kv == views(keys@),
                        b@ == crate::text::trim_prefix_all(pattern@, "player:"@),
                        "player:"@.is_prefix_of(pattern@),
                        match_target(pattern@).0 is None,
                        forall|j: int| 0 <= j < i ==> !normalized_pattern_matches(b@, #[trigger] kv[j]),
                    decreases keys@.len() - i,
                {
                    if matches_normalized_pattern(b.as_str(), keys[i].as_str()) {
                        assert(normalized_pattern_matches(b@, kv[i as int]));
                        return true;
                    }
                    i += 1;
                }
                false
            } else if crate::text::has_prefix(pv.as_slice(), &wp) {
                let b = trim_prefix_str(pattern, "web_player:");
                match web_key {
                    Some(k) => matches_normalized_pattern(b.as_str(), k),
                    None => false,
                }
            } else {
                matches_normalized_pattern(pattern, identity) || matches_normalized_pattern(pattern, bus)
            }
        },
    }
}

/// Entries of a map that are present: its keys, in order.
pub open spec fn keys_of<L>(m: Seq<(String, L)>) -> Seq<Seq<char>> {
    m.map_values(|e: (String, L)| e.0@)
}

proof fn lemma_layer_get_some(m: Seq<(String, PlayerConfigLayer)>, k: Seq<char>)
    ensures
        layer_get(m, k) is Some <==> keys_of(m).contains(k),
    decreases m.len(),
{
    if m.len() > 0 {
        lemma_layer_get_some(m.drop_first(), k);
        assert(keys_of(m.drop_first()) =~= keys_of(m).drop_first());
        if keys_of(m).contains(k) && m[0].0@ != k {
            let j = choose|j: int| 0 <= j < keys_of(m).len() && keys_of(m)[j] == k;
            assert(j != 0);
            assert(keys_of(m.drop_first())[j - 1] == k);
        }
        if keys_of(m.drop_first()).contains(k) {
            let j = choose|j: int| 0 <= j < keys_of(m.drop_first()).len() && keys_of(m.drop_first())[j] == k;
            assert(keys_of(m)[j + 1] == k);
        }
        assert(keys_of(m)[0] == m[0].0@);
    }
}

proof fn lemma_web_get_some(m: Seq<(String, WebPlayerConfigLayer)>, k: Seq<char>)
    ensures
        web_get(m, k) is Some <==> keys_of(m).contains(k),
    decreases m.len(),
{
    if m.len() > 0 {
        lemma_web_get_some(m.drop_first(), k);
        assert(keys_of(m.drop_first()) =~= keys_of(m).drop_first());
        if keys_of(m).contains(k) && m[0].0@ != k {
            let j = choose|j: int| 0 <= j < keys_of(m).len() && keys_of(m)[j] == k;
            assert(j != 0);
            assert(keys_of(m.drop_first())[j - 1] == k);
        }
        if keys_of(m.drop_first()).contains(k) {
            let j = choose|j: int| 0 <= j < keys_of(m.drop_first()).len() && keys_of(m.drop_first())[j] == k;
            assert(keys_of(m)[j + 1] == k);
        }
        assert(keys_of(m)[0] == m[0].0@);
    }
}

/// The keys of both maps, each once, in first-seen order (first map first).
fn union_keys<A, B>(a: &Vec<(String, A)>, b: &Vec<(String, B)>) -> (r: Vec<String>)
    ensures
        views(r@).no_duplicates(),
        forall|k: Seq<char>| #[trigger] views(r@).contains(k) <==> (keys_of(a@).contains(k) || keys_of(b@).contains(k)),
{
    let mut out: Vec<String> = Vec::new();
    let mut i: usize = 0;
    while i < a.len()
        invariant
            i <= a@.len(),
            views(out@).no_duplicates(),
            forall|k: Seq<char>| #[trigger] views(out@).contains(k) <==> keys_of(a@.take(i as int)).contains(k),
        decreases a@.len() - i,
    {
        let ghost before = views(out@);
        let ghost x = a@[i as int].0@;
        let ghost prev_keys = keys_of(a@.take(i as int));
        assert(keys_of(a@.take(i + 1)) =~= prev_keys.push(x));
        if !contains_key(&out, a[i].0.as_str()) {
            out.push(a[i].0.clone());
            assert(views(out@) =~= before.push(x));
        }
        assert forall|k: Seq<char>| #[trigger] views(out@).contains(k) <==> keys_of(a@.take(i + 1)).contains(k) by {
            vstd::seq_lib::lemma_seq_contains_after_push(prev_keys, x, k);
            vstd::seq_lib::lemma_seq_contains_after_push(before, x, k);
        }
        i += 1;
    }
    assert(a@.take(a@.len() as int) =~= a@);
    let mut j: usize = 0;
    while j < b.len()
        invariant
            j <= b@.len(),
            views(out@).no_duplicates(),
            forall|k: Seq<char>| #[trigger] views(out@).contains(k) <==> (keys_of(a@).contains(k) || keys_of(b@.take(j as int)).contains(k)),
        decreases b@.len() - j,
    {
        let ghost before = views(out@);
        let ghost x = b@[j as int].0@;
        let ghost prev_keys = keys_of(b@.take(j as int));
        assert(keys_of(b@.take(j + 1)) =~= prev_keys.push(x));
        if !contains_key(&out, b[j].0.as_str()) {
            out.push(b[j].0.clone());
            assert(views(out@) =~= before.push(x));
        }
        assert forall|k: Seq<char>| #[trigger] views(out@).contains(k) <==> (keys_of(a@).contains(k) || keys_of(b@.take(j + 1)).contains(k)) by {
            vstd::seq_lib::lemma_seq_contains_after_push(prev_keys, x, k);
            vstd::seq_lib::lemma_seq_contains_after_push(before, x, k);
        }
        j += 1;
    }
    assert(b@.take(b@.len() as int) =~= b@);
    out
}

fn contains_key(v: &Vec<String>, k: &str) -> (r: bool)
    ensures
        r == views(v@).contains(k@),
{
    let mut i: usize = 0;
    while i < v.len()
        invariant
            i <= v@.len(),
            forall|j: int| 0 <= j < i ==> v@[j]@ != k@,
        decreases v@.len() - i,
    {
        if str_eq(v[i].as_str(), k) {
            assert(views(v@)[i as int] == k@);
            return true;
        }
        i += 1;
    }
    assert(!views(v@).contains(k@)) by {
        if views(v@).contains(k@) {
            let j = choose|j: int| 0 <= j < views(v@).len() && views(v@)[j] == k@;
            assert(v@[j]@ == k@);
        }
    }
    false
}

/// A map whose entry at each position holds `f` of its key.
pub open spec fn player_map_of(m: Seq<(String, PlayerConfigLayer)>, f: spec_fn(Seq<char>) -> PlayerLayerV) -> bool {
    forall|i: int| 0 <= i < m.len() ==> #[trigger] m[i].1@ == f(m[i].0@)
}

proof fn lemma_layer_get_map(m: Seq<(String, PlayerConfigLayer)>, f: spec_fn(Seq<char>) -> PlayerLayerV, k: Seq<char>)
    requires
        player_map_of(m, f),
    ensures
        layer_get(m, k) == (if keys_of(m).contains(k) { Some(f(k)) } else { None }),
    decreases m.len(),
{
    lemma_layer_get_some(m, k);
    if m.len() > 0 {
        assert(m[0].1@ == f(m[0].0@));
        if m[0].0@ != k {
            assert forall|i: int| 0 <= i < m.drop_first().len() implies #[trigger] m.drop_first()[i].1@ == f(m.drop_first()[i].0@) by {
                assert(m.drop_first()[i] == m[i + 1]);
            }
            lemma_layer_get_map(m.drop_first(), f, k);
            lemma_layer_get_some(m.drop_first(), k);
        }
    }
}

/// The entry keys of matches, in order.
pub open spec fn match_keys(v: Seq<MatchInfoV>) -> Seq<Seq<char>> {
    v.map_values(|m: MatchInfoV| m.config_key)
}

/// A player is allowed when `allowed_players` admits it with the entries
/// its identity and bus name match.
pub open spec fn player_allowed(cfg: Config, identity: Seq<char>, bus: Seq<char>) -> bool {
    source_allowed(cfg.allowed_players@, identity, bus, match_keys(player_resolution(cfg, identity, bus).1), None)
}

/// The merged entry of a key: the user layer over the bundled one.
pub open spec fn merged_player_entry(bundled: Seq<(String, PlayerConfigLayer)>, user: Seq<(String, PlayerConfigLayer)>, k: Seq<char>) -> PlayerLayerV {
    let base = match layer_get(bundled, k) { Some(l) => l, None => crate::config::empty_player_layer() };
    match layer_get(user, k) { Some(u) => merged_layer(base, u), None => base }
}

pub open spec fn merged_web_entry(bundled: Seq<(String, WebPlayerConfigLayer)>, user: Seq<(String, WebPlayerConfigLayer)>, k: Seq<char>) -> WebLayerV {
    let base = match web_get(bundled, k) { Some(l) => l, None => crate::config::empty_web_layer() };
    match web_get(user, k) { Some(u) => merged_web_layer(base, u), None => base }
}

impl Config {
    /// Whether `allowed_players` admits a source with these matched entries.
    pub fn is_source_allowed(&self, identity: &str, player_bus_name: &str, player_keys: &[String], web_player_key: Option<&str>)
        -> (r: bool)
        ensures
            r == source_allowed(self.allowed_players@, identity@, player_bus_name@, views(player_keys@),
                match web_player_key { Some(k) => Some(k@), None => None }),
    {
        if self.allowed_players.len() == 0 {
            return true;
        }
        let ni = normalize_player_identity(identity);
        let nb = normalize_player_identity(player_bus_name);
        let ghost wk = match web_player_key { Some(k) => Some(k@), None => None };
        let mut i: usize = 0;
        while i < self.allowed_players.len()
            invariant
                i <= self.allowed_players@.len(),
                ni@ == normalize_identity(identity@),
                nb@ == normalize_identity(player_bus_name@),
                wk == (match web_player_key { Some(k) => Some(k@), None => None }),
                forall|j: int| 0 <= j < i ==> !(#[trigger] allowed_by(self.allowed_players@[j]@, ni@, nb@, views(player_keys@), wk)),
            decreases self.allowed_players@.len() - i,
        {
            if allowed_by_exec(self.allowed_players[i].as_str(), ni.as_str(), nb.as_str(), player_keys, web_player_key) {
                return true;
            }
            i += 1;
        }
        false
    }

    /// Whether `allowed_players` admits a player, with the entries its
    /// identity and bus name match.
    pub fn is_player_allowed(&self, identity: &str, player_bus_name: &str) -> (r: bool)
        ensures
            r == player_allowed(*self, identity@, player_bus_name@),
    {
        let resolution = self.resolve_player_config(identity, player_bus_name);
        let mut keys: Vec<String> = Vec::new();
        let mut i: usize = 0;
        while i < resolution.matches.len()
            invariant
                i <= resolution.matches@.len(),
                views(keys@) == match_keys(infos_view(resolution.matches@)).take(i as int),
            decreases resolution.matches@.len() - i,
        {
            let ghost prev = views(keys@);
            keys.push(resolution.matches[i].config_key.clone());
            assert(views(keys@) =~= prev.push(resolution.matches@[i as int].config_key@));
            i += 1;
            assert(match_keys(infos_view(resolution.matches@)).take(i as int)
                =~= match_keys(infos_view(resolution.matches@)).take(i - 1).push(resolution.matches@[i - 1].config_key@));
        }
        assert(match_keys(infos_view(resolution.matches@)).take(resolution.matches@.len() as int)
            =~= match_keys(infos_view(resolution.matches@)));
        self.is_source_allowed(identity, player_bus_name, keys.as_slice(), None)
    }

    /// Rebuild the merged player map: every key of either map, the user
    /// layer over the bundled one.
    pub fn rebuild_merged_player(&mut self)
        ensures
            *final(self) == (Config { merged_player: final(self).merged_player, ..*old(self) }),
            final(self).bundled_player == old(self).bundled_player,
            final(self).user_player == old(self).user_player,
            final(self).bundled_web_player == old(self).bundled_web_player,
            final(self).user_web_player == old(self).user_web_player,
            final(self).merged_web_player == old(self).merged_web_player,
            forall|k: Seq<char>| #[trigger] layer_get(final(self).merged_player@, k) == (
                if keys_of(old(self).bundled_player@).contains(k) || keys_of(old(self).user_player@).contains(k) {
                    Some(merged_player_entry(old(self).bundled_player@, old(self).user_player@, k))
                } else {
                    None
                }),
    {
        let keys = union_keys(&self.bundled_player, &self.user_player);
        let ghost f = |k: Seq<char>| merged_player_entry(self.bundled_player@, self.user_player@, k);
        let mut merged: Vec<(String, PlayerConfigLayer)> = Vec::new();
        let mut i: usize = 0;
        while i < keys.len()
            invariant
                i <= keys@.len(),
                merged@.len() == i,
                f == (|k: Seq<char>| merged_player_entry(self.bundled_player@, self.user_player@, k)),
                forall|j: int| 0 <= j < i ==> (#[trigger] merged@[j]).0@ == keys@[j]@,
                player_map_of(merged@, f),
            decreases keys@.len() - i,
        {
            let k = keys[i].as_str();
            let mut layer = match get_player_layer(&self.bundled_player, k) {
                Some(l) => l.clone_layer(),
                None => PlayerConfigLayer::default(),
            };
            match get_player_layer(&self.user_player, k) {
                Some(u) => layer.merge_from(u.clone_layer()),
                None => {},
            }
            merged.push((keys[i].clone(), layer));
            i += 1;
        }
        proof {
            assert forall|k: Seq<char>| #[trigger] keys_of(merged@).contains(k) <==> views(keys@).contains(k) by {
                assert(keys_of(merged@) =~= views(keys@));
            }
            assert forall|k: Seq<char>| #[trigger] layer_get(merged@, k) == (
                if keys_of(self.bundled_player@).contains(k) || keys_of(self.user_player@).contains(k) {
                    Some(merged_player_entry(self.bundled_player@, self.user_player@, k))
                } else {
                    None
                }) by {
                lemma_layer_get_map(merged@, f, k);
            }
        }
        self.merged_player = merged;
    }
}

pub open spec fn web_map_of(m: Seq<(String, WebPlayerConfigLayer)>, f: spec_fn(Seq<char>) -> WebLayerV) -> bool {
    forall|i: int| 0 <= i < m.len() ==> #[trigger] m[i].1@ == f(m[i].0@)
}

proof fn lemma_web_get_map(m: Seq<(String, WebPlayerConfigLayer)>, f: spec_fn(Seq<char>) -> WebLayerV, k: Seq<char>)
    requires
        web_map_of(m, f),
    ensures
        web_get(m, k) == (if keys_of(m).contains(k) { Some(f(k)) } else { None }),
    decreases m.len(),
{
    lemma_web_get_some(m, k);
    if m.len() > 0 {
        assert(m[0].1@ == f(m[0].0@));
        if m[0].0@ != k {
            assert forall|i: int| 0 <= i < m.drop_first().len() implies #[trigger] m.drop_first()[i].1@ == f(m.drop_first()[i].0@) by {
                assert(m.drop_first()[i] == m[i + 1]);
            }
            lemma_web_get_map(m.drop_first(), f, k);
            lemma_web_get_some(m.drop_first(), k);
        }
    }
}

/// Settings a configured player shows in listings: the default base with
/// `ignore` cleared, then its bundled and user layers.
pub open spec fn effective_player_spec(cfg: Config, k: Seq<char>) -> PlayerConfigV {
    let base = PlayerConfigV { ignore: false, ..default_base(cfg.bundled_player@, cfg.user_player@).0 };
    let b = match layer_get(cfg.bundled_player@, k) { Some(l) => apply_layer(l, base), None => base };
    match layer_get(cfg.user_player@, k) { Some(l) => apply_layer(l, b), None => b }
}

impl Config {
    /// Rebuild the merged web player map: every key of either map, the user
    /// layer over the bundled one.
    pub fn rebuild_merged_web_player(&mut self)
        ensures
            *final(self) == (Config { merged_web_player: final(self).merged_web_player, ..*old(self) }),
            final(self).bundled_player == old(self).bundled_player,
            final(self).user_player == old(self).user_player,
            final(self).merged_player == old(self).merged_player,
            final(self).bundled_web_player == old(self).bundled_web_player,
            final(self).user_web_player == old(self).user_web_player,
            forall|k: Seq<char>| #[trigger] web_get(final(self).merged_web_player@, k) == (
                if keys_of(old(self).bundled_web_player@).contains(k) || keys_of(old(self).user_web_player@).contains(k) {
                    Some(merged_web_entry(old(self).bundled_web_player@, old(self).user_web_player@, k))
                } else {
                    None
                }),
    {
        let keys = union_keys(&self.bundled_web_player, &self.user_web_player);
        let ghost f = |k: Seq<char>| merged_web_entry(self.bundled_web_player@, self.user_web_player@, k);
        let mut merged: Vec<(String, WebPlayerConfigLayer)> = Vec::new();
        let mut i: usize = 0;
        while i < keys.len()
            invariant
                i <= keys@.len(),
                merged@.len() == i,
                f == (|k: Seq<char>| merged_web_entry(self.bundled_web_player@, self.user_web_player@, k)),
                forall|j: int| 0 <= j < i ==> (#[trigger] merged@[j]).0@ == keys@[j]@,
                web_map_of(merged@, f),
            decreases keys@.len() - i,
        {
            let k = keys[i].as_str();
            let mut layer = match get_web_layer(&self.bundled_web_player, k) {
                Some(l) => l.clone_layer(),
                None => WebPlayerConfigLayer::default(),
            };
            match get_web_layer(&self.user_web_player, k) {
                Some(u) => layer.merge_from(u.clone_layer()),
                None => {},
            }
            merged.push((keys[i].clone(), layer));
            i += 1;
        }
        proof {
            assert forall|k: Seq<char>| #[trigger] keys_of(merged@).contains(k) <==> views(keys@).contains(k) by {
                assert(keys_of(merged@) =~= views(keys@));
            }
            assert forall|k: Seq<char>| #[trigger] web_get(merged@, k) == (
                if keys_of(self.bundled_web_player@).contains(k) || keys_of(self.user_web_player@).contains(k) {
                    Some(merged_web_entry(self.bundled_web_player@, self.user_web_player@, k))
                } else {
                    None
                }) by {
                lemma_web_get_map(merged@, f, k);
            }
        }
        self.merged_web_player = merged;
    }

    /// Every configured player (but `default`) with the settings it shows.
    pub fn effective_player_configs(&self) -> (r: Vec<(String, PlayerConfig)>)
        ensures
            keys_of(r@).no_duplicates(),
            forall|k: Seq<char>| #[trigger] keys_of(r@).contains(k) <==> (k != "default"@
                && (keys_of(self.bundled_player@).contains(k) || keys_of(self.user_player@).contains(k))),
            forall|i: int| 0 <= i < r@.len() ==> (#[trigger] r@[i]).1@ == effective_player_spec(*self, r@[i].0@),
    {
        let keys = union_keys(&self.bundled_player, &self.user_player);
        let (base, _) = self.resolve_default_player_base();
        let mut out: Vec<(String, PlayerConfig)> = Vec::new();
        let mut i: usize = 0;
        while i < keys.len()
            invariant
                i <= keys@.len(),
                base@ == default_base(self.bundled_player@, self.user_player@).0,
                views(keys@).no_duplicates(),
                forall|k: Seq<char>| #[trigger] views(keys@).contains(k) <==> (keys_of(self.bundled_player@).contains(k) || keys_of(self.user_player@).contains(k)),
                keys_of(out@) == views(keys@.take(i as int)).filter(|k: Seq<char>| k != "default"@),
                forall|j: int| 0 <= j < out@.len() ==> (#[trigger] out@[j]).1@ == effective_player_spec(*self, out@[j].0@),
            decreases keys@.len() - i,
        {
            let ghost f = |k: Seq<char>| k != "default"@;
            proof {
                assert(views(keys@.take(i + 1)) =~= views(keys@.take(i as int)).push(keys@[i as int]@));
                views(keys@.take(i as int)).lemma_filter_push(keys@[i as int]@, f);
            }
            let k = keys[i].as_str();
            if !str_eq(k, "default") {
                let mut resolved = base.clone_config();
                resolved.ignore = false;
                if let Some(layer) = get_player_layer(&self.bundled_player, k) {
                    resolved = layer.apply_over(resolved);
                }
                if let Some(layer) = get_player_layer(&self.user_player, k) {
                    resolved = layer.apply_over(resolved);
                }
                let ghost before = keys_of(out@);
                out.push((keys[i].clone(), resolved));
                assert(keys_of(out@) =~= before.push(keys@[i as int]@));
            }
            i += 1;
        }
        proof {
            let kv = views(keys@);
            assert(keys@.take(keys@.len() as int) =~= keys@);
            let fl = kv.filter(|k: Seq<char>| k != "default"@);
            kv.filter_lemma(|k: Seq<char>| k != "default"@);
            assert forall|k: Seq<char>| #[trigger] keys_of(out@).contains(k) <==> (k != "default"@
                && (keys_of(self.bundled_player@).contains(k) || keys_of(self.user_player@).contains(k))) by {
                if kv.contains(k) && k != "default"@ {
                    let j = choose|j: int| 0 <= j < kv.len() && kv[j] == k;
                    assert(fl.contains(kv[j]));
                }
                if fl.contains(k) {
                    kv.lemma_filter_contains_rev(|k: Seq<char>| k != "default"@, k);
                    let j = choose|j: int| 0 <= j < fl.len() && fl[j] == k;
                    kv.lemma_filter_pred(|k: Seq<char>| k != "default"@, j);
                }
            }
            lemma_filter_no_dup(kv, |k: Seq<char>| k != "default"@);
        }
        out
    }

    /// Every configured web player with its resolved entry.
    pub fn effective_web_player_configs(&self) -> (r: Vec<(String, WebPlayerConfig)>)
        ensures
            keys_of(r@).no_duplicates(),
            forall|k: Seq<char>| #[trigger] keys_of(r@).contains(k) <==> (keys_of(self.bundled_web_player@).contains(k)
                || keys_of(self.user_web_player@).contains(k)),
            forall|i: int| 0 <= i < r@.len() ==> (#[trigger] r@[i]).1@ == resolve_web_spec(*self, r@[i].0@),
    {
        let keys = union_keys(&self.bundled_web_player, &self.user_web_player);
        let mut out: Vec<(String, WebPlayerConfig)> = Vec::new();
        let mut i: usize = 0;
        while i < keys.len()
            invariant
                i <= keys@.len(),
                keys_of(out@) == views(keys@.take(i as int)),
                forall|j: int| 0 <= j < out@.len() ==> (#[trigger] out@[j]).1@ == resolve_web_spec(*self, out@[j].0@),
            decreases keys@.len() - i,
        {
            let w = self.resolve_web_player_config(keys[i].as_str());
            let ghost before = keys_of(out@);
            out.push((keys[i].clone(), w));
            assert(keys_of(out@) =~= before.push(keys@[i as int]@));
            assert(views(keys@.take(i + 1)) =~= views(keys@.take(i as int)).push(keys@[i as int]@));
            i += 1;
        }
        assert(keys@.take(keys@.len() as int) =~= keys@);
        out
    }
}

proof fn lemma_filter_no_dup(s: Seq<Seq<char>>, f: spec_fn(Seq<char>) -> bool)
    requires
        s.no_duplicates(),
    ensures
        s.filter(f).no_duplicates(),
    decreases s.len(),
{
    if s.len() > 0 {
        let init = s.drop_last();
        assert(init.push(s.last()) =~= s);
        assert(init.no_duplicates()) by {
            assert forall|a: int, b: int| 0 <= a < init.len() && 0 <= b < init.len() && a != b implies init[a] != init[b] by {
                assert(init[a] == s[a] && init[b] == s[b]);
            }
        }
        lemma_filter_no_dup(init, f);
        init.lemma_filter_push(s.last(), f);
        if f(s.last()) {
            let fi = init.filter(f);
            assert(!fi.contains(s.last())) by {
                if fi.contains(s.last()) {
                    init.lemma_filter_contains_rev(f, s.last());
                    let j = choose|j: int| 0 <= j < init.len() && init[j] == s.last();
                    assert(s[j] == s[s.len() - 1]);
                }
            }
            let fs = fi.push(s.last());
            assert forall|a: int, b: int| 0 <= a < fs.len() && 0 <= b < fs.len() && a != b implies fs[a] != fs[b] by {
                if a < fi.len() && b < fi.len() {
                } else if a < fi.len() {
                    assert(fi.contains(fi[a]));
                } else {
                    assert(fi.contains(fi[b]));
                }
            }
        }
    }
}

/// An `allowed_players` entry without a prefix admits a source exactly
/// when it matches its (normalised) identity or its bus name; one with
/// `identity:` or `bus:` is tried on that field alone.
pub proof fn law_plain_allowed_entry_tries_identity_and_bus(
    pattern: Seq<char>,
    identity: Seq<char>,
    bus: Seq<char>,
    keys: Seq<Seq<char>>,
    web_key: Option<Seq<char>>,
)
    ensures
        !"identity:"@.is_prefix_of(pattern) && !"bus:"@.is_prefix_of(pattern) && !"player:"@.is_prefix_of(pattern)
            && !"web_player:"@.is_prefix_of(pattern) ==> (allowed_by(pattern, identity, bus, keys, web_key)
            <==> normalized_pattern_matches(pattern, identity) || normalized_pattern_matches(pattern, bus)),
        "identity:"@.is_prefix_of(pattern) ==> (allowed_by(pattern, identity, bus, keys, web_key)
            <==> normalized_pattern_matches(pattern.skip(9), identity)),
        !"identity:"@.is_prefix_of(pattern) && "bus:"@.is_prefix_of(pattern) ==> (allowed_by(pattern, identity, bus, keys, web_key)
            <==> normalized_pattern_matches(pattern.skip(4), bus)),
{
}

/// A plain `allowed_players` entry that matches a source's bus name lets
/// the source through, whatever its identity.
pub proof fn law_allowed_by_bus_name(
    allowed: Seq<String>,
    i: int,
    identity: Seq<char>,
    bus: Seq<char>,
    keys: Seq<Seq<char>>,
    web_key: Option<Seq<char>>,
)
    requires
        0 <= i < allowed.len(),
        !"identity:"@.is_prefix_of(allowed[i]@),
        !"bus:"@.is_prefix_of(allowed[i]@),
        !"player:"@.is_prefix_of(allowed[i]@),
        !"web_player:"@.is_prefix_of(allowed[i]@),
        normalized_pattern_matches(allowed[i]@, normalize_identity(bus)),
    ensures
        source_allowed(allowed, identity, bus, keys, web_key),
{
    assert(allowed_by(allowed[i]@, normalize_identity(identity), normalize_identity(bus), keys, web_key));
}

/// An empty `allowed_players` admits every source.
pub proof fn law_empty_allow_list_admits_all(
    allowed: Seq<String>,
    identity: Seq<char>,
    bus: Seq<char>,
    keys: Seq<Seq<char>>,
    web_key: Option<Seq<char>>,
)
    requires
        allowed.len() == 0,
    ensures
        source_allowed(allowed, identity, bus, keys, web_key),
{
}

/// An `allowed_players` entry admits a source only through one of its
/// patterns: no source passes a list none of whose entries admits it.
pub proof fn law_allow_list_needs_a_matching_entry(
    allowed: Seq<String>,
    identity: Seq<char>,
    bus: Seq<char>,
    keys: Seq<Seq<char>>,
    web_key: Option<Seq<char>>,
)
    requires
        allowed.len() > 0,
        forall|i: int| 0 <= i < allowed.len()
            ==> !#[trigger] allowed_by(allowed[i]@, normalize_identity(identity), normalize_identity(bus), keys, web_key),
    ensures
        !source_allowed(allowed, identity, bus, keys, web_key),
{
}

} // verus!
