//! The browser bridge: which browser source is active, what each bridge
//! player publishes on D-Bus, and the native-messaging frame format.
use vstd::prelude::*;
use std::collections::hash_map::DefaultHasher;
use std::hash::Hasher;
use vstd::std_specs::hash::DefaultHasherAdditionalSpecFns;
use crate::cover::art::{utf8, utf8_bytes};
use crate::health::MonotonicClock;
use crate::text::{
    chars_of, has_prefix, join_chars, join_seqs, opt_view, seqs_of, split_chars, split_on, str_eq,
    str_starts_with, string_from, concat_str, push_char,
};

verus! {

broadcast use vstd::string::group_string_axioms;

/// Heartbeat timeout: a source must send updates at least this often (ms).
pub const HEARTBEAT_TIMEOUT_MS: u64 = 5000;
/// A source is removed when no update arrived for this long (ms).
pub const STALE_TIMEOUT_MS: u64 = 10000;

/// Playback status a browser source reports.
#[derive(Debug, Clone, Copy, PartialEq, Eq, Structural)]
pub enum Status {
    Playing,
    Paused,
    Stopped,
}

/// How the extension obtained the metadata.
#[derive(Debug, Clone, Copy, PartialEq, Eq, Structural)]
pub enum ConfidenceLevel {
    Provider,
    Dom,
    Fallback,
}

/// Playback of a source; times in milliseconds.
#[derive(Debug, Clone, Copy, PartialEq, Eq, Structural)]
pub struct SourcePlayback {
    pub status: Status,
    pub position_ms: u64,
    pub duration_ms: u64,
}

/// Track metadata a source reports.
#[derive(Debug, Clone)]
pub struct SourceMetadata {
    pub title: Option<String>,
    pub artist: Vec<String>,
    pub album: Option<String>,
    pub album_artist: Vec<String>,
    pub art_url: Option<String>,
    pub track_id: Option<String>,
}

/// Controls a source supports.
#[derive(Debug, Clone, Copy, PartialEq, Eq, Structural)]
pub struct Capabilities {
    pub play_pause: bool,
    pub next: bool,
    pub previous: bool,
    pub seek: bool,
    pub set_position: bool,
    pub raise: bool,
}

/// Last update of one browser source (tab); `last_seen` in milliseconds.
#[derive(Debug, Clone)]
pub struct SourceState {
    pub source_id: String,
    pub url: String,
    pub origin: String,
    pub site: String,
    pub playback: SourcePlayback,
    pub metadata: SourceMetadata,
    pub capabilities: Capabilities,
    pub confidence: ConfidenceLevel,
    pub canonical_url: Option<String>,
    pub last_seen: u64,
}

/// Why a source was selected.
#[derive(Debug, Clone, Copy, PartialEq, Eq, Structural)]
pub enum SelectionReason {
    Playing,
    Paused,
    /// No source could be selected.
    NoSource,
}

/// No update for more than the timeout.
pub open spec fn stale(s: SourceState, now: u64, timeout: u64) -> bool {
    now >= s.last_seen && now - s.last_seen > timeout
}

impl SourceState {
    pub fn is_playing(&self) -> (r: bool)
        ensures
            r == (self.playback.status == Status::Playing),
    {
        self.playback.status == Status::Playing
    }

    /// No update arrived for longer than `timeout` (ms) before `now`.
    pub fn is_stale(&self, now: u64, timeout: u64) -> (r: bool)
        ensures
            r == stale(*self, now, timeout),
    {
        now >= self.last_seen && now - self.last_seen > timeout
    }
}

/// Source ids are unique.
pub open spec fn unique_ids(s: Seq<SourceState>) -> bool {
    forall|i: int, j: int| 0 <= i < s.len() && 0 <= j < s.len() && i != j ==> s[i].source_id@ != s[j].source_id@
}

/// Ids of the sources, in order.
pub open spec fn ids_of(s: Seq<SourceState>) -> Seq<Seq<char>> {
    s.map_values(|x: SourceState| x.source_id@)
}

/// Sources, the id of the selected one, and the clock their `last_seen`
/// stamps are read on.
pub struct SourceRegistry {
    pub sources: Vec<SourceState>,
    pub active_source_id: Option<String>,
    pub clock: MonotonicClock,
}

/// Preference key of a playing source: later `last_seen` is better, capped at `now`.
pub open spec fn freshness(s: SourceState, now: u64) -> int {
    if s.last_seen >= now { u64::MAX as int } else { u64::MAX - (now - s.last_seen) }
}

/// `i` is the last index with the greatest key among sources satisfying `eligible`.
pub open spec fn is_last_max(s: Seq<SourceState>, i: int, eligible: spec_fn(SourceState) -> bool, key: spec_fn(SourceState) -> int) -> bool {
    &&& 0 <= i < s.len()
    &&& eligible(s[i])
    &&& forall|j: int| 0 <= j < s.len() && eligible(s[j]) ==> key(s[j]) <= key(s[i])
    &&& forall|j: int| i < j < s.len() && eligible(s[j]) ==> key(s[j]) < key(s[i])
}

pub open spec fn is_playing_source(x: SourceState) -> bool {
    x.playback.status == Status::Playing
}

pub open spec fn is_paused_source(x: SourceState) -> bool {
    x.playback.status == Status::Paused
}

/// The index `select_active_at` chooses: the freshest playing source (last on
/// ties), else the most recently seen paused source (last on ties).
pub open spec fn selected_index(s: Seq<SourceState>, now: u64, i: int) -> bool {
    if exists|j: int| 0 <= j < s.len() && is_playing_source(s[j]) {
        is_last_max(s, i, |x: SourceState| is_playing_source(x), |x: SourceState| freshness(x, now))
    } else {
        is_last_max(s, i, |x: SourceState| is_paused_source(x), |x: SourceState| x.last_seen as int)
    }
}

/// What selecting at `now` among `before` gives: the chosen source is the
/// one `selected_index` picks (the freshest playing source, else the most
/// recently seen paused one, the last on ties), the reason says whether it
/// plays, and the active id becomes its id; with no playing or paused
/// source, nothing is chosen and no id is active.
pub open spec fn selection_at(
    before: Seq<SourceState>,
    now: u64,
    chosen: Option<&SourceState>,
    reason: SelectionReason,
    active: Option<Seq<char>>,
) -> bool {
    match chosen {
        Some(src) => exists|i: int| #[trigger] selected_index(before, now, i)
            && before[i] == *src
            && active == Some(src.source_id@)
            && reason == (if is_playing_source(*src) { SelectionReason::Playing } else { SelectionReason::Paused }),
        None => (forall|j: int| 0 <= j < before.len() ==> !is_playing_source(before[j]) && !is_paused_source(before[j]))
            && active is None
            && reason == SelectionReason::NoSource,
    }
}

/// Some source has this id.
pub open spec fn has_id(s: Seq<SourceState>, id: Seq<char>) -> bool {
    exists|i: int| 0 <= i < s.len() && #[trigger] s[i].source_id@ == id
}

/// The source registered under `id`, if any.
pub open spec fn lookup(s: Seq<SourceState>, id: Seq<char>) -> Option<SourceState> {
    if has_id(s, id) {
        Some(s[choose|i: int| 0 <= i < s.len() && #[trigger] s[i].source_id@ == id])
    } else {
        None
    }
}

/// The sources after inserting `state`, replacing the one with its id in place.
pub open spec fn upserted(s: Seq<SourceState>, state: SourceState) -> Seq<SourceState> {
    if has_id(s, state.source_id@) {
        s.update(choose|i: int| 0 <= i < s.len() && #[trigger] s[i].source_id@ == state.source_id@, state)
    } else {
        s.push(state)
    }
}

/// The sources without the one registered under `id`.
pub open spec fn without_id(s: Seq<SourceState>, id: Seq<char>) -> Seq<SourceState> {
    s.filter(other_than(id))
}

/// Holds of the sources whose id is not `id`.
pub open spec fn other_than(id: Seq<char>) -> spec_fn(SourceState) -> bool {
    |x: SourceState| x.source_id@ != id
}

proof fn lemma_position_unique(s: Seq<SourceState>, id: Seq<char>, i: int)
    requires
        unique_ids(s),
        0 <= i < s.len(),
        s[i].source_id@ == id,
    ensures
        has_id(s, id),
        (choose|k: int| 0 <= k < s.len() && #[trigger] s[k].source_id@ == id) == i,
{
    assert(s[i].source_id@ == id);
}

proof fn lemma_lookup_at(s: Seq<SourceState>, i: int)
    requires
        unique_ids(s),
        0 <= i < s.len(),
    ensures
        lookup(s, s[i].source_id@) == Some(s[i]),
{
    lemma_position_unique(s, s[i].source_id@, i);
}

proof fn lemma_filter_keeps_unique(s: Seq<SourceState>, f: spec_fn(SourceState) -> bool)
    requires
        unique_ids(s),
    ensures
        unique_ids(s.filter(f)),
    decreases s.len(),
{
    if s.len() > 0 {
        let init = s.drop_last();
        assert(init.push(s.last()) =~= s);
        assert(unique_ids(init)) by {
            assert forall|a: int, b: int| 0 <= a < init.len() && 0 <= b < init.len() && a != b
                implies init[a].source_id@ != init[b].source_id@ by {
                assert(init[a] == s[a] && init[b] == s[b]);
            }
        }
        lemma_filter_keeps_unique(init, f);
        init.lemma_filter_push(s.last(), f);
        if f(s.last()) {
            let fi = init.filter(f);
            let fs = s.filter(f);
            assert(fs == fi.push(s.last()));
            assert forall|a: int, b: int| 0 <= a < fs.len() && 0 <= b < fs.len() && a != b
                implies fs[a].source_id@ != fs[b].source_id@ by {
                if a < fi.len() && b < fi.len() {
                } else {
                    let k = if a < fi.len() { a } else { b };
                    assert(fi.contains(fi[k]));
                    init.lemma_filter_contains_rev(f, fi[k]);
                    let j = choose|j: int| 0 <= j < init.len() && init[j] == fi[k];
                    assert(s[j] == init[j]);
                    assert(s[s.len() - 1] == s.last());
                    assert(s[j].source_id@ != s[s.len() - 1].source_id@);
                }
            }
        }
    }
}

proof fn lemma_lookup_filter(s: Seq<SourceState>, f: spec_fn(SourceState) -> bool, id: Seq<char>)
    requires
        unique_ids(s),
    ensures
        lookup(s.filter(f), id) == (match lookup(s, id) {
            Some(x) => if f(x) { Some(x) } else { None },
            None => None,
        }),
{
    let fs = s.filter(f);
    lemma_filter_keeps_unique(s, f);
    if has_id(s, id) {
        let i = choose|i: int| 0 <= i < s.len() && #[trigger] s[i].source_id@ == id;
        lemma_lookup_at(s, i);
        if f(s[i]) {
            s.lemma_filter_contains(f, i);
            let k = choose|k: int| 0 <= k < fs.len() && fs[k] == s[i];
            lemma_lookup_at(fs, k);
        } else {
            assert(!has_id(fs, id)) by {
                if has_id(fs, id) {
                    let k = choose|k: int| 0 <= k < fs.len() && #[trigger] fs[k].source_id@ == id;
                    assert(fs.contains(fs[k]));
                    s.lemma_filter_contains_rev(f, fs[k]);
                    s.lemma_filter_pred(f, k);
                    let j = choose|j: int| 0 <= j < s.len() && s[j] == fs[k];
                    assert(s[j].source_id@ == s[i].source_id@);
                }
            }
        }
    } else {
        assert(!has_id(fs, id)) by {
            if has_id(fs, id) {
                let k = choose|k: int| 0 <= k < fs.len() && #[trigger] fs[k].source_id@ == id;
                assert(fs.contains(fs[k]));
                s.lemma_filter_contains_rev(f, fs[k]);
                let j = choose|j: int| 0 <= j < s.len() && s[j] == fs[k];
                assert(s[j].source_id@ == id);
            }
        }
    }
}

proof fn lemma_upserted_unique(s: Seq<SourceState>, state: SourceState)
    requires
        unique_ids(s),
    ensures
        unique_ids(upserted(s, state)),
{
    let u = upserted(s, state);
    if has_id(s, state.source_id@) {
        let c = choose|i: int| 0 <= i < s.len() && #[trigger] s[i].source_id@ == state.source_id@;
        assert forall|a: int, b: int| 0 <= a < u.len() && 0 <= b < u.len() && a != b
            implies u[a].source_id@ != u[b].source_id@ by {
            if a != c && b != c {
                assert(u[a] == s[a] && u[b] == s[b]);
            } else if a == c {
                assert(u[b] == s[b]);
                assert(s[c].source_id@ != s[b].source_id@);
            } else {
                assert(u[a] == s[a]);
                assert(s[c].source_id@ != s[a].source_id@);
            }
        }
    } else {
        assert forall|a: int, b: int| 0 <= a < u.len() && 0 <= b < u.len() && a != b
            implies u[a].source_id@ != u[b].source_id@ by {
            if a < s.len() && b < s.len() {
                assert(u[a] == s[a] && u[b] == s[b]);
            } else if a < s.len() {
                assert(u[a] == s[a]);
            } else {
                assert(u[b] == s[b]);
            }
        }
    }
}

/// After a source is upserted, looking up its id gives exactly that source.
pub proof fn law_upsert_then_get(s: Seq<SourceState>, state: SourceState)
    requires
        unique_ids(s),
    ensures
        unique_ids(upserted(s, state)),
        lookup(upserted(s, state), state.source_id@) == Some(state),
{
    lemma_upserted_unique(s, state);
    let u = upserted(s, state);
    if has_id(s, state.source_id@) {
        let c = choose|i: int| 0 <= i < s.len() && #[trigger] s[i].source_id@ == state.source_id@;
        lemma_lookup_at(u, c);
    } else {
        lemma_lookup_at(u, s.len() as int);
    }
}

/// Upserting a source leaves what every other id looks up to unchanged.
pub proof fn law_upsert_keeps_other_sources(s: Seq<SourceState>, state: SourceState, id: Seq<char>)
    requires
        unique_ids(s),
        id != state.source_id@,
    ensures
        lookup(upserted(s, state), id) == lookup(s, id),
{
    lemma_upserted_unique(s, state);
    let u = upserted(s, state);
    if has_id(s, id) {
        let i = choose|i: int| 0 <= i < s.len() && #[trigger] s[i].source_id@ == id;
        lemma_lookup_at(s, i);
        assert(u[i] == s[i]);
        lemma_lookup_at(u, i);
    } else {
        assert(!has_id(u, id)) by {
            if has_id(u, id) {
                let k = choose|k: int| 0 <= k < u.len() && #[trigger] u[k].source_id@ == id;
                if has_id(s, state.source_id@) {
                    let c = choose|i: int| 0 <= i < s.len() && #[trigger] s[i].source_id@ == state.source_id@;
                    if k != c {
                        assert(u[k] == s[k]);
                    }
                } else if k < s.len() {
                    assert(u[k] == s[k]);
                }
            }
        }
    }
}

/// After a source is removed, its id looks up to nothing; other ids are unaffected.
pub proof fn law_remove_then_get(s: Seq<SourceState>, id: Seq<char>, other: Seq<char>)
    requires
        unique_ids(s),
    ensures
        unique_ids(without_id(s, id)),
        lookup(without_id(s, id), id) is None,
        other != id ==> lookup(without_id(s, id), other) == lookup(s, other),
{
    let f = other_than(id);
    lemma_filter_keeps_unique(s, f);
    lemma_lookup_filter(s, f, id);
    lemma_lookup_filter(s, f, other);
    if has_id(s, id) {
        let i = choose|i: int| 0 <= i < s.len() && #[trigger] s[i].source_id@ == id;
        lemma_lookup_at(s, i);
    }
    if has_id(s, other) {
        let i = choose|i: int| 0 <= i < s.len() && #[trigger] s[i].source_id@ == other;
        lemma_lookup_at(s, i);
    }
}

/// Pruning at `now` drops exactly the stale sources: an id looks up to its
/// source after pruning if and only if that source was not stale.
pub proof fn law_prune_drops_only_stale(s: Seq<SourceState>, now: u64, id: Seq<char>)
    requires
        unique_ids(s),
    ensures
        lookup(s.filter(|x: SourceState| !stale(x, now, STALE_TIMEOUT_MS)), id) == (match lookup(s, id) {
            Some(x) => if stale(x, now, STALE_TIMEOUT_MS) { None } else { Some(x) },
            None => None,
        }),
{
    lemma_lookup_filter(s, |x: SourceState| !stale(x, now, STALE_TIMEOUT_MS), id);
}

impl SourceRegistry {
    pub open spec fn wf(&self) -> bool {
        unique_ids(self.sources@)
    }

    pub fn new() -> (r: Self)
        ensures
            r.wf(),
            r.sources@.len() == 0,
            r.active_source_id is None,
    {
        SourceRegistry { sources: Vec::new(), active_source_id: None, clock: MonotonicClock::new() }
    }

    /// Index of the source with this id.
    fn position_of(&self, id: &str) -> (r: Option<usize>)
        requires
            self.wf(),
        ensures
            match r {
                Some(i) => i < self.sources@.len() && self.sources@[i as int].source_id@ == id@,
                None => forall|j: int| 0 <= j < self.sources@.len() ==> self.sources@[j].source_id@ != id@,
            },
    {
        let mut i: usize = 0;
        while i < self.sources.len()
            invariant
                i <= self.sources@.len(),
                forall|j: int| 0 <= j < i ==> self.sources@[j].source_id@ != id@,
            decreases self.sources@.len() - i,
        {
            if str_eq(self.sources[i].source_id.as_str(), id) {
                return Some(i);
            }
            i += 1;
        }
        None
    }

    /// The source with this id, if registered.
    pub fn get(&self, id: &str) -> (r: Option<&SourceState>)
        requires
            self.wf(),
        ensures
            match r {
                Some(s) => lookup(self.sources@, id@) == Some(*s),
                None => lookup(self.sources@, id@) is None,
            },
    {
        match self.position_of(id) {
            Some(i) => {
                proof { lemma_lookup_at(self.sources@, i as int); }
                Some(&self.sources[i])
            },
            None => None,
        }
    }

    /// Insert a source, or replace the one with the same id.
    pub fn upsert(&mut self, state: SourceState)
        requires
            old(self).wf(),
        ensures
            final(self).wf(),
            final(self).active_source_id == old(self).active_source_id,
            final(self).sources@ == upserted(old(self).sources@, state),
    {
        let ghost old_s = self.sources@;
        match self.position_of(state.source_id.as_str()) {
            Some(i) => {
                proof { lemma_position_unique(old_s, state.source_id@, i as int); }
                self.sources.set(i, state);
                assert forall|a: int, b: int| 0 <= a < self.sources@.len() && 0 <= b < self.sources@.len() && a != b
                    implies self.sources@[a].source_id@ != self.sources@[b].source_id@ by {
                    if a != i && b != i {
                        assert(self.sources@[a] == old_s[a] && self.sources@[b] == old_s[b]);
                    } else if a == i {
                        assert(self.sources@[b] == old_s[b]);
                    } else {
                        assert(self.sources@[a] == old_s[a]);
                    }
                }
            },
            None => {
                self.sources.push(state);
                assert forall|a: int, b: int| 0 <= a < self.sources@.len() && 0 <= b < self.sources@.len() && a != b
                    implies self.sources@[a].source_id@ != self.sources@[b].source_id@ by {
                    if a < old_s.len() && b < old_s.len() {
                        assert(self.sources@[a] == old_s[a] && self.sources@[b] == old_s[b]);
                    } else if a < old_s.len() {
                        assert(self.sources@[a] == old_s[a]);
                    } else {
                        assert(self.sources@[b] == old_s[b]);
                    }
                }
            },
        }
    }

    /// Remove a source (tab closed, navigation away); forget it if it was active.
    pub fn remove(&mut self, source_id: &str)
        requires
            old(self).wf(),
        ensures
            final(self).wf(),
            final(self).sources@ == without_id(old(self).sources@, source_id@),
            opt_view(final(self).active_source_id) == (if opt_view(old(self).active_source_id) == Some(source_id@) {
                None
            } else {
                opt_view(old(self).active_source_id)
            }),
    {
        let ghost old_s = self.sources@;
        let ghost keep_f = other_than(source_id@);
        assert(old_s.take(0) =~= Seq::<SourceState>::empty());
        let mut kept: Vec<SourceState> = Vec::new();
        let mut rest: Vec<SourceState> = Vec::new();
        std::mem::swap(&mut rest, &mut self.sources);
        let n = rest.len();
        let mut i: usize = 0;
        assert(old_s.skip(0) =~= old_s);
        while rest.len() > 0
            invariant
                n == old_s.len(),
                keep_f == other_than(source_id@),
                rest@ == old_s.skip(i as int),
                unique_ids(old_s),
                i <= n,
                kept@ == old_s.take(i as int).filter(keep_f),
            decreases rest@.len(),
        {
            assert(old_s.take(i + 1) =~= old_s.take(i as int).push(old_s[i as int]));
            proof { old_s.take(i as int).lemma_filter_push(old_s[i as int], keep_f); }
            let item = rest.remove(0);
            assert(item == old_s[i as int]);
            assert(rest@ =~= old_s.skip(i + 1));
            if !str_eq(item.source_id.as_str(), source_id) {
                kept.push(item);
            }
            i += 1;
        }
        assert(old_s.take(n as int) =~= old_s);
        proof { lemma_filter_keeps_unique(old_s, keep_f); }
        self.sources = kept;
        let clear = match &self.active_source_id {
            Some(a) => str_eq(a.as_str(), source_id),
            None => false,
        };
        if clear {
            self.active_source_id = None;
        }
    }

    /// Remove sources that have gone stale by `now`; returns their ids in order.
    pub fn prune_stale_at(&mut self, now: u64) -> (removed: Vec<String>)
        requires
            old(self).wf(),
        ensures
            final(self).wf(),
            final(self).clock == old(self).clock,
            final(self).sources@ == old(self).sources@.filter(|x: SourceState| !stale(x, now, STALE_TIMEOUT_MS)),
            removed@.map_values(|s: String| s@)
                == ids_of(old(self).sources@.filter(|x: SourceState| stale(x, now, STALE_TIMEOUT_MS))),
            opt_view(final(self).active_source_id) == (match opt_view(old(self).active_source_id) {
                Some(a) => if removed@.map_values(|s: String| s@).contains(a) { None } else { Some(a) },
                None => None,
            }),
    {
        let ghost old_s = self.sources@;
        assert(old_s.skip(0) =~= old_s);
        let ghost keep_f = |x: SourceState| !stale(x, now, STALE_TIMEOUT_MS);
        let ghost drop_f = |x: SourceState| stale(x, now, STALE_TIMEOUT_MS);
        let mut kept: Vec<SourceState> = Vec::new();
        let mut removed: Vec<String> = Vec::new();
        let mut rest: Vec<SourceState> = Vec::new();
        std::mem::swap(&mut rest, &mut self.sources);
        let n = rest.len();
        let mut i: usize = 0;
        while rest.len() > 0
            invariant
                n == old_s.len(),
                keep_f == (|x: SourceState| !stale(x, now, STALE_TIMEOUT_MS)),
                drop_f == (|x: SourceState| stale(x, now, STALE_TIMEOUT_MS)),
                rest@ == old_s.skip(i as int),
                unique_ids(old_s),
                i <= n,
                kept@ == old_s.take(i as int).filter(keep_f),
                removed@.map_values(|s: String| s@) == ids_of(old_s.take(i as int).filter(drop_f)),
                unique_ids(kept@),
                forall|k: int| 0 <= k < kept@.len() ==> exists|j: int| 0 <= j < i && old_s[j] == #[trigger] kept@[k],
            decreases rest@.len(),
        {
            assert(old_s.take(i + 1) =~= old_s.take(i as int).push(old_s[i as int]));
            proof {
                old_s.take(i as int).lemma_filter_push(old_s[i as int], keep_f);
                old_s.take(i as int).lemma_filter_push(old_s[i as int], drop_f);
            }
            let item = rest.remove(0);
            assert(item == old_s[i as int]);
            assert(rest@ =~= old_s.skip(i + 1));
            if item.is_stale(now, STALE_TIMEOUT_MS) {
                let ghost before = removed@.map_values(|s: String| s@);
                let ghost prev_f = old_s.take(i as int).filter(drop_f);
                assert(old_s.take(i + 1).filter(drop_f) == prev_f.push(item));
                removed.push(item.source_id.clone());
                assert(removed@.map_values(|s: String| s@) =~= before.push(item.source_id@));
                assert(ids_of(prev_f.push(item)) =~= ids_of(prev_f).push(item.source_id@));
            } else {
                let ghost before = kept@;
                kept.push(item);
                assert forall|k: int| 0 <= k < kept@.len() implies exists|j: int| 0 <= j < i + 1 && old_s[j] == #[trigger] kept@[k] by {
                    if k < before.len() {
                        assert(kept@[k] == before[k]);
                    } else {
                        assert(old_s[i as int] == kept@[k]);
                    }
                }
                assert forall|x: int, y: int| 0 <= x < kept@.len() && 0 <= y < kept@.len() && x != y
                    implies kept@[x].source_id@ != kept@[y].source_id@ by {
                    if x < before.len() && y < before.len() {
                        assert(kept@[x] == before[x] && kept@[y] == before[y]);
                    } else if x < before.len() {
                        assert(kept@[x] == before[x]);
                        let jx = choose|j: int| 0 <= j < i && old_s[j] == before[x];
                        assert(old_s[jx].source_id@ != old_s[i as int].source_id@);
                    } else {
                        assert(kept@[y] == before[y]);
                        let jy = choose|j: int| 0 <= j < i && old_s[j] == before[y];
                        assert(old_s[jy].source_id@ != old_s[i as int].source_id@);
                    }
                }
            }
            i += 1;
        }
        assert(i == n);
        assert(old_s.take(n as int) =~= old_s);
        self.sources = kept;
        let clear = match &self.active_source_id {
            Some(a) => contains_string(&removed, a.as_str()),
            None => false,
        };
        if clear {
            self.active_source_id = None;
        }
        removed
    }
}

/// `after` keeps exactly the sources of `before` not stale at `now`,
/// `removed` lists the ids of the stale ones, in order, and the active id
/// is cleared when its source was removed.
pub open spec fn pruned_at(
    before: Seq<SourceState>,
    after: Seq<SourceState>,
    removed: Seq<String>,
    now: u64,
    active_before: Option<Seq<char>>,
    active_after: Option<Seq<char>>,
) -> bool {
    &&& after == before.filter(|x: SourceState| !stale(x, now, STALE_TIMEOUT_MS))
    &&& removed.map_values(|s: String| s@) == ids_of(before.filter(|x: SourceState| stale(x, now, STALE_TIMEOUT_MS)))
    &&& active_after == (match active_before {
        Some(a) => if removed.map_values(|s: String| s@).contains(a) { None } else { Some(a) },
        None => None,
    })
}

impl SourceRegistry {
    /// The current reading of the registry's clock, for `last_seen` stamps.
    pub fn now_millis(&mut self) -> (r: u64)
        ensures
            r >= crate::health::CLOCK_START_MS,
            r >= old(self).clock.latest(),
            final(self).clock.latest() == r,
            final(self).sources == old(self).sources,
            final(self).active_source_id == old(self).active_source_id,
    {
        self.clock.now_millis()
    }

    /// Remove stale sources as of a new reading of the registry's clock
    /// (never earlier than the one before); returns their ids.
    pub fn prune_stale(&mut self) -> (removed: Vec<String>)
        requires
            old(self).wf(),
        ensures
            final(self).wf(),
            final(self).clock.latest() >= old(self).clock.latest(),
            final(self).clock.latest() >= crate::health::CLOCK_START_MS,
            pruned_at(old(self).sources@, final(self).sources@, removed@, final(self).clock.latest(),
                opt_view(old(self).active_source_id), opt_view(final(self).active_source_id)),
    {
        let now = self.clock.now_millis();
        let removed = self.prune_stale_at(now);
        assert(pruned_at(old(self).sources@, self.sources@, removed@, now,
            opt_view(old(self).active_source_id), opt_view(self.active_source_id)));
        removed
    }

    fn freshness_exec(s: &SourceState, now: u64) -> (r: u64)
        ensures
            r == freshness(*s, now),
    {
        if s.last_seen >= now { u64::MAX } else { u64::MAX - (now - s.last_seen) }
    }

    /// The freshest playing source (last on ties).
    fn find_best_playing(&self, now: u64) -> (r: Option<usize>)
        ensures
            match r {
                Some(i) => is_last_max(self.sources@, i as int, |x: SourceState| is_playing_source(x), |x: SourceState| freshness(x, now)),
                None => forall|j: int| 0 <= j < self.sources@.len() ==> !is_playing_source(self.sources@[j]),
            },
    {
        let ghost s = self.sources@;
        let mut best: Option<usize> = None;
        let mut best_key: u64 = 0;
        let mut i: usize = 0;
        while i < self.sources.len()
            invariant
                s == self.sources@,
                i <= s.len(),
                match best {
                    Some(b) => b < i && is_playing_source(s[b as int]) && best_key == freshness(s[b as int], now)
                        && (forall|j: int| 0 <= j < i && is_playing_source(s[j]) ==> freshness(s[j], now) <= best_key)
                        && (forall|j: int| b < j < i && is_playing_source(s[j]) ==> freshness(s[j], now) < best_key),
                    None => forall|j: int| 0 <= j < i ==> !is_playing_source(s[j]),
                },
            decreases s.len() - i,
        {
            if self.sources[i].is_playing() {
                let k = Self::freshness_exec(&self.sources[i], now);
                let take = match best { Some(_) => k >= best_key, None => true };
                if take {
                    best = Some(i);
                    best_key = k;
                }
            }
            i += 1;
        }
        best
    }

    /// The most recently seen paused source (last on ties).
    fn find_paused(&self) -> (r: Option<usize>)
        ensures
            match r {
                Some(i) => is_last_max(self.sources@, i as int, |x: SourceState| is_paused_source(x), |x: SourceState| x.last_seen as int),
                None => forall|j: int| 0 <= j < self.sources@.len() ==> !is_paused_source(self.sources@[j]),
            },
    {
        let ghost s = self.sources@;
        let mut best: Option<usize> = None;
        let mut best_key: u64 = 0;
        let mut i: usize = 0;
        while i < self.sources.len()
            invariant
                s == self.sources@,
                i <= s.len(),
                match best {
                    Some(b) => b < i && is_paused_source(s[b as int]) && best_key == s[b as int].last_seen
                        && (forall|j: int| 0 <= j < i && is_paused_source(s[j]) ==> s[j].last_seen <= best_key)
                        && (forall|j: int| b < j < i && is_paused_source(s[j]) ==> s[j].last_seen < best_key),
                    None => forall|j: int| 0 <= j < i ==> !is_paused_source(s[j]),
                },
            decreases s.len() - i,
        {
            if self.sources[i].playback.status == Status::Paused {
                let k = self.sources[i].last_seen;
                let take = match best { Some(_) => k >= best_key, None => true };
                if take {
                    best = Some(i);
                    best_key = k;
                }
            }
            i += 1;
        }
        best
    }

    /// Select the best source as of `now` and remember it as active.
    pub fn select_active_at(&mut self, now: u64) -> (r: (Option<&SourceState>, SelectionReason))
        requires
            old(self).wf(),
        ensures
            final(self).wf(),
            final(self).clock == old(self).clock,
            final(self).sources@ == old(self).sources@,
            selection_at(old(self).sources@, now, r.0, r.1, opt_view(final(self).active_source_id)),
    {
        let chosen = match self.find_best_playing(now) {
            Some(i) => Some(i),
            None => self.find_paused(),
        };
        match chosen {
            Some(i) => {
                let reason = if self.sources[i].is_playing() { SelectionReason::Playing } else { SelectionReason::Paused };
                self.active_source_id = Some(self.sources[i].source_id.clone());
                let ghost s = self.sources@;
                assert(selected_index(s, now, i as int));
                (Some(&self.sources[i]), reason)
            },
            None => {
                self.active_source_id = None;
                (None, SelectionReason::NoSource)
            },
        }
    }

    /// Select the best source as of a new reading of the registry's clock
    /// (never earlier than the one before).
    pub fn select_active(&mut self) -> (r: (Option<&SourceState>, SelectionReason))
        requires
            old(self).wf(),
        ensures
            final(self).wf(),
            final(self).sources@ == old(self).sources@,
            final(self).clock.latest() >= old(self).clock.latest(),
            final(self).clock.latest() >= crate::health::CLOCK_START_MS,
            selection_at(old(self).sources@, final(self).clock.latest(), r.0, r.1, opt_view(final(self).active_source_id)),
    {
        let now = self.clock.now_millis();
        self.select_active_at(now)
    }

    pub fn active_source_id(&self) -> (r: Option<&str>)
        ensures
            match r {
                Some(a) => opt_view(self.active_source_id) == Some(a@),
                None => self.active_source_id is None,
            },
    {
        match &self.active_source_id {
            Some(a) => Some(a.as_str()),
            None => None,
        }
    }

    pub fn source_count(&self) -> (r: usize)
        ensures
            r == self.sources@.len(),
    {
        self.sources.len()
    }

    pub fn is_empty(&self) -> (r: bool)
        ensures
            r == (self.sources@.len() == 0),
    {
        self.sources.len() == 0
    }
}

/// `needle` is one of the strings.
pub fn contains_string(v: &Vec<String>, needle: &str) -> (r: bool)
    ensures
        r == v@.map_values(|s: String| s@).contains(needle@),
{
    let mut i: usize = 0;
    while i < v.len()
        invariant
            i <= v@.len(),
            forall|k: int| 0 <= k < i ==> v@[k]@ != needle@,
        decreases v@.len() - i,
    {
        if str_eq(v[i].as_str(), needle) {
            assert(v@.map_values(|s: String| s@)[i as int] == needle@);
            return true;
        }
        i += 1;
    }
    let ghost m = v@.map_values(|s: String| s@);
    assert(!m.contains(needle@)) by {
        if m.contains(needle@) {
            let k = choose|k: int| 0 <= k < m.len() && #[trigger] m[k] == needle@;
            assert(v@[k]@ == needle@);
        }
    }
    false
}

/// Commands MPRIS clients send to a bridge player (times in microseconds).
#[derive(Debug, Clone, Copy, PartialEq, Eq, Structural)]
pub enum MprisCommand {
    PlayPause,
    Next,
    Previous,
    Seek(i64),
    SetPosition(i64),
    Stop,
    Play,
    Pause,
}

/// Commands the extension understands.
#[derive(Debug, Clone, Copy, PartialEq, Eq, Structural)]
pub enum CommandKind {
    PlayPause,
    Play,
    Pause,
    Next,
    Previous,
    Seek,
    SetPosition,
}

/// A command for one source of the extension (absolute position in ms).
#[derive(Debug, Clone)]
pub struct BridgeCommand {
    pub source_id: String,
    pub command: CommandKind,
    pub position_ms: Option<u64>,
}

pub open spec fn command_kind(cmd: MprisCommand) -> CommandKind {
    match cmd {
        MprisCommand::PlayPause => CommandKind::PlayPause,
        MprisCommand::Play => CommandKind::Play,
        MprisCommand::Pause => CommandKind::Pause,
        MprisCommand::Next => CommandKind::Next,
        MprisCommand::Previous => CommandKind::Previous,
        MprisCommand::Seek(_) => CommandKind::Seek,
        MprisCommand::SetPosition(_) => CommandKind::SetPosition,
        MprisCommand::Stop => CommandKind::Pause,
    }
}

/// Translate an MPRIS command into the extension's command for a source.
/// Only a non-negative `SetPosition` carries a position (µs to ms); a relative
/// seek carries none.
pub fn bridge_command_for(source_id: &str, cmd: &MprisCommand) -> (r: BridgeCommand)
    ensures
        r.source_id@ == source_id@,
        r.command == command_kind(*cmd),
        r.position_ms == (match *cmd {
            MprisCommand::SetPosition(us) => if us >= 0 { Some((us / 1000) as u64) } else { None },
            _ => None,
        }),
{
    let command = match cmd {
        MprisCommand::PlayPause => CommandKind::PlayPause,
        MprisCommand::Play => CommandKind::Play,
        MprisCommand::Pause => CommandKind::Pause,
        MprisCommand::Next => CommandKind::Next,
        MprisCommand::Previous => CommandKind::Previous,
        MprisCommand::Seek(_) => CommandKind::Seek,
        MprisCommand::SetPosition(_) => CommandKind::SetPosition,
        MprisCommand::Stop => CommandKind::Pause,
    };
    let position_ms = match cmd {
        MprisCommand::SetPosition(us) => if *us >= 0 { Some((*us / 1000) as u64) } else { None },
        _ => None,
    };
    BridgeCommand { source_id: source_id.to_owned(), command, position_ms }
}

/// Metadata fields published as the D-Bus `Metadata` property.
#[derive(Debug, Clone)]
pub struct MetaSnapshot {
    pub track_id: String,
    pub title: String,
    pub artists: Vec<String>,
    pub album: String,
    pub album_artists: Vec<String>,
    pub art_url: String,
    pub length_us: i64,
    pub url: String,
}

/// Capability flags (`CanPlay`, `CanGoNext`, ...).
#[derive(Debug, Clone, Copy, PartialEq, Eq, Structural)]
pub struct CapsSnapshot {
    pub can_play_pause: bool,
    pub can_next: bool,
    pub can_previous: bool,
    pub can_seek: bool,
}

/// The MPRIS state last pushed to D-Bus for one player.
#[derive(Debug, Clone)]
pub struct PublishedSnapshot {
    pub identity: String,
    pub status: Option<Status>,
    pub meta: MetaSnapshot,
    pub caps: CapsSnapshot,
}

/// Which MPRIS property groups changed between two snapshots.
#[derive(Debug, Clone, Copy, PartialEq, Eq, Structural)]
pub struct PublishDecision {
    pub identity: bool,
    pub status: bool,
    pub metadata: bool,
    pub caps: bool,
}

impl Default for PublishDecision {
    fn default() -> (r: Self)
        ensures
            !r.identity && !r.status && !r.metadata && !r.caps,
    {
        PublishDecision { identity: false, status: false, metadata: false, caps: false }
    }
}

impl PublishDecision {
    /// Some group changed.
    pub fn any(&self) -> (r: bool)
        ensures
            r == (self.identity || self.status || self.metadata || self.caps),
    {
        self.identity || self.status || self.metadata || self.caps
    }
}

pub open spec fn views_of(v: Seq<String>) -> Seq<Seq<char>> {
    v.map_values(|s: String| s@)
}

/// Two metadata snapshots hold the same values.
pub open spec fn meta_same(a: MetaSnapshot, b: MetaSnapshot) -> bool {
    &&& a.track_id@ == b.track_id@
    &&& a.title@ == b.title@
    &&& views_of(a.artists@) == views_of(b.artists@)
    &&& a.album@ == b.album@
    &&& views_of(a.album_artists@) == views_of(b.album_artists@)
    &&& a.art_url@ == b.art_url@
    &&& a.length_us == b.length_us
    &&& a.url@ == b.url@
}

fn strings_eq(a: &Vec<String>, b: &Vec<String>) -> (r: bool)
    ensures
        r == (views_of(a@) == views_of(b@)),
{
    if a.len() != b.len() {
        assert(views_of(a@).len() != views_of(b@).len());
        return false;
    }
    let mut i: usize = 0;
    while i < a.len()
        invariant
            a@.len() == b@.len(),
            i <= a@.len(),
            forall|k: int| 0 <= k < i ==> a@[k]@ == b@[k]@,
        decreases a@.len() - i,
    {
        if a[i] != b[i] {
            assert(views_of(a@)[i as int] != views_of(b@)[i as int]);
            return false;
        }
        i += 1;
    }
    assert(views_of(a@) =~= views_of(b@));
    true
}

fn meta_eq(a: &MetaSnapshot, b: &MetaSnapshot) -> (r: bool)
    ensures
        r == meta_same(*a, *b),
{
    a.track_id == b.track_id && a.title == b.title && strings_eq(&a.artists, &b.artists) && a.album == b.album
        && strings_eq(&a.album_artists, &b.album_artists) && a.art_url == b.art_url && a.length_us == b.length_us
        && a.url == b.url
}

fn status_opt_eq(a: Option<Status>, b: Option<Status>) -> (r: bool)
    ensures
        r == (a == b),
{
    match (a, b) {
        (Some(x), Some(y)) => x == y,
        (None, None) => true,
        _ => false,
    }
}

/// Compare the desired snapshot against the last published one.
pub fn compute_publish_decision(prev: &PublishedSnapshot, next: &PublishedSnapshot) -> (r: PublishDecision)
    ensures
        r.identity == (prev.identity@ != next.identity@),
        r.status == (prev.status != next.status),
        r.metadata == !meta_same(prev.meta, next.meta),
        r.caps == (prev.caps != next.caps),
{
    PublishDecision {
        identity: prev.identity != next.identity,
        status: !status_opt_eq(prev.status, next.status),
        metadata: !meta_eq(&prev.meta, &next.meta),
        caps: prev.caps != next.caps,
    }
}

/// Hash of a string as `str::hash` feeds it to a fresh `DefaultHasher`:
/// its UTF-8 bytes, then the byte `0xff` that ends a `str`.
pub open spec fn default_hash(s: Seq<char>) -> u64 {
    DefaultHasher::spec_finish(seq![utf8(s), seq![0xffu8]])
}

/// Hash of a string with the standard library's default hasher (fixed
/// keys), fed as `str::hash` feeds it.
fn hash_str(input: &str) -> (r: u64)
    ensures
        r == default_hash(input@),
{
    let mut hasher = DefaultHasher::new();
    assert(hasher@ == Seq::<Seq<u8>>::empty());
    let bytes = utf8_bytes(input);
    hasher.write(bytes.as_slice());
    assert(hasher@ == seq![utf8(input@)]);
    let mut end: Vec<u8> = Vec::new();
    end.push(0xffu8);
    assert(end@ =~= seq![0xffu8]);
    hasher.write(end.as_slice());
    assert(hasher@ =~= seq![utf8(input@), seq![0xffu8]]);
    hasher.finish()
}

pub open spec fn hex_char(d: nat) -> char {
    if d < 10 { (('0' as u32) + d) as char } else { (('a' as u32) + d - 10) as char }
}

/// Lower-case hexadecimal digits of `v`, without leading zeros.
pub open spec fn hex_digits(v: nat) -> Seq<char>
    decreases v,
{
    if v < 16 { seq![hex_char(v)] } else { hex_digits(v / 16).push(hex_char(v % 16)) }
}

/// `format!("{:08x}", v)`: hex digits, left-padded with zeros to eight.
pub open spec fn hex8(v: u64) -> Seq<char> {
    let d = hex_digits(v as nat);
    if d.len() >= 8 { d } else { Seq::new((8 - d.len()) as nat, |i: int| '0') + d }
}

fn hex_char_exec(d: u64) -> (r: char)
    requires
        d < 16,
    ensures
        r == hex_char(d as nat),
{
    if d < 10 { ((48 + d) as u8) as char } else { ((97 + d - 10) as u8) as char }
}

fn hex_digits_exec(v: u64) -> (r: Vec<char>)
    ensures
        r@ == hex_digits(v as nat),
    decreases v,
{
    if v < 16 {
        let mut r = Vec::new();
        r.push(hex_char_exec(v));
        assert(r@ =~= seq![hex_char(v as nat)]);
        r
    } else {
        let mut r = hex_digits_exec(v / 16);
        r.push(hex_char_exec(v % 16));
        r
    }
}

/// Eight-or-more-digit lower-case hex form of a number.
pub fn hex8_exec(v: u64) -> (r: String)
    ensures
        r@ == hex8(v),
{
    let d = hex_digits_exec(v);
    let mut out: Vec<char> = Vec::new();
    if d.len() < 8 {
        let pad = 8 - d.len();
        let mut i: usize = 0;
        while i < pad
            invariant
                i <= pad,
                out@ == Seq::new(i as nat, |k: int| '0'),
            decreases pad - i,
        {
            out.push('0');
            i += 1;
            assert(out@ =~= Seq::new(i as nat, |k: int| '0'));
        }
    }
    crate::text::append_chars(&mut out, d.as_slice());
    assert(out@ =~= hex8(v));
    string_from(out.as_slice())
}

/// Hash of a string as eight-or-more hex digits.
pub open spec fn simple_hash(s: Seq<char>) -> Seq<char> {
    hex8(default_hash(s))
}

pub fn simple_hash_exec(input: &str) -> (r: String)
    ensures
        r@ == simple_hash(input@),
{
    hex8_exec(hash_str(input))
}

/// Bus suffix of a bridge player: `web.<site>.<hash of source id>`.
pub open spec fn player_suffix(source_id: Seq<char>, site: Seq<char>) -> Seq<char> {
    WEB_PREFIX@ + site + seq!['.'] + simple_hash(source_id)
}

pub const WEB_PREFIX: &'static str = "web.";

pub fn make_player_suffix(source_id: &str, site: &str) -> (r: String)
    ensures
        r@ == player_suffix(source_id@, site@),
{
    let hash = simple_hash_exec(source_id);
    let mut out = concat_str(WEB_PREFIX, site);
    push_char(&mut out, '.');
    out.append(hash.as_str());
    out
}

/// The MPRIS bus suffix for a bridge player:
/// `mprisence_web.<site>.<hash of source id>`, so that the stable
/// `mprisence_web` prefix can be found again from the bus name.
pub fn bridge_player_suffix(source_id: &str, site: &str) -> (r: String)
    ensures
        r@ == "mprisence_"@ + player_suffix(source_id@, site@),
{
    let suffix = make_player_suffix(source_id, site);
    concat_str("mprisence_", suffix.as_str())
}

pub open spec fn dbus_safe_char(c: char) -> char {
    if ('a' <= c && c <= 'z') || ('A' <= c && c <= 'Z') || ('0' <= c && c <= '9') || c == '_' { c } else { '_' }
}

/// A value with every character outside `[A-Za-z0-9_]` replaced by `_`.
pub fn dbus_safe_value(raw: &str) -> (r: String)
    ensures
        r@ == raw@.map_values(|c: char| dbus_safe_char(c)),
{
    let chars = chars_of(raw);
    let mut out: Vec<char> = Vec::new();
    let mut i: usize = 0;
    while i < chars.len()
        invariant
            i <= chars@.len(),
            chars@ == raw@,
            out@ == chars@.take(i as int).map_values(|c: char| dbus_safe_char(c)),
        decreases chars@.len() - i,
    {
        let c = chars[i];
        let keep = ('a' <= c && c <= 'z') || ('A' <= c && c <= 'Z') || ('0' <= c && c <= '9') || c == '_';
        out.push(if keep { c } else { '_' });
        i += 1;
        assert(chars@.take(i as int).map_values(|c: char| dbus_safe_char(c))
            =~= chars@.take(i - 1).map_values(|c: char| dbus_safe_char(c)).push(dbus_safe_char(c)));
    }
    assert(chars@.take(chars@.len() as int) =~= chars@);
    string_from(out.as_slice())
}

/// Name of the result of `char::to_uppercase` collected into a string.
pub uninterp spec fn upper_of(c: char) -> Seq<char>;

/// Unicode upper case of one character.
///
/// Wraps `char::to_uppercase`; the result is named by `upper_of`.
#[verifier::external_body]
fn upper_char(c: char) -> (r: String)
    ensures
        r@ == upper_of(c),
{
    c.to_uppercase().collect()
}

/// A word with its first character upper-cased.
pub open spec fn capitalize(w: Seq<char>) -> Seq<char> {
    if w.len() == 0 { w } else { upper_of(w[0]) + w.skip(1) }
}

pub open spec fn capitalized_words(ws: Seq<Seq<char>>) -> Seq<Seq<char>> {
    ws.map_values(|w: Seq<char>| capitalize(w))
}

/// Display name of a bridge site.
pub open spec fn site_name(site: Seq<char>) -> Seq<char> {
    if site == "youtube_music"@ { "YouTube Music"@ }
    else if site == "you_tube"@ { "YouTube"@ }
    else if site == "spotify"@ { "Spotify"@ }
    else if site == "soundcloud"@ { "SoundCloud"@ }
    else if site == "bandcamp"@ { "Bandcamp"@ }
    else if site == "tidal"@ { "Tidal"@ }
    else if site == "apple_music"@ { "Apple Music"@ }
    else if site == "generic"@ { "Browser"@ }
    else { join_seqs(capitalized_words(split_on(site, '_')), seq![' ']) }
}

/// Display name of a bridge site: known sites by name, others with each
/// `_`-separated word capitalised and joined by spaces.
pub fn format_site_name(site: &str) -> (r: String)
    ensures
        r@ == site_name(site@),
{
    if str_eq(site, "youtube_music") { return "YouTube Music".to_owned(); }
    if str_eq(site, "you_tube") { return "YouTube".to_owned(); }
    if str_eq(site, "spotify") { return "Spotify".to_owned(); }
    if str_eq(site, "soundcloud") { return "SoundCloud".to_owned(); }
    if str_eq(site, "bandcamp") { return "Bandcamp".to_owned(); }
    if str_eq(site, "tidal") { return "Tidal".to_owned(); }
    if str_eq(site, "apple_music") { return "Apple Music".to_owned(); }
    if str_eq(site, "generic") { return "Browser".to_owned(); }
    let chars = chars_of(site);
    let words = split_chars(chars.as_slice(), '_');
    let ghost ws = seqs_of(words@);
    let mut caps: Vec<Vec<char>> = Vec::new();
    let mut i: usize = 0;
    while i < words.len()
        invariant
            ws == seqs_of(words@),
            i <= words@.len(),
            seqs_of(caps@) == capitalized_words(ws.take(i as int)),
        decreases words@.len() - i,
    {
        let w = &words[i];
        let mut c: Vec<char> = Vec::new();
        if w.len() > 0 {
            let up = upper_char(w[0]);
            c = chars_of(up.as_str());
            let mut k: usize = 1;
            while k < w.len()
                invariant
                    1 <= k <= w@.len(),
                    c@ == upper_of(w@[0]) + w@.subrange(1, k as int),
                decreases w@.len() - k,
            {
                c.push(w[k]);
                k += 1;
                assert(upper_of(w@[0]) + w@.subrange(1, k as int) =~= (upper_of(w@[0]) + w@.subrange(1, k - 1)).push(w@[k - 1]));
            }
            assert(w@.subrange(1, w@.len() as int) =~= w@.skip(1));
        }
        assert(c@ == capitalize(w@));
        let ghost before = seqs_of(caps@);
        caps.push(c);
        assert(seqs_of(caps@) =~= before.push(c@));
        assert(capitalized_words(ws.take(i + 1)) =~= capitalized_words(ws.take(i as int)).push(capitalize(ws[i as int])));
        i += 1;
    }
    assert(ws.take(ws.len() as int) =~= ws);
    let space = [' '];
    assert(space@ =~= seq![' ']);
    let joined = join_chars(caps.as_slice(), &space);
    string_from(joined.as_slice())
}

pub const BLOB_PREFIX: &'static str = "blob:";
pub const HTTP_PREFIX: &'static str = "http://";
pub const HTTPS_PREFIX: &'static str = "https://";

/// The best URL for `xesam:url`: a usable canonical URL, else the page URL
/// unless it is a `blob:` URL, else the origin.
pub open spec fn best_url(s: SourceState) -> Seq<char> {
    if s.canonical_url is Some && s.canonical_url->0@.len() > 0 && !BLOB_PREFIX@.is_prefix_of(s.canonical_url->0@) {
        s.canonical_url->0@
    } else if !BLOB_PREFIX@.is_prefix_of(s.url@) {
        s.url@
    } else {
        s.origin@
    }
}

pub fn select_best_url(s: &SourceState) -> (r: String)
    ensures
        r@ == best_url(*s),
{
    if let Some(cu) = &s.canonical_url {
        if chars_of(cu.as_str()).len() > 0 && !str_starts_with(cu.as_str(), BLOB_PREFIX) {
            return cu.clone();
        }
    }
    if !str_starts_with(s.url.as_str(), BLOB_PREFIX) {
        return s.url.clone();
    }
    s.origin.clone()
}

pub const TRACK_PREFIX: &'static str = "/mprisence/track/";

/// Track id: the provider id (under the track prefix unless it is a path),
/// else a hash of the canonical URL, else of the page URL, else of the
/// source id and title.
/// The text of an optional string, empty where there is none.
pub open spec fn text_or_empty(o: Option<String>) -> Seq<char> {
    match o {
        Some(t) => t@,
        None => Seq::<char>::empty(),
    }
}

pub open spec fn track_id_of(s: SourceState, meta: SourceMetadata) -> Seq<char> {
    if meta.track_id is Some && meta.track_id->0@.len() > 0 {
        let tid = meta.track_id->0@;
        if tid[0] == '/' { tid } else { TRACK_PREFIX@ + tid }
    } else if s.canonical_url is Some && s.canonical_url->0@.len() > 0 {
        TRACK_PREFIX@ + simple_hash(s.canonical_url->0@)
    } else if s.url@.len() > 0 && !BLOB_PREFIX@.is_prefix_of(s.url@) {
        TRACK_PREFIX@ + simple_hash(s.url@)
    } else {
        TRACK_PREFIX@ + simple_hash(s.source_id@ + seq!['+'] + text_or_empty(meta.title))
    }
}

pub fn make_track_id(s: &SourceState, meta: &SourceMetadata) -> (r: String)
    ensures
        r@ == track_id_of(*s, *meta),
{
    if let Some(tid) = &meta.track_id {
        let tc = chars_of(tid.as_str());
        if tc.len() > 0 {
            if tc[0] == '/' {
                return tid.clone();
            }
            return concat_str(TRACK_PREFIX, tid.as_str());
        }
    }
    if let Some(cu) = &s.canonical_url {
        if chars_of(cu.as_str()).len() > 0 {
            let h = simple_hash_exec(cu.as_str());
            return concat_str(TRACK_PREFIX, h.as_str());
        }
    }
    if chars_of(s.url.as_str()).len() > 0 && !str_starts_with(s.url.as_str(), BLOB_PREFIX) {
        let h = simple_hash_exec(s.url.as_str());
        return concat_str(TRACK_PREFIX, h.as_str());
    }
    let ghost title: Seq<char> = text_or_empty(meta.title);
    let mut input = s.source_id.clone();
    push_char(&mut input, '+');
    match &meta.title {
        Some(t) => input.append(t.as_str()),
        None => {},
    }
    assert(input@ =~= s.source_id@ + seq!['+'] + title);
    let h = simple_hash_exec(input.as_str());
    concat_str(TRACK_PREFIX, h.as_str())
}

pub open spec fn default_meta(m: MetaSnapshot) -> bool {
    &&& m.track_id@.len() == 0 && m.title@.len() == 0 && m.artists@.len() == 0 && m.album@.len() == 0
    &&& m.album_artists@.len() == 0 && m.art_url@.len() == 0 && m.length_us == 0 && m.url@.len() == 0
}

impl Default for MetaSnapshot {
    fn default() -> (r: Self)
        ensures
            default_meta(r),
    {
        MetaSnapshot {
            track_id: String::new(),
            title: String::new(),
            artists: Vec::new(),
            album: String::new(),
            album_artists: Vec::new(),
            art_url: String::new(),
            length_us: 0,
            url: String::new(),
        }
    }
}

impl Default for CapsSnapshot {
    fn default() -> (r: Self)
        ensures
            !r.can_play_pause && !r.can_next && !r.can_previous && !r.can_seek,
    {
        CapsSnapshot { can_play_pause: false, can_next: false, can_previous: false, can_seek: false }
    }
}

impl Default for PublishedSnapshot {
    fn default() -> (r: Self)
        ensures
            r.identity@.len() == 0,
            r.status is None,
            default_meta(r.meta),
            r.caps == (CapsSnapshot { can_play_pause: false, can_next: false, can_previous: false, can_seek: false }),
    {
        PublishedSnapshot {
            identity: String::new(),
            status: None,
            meta: MetaSnapshot::default(),
            caps: CapsSnapshot::default(),
        }
    }
}

/// Length (µs) published for a duration: only for 0 < duration < 24 h.
pub open spec fn length_us_of(duration_ms: u64) -> i64 {
    if 0 < duration_ms && duration_ms < 86_400_000 { (duration_ms * 1000) as i64 } else { 0 }
}

/// Art URL published: only an `http(s)://` URL, else empty.
pub open spec fn art_url_of(a: Option<String>) -> Seq<char> {
    match a {
        Some(u) => if HTTP_PREFIX@.is_prefix_of(u@) || HTTPS_PREFIX@.is_prefix_of(u@) { u@ } else { Seq::<char>::empty() },
        None => Seq::<char>::empty(),
    }
}

fn clone_strings(v: &Vec<String>) -> (r: Vec<String>)
    ensures
        views_of(r@) == views_of(v@),
{
    let mut out: Vec<String> = Vec::new();
    let mut i: usize = 0;
    while i < v.len()
        invariant
            i <= v@.len(),
            out@.len() == i,
            forall|k: int| 0 <= k < i ==> #[trigger] out@[k]@ == v@[k]@,
        decreases v@.len() - i,
    {
        let c = v[i].clone();
        out.push(c);
        i += 1;
    }
    assert(views_of(out@) =~= views_of(v@));
    out
}

/// The snapshot a source should be published as (the default without a source).
pub fn build_snapshot(source: Option<&SourceState>) -> (r: PublishedSnapshot)
    ensures
        match source {
            None => r.identity@.len() == 0 && r.status is None && default_meta(r.meta) && !r.caps.can_play_pause
                && !r.caps.can_next && !r.caps.can_previous && !r.caps.can_seek,
            Some(s) => {
                &&& r.identity@ == site_name(s.site@)
                &&& r.status == Some(s.playback.status)
                &&& r.meta.track_id@ == track_id_of(*s, s.metadata)
                &&& r.meta.title@ == (match s.metadata.title { Some(t) => t@, None => Seq::<char>::empty() })
                &&& views_of(r.meta.artists@) == views_of(s.metadata.artist@)
                &&& r.meta.album@ == (match s.metadata.album { Some(t) => t@, None => Seq::<char>::empty() })
                &&& views_of(r.meta.album_artists@) == views_of(s.metadata.album_artist@)
                &&& r.meta.art_url@ == art_url_of(s.metadata.art_url)
                &&& r.meta.length_us == length_us_of(s.playback.duration_ms)
                &&& r.meta.url@ == best_url(*s)
                &&& r.caps == (CapsSnapshot {
                    can_play_pause: s.capabilities.play_pause,
                    can_next: s.capabilities.next,
                    can_previous: s.capabilities.previous,
                    can_seek: s.capabilities.seek || s.capabilities.set_position,
                })
            },
        },
{
    let s = match source {
        Some(s) => s,
        None => return PublishedSnapshot::default(),
    };
    let meta = &s.metadata;
    let d = s.playback.duration_ms;
    let length_us: i64 = if d > 0 && d < 86_400_000 { (d * 1000) as i64 } else { 0 };
    let art_url = match &meta.art_url {
        Some(u) => if str_starts_with(u.as_str(), HTTP_PREFIX) || str_starts_with(u.as_str(), HTTPS_PREFIX) { u.clone() } else { String::new() },
        None => String::new(),
    };
    let title = match &meta.title { Some(t) => t.clone(), None => String::new() };
    let album = match &meta.album { Some(t) => t.clone(), None => String::new() };
    PublishedSnapshot {
        identity: format_site_name(s.site.as_str()),
        status: Some(s.playback.status),
        meta: MetaSnapshot {
            track_id: make_track_id(s, meta),
            title,
            artists: clone_strings(&meta.artist),
            album,
            album_artists: clone_strings(&meta.album_artist),
            art_url,
            length_us,
            url: select_best_url(s),
        },
        caps: CapsSnapshot {
            can_play_pause: s.capabilities.play_pause,
            can_next: s.capabilities.next,
            can_previous: s.capabilities.previous,
            can_seek: s.capabilities.seek || s.capabilities.set_position,
        },
    }
}

/// A native-messaging payload longer than a 32-bit length can describe, or a
/// frame whose payload was cut short.
#[derive(Debug, Clone, Copy, PartialEq, Eq, Structural)]
pub enum FrameError {
    MessageTooLarge,
    /// The input ended inside a payload.
    Truncated,
}

/// Little-endian bytes of a 32-bit length.
pub open spec fn le_bytes(n: int) -> Seq<u8> {
    seq![(n % 256) as u8, ((n / 256) % 256) as u8, ((n / 65536) % 256) as u8, ((n / 16777216) % 256) as u8]
}

/// Append one native-messaging frame: the payload length as four
/// little-endian bytes, then the payload.
pub fn write_message(writer: &mut Vec<u8>, json: &[u8]) -> (r: Result<(), FrameError>)
    ensures
        json@.len() > u32::MAX ==> r == Err::<(), FrameError>(FrameError::MessageTooLarge) && final(writer)@ == old(writer)@,
        json@.len() <= u32::MAX ==> r is Ok && final(writer)@ == old(writer)@ + le_bytes(json@.len() as int) + json@,
{
    let len = json.len();
    if len > 0xffff_ffff {
        return Err(FrameError::MessageTooLarge);
    }
    let n = len as u64;
    writer.push((n % 256) as u8);
    writer.push(((n / 256) % 256) as u8);
    writer.push(((n / 65536) % 256) as u8);
    writer.push(((n / 16777216) % 256) as u8);
    let ghost mid = writer@;
    let mut i: usize = 0;
    while i < len
        invariant
            len == json@.len(),
            i <= len,
            writer@ == mid + json@.take(i as int),
        decreases len - i,
    {
        writer.push(json[i]);
        i += 1;
        assert(mid + json@.take(i as int) =~= (mid + json@.take(i - 1)).push(json@[i - 1]));
    }
    assert(json@.take(len as int) =~= json@);
    assert(writer@ =~= old(writer)@ + le_bytes(json@.len() as int) + json@);
    Ok(())
}

/// The 32-bit length that four little-endian bytes encode.
pub open spec fn le_value(b: Seq<u8>) -> int {
    b[0] as int + b[1] as int * 256 + b[2] as int * 65536 + b[3] as int * 16777216
}

/// What reading one frame from the start of `buf` gives: nothing at the end
/// of input (fewer than four bytes), the payload, or `Truncated` when the
/// input ends inside the payload.
pub open spec fn frame_read(buf: Seq<u8>) -> Result<Option<Seq<u8>>, FrameError> {
    if buf.len() < 4 {
        Ok(None)
    } else if buf.len() - 4 < le_value(buf) {
        Err(FrameError::Truncated)
    } else {
        Ok(Some(buf.subrange(4, 4 + le_value(buf))))
    }
}

/// Read one native-messaging frame from the start of `buf`.
pub fn read_message(buf: &[u8]) -> (r: Result<Option<Vec<u8>>, FrameError>)
    ensures
        match r {
            Ok(Some(p)) => frame_read(buf@) == Ok::<Option<Seq<u8>>, FrameError>(Some(p@)),
            Ok(None) => frame_read(buf@) == Ok::<Option<Seq<u8>>, FrameError>(None),
            Err(e) => frame_read(buf@) == Err::<Option<Seq<u8>>, FrameError>(e),
        },
{
    if buf.len() < 4 {
        return Ok(None);
    }
    let n: u64 = buf[0] as u64 + buf[1] as u64 * 256 + buf[2] as u64 * 65536 + buf[3] as u64 * 16777216;
    let avail: u64 = (buf.len() - 4) as u64;
    if avail < n {
        return Err(FrameError::Truncated);
    }
    let mut out: Vec<u8> = Vec::new();
    let mut i: usize = 4;
    let end: usize = 4 + n as usize;
    while i < end
        invariant
            4 <= i <= end,
            end == 4 + le_value(buf@),
            end <= buf@.len(),
            out@ == buf@.subrange(4, i as int),
        decreases end - i,
    {
        out.push(buf[i]);
        i += 1;
        assert(out@ =~= buf@.subrange(4, i as int));
    }
    Ok(Some(out))
}

/// A frame written for a payload reads back as exactly that payload.
pub proof fn law_frame_roundtrip(json: Seq<u8>, rest: Seq<u8>)
    requires
        json.len() <= u32::MAX,
    ensures
        frame_read(le_bytes(json.len() as int) + json + rest) == Ok::<Option<Seq<u8>>, FrameError>(Some(json)),
{
    let x: u32 = json.len() as u32;
    let buf = le_bytes(json.len() as int) + json + rest;
    assert((x % 256) as int + ((x / 256) % 256) as int * 256 + ((x / 65536) % 256) as int * 65536
        + ((x / 16777216) % 256) as int * 16777216 == x as int) by (nonlinear_arith);
    assert(buf[0] == (x % 256) as u8);
    assert(buf[1] == ((x / 256) % 256) as u8);
    assert(buf[2] == ((x / 65536) % 256) as u8);
    assert(buf[3] == ((x / 16777216) % 256) as u8);
    assert(le_value(buf) == json.len());
    assert(buf.subrange(4, 4 + json.len() as int) =~= json);
}

} // verus!
