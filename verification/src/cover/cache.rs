//! The cover-art cache: entry keys, byte payloads, usage accounting and the
//! order in which entries are evicted. Reading and writing the cache
//! directory is left to the caller.
use vstd::prelude::*;
use crate::cover::art::{blake3_hex, blake3_hex_of, utf8, utf8_bytes};
use crate::text::{concat_str, join_seqs, join_strings, lex_less, str_less};

verus! {

broadcast use vstd::string::group_string_axioms;

pub const MAX_CACHE_ENTRIES: usize = 1024;
pub const MAX_CACHE_SIZE_BYTES: u64 = 33554432;
pub const MAX_CACHED_IMAGE_BYTES: usize = 8388608;

/// One cached cover: its URL, provider, and times in seconds since the epoch.
#[derive(Debug, Clone)]
pub struct CacheEntry {
    pub url: String,
    pub provider: String,
    pub expires_at: u64,
    pub last_validated: u64,
    pub data_file: Option<String>,
}

/// Name of the file holding an entry's bytes.
pub fn data_file_name(key: &str) -> (r: String)
    ensures
        r@ == key@ + ".bin"@,
{
    concat_str(key, ".bin")
}

/// Bytes are kept with an entry only when there are some and they fit the
/// per-entry cap.
pub fn payload_fits(len: usize) -> (r: bool)
    ensures
        r == (0 < len && len <= MAX_CACHED_IMAGE_BYTES),
{
    0 < len && len <= MAX_CACHED_IMAGE_BYTES
}

/// Lifetime of a new entry: the provider's, capped at the cache's.
pub fn effective_ttl(provider_ttl: Option<u64>, cache_ttl: u64) -> (r: u64)
    ensures
        r == (match provider_ttl { Some(t) => if t < cache_ttl { t } else { cache_ttl }, None => cache_ttl }),
{
    match provider_ttl {
        Some(t) => if t < cache_ttl { t } else { cache_ttl },
        None => cache_ttl,
    }
}

/// An entry is stale once the current time is past its expiry.
pub fn is_expired(now: u64, expires_at: u64) -> (r: bool)
    ensures
        r == (now > expires_at),
{
    now > expires_at
}

/// The entry must be checked again once an hour has passed since the
/// last check, or when that time cannot be told.
pub fn needs_validation(elapsed_secs: Option<u64>) -> (r: bool)
    ensures
        r == (match elapsed_secs { Some(e) => e >= 3600, None => true }),
{
    match elapsed_secs {
        Some(e) => e >= 3600,
        None => true,
    }
}

/// Entries and bytes the cache is believed to hold.
#[derive(Debug, Clone, Copy, PartialEq, Eq, Structural)]
pub struct CacheUsage {
    pub entries: usize,
    pub bytes: u64,
}

pub open spec fn sat_add(a: int, b: int, max: int) -> int {
    if a + b > max { max } else { a + b }
}

pub open spec fn sat_sub(a: int, b: int) -> int {
    if a - b < 0 { 0 } else { a - b }
}

/// Usage after a change: counts move by the deltas, never below zero and
/// never past the type's maximum.
pub open spec fn adjusted(u: CacheUsage, entries_delta: int, bytes_delta: int) -> CacheUsage {
    CacheUsage {
        entries: (if entries_delta >= 0 { sat_add(u.entries as int, entries_delta, usize::MAX as int) } else { sat_sub(u.entries as int, -entries_delta) }) as usize,
        bytes: (if bytes_delta >= 0 { sat_add(u.bytes as int, bytes_delta, u64::MAX as int) } else { sat_sub(u.bytes as int, -bytes_delta) }) as u64,
    }
}

impl CacheUsage {
    pub fn new() -> (r: Self)
        ensures
            r.entries == 0 && r.bytes == 0,
    {
        CacheUsage { entries: 0, bytes: 0 }
    }

    /// Move the counts by the deltas, saturating.
    pub fn adjust(&mut self, entries_delta: i64, bytes_delta: i64)
        requires
            entries_delta > i64::MIN,
            bytes_delta > i64::MIN,
        ensures
            *final(self) == adjusted(*old(self), entries_delta as int, bytes_delta as int),
    {
        if entries_delta == 0 && bytes_delta == 0 {
            return;
        }
        if entries_delta >= 0 {
            let d = entries_delta as u64;
            self.entries = if d > usize::MAX as u64 || (self.entries as u64) > (usize::MAX as u64) - d {
                usize::MAX
            } else {
                self.entries + d as usize
            };
        } else {
            let d = (-entries_delta) as u64;
            self.entries = if (self.entries as u64) < d { 0 } else { self.entries - d as usize };
        }
        if bytes_delta >= 0 {
            let d = bytes_delta as u64;
            self.bytes = if self.bytes > u64::MAX - d { u64::MAX } else { self.bytes + d };
        } else {
            let d = (-bytes_delta) as u64;
            self.bytes = if self.bytes < d { 0 } else { self.bytes - d };
        }
    }

    /// Usage is over the entry count or size limit.
    pub fn exceeds_limits(&self) -> (r: bool)
        ensures
            r == (self.entries > MAX_CACHE_ENTRIES || self.bytes > MAX_CACHE_SIZE_BYTES),
    {
        self.entries > MAX_CACHE_ENTRIES || self.bytes > MAX_CACHE_SIZE_BYTES
    }

    /// Account for writing an entry's metadata file: a new entry counts
    /// once, and the size moves by the change of its length.
    pub fn after_write(&mut self, existed_before: bool, previous_len: u64, new_len: u64)
        requires
            previous_len <= i64::MAX,
            new_len <= i64::MAX,
        ensures
            *final(self) == adjusted(*old(self), if existed_before { 0 } else { 1 }, new_len - previous_len),
    {
        let entry_delta: i64 = if existed_before { 0 } else { 1 };
        let bytes_delta: i64 = new_len as i64 - previous_len as i64;
        self.adjust(entry_delta, bytes_delta);
    }
}

/// One file of the cache directory as seen when recounting usage.
#[derive(Debug, Clone, Copy)]
pub struct ListedFile {
    /// A `.bin` byte payload rather than an entry.
    pub is_payload: bool,
    /// For a payload: whether its entry exists.
    pub has_entry: bool,
    pub len: u64,
    /// For an entry: the length of its payload file, where it has one.
    pub payload_len: Option<u64>,
}

/// Usage counted from a directory listing: every entry and its payload;
/// payloads without an entry count their bytes only.
pub open spec fn usage_of(files: Seq<ListedFile>) -> CacheUsage
    decreases files.len(),
{
    if files.len() == 0 {
        CacheUsage { entries: 0, bytes: 0 }
    } else {
        let u = usage_of(files.drop_last());
        let f = files.last();
        if f.is_payload {
            if f.has_entry { u } else { CacheUsage { bytes: sat_add(u.bytes as int, f.len as int, u64::MAX as int) as u64, ..u } }
        } else {
            let b1 = sat_add(u.bytes as int, f.len as int, u64::MAX as int);
            let b2 = match f.payload_len { Some(p) => sat_add(b1, p as int, u64::MAX as int), None => b1 };
            CacheUsage { entries: sat_add(u.entries as int, 1, usize::MAX as int) as usize, bytes: b2 as u64 }
        }
    }
}

fn sat_add_u64(a: u64, b: u64) -> (r: u64)
    ensures
        r == sat_add(a as int, b as int, u64::MAX as int),
{
    if a > u64::MAX - b { u64::MAX } else { a + b }
}

/// Recount usage from a listing of the cache directory.
pub fn recalculate_usage(files: &Vec<ListedFile>) -> (r: CacheUsage)
    ensures
        r == usage_of(files@),
{
    let mut u = CacheUsage::new();
    let mut i: usize = 0;
    while i < files.len()
        invariant
            i <= files@.len(),
            u == usage_of(files@.take(i as int)),
        decreases files@.len() - i,
    {
        assert(files@.take(i + 1).drop_last() =~= files@.take(i as int));
        let f = files[i];
        if f.is_payload {
            if !f.has_entry {
                u.bytes = sat_add_u64(u.bytes, f.len);
            }
        } else {
            let b1 = sat_add_u64(u.bytes, f.len);
            let b2 = match f.payload_len {
                Some(p) => sat_add_u64(b1, p),
                None => b1,
            };
            u.entries = if u.entries == usize::MAX { usize::MAX } else { u.entries + 1 };
            u.bytes = b2;
        }
        i += 1;
    }
    assert(files@.take(files@.len() as int) =~= files@);
    u
}

/// What the periodic cleanup does with one file.
#[derive(Debug, Clone, Copy, PartialEq, Eq, Structural)]
pub enum CleanAction {
    Keep,
    /// A payload whose entry is gone.
    RemoveOrphanPayload,
    /// An expired or unreadable entry, with its payload.
    RemoveEntry,
}

/// Cleanup of one file: orphan payloads go, as do entries that expired or
/// cannot be parsed (`expires_at` is `None`); unreadable files are kept.
pub fn clean_action(is_payload: bool, has_entry: bool, readable: bool, expires_at: Option<u64>, now: u64) -> (r: CleanAction)
    ensures
        r == (if is_payload {
            if has_entry { CleanAction::Keep } else { CleanAction::RemoveOrphanPayload }
        } else if !readable {
            CleanAction::Keep
        } else {
            match expires_at {
                Some(e) => if now > e { CleanAction::RemoveEntry } else { CleanAction::Keep },
                None => CleanAction::RemoveEntry,
            }
        }),
{
    if is_payload {
        if has_entry { CleanAction::Keep } else { CleanAction::RemoveOrphanPayload }
    } else if !readable {
        CleanAction::Keep
    } else {
        match expires_at {
            Some(e) => if now > e { CleanAction::RemoveEntry } else { CleanAction::Keep },
            None => CleanAction::RemoveEntry,
        }
    }
}

/// A cache entry considered for eviction: where it is, when it was last
/// written (seconds), and its size with its payload.
#[derive(Debug, Clone)]
pub struct CacheFile {
    pub path: String,
    pub modified: u64,
    pub len: u64,
}

impl CacheFile {
    pub fn copy(&self) -> (r: CacheFile)
        ensures
            r == *self,
    {
        CacheFile { path: self.path.clone(), modified: self.modified, len: self.len }
    }
}

/// `x` placed after every element not newer than it (a stable insertion).
pub open spec fn insert_by_age(s: Seq<CacheFile>, x: CacheFile) -> Seq<CacheFile>
    decreases s.len(),
{
    if s.len() == 0 {
        seq![x]
    } else if x.modified < s[0].modified {
        seq![x] + s
    } else {
        seq![s[0]] + insert_by_age(s.drop_first(), x)
    }
}

/// Oldest first; entries written at the same time keep their order.
pub open spec fn by_age(s: Seq<CacheFile>) -> Seq<CacheFile>
    decreases s.len(),
{
    if s.len() == 0 { s } else { insert_by_age(by_age(s.drop_last()), s.last()) }
}

/// Total size, saturating.
pub open spec fn total_len(s: Seq<CacheFile>) -> u64
    decreases s.len(),
{
    if s.len() == 0 { 0 } else { sat_add(total_len(s.drop_last()) as int, s.last().len as int, u64::MAX as int) as u64 }
}

proof fn lemma_insert_by_age_at(s: Seq<CacheFile>, x: CacheFile, i: int)
    requires
        0 <= i <= s.len(),
        forall|j: int| 0 <= j < i ==> !(x.modified < #[trigger] s[j].modified),
        i < s.len() ==> x.modified < s[i].modified,
    ensures
        insert_by_age(s, x) == s.take(i) + seq![x] + s.skip(i),
    decreases s.len(),
{
    if s.len() == 0 {
        assert(s.take(0) + seq![x] + s.skip(0) =~= seq![x]);
    } else if i == 0 {
        assert(s.take(0) + seq![x] + s.skip(0) =~= seq![x] + s);
    } else {
        assert forall|j: int| 0 <= j < i - 1 implies !(x.modified < #[trigger] s.drop_first()[j].modified) by {
            assert(s.drop_first()[j] == s[j + 1]);
        }
        lemma_insert_by_age_at(s.drop_first(), x, i - 1);
        assert(seq![s[0]] + (s.drop_first().take(i - 1) + seq![x] + s.drop_first().skip(i - 1))
            =~= s.take(i) + seq![x] + s.skip(i));
    }
}

/// Eviction in progress: entries not yet considered, oldest first, and the
/// size still counted.
#[derive(Debug, Clone)]
pub struct Eviction {
    pub pending: Vec<CacheFile>,
    pub total: u64,
}

impl Eviction {
    /// Start eviction over the cache's entries: nothing to do within the
    /// limits, else entries oldest first.
    pub fn plan(files: Vec<CacheFile>) -> (r: Option<Eviction>)
        ensures
            match r {
                None => files@.len() <= MAX_CACHE_ENTRIES && total_len(files@) <= MAX_CACHE_SIZE_BYTES,
                Some(e) => !(files@.len() <= MAX_CACHE_ENTRIES && total_len(files@) <= MAX_CACHE_SIZE_BYTES)
                    && e.pending@ == by_age(files@) && e.total == total_len(files@),
            },
    {
        let mut total: u64 = 0;
        let mut i: usize = 0;
        while i < files.len()
            invariant
                i <= files@.len(),
                total == total_len(files@.take(i as int)),
            decreases files@.len() - i,
        {
            assert(files@.take(i + 1).drop_last() =~= files@.take(i as int));
            total = sat_add_u64(total, files[i].len);
            i += 1;
        }
        assert(files@.take(files@.len() as int) =~= files@);
        if files.len() <= MAX_CACHE_ENTRIES && total <= MAX_CACHE_SIZE_BYTES {
            return None;
        }
        let mut sorted: Vec<CacheFile> = Vec::new();
        let mut k: usize = 0;
        while k < files.len()
            invariant
                k <= files@.len(),
                sorted@ == by_age(files@.take(k as int)),
            decreases files@.len() - k,
        {
            assert(files@.take(k + 1).drop_last() =~= files@.take(k as int));
            let x = files[k].copy();
            let ghost sv = sorted@;
            let mut j: usize = 0;
            while j < sorted.len() && !(x.modified < sorted[j].modified)
                invariant
                    j <= sorted@.len(),
                    sv == sorted@,
                    forall|m: int| 0 <= m < j ==> !(x.modified < #[trigger] sv[m].modified),
                decreases sorted@.len() - j,
            {
                j += 1;
            }
            proof { lemma_insert_by_age_at(sv, x, j as int); }
            sorted.insert(j, x);
            assert(sorted@ =~= sv.take(j as int) + seq![files@[k as int]] + sv.skip(j as int));
            k += 1;
        }
        Some(Eviction { pending: sorted, total })
    }

    /// Whether another entry must go: still over a limit with entries left.
    pub fn must_evict(&self) -> (r: bool)
        ensures
            r == (self.pending@.len() > 0
                && (self.pending@.len() > MAX_CACHE_ENTRIES || self.total > MAX_CACHE_SIZE_BYTES)),
    {
        self.pending.len() > 0 && (self.pending.len() > MAX_CACHE_ENTRIES || self.total > MAX_CACHE_SIZE_BYTES)
    }

    /// The entry to remove next.
    pub fn next_victim(&self) -> (r: Option<&CacheFile>)
        ensures
            match r {
                Some(f) => self.pending@.len() > 0 && *f == self.pending@[0],
                None => self.pending@.len() == 0,
            },
    {
        if self.pending.len() == 0 { None } else { Some(&self.pending[0]) }
    }

    /// Record the outcome of removing the next entry: it leaves the list
    /// either way; its size is discounted only when it was removed.
    pub fn record_removal(&mut self, removed: bool)
        requires
            old(self).pending@.len() > 0,
        ensures
            final(self).pending@ == old(self).pending@.drop_first(),
            final(self).total == (if removed {
                sat_sub(old(self).total as int, old(self).pending@[0].len as int) as u64
            } else {
                old(self).total
            }),
    {
        let f = self.pending.remove(0);
        if removed {
            self.total = if self.total < f.len { 0 } else { self.total - f.len };
        }
    }
}

/// The track fields a cache key is made from.
#[derive(Debug, Clone)]
pub struct KeyFields {
    pub title: Option<String>,
    pub artists: Option<Vec<String>>,
    pub album: Option<String>,
    pub album_artists: Option<Vec<String>>,
    pub url: Option<String>,
    pub track_id: Option<String>,
}

pub open spec fn strs(v: Seq<String>) -> Seq<Seq<char>> {
    v.map_values(|s: String| s@)
}

/// `x` inserted before the first element it sorts before.
pub open spec fn insert_str(s: Seq<Seq<char>>, x: Seq<char>) -> Seq<Seq<char>>
    decreases s.len(),
{
    if s.len() == 0 {
        seq![x]
    } else if lex_less(x, s[0]) {
        seq![x] + s
    } else {
        seq![s[0]] + insert_str(s.drop_first(), x)
    }
}

/// The texts in ascending order.
pub open spec fn sorted_strs(s: Seq<Seq<char>>) -> Seq<Seq<char>>
    decreases s.len(),
{
    if s.len() == 0 { s } else { insert_str(sorted_strs(s.drop_last()), s.last()) }
}

proof fn lemma_insert_str_at(s: Seq<Seq<char>>, x: Seq<char>, i: int)
    requires
        0 <= i <= s.len(),
        forall|j: int| 0 <= j < i ==> !lex_less(x, #[trigger] s[j]),
        i < s.len() ==> lex_less(x, s[i]),
    ensures
        insert_str(s, x) == s.take(i) + seq![x] + s.skip(i),
    decreases s.len(),
{
    if s.len() == 0 {
        assert(s.take(0) + seq![x] + s.skip(0) =~= seq![x]);
    } else if i == 0 {
        assert(s.take(0) + seq![x] + s.skip(0) =~= seq![x] + s);
    } else {
        assert forall|j: int| 0 <= j < i - 1 implies !lex_less(x, #[trigger] s.drop_first()[j]) by {
            assert(s.drop_first()[j] == s[j + 1]);
        }
        lemma_insert_str_at(s.drop_first(), x, i - 1);
        assert(seq![s[0]] + (s.drop_first().take(i - 1) + seq![x] + s.drop_first().skip(i - 1))
            =~= s.take(i) + seq![x] + s.skip(i));
    }
}

/// The strings sorted ascending.
pub fn sort_strings(v: &Vec<String>) -> (r: Vec<String>)
    ensures
        strs(r@) == sorted_strs(strs(v@)),
{
    let ghost vs = strs(v@);
    let mut out: Vec<String> = Vec::new();
    let mut k: usize = 0;
    while k < v.len()
        invariant
            k <= v@.len(),
            vs == strs(v@),
            strs(out@) == sorted_strs(vs.take(k as int)),
        decreases v@.len() - k,
    {
        assert(vs.take(k + 1).drop_last() =~= vs.take(k as int));
        let x = v[k].clone();
        let ghost sv = strs(out@);
        let mut j: usize = 0;
        while j < out.len() && !str_less(x.as_str(), out[j].as_str())
            invariant
                j <= out@.len(),
                sv == strs(out@),
                forall|m: int| 0 <= m < j ==> !lex_less(x@, #[trigger] sv[m]),
            decreases out@.len() - j,
        {
            j += 1;
        }
        proof { lemma_insert_str_at(sv, x@, j as int); }
        out.insert(j, x);
        assert(strs(out@) =~= sv.take(j as int) + seq![vs[k as int]] + sv.skip(j as int));
        k += 1;
    }
    assert(vs.take(v@.len() as int) =~= vs);
    out
}

pub open spec fn opt_strs(o: Option<Vec<String>>) -> Option<Seq<Seq<char>>> {
    match o {
        Some(v) => Some(strs(v@)),
        None => None,
    }
}

pub open spec fn nonempty_text(o: Option<String>) -> bool {
    o is Some && o.unwrap()@.len() > 0
}

/// The key components of a track, in order: title, sorted artists, album
/// with sorted album artists when they differ from the artists, URL,
/// track id; each only when present and non-empty.
pub open spec fn key_components(f: KeyFields) -> Seq<Seq<char>> {
    let t = if nonempty_text(f.title) { seq!["title:"@ + f.title.unwrap()@] } else { Seq::<Seq<char>>::empty() };
    let a = match opt_strs(f.artists) {
        Some(v) => if v.len() > 0 { seq!["artists:"@ + join_seqs(sorted_strs(v), "|"@)] } else { Seq::<Seq<char>>::empty() },
        None => Seq::<Seq<char>>::empty(),
    };
    let al = if nonempty_text(f.album) {
        seq!["album:"@ + f.album.unwrap()@] + match opt_strs(f.album_artists) {
            Some(v) => if v.len() > 0 && Some(v) != opt_strs(f.artists) {
                seq!["album_artists:"@ + join_seqs(sorted_strs(v), "|"@)]
            } else {
                Seq::<Seq<char>>::empty()
            },
            None => Seq::<Seq<char>>::empty(),
        }
    } else {
        Seq::<Seq<char>>::empty()
    };
    let u = if nonempty_text(f.url) { seq!["url:"@ + f.url.unwrap()@] } else { Seq::<Seq<char>>::empty() };
    let id = if nonempty_text(f.track_id) { seq!["track_id:"@ + f.track_id.unwrap()@] } else { Seq::<Seq<char>>::empty() };
    t + a + al + u + id
}

/// The cache key of a track: the BLAKE3 digest of its components joined by
/// `||` (a fixed key text when it has none).
pub open spec fn track_key(f: KeyFields) -> Seq<char> {
    let c = key_components(f);
    let parts = if c.len() == 0 { seq!["default_mprisence_key"@] } else { c };
    blake3_hex(utf8(join_seqs(parts, "||"@)))
}

fn nonempty(o: &Option<String>) -> (r: bool)
    ensures
        r == nonempty_text(*o),
{
    match o {
        Some(s) => crate::text::char_len(s.as_str()) > 0,
        None => false,
    }
}

/// Whether two lists hold the same strings in the same order.
pub fn strings_equal(a: &Vec<String>, b: &Vec<String>) -> (r: bool)
    ensures
        r == (strs(a@) == strs(b@)),
{
    if a.len() != b.len() {
        assert(strs(a@).len() != strs(b@).len());
        return false;
    }
    let mut i: usize = 0;
    while i < a.len()
        invariant
            a@.len() == b@.len(),
            i <= a@.len(),
            forall|k: int| 0 <= k < i ==> a@[k]@ == b@[k]@,
        decreases a@.len() - i,
    {
        if !crate::text::str_eq(a[i].as_str(), b[i].as_str()) {
            assert(strs(a@)[i as int] != strs(b@)[i as int]);
            return false;
        }
        i += 1;
    }
    assert(strs(a@) =~= strs(b@));
    true
}

fn joined_sorted(label: &str, v: &Vec<String>) -> (r: String)
    ensures
        r@ == label@ + join_seqs(sorted_strs(strs(v@)), "|"@),
{
    let sorted = sort_strings(v);
    let j = join_strings(sorted.as_slice(), "|");
    assert(sorted@.map_values(|p: String| p@) =~= strs(sorted@));
    concat_str(label, j.as_str())
}

/// The key components of a track.
pub fn generate_key_parts(f: &KeyFields) -> (r: Vec<String>)
    ensures
        strs(r@) == key_components(*f),
{
    let mut parts: Vec<String> = Vec::new();
    if nonempty(&f.title) {
        parts.push(concat_str("title:", f.title.as_ref().unwrap().as_str()));
    }
    let ghost p1 = strs(parts@);
    match &f.artists {
        Some(v) => {
            if v.len() > 0 {
                parts.push(joined_sorted("artists:", v));
            }
        },
        None => {},
    }
    let ghost p2 = strs(parts@);
    if nonempty(&f.album) {
        parts.push(concat_str("album:", f.album.as_ref().unwrap().as_str()));
        match &f.album_artists {
            Some(v) => {
                let differs = match &f.artists {
                    Some(a) => !strings_equal(v, a),
                    None => true,
                };
                if v.len() > 0 && differs {
                    parts.push(joined_sorted("album_artists:", v));
                }
            },
            None => {},
        }
    }
    let ghost p3 = strs(parts@);
    if nonempty(&f.url) {
        parts.push(concat_str("url:", f.url.as_ref().unwrap().as_str()));
    }
    let ghost p4 = strs(parts@);
    if nonempty(&f.track_id) {
        parts.push(concat_str("track_id:", f.track_id.as_ref().unwrap().as_str()));
    }
    assert(strs(parts@) =~= key_components(*f));
    parts
}

/// The cache key of a track.
pub fn generate_key(f: &KeyFields) -> (r: String)
    ensures
        r@ == track_key(*f),
{
    let mut parts = generate_key_parts(f);
    if parts.len() == 0 {
        parts.push("default_mprisence_key".to_owned());
        assert(strs(parts@) =~= seq!["default_mprisence_key"@]);
    }
    let joined = join_strings(parts.as_slice(), "||");
    assert(parts@.map_values(|p: String| p@) =~= strs(parts@));
    let bytes = utf8_bytes(joined.as_str());
    blake3_hex_of(bytes.as_slice())
}

} // verus!
