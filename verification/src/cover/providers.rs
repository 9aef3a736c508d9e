//! What the cover-art providers decide without the network: Catbox and
//! ImgBB upload settings and checks, and the MusicBrainz queries, candidate
//! releases and search plan.
use vstd::prelude::*;
use crate::config::{CatboxConfig, ImgBBConfig, MusicbrainzConfig};
use crate::cover::art::{percent_encoded, url_encode, utf8};
use crate::patterns::{byte_len, str_byte_len};
use crate::text::{chars_of, concat_str, decimal, decimal_string, str_starts_with, string_from, trim, trim_str};
use crate::urls::{parse_url, url_parts};

verus! {

broadcast use vstd::string::group_string_axioms;

/// A hosted cover: its URL, the provider, and how long it stays (seconds).
#[derive(Debug, Clone)]
pub struct CoverResult {
    pub url: String,
    pub provider: String,
    pub expiration: Option<u64>,
}

/// The Catbox provider, uploading to Litterbox (temporary) or Catbox.
#[derive(Debug, Clone)]
pub struct CatboxProvider {
    pub config: CatboxConfig,
}

/// Hours a Litterbox upload may stay: the allowed values, else a day.
pub open spec fn litter_hours_spec(h: u8) -> u8 {
    if h == 1 || h == 12 || h == 24 || h == 72 { h } else { 24 }
}

/// Why an upload's answer is not a usable URL.
pub open spec fn upload_problem(provider: Seq<char>, raw: Seq<char>) -> Option<Seq<char>> {
    let t = trim(raw);
    if t.len() == 0 {
        Some(provider + ": upload returned empty body"@)
    } else if byte_len(t) > 512 {
        Some(provider + ": upload returned non-URL payload ("@ + decimal(byte_len(t)) + " bytes); likely an HTML error page"@)
    } else if !("https://"@.is_prefix_of(t) || "http://"@.is_prefix_of(t)) {
        Some(provider + ": upload returned non-URL response: '"@ + t.take(if t.len() < 80 { t.len() as int } else { 80 }) + "'"@)
    } else if url_parts(t) is None {
        Some(provider + ": upload returned unparseable URL: '"@ + t.take(if t.len() < 80 { t.len() as int } else { 80 }) + "'"@)
    } else {
        None
    }
}

fn first_chars(s: &str, n: usize) -> (r: String)
    ensures
        r@ == s@.take(if s@.len() < n { s@.len() as int } else { n as int }),
{
    let v = chars_of(s);
    let k = if v.len() < n { v.len() } else { n };
    let mut out: Vec<char> = Vec::new();
    let mut i: usize = 0;
    while i < k
        invariant
            i <= k,
            k <= v@.len(),
            v@ == s@,
            out@ == s@.take(i as int),
        decreases k - i,
    {
        out.push(v[i]);
        i += 1;
        assert(out@ =~= s@.take(i as int));
    }
    string_from(out.as_slice())
}

impl CatboxProvider {
    pub fn with_config(config: CatboxConfig) -> (r: Self)
        ensures
            r.config.use_litter == config.use_litter && r.config.litter_hours == config.litter_hours,
    {
        CatboxProvider { config }
    }

    /// `litterbox` for temporary uploads, else `catbox`.
    pub fn provider_label(&self) -> (r: &'static str)
        ensures
            r@ == (if self.config.use_litter { "litterbox"@ } else { "catbox"@ }),
    {
        if self.config.use_litter { "litterbox" } else { "catbox" }
    }

    pub fn litter_time(&self) -> (r: u8)
        ensures
            r == litter_hours_spec(self.config.litter_hours),
    {
        let h = self.config.litter_hours;
        if h == 1 || h == 12 || h == 24 || h == 72 { h } else { 24 }
    }

    /// How long an upload stays: the Litterbox hours in seconds, or for ever.
    pub fn expiration(&self) -> (r: Option<u64>)
        ensures
            r == (if self.config.use_litter {
                Some((litter_hours_spec(self.config.litter_hours) as u64 * 3600) as u64)
            } else {
                None
            }),
    {
        if self.config.use_litter { Some(self.litter_time() as u64 * 3600) } else { None }
    }

    /// Check that an upload answered with a short `http(s)` URL that parses.
    pub fn validate_upload_response(provider: &str, raw: &str) -> (r: Result<(), String>)
        ensures
            match upload_problem(provider@, raw@) {
                Some(m) => r matches Err(e) && e@ == m,
                None => r is Ok,
            },
    {
        proof {
            reveal_strlit("https://");
            reveal_strlit("http://");
        }
        let t = trim_str(raw);
        let n = crate::text::char_len(t.as_str());
        if n == 0 {
            return Err(concat_str(provider, ": upload returned empty body"));
        }
        let b = str_byte_len(t.as_str());
        if b > 512 {
            let mut m = concat_str(provider, ": upload returned non-URL payload (");
            let d = decimal_string(b as u64);
            m.append(d.as_str());
            m.append(" bytes); likely an HTML error page");
            return Err(m);
        }
        if !(str_starts_with(t.as_str(), "https://") || str_starts_with(t.as_str(), "http://")) {
            let mut m = concat_str(provider, ": upload returned non-URL response: '");
            let head = first_chars(t.as_str(), 80);
            m.append(head.as_str());
            m.append("'");
            return Err(m);
        }
        if parse_url(t.as_str()).is_none() {
            let mut m = concat_str(provider, ": upload returned unparseable URL: '");
            let head = first_chars(t.as_str(), 80);
            m.append(head.as_str());
            m.append("'");
            return Err(m);
        }
        Ok(())
    }

    /// Image data up to 256 KiB is uploaded as it is; larger images are
    /// first scaled to fit 512 pixels.
    pub fn needs_resize_check(len: usize) -> (r: bool)
        ensures
            r == (len > 262144),
    {
        len > 262144
    }

    /// An image of these dimensions is uploaded as decoded; a larger one is
    /// scaled down to fit 512 by 512 pixels first.
    pub fn fits_cover_size(width: u32, height: u32) -> (r: bool)
        ensures
            r == (width <= 512 && height <= 512),
    {
        width <= 512 && height <= 512
    }
}

/// The ImgBB provider.
#[derive(Debug, Clone)]
pub struct ImgbbProvider {
    pub config: ImgBBConfig,
}

/// Upload name: `artist - title`, either alone, or a fixed name.
pub open spec fn image_name(artist: Seq<char>, title: Seq<char>) -> Seq<char> {
    if artist.len() == 0 && title.len() == 0 {
        "mprisence_cover"@
    } else if artist.len() == 0 {
        title
    } else if title.len() == 0 {
        artist
    } else {
        artist + " - "@ + title
    }
}

impl ImgbbProvider {
    /// The provider for a configuration, which must carry an API key.
    pub fn with_config(config: ImgBBConfig) -> (r: Self)
        requires
            config.api_key is Some,
        ensures
            r.config.api_key == config.api_key && r.config.expiration == config.expiration,
    {
        ImgbbProvider { config }
    }

    /// Name of the uploaded image from the first artist and the title.
    pub fn generate_image_name(first_artist: Option<&str>, title: Option<&str>) -> (r: String)
        ensures
            r@ == image_name(
                match first_artist { Some(a) => a@, None => Seq::<char>::empty() },
                match title { Some(t) => t@, None => Seq::<char>::empty() },
            ),
    {
        let artist = match first_artist { Some(a) => a.to_owned(), None => String::new() };
        let title = match title { Some(t) => t.to_owned(), None => String::new() };
        let an = crate::text::char_len(artist.as_str());
        let tn = crate::text::char_len(title.as_str());
        if an == 0 && tn == 0 {
            "mprisence_cover".to_owned()
        } else if an == 0 {
            title
        } else if tn == 0 {
            artist
        } else {
            let mut s = concat_str(artist.as_str(), " - ");
            s.append(title.as_str());
            s
        }
    }

    /// Expiration sent with an upload, and how long the image stays.
    pub fn expiration(&self) -> (r: Option<u64>)
        ensures
            r == (if self.config.expiration > 0 { Some(self.config.expiration) } else { None }),
    {
        if self.config.expiration > 0 { Some(self.config.expiration) } else { None }
    }

    /// The hosted URL of an upload: its `url`, else its `display_url`.
    pub fn hosted_url(url: Option<String>, display_url: Option<String>) -> (r: Option<String>)
        ensures
            r == (if url is Some { url } else { display_url }),
    {
        match url {
            Some(u) => Some(u),
            None => display_url,
        }
    }
}

pub const MUSICBRAINZ_API: &'static str = "https://musicbrainz.org/ws/2";
pub const COVERART_API: &'static str = "https://coverartarchive.org";

/// The MusicBrainz provider and its score threshold.
#[derive(Debug, Clone)]
pub struct MusicbrainzProvider {
    pub config: MusicbrainzConfig,
}

impl MusicbrainzProvider {
    pub fn new(config: MusicbrainzConfig) -> (r: Self)
        ensures
            r.config.min_score == config.min_score,
    {
        MusicbrainzProvider { config }
    }
}

/// Album search query: the release group, and the first artist if any.
pub open spec fn album_query(album: Seq<char>, artists: Seq<Seq<char>>) -> Seq<char> {
    "release-group:"@ + album + if artists.len() > 0 { " AND artist:"@ + artists[0] } else { Seq::<char>::empty() }
}

/// Track search query: the recording, the first artist if any, and a
/// duration window of three seconds either side if known.
pub open spec fn track_query(track: Seq<char>, artists: Seq<Seq<char>>, duration_ms: Option<u64>) -> Seq<char> {
    "recording:"@ + track
        + (if artists.len() > 0 { " AND artist:"@ + artists[0] } else { Seq::<char>::empty() })
        + match duration_ms {
            Some(d) => " AND dur:["@ + decimal(if d >= 3000 { (d - 3000) as nat } else { 0 }) + " TO "@ + decimal((d + 3000) as nat) + "]"@,
            None => Seq::<char>::empty(),
        }
}

pub fn build_album_query(album: &str, artists: &Vec<String>) -> (r: String)
    ensures
        r@ == album_query(album@, artists@.map_values(|a: String| a@)),
{
    let mut q = concat_str("release-group:", album);
    if artists.len() > 0 {
        q.append(" AND artist:");
        q.append(artists[0].as_str());
    }
    q
}

pub fn build_track_query(track: &str, artists: &Vec<String>, duration_ms: Option<u64>) -> (r: String)
    requires
        duration_ms is Some ==> duration_ms.unwrap() + 3000 <= u64::MAX,
    ensures
        r@ == track_query(track@, artists@.map_values(|a: String| a@), duration_ms),
{
    let mut q = concat_str("recording:", track);
    if artists.len() > 0 {
        q.append(" AND artist:");
        q.append(artists[0].as_str());
    }
    match duration_ms {
        Some(d) => {
            let low = if d >= 3000 { d - 3000 } else { 0 };
            q.append(" AND dur:[");
            let a = decimal_string(low);
            q.append(a.as_str());
            q.append(" TO ");
            let b = decimal_string(d + 3000);
            q.append(b.as_str());
            q.append("]");
        },
        None => {},
    }
    q
}

/// Search URL for an entity kind (`release-group`, `release`, `recording`)
/// with a percent-encoded query, five results, JSON.
pub open spec fn search_url(entity: Seq<char>, query: Seq<char>) -> Seq<char> {
    MUSICBRAINZ_API@ + "/"@ + entity + "?query="@ + percent_encoded(utf8(query)) + "&limit=5&fmt=json"@
}

pub fn build_search_url(entity: &str, query: &str) -> (r: String)
    ensures
        r@ == search_url(entity@, query@),
{
    let mut s = concat_str(MUSICBRAINZ_API, "/");
    s.append(entity);
    s.append("?query=");
    let enc = url_encode(query);
    s.append(enc.as_str());
    s.append("&limit=5&fmt=json");
    s
}

/// Cover Art Archive URLs of an entity's front image, in the sizes tried:
/// 500, 250, then 1200 pixels.
pub open spec fn front_urls(entity: Seq<char>, mbid: Seq<char>) -> Seq<Seq<char>> {
    let base = COVERART_API@ + "/"@ + entity + "/"@ + mbid + "/front-"@;
    seq![base + "500"@, base + "250"@, base + "1200"@]
}

pub fn cover_art_urls(entity: &str, mbid: &str) -> (r: Vec<String>)
    ensures
        r@.map_values(|s: String| s@) == front_urls(entity@, mbid@),
{
    let mut base = concat_str(COVERART_API, "/");
    base.append(entity);
    base.append("/");
    base.append(mbid);
    base.append("/front-");
    let mut out: Vec<String> = Vec::new();
    out.push(concat_str(base.as_str(), "500"));
    out.push(concat_str(base.as_str(), "250"));
    out.push(concat_str(base.as_str(), "1200"));
    assert(out@.map_values(|s: String| s@) =~= front_urls(entity@, mbid@));
    out
}

/// What trying one cover size gave.
#[derive(Debug, Clone, Copy, PartialEq, Eq, Structural)]
pub enum FetchOutcome {
    Found,
    NotFound,
    TimedOut,
    NetworkError,
}

/// Whether to stop trying sizes: a hit is the answer, a timeout ends the
/// search with nothing, anything else tries the next size.
pub fn size_attempt_ends(outcome: FetchOutcome) -> (r: bool)
    ensures
        r == (outcome == FetchOutcome::Found || outcome == FetchOutcome::TimedOut),
{
    match outcome {
        FetchOutcome::Found | FetchOutcome::TimedOut => true,
        _ => false,
    }
}

/// A search hit with its MusicBrainz id and score.
#[derive(Debug, Clone)]
pub struct ScoredId {
    pub id: String,
    pub score: u8,
}

/// A release from a recording search, with its release group if any.
#[derive(Debug, Clone)]
pub struct ScoredRelease {
    pub id: String,
    pub score: u8,
    pub group: Option<ScoredId>,
}

/// A recording from a track search.
#[derive(Debug, Clone)]
pub struct ScoredRecording {
    pub id: String,
    pub score: u8,
    pub releases: Option<Vec<ScoredRelease>>,
}

/// `(entity kind, id)` pairs to try, in order.
pub open spec fn source_pairs(v: Seq<(String, String)>) -> Seq<(Seq<char>, Seq<char>)> {
    v.map_values(|p: (String, String)| (p.0@, p.1@))
}

pub open spec fn scored_pass(hits: Seq<ScoredId>, entity: Seq<char>, min: u8) -> Seq<(Seq<char>, Seq<char>)>
    decreases hits.len(),
{
    if hits.len() == 0 {
        Seq::<(Seq<char>, Seq<char>)>::empty()
    } else {
        let prev = scored_pass(hits.drop_last(), entity, min);
        if hits.last().score >= min { prev.push((entity, hits.last().id@)) } else { prev }
    }
}

/// Album-search candidates: release groups then releases scoring at least
/// the threshold.
pub open spec fn album_sources_spec(groups: Seq<ScoredId>, releases: Seq<ScoredId>, min: u8) -> Seq<(Seq<char>, Seq<char>)> {
    scored_pass(groups, "release-group"@, min) + scored_pass(releases, "release"@, min)
}

fn push_scored(out: &mut Vec<(String, String)>, hits: &Vec<ScoredId>, entity: &str, min: u8)
    ensures
        source_pairs(final(out)@) == source_pairs(old(out)@) + scored_pass(hits@, entity@, min),
{
    let ghost start = source_pairs(out@);
    let mut i: usize = 0;
    while i < hits.len()
        invariant
            i <= hits@.len(),
            source_pairs(out@) == start + scored_pass(hits@.take(i as int), entity@, min),
        decreases hits@.len() - i,
    {
        assert(hits@.take(i + 1).drop_last() =~= hits@.take(i as int));
        if hits[i].score >= min {
            let ghost before = source_pairs(out@);
            out.push((entity.to_owned(), hits[i].id.clone()));
            assert(source_pairs(out@) =~= before.push((entity@, hits@[i as int].id@)));
        }
        i += 1;
        assert(start + scored_pass(hits@.take(i as int), entity@, min) =~= source_pairs(out@));
    }
    assert(hits@.take(hits@.len() as int) =~= hits@);
}

pub fn album_sources(groups: &Vec<ScoredId>, releases: &Vec<ScoredId>, min_score: u8) -> (r: Vec<(String, String)>)
    ensures
        source_pairs(r@) == album_sources_spec(groups@, releases@, min_score),
{
    let mut out: Vec<(String, String)> = Vec::new();
    assert(source_pairs(out@) =~= Seq::<(Seq<char>, Seq<char>)>::empty());
    push_scored(&mut out, groups, "release-group", min_score);
    push_scored(&mut out, releases, "release", min_score);
    assert(source_pairs(out@) =~= album_sources_spec(groups@, releases@, min_score));
    out
}

/// Candidates of one release: itself, then its group, each if it scores.
pub open spec fn release_pairs(r: ScoredRelease, min: u8) -> Seq<(Seq<char>, Seq<char>)> {
    (if r.score >= min { seq![("release"@, r.id@)] } else { Seq::<(Seq<char>, Seq<char>)>::empty() })
        + match r.group {
            Some(g) => if g.score >= min { seq![("release-group"@, g.id@)] } else { Seq::<(Seq<char>, Seq<char>)>::empty() },
            None => Seq::<(Seq<char>, Seq<char>)>::empty(),
        }
}

pub open spec fn releases_pairs(rs: Seq<ScoredRelease>, min: u8) -> Seq<(Seq<char>, Seq<char>)>
    decreases rs.len(),
{
    if rs.len() == 0 { Seq::<(Seq<char>, Seq<char>)>::empty() } else { releases_pairs(rs.drop_last(), min) + release_pairs(rs.last(), min) }
}

/// Track-search candidates: for each recording scoring at least the
/// threshold, its first two releases' candidates.
pub open spec fn track_sources_spec(recs: Seq<ScoredRecording>, min: u8) -> Seq<(Seq<char>, Seq<char>)>
    decreases recs.len(),
{
    if recs.len() == 0 {
        Seq::<(Seq<char>, Seq<char>)>::empty()
    } else {
        let prev = track_sources_spec(recs.drop_last(), min);
        let r = recs.last();
        if r.score >= min {
            match r.releases {
                Some(rs) => prev + releases_pairs(rs@.take(if rs@.len() < 2 { rs@.len() as int } else { 2 }), min),
                None => prev,
            }
        } else {
            prev
        }
    }
}

fn push_release(out: &mut Vec<(String, String)>, r: &ScoredRelease, min: u8)
    ensures
        source_pairs(final(out)@) == source_pairs(old(out)@) + release_pairs(*r, min),
{
    let ghost start = source_pairs(out@);
    if r.score >= min {
        out.push(("release".to_owned(), r.id.clone()));
    }
    let ghost mid = source_pairs(out@);
    assert(mid =~= start + (if r.score >= min { seq![("release"@, r.id@)] } else { Seq::<(Seq<char>, Seq<char>)>::empty() }));
    match &r.group {
        Some(g) => {
            if g.score >= min {
                out.push(("release-group".to_owned(), g.id.clone()));
            }
        },
        None => {},
    }
    assert(source_pairs(out@) =~= start + release_pairs(*r, min));
}

pub fn track_sources(recordings: &Vec<ScoredRecording>, min_score: u8) -> (r: Vec<(String, String)>)
    ensures
        source_pairs(r@) == track_sources_spec(recordings@, min_score),
{
    let mut out: Vec<(String, String)> = Vec::new();
    let mut i: usize = 0;
    assert(source_pairs(out@) =~= Seq::<(Seq<char>, Seq<char>)>::empty());
    while i < recordings.len()
        invariant
            i <= recordings@.len(),
            source_pairs(out@) == track_sources_spec(recordings@.take(i as int), min_score),
        decreases recordings@.len() - i,
    {
        assert(recordings@.take(i + 1).drop_last() =~= recordings@.take(i as int));
        let rec = &recordings[i];
        if rec.score >= min_score {
            match &rec.releases {
                Some(rs) => {
                    let n = if rs.len() < 2 { rs.len() } else { 2 };
                    let ghost start = source_pairs(out@);
                    let mut k: usize = 0;
                    while k < n
                        invariant
                            k <= n,
                            n <= rs@.len(),
                            source_pairs(out@) == start + releases_pairs(rs@.take(k as int), min_score),
                        decreases n - k,
                    {
                        assert(rs@.take(k + 1).drop_last() =~= rs@.take(k as int));
                        push_release(&mut out, &rs[k], min_score);
                        k += 1;
                    }
                },
                None => {},
            }
        }
        i += 1;
    }
    assert(recordings@.take(recordings@.len() as int) =~= recordings@);
    out
}

/// The searches MusicBrainz makes for a track, in order: by its release
/// group and release ids, by album, by title.
#[derive(Debug, Clone)]
pub struct SearchPlan {
    pub direct: Vec<(String, String)>,
    pub album: Option<(String, Vec<String>)>,
    pub track: Option<(String, Vec<String>, Option<u64>)>,
}

pub open spec fn nonempty_list(o: Option<Vec<String>>) -> bool {
    o is Some && o.unwrap()@.len() > 0
}

/// The plan for a track: direct ids where known; an album search with the
/// album artists, else the track artists; a title search with the track
/// artists. An empty album name or title gives no search.
pub fn plan_search(
    release_group_id: Option<String>,
    album_id: Option<String>,
    album: Option<String>,
    title: Option<String>,
    artists: Option<Vec<String>>,
    album_artists: Option<Vec<String>>,
    length_ms: Option<u64>,
) -> (r: SearchPlan)
    ensures
        source_pairs(r.direct@) == (match release_group_id { Some(g) => seq![("release-group"@, g@)], None => Seq::<(Seq<char>, Seq<char>)>::empty() })
            + (match album_id { Some(a) => seq![("release"@, a@)], None => Seq::<(Seq<char>, Seq<char>)>::empty() }),
        match album {
            Some(al) => if al@.len() == 0 {
                r.album is None
            } else if nonempty_list(album_artists) {
                r.album matches Some((a, v)) && a@ == al@ && v@ == album_artists.unwrap()@
            } else if nonempty_list(artists) {
                r.album matches Some((a, v)) && a@ == al@ && v@ == artists.unwrap()@
            } else {
                r.album is None
            },
            None => r.album is None,
        },
        match title {
            Some(t) => if t@.len() > 0 && nonempty_list(artists) {
                r.track matches Some((a, v, d)) && a@ == t@ && v@ == artists.unwrap()@ && d == length_ms
            } else {
                r.track is None
            },
            None => r.track is None,
        },
{
    let mut direct: Vec<(String, String)> = Vec::new();
    match release_group_id {
        Some(g) => direct.push(("release-group".to_owned(), g)),
        None => {},
    }
    match album_id {
        Some(a) => direct.push(("release".to_owned(), a)),
        None => {},
    }
    proof { reveal_strlit(""); }
    let artists_nonempty = match &artists { Some(a) => a.len() > 0, None => false };
    let album_artists_nonempty = match &album_artists { Some(a) => a.len() > 0, None => false };
    let album_plan = match album {
        Some(al) => {
            if crate::text::str_eq(al.as_str(), "") {
                proof { reveal_strlit(""); }
                None
            } else if album_artists_nonempty {
                assert(al@.len() != 0) by { if al@.len() == 0 { assert(al@ =~= ""@); } }
                Some((al, crate::config::clone_vec(album_artists.as_ref().unwrap())))
            } else if artists_nonempty {
                assert(al@.len() != 0) by { if al@.len() == 0 { assert(al@ =~= ""@); } }
                Some((al, crate::config::clone_vec(artists.as_ref().unwrap())))
            } else {
                None
            }
        },
        None => None,
    };
    let track_plan = match title {
        Some(t) => if !crate::text::str_eq(t.as_str(), "") && artists_nonempty {
            assert(t@.len() != 0) by { if t@.len() == 0 { assert(t@ =~= ""@); } }
            Some((t, crate::config::clone_vec(artists.as_ref().unwrap()), length_ms))
        } else {
            None
        },
        None => None,
    };
    assert(source_pairs(direct@) =~= (match release_group_id { Some(g) => seq![("release-group"@, g@)], None => Seq::<(Seq<char>, Seq<char>)>::empty() })
        + (match album_id { Some(a) => seq![("release"@, a@)], None => Seq::<(Seq<char>, Seq<char>)>::empty() }));
    SearchPlan { direct, album: album_plan, track: track_plan }
}

} // verus!
