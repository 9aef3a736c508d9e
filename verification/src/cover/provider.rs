//! The MusicBrainz lookup by search terms: the query text, how artist
//! names are split, which text keys the result cache, and the addresses
//! that are asked.
use vstd::prelude::*;
use crate::text::{occurs_at, occurs_at_exec, seqs_of, trim, trim_chars, chars_of, string_from, str_eq, join_seqs, join_strings, char_len, opt_view, concat_str, to_lowercase, lowercase};
use crate::cover::art::{utf8, utf8_bytes};
use crate::cover::cache::{strs, sorted_strs, sort_strings};

verus! {

/// The search terms of one MusicBrainz query, as plain values.
pub struct QueryV {
    pub recording: Option<Seq<char>>,
    pub release: Option<Seq<char>>,
    pub artist: Option<Seq<char>>,
}

/// Search terms of a MusicBrainz query: a recording, a release and an
/// artist, each of them optional.
pub struct Query {
    recording: Option<String>,
    release: Option<String>,
    artist: Option<String>,
}

impl View for Query {
    type V = QueryV;

    closed spec fn view(&self) -> QueryV {
        QueryV {
            recording: opt_view(self.recording),
            release: opt_view(self.release),
            artist: opt_view(self.artist),
        }
    }
}

/// `part` appended to the query text, after `" AND "` unless the text is
/// still empty.
pub open spec fn and_part(acc: Seq<char>, part: Seq<char>) -> Seq<char> {
    if acc.len() == 0 { part } else { acc + seq![' ', 'A', 'N', 'D', ' '] + part }
}

/// `field:value` appended to the query text when the term is present.
pub open spec fn add_term(acc: Seq<char>, field: Seq<char>, value: Option<Seq<char>>) -> Seq<char> {
    match value {
        Some(v) => and_part(acc, field + seq![':'] + v),
        None => acc,
    }
}

/// The query text: `recording:..`, `release:..` and `artist:..`, in this
/// order, for the terms that are present, joined by `" AND "`.
pub open spec fn query_text(q: QueryV) -> Seq<char> {
    let a = add_term(Seq::<char>::empty(), seq!['r', 'e', 'c', 'o', 'r', 'd', 'i', 'n', 'g'], q.recording);
    let b = add_term(a, seq!['r', 'e', 'l', 'e', 'a', 's', 'e'], q.release);
    add_term(b, seq!['a', 'r', 't', 'i', 's', 't'], q.artist)
}

fn append_term(acc: &mut String, field: &str, value: &Option<String>)
    requires
        field@.len() > 0,
    ensures
        final(acc)@ == add_term(old(acc)@, field@, opt_view(*value)),
{
    match value {
        Some(v) => {
            let mut part = field.to_owned();
            part.append(":");
            part.append(v.as_str());
            proof { reveal_strlit(":"); }
            if char_len(acc.as_str()) > 0 {
                acc.append(" AND ");
                proof { reveal_strlit(" AND "); }
            }
            acc.append(part.as_str());
            assert(part@ == field@ + seq![':'] + v@);
        },
        None => {},
    }
}

impl Query {
    /// A query with no terms.
    pub fn new() -> (r: Self)
        ensures
            r@ == (QueryV { recording: None, release: None, artist: None }),
    {
        Query { recording: None, release: None, artist: None }
    }

    /// Set the recording term.
    pub fn recording(&mut self, recording: &str) -> (r: &mut Self)
        ensures
            (*r)@ == (QueryV { recording: Some(recording@), ..old(self)@ }),
            *final(self) == *final(r),
    {
        self.recording = Some(recording.to_owned());
        self
    }

    /// Set the release term.
    pub fn release(&mut self, album: &str) -> (r: &mut Self)
        ensures
            (*r)@ == (QueryV { release: Some(album@), ..old(self)@ }),
            *final(self) == *final(r),
    {
        self.release = Some(album.to_owned());
        self
    }

    /// Set the artist term.
    pub fn artist(&mut self, artist: &str) -> (r: &mut Self)
        ensures
            (*r)@ == (QueryV { artist: Some(artist@), ..old(self)@ }),
            *final(self) == *final(r),
    {
        self.artist = Some(artist.to_owned());
        self
    }

    /// The query text.
    pub fn build(&self) -> (r: String)
        ensures
            r@ == query_text(self@),
    {
        let mut query = String::new();
        proof {
            reveal_strlit("recording");
            reveal_strlit("release");
            reveal_strlit("artist");
        }
        append_term(&mut query, "recording", &self.recording);
        append_term(&mut query, "release", &self.release);
        append_term(&mut query, "artist", &self.artist);
        query
    }
}

/// The pieces of `s` between the non-overlapping occurrences of `sep`,
/// found from left to right, scanning from position `i` with `cur`
/// collected so far (`str::split` with a text pattern).
pub open spec fn split_scan(s: Seq<char>, sep: Seq<char>, i: int, cur: Seq<char>) -> Seq<Seq<char>>
    decreases s.len() - i,
{
    if sep.len() == 0 || i >= s.len() {
        seq![cur]
    } else if occurs_at(s, sep, i) {
        seq![cur] + split_scan(s, sep, i + sep.len(), Seq::<char>::empty())
    } else {
        split_scan(s, sep, i + 1, cur.push(s[i]))
    }
}

/// The pieces of `s` around the occurrences of `sep`.
pub open spec fn split_text(s: Seq<char>, sep: Seq<char>) -> Seq<Seq<char>> {
    split_scan(s, sep, 0, Seq::<char>::empty())
}

/// Split `s` around the occurrences of the non-empty `sep`.
pub fn split_on_text(s: &[char], sep: &[char]) -> (r: Vec<Vec<char>>)
    requires
        sep@.len() > 0,
    ensures
        seqs_of(r@) == split_text(s@, sep@),
{
    let mut out: Vec<Vec<char>> = Vec::new();
    let mut cur: Vec<char> = Vec::new();
    let mut i: usize = 0;
    while i < s.len()
        invariant
            i <= s@.len(),
            sep@.len() > 0,
            split_text(s@, sep@) == seqs_of(out@) + split_scan(s@, sep@, i as int, cur@),
        decreases s@.len() - i,
    {
        let ghost prev = seqs_of(out@);
        if sep.len() <= s.len() - i && occurs_at_exec(s, sep, i) {
            let ghost c = cur@;
            assert(split_scan(s@, sep@, i as int, c)
                == seq![c] + split_scan(s@, sep@, i + sep@.len(), Seq::<char>::empty()));
            out.push(cur);
            cur = Vec::new();
            i += sep.len();
            assert(seqs_of(out@) =~= prev.push(c));
            assert(prev + (seq![c] + split_scan(s@, sep@, i as int, cur@))
                =~= prev.push(c) + split_scan(s@, sep@, i as int, cur@));
        } else {
            assert(!occurs_at(s@, sep@, i as int));
            cur.push(s[i]);
            i += 1;
        }
    }
    let ghost prev = seqs_of(out@);
    let ghost c = cur@;
    out.push(cur);
    assert(seqs_of(out@) =~= prev + seq![c]);
    out
}

/// Each piece with surrounding whitespace removed.
pub open spec fn trimmed(ps: Seq<Seq<char>>) -> Seq<Seq<char>> {
    ps.map_values(|p: Seq<char>| trim(p))
}

/// The trimmed pieces of an artist name around `sep`.
pub open spec fn pieces_by(a: Seq<char>, sep: Seq<char>) -> Seq<Seq<char>> {
    trimmed(split_text(a, sep))
}

/// The separators an artist credit is split at: `,`, `&`, ` and `,
/// ` feat. ` and ` vs `, in this order.
pub open spec fn artist_separators() -> Seq<Seq<char>> {
    seq![
        seq![','],
        seq!['&'],
        seq![' ', 'a', 'n', 'd', ' '],
        seq![' ', 'f', 'e', 'a', 't', '.', ' '],
        seq![' ', 'v', 's', ' '],
    ]
}

/// The trimmed pieces of one artist credit at the separators `seps`,
/// separator after separator.
pub open spec fn pieces_at(a: Seq<char>, seps: Seq<Seq<char>>) -> Seq<Seq<char>>
    decreases seps.len(),
{
    if seps.len() == 0 { Seq::empty() } else { pieces_at(a, seps.drop_last()) + pieces_by(a, seps.last()) }
}

/// The trimmed pieces of the artist credits, credit after credit.
pub open spec fn all_pieces(artists: Seq<Seq<char>>) -> Seq<Seq<char>>
    decreases artists.len(),
{
    if artists.len() == 0 {
        Seq::empty()
    } else {
        all_pieces(artists.drop_last()) + pieces_at(artists.last(), artist_separators())
    }
}

/// The texts with later repeats removed.
pub open spec fn dedup(s: Seq<Seq<char>>) -> Seq<Seq<char>>
    decreases s.len(),
{
    if s.len() == 0 {
        s
    } else {
        let d = dedup(s.drop_last());
        if d.contains(s.last()) { d } else { d.push(s.last()) }
    }
}

fn artist_separator(k: usize) -> (r: &'static str)
    requires
        k < 5,
    ensures
        r@ == artist_separators()[k as int],
{
    proof {
        reveal_strlit(",");
        reveal_strlit("&");
        reveal_strlit(" and ");
        reveal_strlit(" feat. ");
        reveal_strlit(" vs ");
    }
    if k == 0 {
        ","
    } else if k == 1 {
        "&"
    } else if k == 2 {
        " and "
    } else if k == 3 {
        " feat. "
    } else {
        " vs "
    }
}

/// Whether one of the strings equals `x`.
pub fn strings_contain(v: &Vec<String>, x: &str) -> (r: bool)
    ensures
        r == strs(v@).contains(x@),
{
    let mut i: usize = 0;
    while i < v.len()
        invariant
            i <= v@.len(),
            forall|k: int| 0 <= k < i ==> strs(v@)[k] != x@,
        decreases v@.len() - i,
    {
        if str_eq(v[i].as_str(), x) {
            assert(strs(v@)[i as int] == x@);
            return true;
        }
        i += 1;
    }
    false
}

fn add_pieces(out: &mut Vec<String>, pieces: &Vec<Vec<char>>, Ghost(acc): Ghost<Seq<Seq<char>>>)
    requires
        strs(old(out)@) == dedup(acc),
    ensures
        strs(final(out)@) == dedup(acc + trimmed(seqs_of(pieces@))),
{
    let ghost ps = trimmed(seqs_of(pieces@));
    let mut j: usize = 0;
    while j < pieces.len()
        invariant
            j <= pieces@.len(),
            ps == trimmed(seqs_of(pieces@)),
            strs(out@) == dedup(acc + ps.take(j as int)),
        decreases pieces@.len() - j,
    {
        let t = trim_chars(pieces[j].as_slice());
        let piece = string_from(t.as_slice());
        let ghost before = acc + ps.take(j as int);
        assert(acc + ps.take(j + 1) =~= before.push(ps[j as int]));
        assert((acc + ps.take(j + 1)).drop_last() =~= before);
        if !strings_contain(out, piece.as_str()) {
            let ghost prev = strs(out@);
            out.push(piece);
            assert(strs(out@) =~= prev.push(piece@));
        }
        j += 1;
    }
    assert(ps.take(pieces@.len() as int) =~= ps);
}

/// The artist names in the credits: each credit split at `,`, `&`, ` and `,
/// ` feat. ` and ` vs `, the pieces trimmed, each name once, in the order
/// in which they first come up.
pub fn split_artist_names(artists: &Vec<String>) -> (r: Vec<String>)
    ensures
        strs(r@) == dedup(all_pieces(strs(artists@))),
{
    let mut out: Vec<String> = Vec::new();
    let ghost names = strs(artists@);
    let mut i: usize = 0;
    while i < artists.len()
        invariant
            i <= artists@.len(),
            names == strs(artists@),
            strs(out@) == dedup(all_pieces(names.take(i as int))),
        decreases artists@.len() - i,
    {
        let a = chars_of(artists[i].as_str());
        let ghost base = all_pieces(names.take(i as int));
        let mut k: usize = 0;
        while k < 5
            invariant
                k <= 5,
                i < names.len(),
                a@ == names[i as int],
                strs(out@) == dedup(base + pieces_at(a@, artist_separators().take(k as int))),
            decreases 5 - k,
        {
            let sep = chars_of(artist_separator(k));
            assert(sep@ == artist_separators()[k as int]);
            let pieces = split_on_text(a.as_slice(), sep.as_slice());
            let ghost acc = base + pieces_at(a@, artist_separators().take(k as int));
            add_pieces(&mut out, &pieces, Ghost(acc));
            assert(artist_separators().take(k + 1).drop_last() =~= artist_separators().take(k as int));
            assert(acc + pieces_by(a@, sep@) =~= base + pieces_at(a@, artist_separators().take(k + 1)));
            k += 1;
        }
        assert(artist_separators().take(5) =~= artist_separators());
        assert(names.take(i + 1).drop_last() =~= names.take(i as int));
        i += 1;
    }
    assert(names.take(artists@.len() as int) =~= names);
    out
}

/// The names of an optional list of strings.
pub open spec fn opt_names(o: Option<&Vec<String>>) -> Option<Seq<Seq<char>>> {
    match o {
        Some(v) => Some(strs(v@)),
        None => None,
    }
}

/// The text of an optional string slice.
pub open spec fn opt_text(o: Option<&str>) -> Option<Seq<char>> {
    match o {
        Some(s) => Some(s@),
        None => None,
    }
}

fn extend_unique(out: &mut Vec<String>, v: &Vec<String>, Ghost(acc): Ghost<Seq<Seq<char>>>)
    requires
        strs(old(out)@) == dedup(acc),
    ensures
        strs(final(out)@) == dedup(acc + strs(v@)),
{
    let ghost vs = strs(v@);
    let mut j: usize = 0;
    while j < v.len()
        invariant
            j <= v@.len(),
            vs == strs(v@),
            strs(out@) == dedup(acc + vs.take(j as int)),
        decreases v@.len() - j,
    {
        let ghost before = acc + vs.take(j as int);
        assert(acc + vs.take(j + 1) =~= before.push(vs[j as int]));
        assert((acc + vs.take(j + 1)).drop_last() =~= before);
        if !strings_contain(out, v[j].as_str()) {
            let ghost prev = strs(out@);
            out.push(v[j].clone());
            assert(strs(out@) =~= prev.push(vs[j as int]));
        }
        j += 1;
    }
    assert(vs.take(v@.len() as int) =~= vs);
}

/// The names releases are matched against: the split credit names and the
/// album artists, each once when both are known, sorted ascending.
pub open spec fn all_artists_spec(artists: Option<Seq<Seq<char>>>, album_artists: Option<Seq<Seq<char>>>) -> Option<Seq<Seq<char>>> {
    match (artists, album_artists) {
        (Some(a), Some(b)) => Some(sorted_strs(dedup(a + b))),
        (Some(a), None) => Some(sorted_strs(a)),
        (None, Some(b)) => Some(sorted_strs(b)),
        (None, None) => None,
    }
}

/// The names releases are matched against, sorted ascending.
pub fn all_artists(artists: Option<&Vec<String>>, album_artists: Option<&Vec<String>>) -> (r: Option<Vec<String>>)
    ensures
        match r {
            Some(v) => all_artists_spec(opt_names(artists), opt_names(album_artists)) == Some(strs(v@)),
            None => all_artists_spec(opt_names(artists), opt_names(album_artists)) is None,
        },
{
    match (artists, album_artists) {
        (Some(a), Some(b)) => {
            let mut both: Vec<String> = Vec::new();
            assert(dedup(Seq::<Seq<char>>::empty()) == Seq::<Seq<char>>::empty());
            assert(strs(both@) =~= Seq::<Seq<char>>::empty());
            extend_unique(&mut both, a, Ghost(Seq::<Seq<char>>::empty()));
            assert(Seq::<Seq<char>>::empty() + strs(a@) =~= strs(a@));
            extend_unique(&mut both, b, Ghost(strs(a@)));
            Some(sort_strings(&both))
        },
        (Some(a), None) => Some(sort_strings(a)),
        (None, Some(b)) => Some(sort_strings(b)),
        (None, None) => None,
    }
}

/// The text whose digest keys the cached cover address: the album artists
/// (or else the credit names) and the album, or the title and the album,
/// or the credit names and the title; names joined by `", "`, the two
/// parts by `-`.
pub open spec fn cache_text(
    title: Option<Seq<char>>,
    album: Option<Seq<char>>,
    artists: Option<Seq<Seq<char>>>,
    album_artists: Option<Seq<Seq<char>>>,
) -> Option<Seq<char>> {
    let comma = seq![',', ' '];
    if album is Some && album_artists is Some {
        Some(join_seqs(album_artists->0, comma) + seq!['-'] + album->0)
    } else if album is Some && artists is Some {
        Some(join_seqs(artists->0, comma) + seq!['-'] + album->0)
    } else if title is Some && album is Some {
        Some(title->0 + seq!['-'] + album->0)
    } else if title is Some && artists is Some {
        Some(join_seqs(artists->0, comma) + seq!['-'] + title->0)
    } else {
        None
    }
}

fn joined_dash(names: &Vec<String>, tail: &str) -> (r: String)
    ensures
        r@ == join_seqs(strs(names@), seq![',', ' ']) + seq!['-'] + tail@,
{
    proof {
        reveal_strlit(", ");
        reveal_strlit("-");
        assert(", "@ =~= seq![',', ' ']);
        assert("-"@ =~= seq!['-']);
    }
    assert(names@.map_values(|p: String| p@) =~= strs(names@));
    let joined = join_strings(names.as_slice(), ", ");
    let with_dash = concat_str(joined.as_str(), "-");
    concat_str(with_dash.as_str(), tail)
}

/// The text whose digest keys the cached cover address.
pub fn cache_key_text(
    title: Option<&str>,
    album: Option<&str>,
    artists: Option<&Vec<String>>,
    album_artists: Option<&Vec<String>>,
) -> (r: Option<String>)
    ensures
        opt_view(r) == cache_text(opt_text(title), opt_text(album), opt_names(artists), opt_names(album_artists)),
{
    proof {
        reveal_strlit("-");
        assert("-"@ =~= seq!['-']);
    }
    match (album, album_artists) {
        (Some(al), Some(aa)) => return Some(joined_dash(aa, al)),
        _ => {},
    }
    match (album, artists) {
        (Some(al), Some(ar)) => return Some(joined_dash(ar, al)),
        _ => {},
    }
    match (title, album) {
        (Some(t), Some(al)) => {
            let with_dash = concat_str(t, "-");
            return Some(concat_str(with_dash.as_str(), al));
        },
        _ => {},
    }
    match (title, artists) {
        (Some(t), Some(ar)) => Some(joined_dash(ar, t)),
        _ => None,
    }
}

/// Name of the lower-case hexadecimal SHA-256 digest of the bytes.
pub uninterp spec fn sha256_hex(data: Seq<u8>) -> Seq<char>;

/// SHA-256 digest of `data` in lower-case hexadecimal.
///
/// Wraps `sha256::digest` on a byte slice, which hex-encodes the 32-byte
/// digest: the text is named by `sha256_hex` and has 64 characters.
#[verifier::external_body]
fn sha256_digest(data: &[u8]) -> (r: String)
    ensures
        r@ == sha256_hex(data@),
        r@.len() == 64,
{
    sha256::digest(data)
}

/// The key of the cached cover address: the SHA-256 digest of the UTF-8
/// bytes of the cache text, when there is one.
pub fn lookup_cache_key(
    title: Option<&str>,
    album: Option<&str>,
    artists: Option<&Vec<String>>,
    album_artists: Option<&Vec<String>>,
) -> (r: Option<String>)
    ensures
        match cache_text(opt_text(title), opt_text(album), opt_names(artists), opt_names(album_artists)) {
            Some(t) => r is Some && r->0@ == sha256_hex(utf8(t)) && r->0@.len() == 64,
            None => r is None,
        },
{
    match cache_key_text(title, album, artists, album_artists) {
        Some(raw) => {
            let bytes = utf8_bytes(raw.as_str());
            Some(sha256_digest(bytes.as_slice()))
        },
        None => None,
    }
}

/// Address of a MusicBrainz recording search.
pub fn recording_search_url(query: &str) -> (r: String)
    ensures
        r@ == "https://musicbrainz.org/ws/2/recording/?query="@ + query@ + "&fmt=json&limit=5"@,
{
    let head = concat_str("https://musicbrainz.org/ws/2/recording/?query=", query);
    concat_str(head.as_str(), "&fmt=json&limit=5")
}

/// Address of a MusicBrainz release search.
pub fn release_search_url(query: &str) -> (r: String)
    ensures
        r@ == "https://musicbrainz.org/ws/2/release/?query="@ + query@ + "&fmt=json&limit=5"@,
{
    let head = concat_str("https://musicbrainz.org/ws/2/release/?query=", query);
    concat_str(head.as_str(), "&fmt=json&limit=5")
}

/// Address of a MusicBrainz release lookup.
pub fn release_lookup_url(id: &str) -> (r: String)
    ensures
        r@ == "https://musicbrainz.org/ws/2/release/"@ + id@ + "?fmt=json"@,
{
    let head = concat_str("https://musicbrainz.org/ws/2/release/", id);
    concat_str(head.as_str(), "?fmt=json")
}

/// Address of the 250-pixel front cover of a release on the Cover Art
/// Archive.
pub fn release_front_cover_url(id: &str) -> (r: String)
    ensures
        r@ == "https://coverartarchive.org/release/"@ + id@ + "/front-250"@,
{
    let head = concat_str("https://coverartarchive.org/release/", id);
    concat_str(head.as_str(), "/front-250")
}

/// One credited artist of a MusicBrainz recording or release.
pub struct ArtistCredit {
    pub name: String,
}

/// A release found by a MusicBrainz search.
pub struct ReleaseSearch {
    pub id: String,
    pub title: String,
    pub artist_credit: Vec<ArtistCredit>,
}

/// A recording found by a MusicBrainz search, with the releases it is on.
pub struct RecordingSearch {
    pub id: String,
    pub title: String,
    pub artist_credit: Vec<ArtistCredit>,
    pub releases: Vec<ReleaseSearch>,
}

/// The answer to a MusicBrainz recording search.
pub struct RecordingSearchReponse {
    pub recordings: Vec<RecordingSearch>,
}

/// The answer to a MusicBrainz release search.
pub struct ReleaseSearchResponse {
    pub releases: Vec<ReleaseSearch>,
}

/// Whether the Cover Art Archive holds a front cover of a release.
pub struct CoverArtArchive {
    pub front: bool,
}

/// A release as MusicBrainz describes it when looked up by its id.
pub struct Release {
    pub id: String,
    pub cover_art_archive: CoverArtArchive,
}

/// The credited names, in order.
pub open spec fn credit_names(v: Seq<ArtistCredit>) -> Seq<Seq<char>> {
    v.map_values(|c: ArtistCredit| c.name@)
}

/// A release as plain values: its id, its title and its credited names.
pub open spec fn release_view(r: ReleaseSearch) -> (Seq<char>, Seq<char>, Seq<Seq<char>>) {
    (r.id@, r.title@, credit_names(r.artist_credit@))
}

/// The releases of a recording, each credited as the recording is.
pub open spec fn recording_releases(rec: RecordingSearch) -> Seq<(Seq<char>, Seq<char>, Seq<Seq<char>>)> {
    rec.releases@.map_values(|r: ReleaseSearch| (r.id@, r.title@, credit_names(rec.artist_credit@)))
}

/// The releases of the recordings, recording after recording, each
/// credited as its recording is.
pub open spec fn candidate_releases(recs: Seq<RecordingSearch>) -> Seq<(Seq<char>, Seq<char>, Seq<Seq<char>>)>
    decreases recs.len(),
{
    if recs.len() == 0 {
        Seq::empty()
    } else {
        candidate_releases(recs.drop_last()) + recording_releases(recs.last())
    }
}

/// A copy of the credits.
pub fn clone_credits(v: &Vec<ArtistCredit>) -> (r: Vec<ArtistCredit>)
    ensures
        credit_names(r@) == credit_names(v@),
{
    let mut out: Vec<ArtistCredit> = Vec::new();
    let mut i: usize = 0;
    while i < v.len()
        invariant
            i <= v@.len(),
            credit_names(out@) == credit_names(v@).take(i as int),
        decreases v@.len() - i,
    {
        let ghost prev = credit_names(out@);
        out.push(ArtistCredit { name: v[i].name.clone() });
        assert(credit_names(out@) =~= prev.push(v@[i as int].name@));
        i += 1;
        assert(credit_names(v@).take(i as int) =~= credit_names(v@).take(i - 1).push(v@[i - 1].name@));
    }
    assert(credit_names(v@).take(v@.len() as int) =~= credit_names(v@));
    out
}

/// The releases of the found recordings, each credited to the artists of
/// its recording.
pub fn releases_from_recordings(resp: &RecordingSearchReponse) -> (r: Vec<ReleaseSearch>)
    ensures
        r@.map_values(|x: ReleaseSearch| release_view(x)) == candidate_releases(resp.recordings@),
{
    let recs = &resp.recordings;
    let mut out: Vec<ReleaseSearch> = Vec::new();
    let mut i: usize = 0;
    while i < recs.len()
        invariant
            i <= recs@.len(),
            *recs == resp.recordings,
            out@.map_values(|x: ReleaseSearch| release_view(x)) == candidate_releases(recs@.take(i as int)),
        decreases recs@.len() - i,
    {
        let rec = &recs[i];
        let ghost base = candidate_releases(recs@.take(i as int));
        let ghost rr = recording_releases(*rec);
        let mut j: usize = 0;
        while j < rec.releases.len()
            invariant
                j <= rec.releases@.len(),
                rr == recording_releases(*rec),
                out@.map_values(|x: ReleaseSearch| release_view(x)) == base + rr.take(j as int),
            decreases rec.releases@.len() - j,
        {
            let rel = &rec.releases[j];
            let item = ReleaseSearch {
                id: rel.id.clone(),
                title: rel.title.clone(),
                artist_credit: clone_credits(&rec.artist_credit),
            };
            let ghost prev = out@.map_values(|x: ReleaseSearch| release_view(x));
            assert(release_view(item) == rr[j as int]);
            out.push(item);
            assert(out@.map_values(|x: ReleaseSearch| release_view(x)) =~= prev.push(rr[j as int]));
            assert(base + rr.take(j + 1) =~= (base + rr.take(j as int)).push(rr[j as int]));
            j += 1;
        }
        assert(rr.take(rec.releases@.len() as int) =~= rr);
        assert(recs@.take(i + 1).drop_last() =~= recs@.take(i as int));
        i += 1;
    }
    assert(recs@.take(recs@.len() as int) =~= recs@);
    out
}

/// The searches of one lookup: recording searches first, then release
/// searches, each given by its query text.
pub struct LookupPlan {
    pub recording_queries: Vec<String>,
    pub release_queries: Vec<String>,
}

/// A recording search per credit name, when the title, the names and the
/// album are known.
pub open spec fn recording_queries_spec(title: Option<Seq<char>>, artists: Option<Seq<Seq<char>>>, album: Option<Seq<char>>) -> Seq<Seq<char>> {
    if title is Some && artists is Some && album is Some {
        artists->0.map_values(|a: Seq<char>| query_text(QueryV { recording: title, release: album, artist: Some(a) }))
    } else {
        Seq::empty()
    }
}

/// A release search per matched name, when the album and those names are
/// known, then one by the album alone.
pub open spec fn release_queries_spec(album: Option<Seq<char>>, all_artists: Option<Seq<Seq<char>>>) -> Seq<Seq<char>> {
    let by_artist = if album is Some && all_artists is Some {
        all_artists->0.map_values(|a: Seq<char>| query_text(QueryV { recording: None, release: album, artist: Some(a) }))
    } else {
        Seq::empty()
    };
    if album is Some {
        by_artist.push(query_text(QueryV { recording: None, release: album, artist: None }))
    } else {
        by_artist
    }
}

/// The searches that a lookup by title, credit names, album and matched
/// names makes, in the order in which they are made.
pub fn lookup_plan(
    title: Option<&str>,
    artists: Option<&Vec<String>>,
    album: Option<&str>,
    all_artists: Option<&Vec<String>>,
) -> (r: LookupPlan)
    ensures
        strs(r.recording_queries@) == recording_queries_spec(opt_text(title), opt_names(artists), opt_text(album)),
        strs(r.release_queries@) == release_queries_spec(opt_text(album), opt_names(all_artists)),
{
    let mut recording_queries: Vec<String> = Vec::new();
    match (title, artists, album) {
        (Some(t), Some(ar), Some(al)) => {
            let ghost target = recording_queries_spec(opt_text(title), opt_names(artists), opt_text(album));
            let mut i: usize = 0;
            while i < ar.len()
                invariant
                    i <= ar@.len(),
                    target == strs(ar@).map_values(|a: Seq<char>| query_text(QueryV { recording: Some(t@), release: Some(al@), artist: Some(a) })),
                    strs(recording_queries@) == target.take(i as int),
                decreases ar@.len() - i,
            {
                let mut q = Query::new();
                q.recording(t).artist(ar[i].as_str()).release(al);
                let text = q.build();
                let ghost prev = strs(recording_queries@);
                recording_queries.push(text);
                assert(strs(recording_queries@) =~= prev.push(target[i as int]));
                assert(target.take(i + 1) =~= target.take(i as int).push(target[i as int]));
                i += 1;
            }
            assert(target.take(ar@.len() as int) =~= target);
        },
        _ => {},
    }
    let mut release_queries: Vec<String> = Vec::new();
    match (album, all_artists) {
        (Some(al), Some(aa)) => {
            let ghost target = strs(aa@).map_values(|a: Seq<char>| query_text(QueryV { recording: None, release: Some(al@), artist: Some(a) }));
            let mut i: usize = 0;
            while i < aa.len()
                invariant
                    i <= aa@.len(),
                    target == strs(aa@).map_values(|a: Seq<char>| query_text(QueryV { recording: None, release: Some(al@), artist: Some(a) })),
                    strs(release_queries@) == target.take(i as int),
                decreases aa@.len() - i,
            {
                let mut q = Query::new();
                q.release(al).artist(aa[i].as_str());
                let text = q.build();
                let ghost prev = strs(release_queries@);
                release_queries.push(text);
                assert(strs(release_queries@) =~= prev.push(target[i as int]));
                assert(target.take(i + 1) =~= target.take(i as int).push(target[i as int]));
                i += 1;
            }
            assert(target.take(aa@.len() as int) =~= target);
        },
        _ => {},
    }
    match album {
        Some(al) => {
            let mut q = Query::new();
            q.release(al);
            let text = q.build();
            let ghost prev = strs(release_queries@);
            release_queries.push(text);
            assert(strs(release_queries@) =~= prev.push(query_text(QueryV { recording: None, release: Some(al@), artist: None })));
        },
        None => {},
    }
    LookupPlan { recording_queries, release_queries }
}

/// Whether row `i`, column `k` of a table of flags is set; missing cells are
/// unset.
pub open spec fn flag_at(flags: Seq<Seq<bool>>, i: int, k: int) -> bool {
    0 <= i < flags.len() && 0 <= k < flags[i].len() && flags[i][k]
}

/// A credited name matches a searched name when either contains the other,
/// both in lower case, or when they are close (`close`).
pub open spec fn credit_matches(artist: Seq<char>, credit: Seq<char>, close: bool) -> bool {
    crate::text::contains_seq(lowercase(credit), lowercase(artist))
        || crate::text::contains_seq(lowercase(artist), lowercase(credit))
        || close
}

/// Whether a found release is kept: its title, in lower case, is contained
/// in the album's or close to it (`title_close`), when the album is known;
/// and one of the searched names matches one of its credited names, with
/// `artist_close[i][k]` telling whether name `i` is close to credit `k`.
pub open spec fn release_kept(
    title: Seq<char>,
    credits: Seq<Seq<char>>,
    album: Option<Seq<char>>,
    artists: Seq<Seq<char>>,
    title_close: bool,
    artist_close: Seq<Seq<bool>>,
) -> bool {
    (match album {
        Some(a) => crate::text::contains_seq(lowercase(a), lowercase(title)) || title_close,
        None => true,
    }) && exists|i: int, k: int|
        0 <= i < artists.len() && 0 <= k < credits.len()
            && #[trigger] credit_matches(artists[i], credits[k], flag_at(artist_close, i, k))
}

/// Whether a found release is kept for the album and the searched names
/// (none when they are unknown). How close two names are is measured
/// outside; `title_close` and `artist_close` carry the outcome.
pub fn release_matches(
    release: &ReleaseSearch,
    album: Option<&str>,
    all_artists: Option<&Vec<String>>,
    title_close: bool,
    artist_close: &Vec<Vec<bool>>,
) -> (r: bool)
    ensures
        r == release_kept(
            release.title@,
            credit_names(release.artist_credit@),
            opt_text(album),
            match all_artists { Some(v) => strs(v@), None => Seq::empty() },
            title_close,
            artist_close@.map_values(|row: Vec<bool>| row@),
        ),
{
    let ghost credits = credit_names(release.artist_credit@);
    let ghost names = match all_artists { Some(v) => strs(v@), None => Seq::<Seq<char>>::empty() };
    let ghost flags = artist_close@.map_values(|row: Vec<bool>| row@);
    let title_lower = to_lowercase(release.title.as_str());
    match album {
        Some(a) => {
            let album_lower = to_lowercase(a);
            if !(crate::text::str_contains(album_lower.as_str(), title_lower.as_str()) || title_close) {
                return false;
            }
        },
        None => {},
    }
    let empty: Vec<String> = Vec::new();
    let artists = match all_artists {
        Some(v) => v,
        None => &empty,
    };
    assert(strs(artists@) == names);
    let mut i: usize = 0;
    while i < artists.len()
        invariant
            i <= artists@.len(),
            strs(artists@) == names,
            names == (match all_artists { Some(v) => strs(v@), None => Seq::<Seq<char>>::empty() }),
            credits == credit_names(release.artist_credit@),
            flags == artist_close@.map_values(|row: Vec<bool>| row@),
            match opt_text(album) {
                Some(a) => crate::text::contains_seq(lowercase(a), lowercase(release.title@)) || title_close,
                None => true,
            },
            forall|i2: int, k: int| 0 <= i2 < i && 0 <= k < credits.len()
                ==> !#[trigger] credit_matches(names[i2], credits[k], flag_at(flags, i2, k)),
        decreases artists@.len() - i,
    {
        let artist_lower = to_lowercase(artists[i].as_str());
        let mut k: usize = 0;
        while k < release.artist_credit.len()
            invariant
                i < artists@.len(),
                k <= release.artist_credit@.len(),
                strs(artists@) == names,
                names == (match all_artists { Some(v) => strs(v@), None => Seq::<Seq<char>>::empty() }),
                credits == credit_names(release.artist_credit@),
                flags == artist_close@.map_values(|row: Vec<bool>| row@),
                artist_lower@ == lowercase(names[i as int]),
                match opt_text(album) {
                    Some(a) => crate::text::contains_seq(lowercase(a), lowercase(release.title@)) || title_close,
                    None => true,
                },
                forall|k2: int| 0 <= k2 < k ==> !#[trigger] credit_matches(names[i as int], credits[k2], flag_at(flags, i as int, k2)),
            decreases release.artist_credit@.len() - k,
        {
            let credit_lower = to_lowercase(release.artist_credit[k].name.as_str());
            let close = i < artist_close.len() && k < artist_close[i].len() && artist_close[i][k];
            assert(close == flag_at(flags, i as int, k as int));
            if crate::text::str_contains(credit_lower.as_str(), artist_lower.as_str())
                || crate::text::str_contains(artist_lower.as_str(), credit_lower.as_str())
                || close
            {
                assert(credit_matches(names[i as int], credits[k as int], flag_at(flags, i as int, k as int)));
                return true;
            }
            k += 1;
        }
        i += 1;
    }
    false
}

/// A file next to a track is a picture for the configured names when its
/// name up to the first `.` is one of them, exactly.
pub open spec fn legacy_picture_spec(file_name: Seq<char>, names: Seq<Seq<char>>) -> bool {
    names.contains(crate::text::split_on(file_name, '.')[0])
}

/// Whether a file, by its name, is a picture for the configured names.
pub fn is_legacy_picture_file(file_name: &str, names: &Vec<String>) -> (r: bool)
    ensures
        r == legacy_picture_spec(file_name@, strs(names@)),
{
    let chars = chars_of(file_name);
    let pieces = crate::text::split_chars(chars.as_slice(), '.');
    let stem = string_from(pieces[0].as_slice());
    assert(stem@ == crate::text::split_on(file_name@, '.')[0]);
    strings_contain(names, stem.as_str())
}

/// Looks up covers on MusicBrainz by search terms; the addresses it finds
/// are kept in the cache namespace `musicbrainz`.
pub struct MusicBrainzProvider {
    pub cache_namespace: String,
}

impl MusicBrainzProvider {
    /// A provider with its cache namespace.
    pub fn new() -> (r: Self)
        ensures
            r.cache_namespace@ == "musicbrainz"@,
    {
        MusicBrainzProvider { cache_namespace: "musicbrainz".to_owned() }
    }
}

/// Uploads covers to ImgBB with an API key; the addresses it gets are kept
/// in the cache namespace `imgbb`.
pub struct ImgBBProvider {
    pub api_key: String,
    pub cache_namespace: String,
}

impl ImgBBProvider {
    /// A provider for the API key.
    pub fn new(api_key: &str) -> (r: Self)
        ensures
            r.api_key@ == api_key@,
            r.cache_namespace@ == "imgbb"@,
    {
        ImgBBProvider { api_key: api_key.to_owned(), cache_namespace: "imgbb".to_owned() }
    }
}

/// The cover provider chosen by name.
pub enum Provider {
    ImgBB { client: ImgBBProvider },
    MusicBrainz { client: MusicBrainzProvider },
    Unknown,
}

impl Provider {
    /// The provider named `name`, in any case: `imgbb` when an ImgBB key is
    /// configured, `musicbrainz`, and none for any other name.
    pub fn new(name: &str, imgbb_api_key: Option<&str>) -> (r: Self)
        ensures
            lowercase(name@) == "imgbb"@ ==> match imgbb_api_key {
                Some(k) => (r matches Provider::ImgBB { client } && client.api_key@ == k@
                    && client.cache_namespace@ == "imgbb"@),
                None => r is Unknown,
            },
            lowercase(name@) == "musicbrainz"@ ==> (r matches Provider::MusicBrainz { client }
                && client.cache_namespace@ == "musicbrainz"@),
            lowercase(name@) != "imgbb"@ && lowercase(name@) != "musicbrainz"@ ==> r is Unknown,
    {
        let lower = to_lowercase(name);
        proof {
            reveal_strlit("imgbb");
            reveal_strlit("musicbrainz");
            assert("imgbb"@.len() != "musicbrainz"@.len());
        }
        if str_eq(lower.as_str(), "imgbb") {
            match imgbb_api_key {
                Some(k) => Provider::ImgBB { client: ImgBBProvider::new(k) },
                None => Provider::Unknown,
            }
        } else if str_eq(lower.as_str(), "musicbrainz") {
            Provider::MusicBrainz { client: MusicBrainzProvider::new() }
        } else {
            Provider::Unknown
        }
    }

    /// An ImgBB provider for the API key.
    pub fn new_imgbb(api_key: &str) -> (r: Self)
        ensures
            r matches Provider::ImgBB { client } && client.api_key@ == api_key@ && client.cache_namespace@ == "imgbb"@,
    {
        Provider::ImgBB { client: ImgBBProvider::new(api_key) }
    }
}

/// Finds cover addresses through the configured upload provider, if any.
pub struct CoverURLFinder {
    pub provider: Option<Provider>,
}

impl CoverURLFinder {
    /// The finder for the configured provider name: `imgbb`, in any case,
    /// uploads to ImgBB with the configured key (empty when none is set);
    /// any other name uploads nowhere.
    pub fn new(provider_name: &str, imgbb_api_key: Option<&str>) -> (r: Self)
        ensures
            lowercase(provider_name@) == "imgbb"@ ==> (r.provider matches Some(Provider::ImgBB { client })
                && client.api_key@ == (match imgbb_api_key { Some(k) => k@, None => Seq::<char>::empty() })),
            lowercase(provider_name@) != "imgbb"@ ==> r.provider is None,
    {
        let lower = to_lowercase(provider_name);
        if str_eq(lower.as_str(), "imgbb") {
            let key = match imgbb_api_key {
                Some(k) => k,
                None => "",
            };
            proof {
                reveal_strlit("");
            }
            CoverURLFinder { provider: Some(Provider::new_imgbb(key)) }
        } else {
            CoverURLFinder { provider: None }
        }
    }
}

/// The query text does not depend on the order in which the terms were
/// set: setting the recording and then the artist gives the text that
/// setting the artist and then the recording gives (and likewise for the
/// release).
pub proof fn law_query_terms_commute(q: QueryV, recording: Seq<char>, release: Seq<char>, artist: Seq<char>)
    ensures
        query_text(QueryV { artist: Some(artist), ..QueryV { recording: Some(recording), ..q } })
            == query_text(QueryV { recording: Some(recording), ..QueryV { artist: Some(artist), ..q } }),
        query_text(QueryV { release: Some(release), ..QueryV { recording: Some(recording), ..q } })
            == query_text(QueryV { recording: Some(recording), ..QueryV { release: Some(release), ..q } }),
        query_text(QueryV { artist: Some(artist), ..QueryV { release: Some(release), ..q } })
            == query_text(QueryV { release: Some(release), ..QueryV { artist: Some(artist), ..q } }),
{
}

/// The split artist names hold each name once, and exactly the trimmed
/// pieces of the credits.
pub proof fn law_split_names_unique(s: Seq<Seq<char>>)
    ensures
        dedup(s).no_duplicates(),
        forall|x: Seq<char>| dedup(s).contains(x) <==> s.contains(x),
    decreases s.len(),
{
    if s.len() > 0 {
        law_split_names_unique(s.drop_last());
        let d = dedup(s.drop_last());
        assert forall|x: Seq<char>| dedup(s).contains(x) <==> s.contains(x) by {
            if s.contains(x) {
                let i = choose|i: int| 0 <= i < s.len() && s[i] == x;
                if i < s.len() - 1 {
                    assert(s.drop_last()[i] == x);
                }
            }
            if s.drop_last().contains(x) {
                let i = choose|i: int| 0 <= i < s.drop_last().len() && s.drop_last()[i] == x;
                assert(s[i] == x);
            }
            if !d.contains(s.last()) {
                assert(d.push(s.last())[d.len() as int] == s.last());
                if d.push(s.last()).contains(x) && x != s.last() {
                    let i = choose|i: int| 0 <= i < d.push(s.last()).len() && d.push(s.last())[i] == x;
                    assert(d[i] == x);
                }
                if d.contains(x) {
                    let i = choose|i: int| 0 <= i < d.len() && d[i] == x;
                    assert(d.push(s.last())[i] == x);
                }
            }
        }
    }
}

} // verus!
