//! Track metadata decisions: which cover-art source a track offers, the
//! thumbnail address derived from a video page, and the track's cover-cache
//! key.
use vstd::prelude::*;
use crate::cover::art::{art_source_spec, utf8, utf8_bytes, blake3_hex, blake3_hex_of, ArtSource, ArtSourceV};
use crate::cover::cache::{key_components, track_key, KeyFields, generate_key_parts, strs};
use crate::text::{
    ascii_lower, chars_of, concat_str, has_suffix, join_seqs, join_strings, seqs_of, split_chars,
    split_on, str_eq, str_starts_with, string_from, to_ascii_lower, char_len, opt_view,
};
use crate::urls::{parse_url, url_parts, UrlParts, UrlPartsV};
pub use crate::health::ArtSourceOptions;

verus! {

broadcast use vstd::string::group_string_axioms;

/// An `http://` or `https://` address.
pub open spec fn http_prefixed(url: Seq<char>) -> bool {
    "http://"@.is_prefix_of(url) || "https://"@.is_prefix_of(url)
}

/// Whether an art URL is an `http(s)` address.
pub fn is_http_art_url(url: &str) -> (r: bool)
    ensures
        r == http_prefixed(url@),
{
    str_starts_with(url, "http://") || str_starts_with(url, "https://")
}

/// The art source chosen: an `http(s)` art URL first, then a URL inferred
/// from the page address, then the art URL of any other kind, then the
/// picture embedded in the file.
pub open spec fn select_spec(art_url: Option<Seq<char>>, inferred: Option<Seq<char>>, embedded: Option<Seq<u8>>) -> Option<ArtSourceV> {
    if art_url is Some && http_prefixed(art_url->0) && art_source_spec(art_url->0) is Some {
        art_source_spec(art_url->0)
    } else if inferred is Some {
        Some(ArtSourceV::Url(inferred->0))
    } else if art_url is Some && art_source_spec(art_url->0) is Some {
        art_source_spec(art_url->0)
    } else {
        match embedded {
            Some(b) => Some(ArtSourceV::Bytes(b)),
            None => None,
        }
    }
}

pub open spec fn opt_str(o: Option<&str>) -> Option<Seq<char>> {
    match o {
        Some(s) => Some(s@),
        None => None,
    }
}

pub open spec fn opt_bytes(o: Option<Vec<u8>>) -> Option<Seq<u8>> {
    match o {
        Some(b) => Some(b@),
        None => None,
    }
}

pub open spec fn opt_source(o: Option<ArtSource>) -> Option<ArtSourceV> {
    match o {
        Some(s) => Some(s@),
        None => None,
    }
}

/// Pick the best art source from the available inputs.
pub fn select_art_source(art_url: Option<&str>, inferred_url: Option<String>, embedded_bytes: Option<Vec<u8>>) -> (r: Option<ArtSource>)
    ensures
        opt_source(r) == select_spec(opt_str(art_url), opt_view(inferred_url), opt_bytes(embedded_bytes)),
{
    match art_url {
        Some(url) => {
            if is_http_art_url(url) {
                match ArtSource::from_art_url(url) {
                    Some(src) => return Some(src),
                    None => {},
                }
            }
        },
        None => {},
    }
    match inferred_url {
        Some(url) => return Some(ArtSource::Url(url)),
        None => {},
    }
    match art_url {
        Some(url) => match ArtSource::from_art_url(url) {
            Some(src) => return Some(src),
            None => {},
        },
        None => {},
    }
    match embedded_bytes {
        Some(b) => Some(ArtSource::Bytes(b)),
        None => None,
    }
}

/// A character allowed in a video id: ASCII letters and digits, `_`, `-`.
pub open spec fn id_char(c: char) -> bool {
    ('a' <= c && c <= 'z') || ('A' <= c && c <= 'Z') || ('0' <= c && c <= '9') || c == '_' || c == '-'
}

/// The longest prefix made of video-id characters.
pub open spec fn id_prefix(s: Seq<char>) -> Seq<char>
    decreases s.len(),
{
    if s.len() == 0 || !id_char(s[0]) { Seq::empty() } else { seq![s[0]] + id_prefix(s.drop_first()) }
}

/// The value of the first query pair named `key`.
pub open spec fn first_value(pairs: Seq<(Seq<char>, Seq<char>)>, key: Seq<char>) -> Option<Seq<char>>
    decreases pairs.len(),
{
    if pairs.len() == 0 {
        None
    } else if pairs[0].0 == key {
        Some(pairs[0].1)
    } else {
        first_value(pairs.drop_first(), key)
    }
}

/// The path segments of a URL path that starts with `/`.
pub open spec fn path_segments(path: Seq<char>) -> Option<Seq<Seq<char>>> {
    if path.len() > 0 && path[0] == '/' { Some(split_on(path.drop_first(), '/')) } else { None }
}

/// A YouTube or YouTube-nocookie host (or a subdomain of one).
pub open spec fn youtube_host(h: Seq<char>) -> bool {
    ||| h == "youtube.com"@
    ||| ".youtube.com"@.is_suffix_of(h)
    ||| h == "youtube-nocookie.com"@
    ||| ".youtube-nocookie.com"@.is_suffix_of(h)
}

/// Path prefixes after which the video id is the next segment.
pub open spec fn id_path_kind(s: Seq<char>) -> bool {
    s == "shorts"@ || s == "embed"@ || s == "live"@ || s == "v"@
}

/// The video id candidate of a parsed page address: the first path
/// segment on `youtu.be`; on YouTube hosts the `v` query value, else the
/// segment after `shorts`, `embed`, `live` or `v`.
pub open spec fn id_candidate(host: Seq<char>, p: UrlPartsV) -> Option<Seq<char>> {
    if host == "youtu.be"@ {
        match path_segments(p.path) {
            Some(segs) => Some(segs[0]),
            None => None,
        }
    } else if youtube_host(host) {
        match first_value(p.query_pairs, "v"@) {
            Some(v) => Some(v),
            None => match path_segments(p.path) {
                Some(segs) => if id_path_kind(segs[0]) && segs.len() > 1 { Some(segs[1]) } else { None },
                None => None,
            },
        }
    } else {
        None
    }
}

/// The thumbnail address for a video page address, if it is one.
pub open spec fn inferred_art_url(url: Seq<char>) -> Option<Seq<char>> {
    match url_parts(url) {
        None => None,
        Some(p) => if p.scheme != "http"@ && p.scheme != "https"@ {
            None
        } else {
            match p.host {
                None => None,
                Some(h) => match id_candidate(h.map_values(|c: char| ascii_lower(c)), p) {
                    None => None,
                    Some(c) => {
                        let id = id_prefix(c);
                        if id.len() == 0 || id.len() > 32 {
                            None
                        } else {
                            Some("https://i.ytimg.com/vi/"@ + id + "/hqdefault.jpg"@)
                        }
                    },
                },
            }
        },
    }
}

fn lower_ascii_text(s: &str) -> (r: Vec<char>)
    ensures
        r@ == s@.map_values(|c: char| ascii_lower(c)),
{
    let v = chars_of(s);
    let mut out: Vec<char> = Vec::new();
    let mut i: usize = 0;
    while i < v.len()
        invariant
            i <= v@.len(),
            v@ == s@,
            out@ == s@.take(i as int).map_values(|c: char| ascii_lower(c)),
        decreases v@.len() - i,
    {
        out.push(to_ascii_lower(v[i]));
        i += 1;
        assert(out@ =~= s@.take(i as int).map_values(|c: char| ascii_lower(c)));
    }
    assert(s@.take(s@.len() as int) =~= s@);
    out
}

/// The value of the first pair whose key is `key`.
pub fn first_query_value(pairs: &Vec<(String, String)>, key: &str) -> (r: Option<String>)
    ensures
        opt_view(r) == first_value(pairs@.map_values(|p: (String, String)| (p.0@, p.1@)), key@),
{
    let ghost ps = pairs@.map_values(|p: (String, String)| (p.0@, p.1@));
    assert(ps.skip(0) =~= ps);
    let mut i: usize = 0;
    while i < pairs.len()
        invariant
            i <= pairs@.len(),
            ps == pairs@.map_values(|p: (String, String)| (p.0@, p.1@)),
            first_value(ps, key@) == first_value(ps.skip(i as int), key@),
        decreases pairs@.len() - i,
    {
        assert(ps.skip(i as int).drop_first() =~= ps.skip(i + 1));
        assert(ps.skip(i as int)[0] == ps[i as int]);
        if str_eq(pairs[i].0.as_str(), key) {
            return Some(pairs[i].1.clone());
        }
        i += 1;
    }
    None
}

fn segments(path: &str) -> (r: Option<Vec<Vec<char>>>)
    ensures
        match r {
            Some(v) => path_segments(path@) == Some(seqs_of(v@)) && v@.len() >= 1,
            None => path_segments(path@) is None,
        },
{
    let v = chars_of(path);
    if v.len() == 0 || v[0] != '/' {
        return None;
    }
    let mut rest: Vec<char> = Vec::new();
    let mut i: usize = 1;
    while i < v.len()
        invariant
            1 <= i <= v@.len(),
            v@ == path@,
            rest@ == path@.subrange(1, i as int),
        decreases v@.len() - i,
    {
        rest.push(v[i]);
        i += 1;
    }
    assert(rest@ =~= path@.drop_first());
    Some(split_chars(rest.as_slice(), '/'))
}

fn is_id_path_kind(s: &Vec<char>) -> (r: bool)
    ensures
        r == id_path_kind(s@),
{
    let t = string_from(s.as_slice());
    str_eq(t.as_str(), "shorts") || str_eq(t.as_str(), "embed") || str_eq(t.as_str(), "live") || str_eq(t.as_str(), "v")
}

fn video_id_candidate(host: &Vec<char>, p: &UrlParts) -> (r: Option<Vec<char>>)
    ensures
        match r {
            Some(c) => id_candidate(host@, p@) == Some(c@),
            None => id_candidate(host@, p@) is None,
        },
{
    let h = string_from(host.as_slice());
    if str_eq(h.as_str(), "youtu.be") {
        return match segments(p.path.as_str()) {
            Some(segs) => Some(segs[0].clone()),
            None => None,
        };
    }
    let d1 = chars_of(".youtube.com");
    let d2 = chars_of(".youtube-nocookie.com");
    let on_youtube = str_eq(h.as_str(), "youtube.com") || has_suffix(host.as_slice(), d1.as_slice())
        || str_eq(h.as_str(), "youtube-nocookie.com") || has_suffix(host.as_slice(), d2.as_slice());
    if !on_youtube {
        return None;
    }
    match first_query_value(&p.query_pairs, "v") {
        Some(v) => Some(chars_of(v.as_str())),
        None => match segments(p.path.as_str()) {
            Some(segs) => {
                if is_id_path_kind(&segs[0]) && segs.len() > 1 {
                    Some(segs[1].clone())
                } else {
                    None
                }
            },
            None => None,
        },
    }
}

fn id_chars(c: &Vec<char>) -> (r: Vec<char>)
    ensures
        r@ == id_prefix(c@),
{
    let mut out: Vec<char> = Vec::new();
    let mut i: usize = 0;
    assert(c@.skip(0) =~= c@);
    assert(out@ + id_prefix(c@) =~= id_prefix(c@));
    while i < c.len()
        && (('a' <= c[i] && c[i] <= 'z') || ('A' <= c[i] && c[i] <= 'Z') || ('0' <= c[i] && c[i] <= '9')
            || c[i] == '_' || c[i] == '-')
        invariant
            i <= c@.len(),
            id_prefix(c@) == out@ + id_prefix(c@.skip(i as int)),
        decreases c@.len() - i,
    {
        assert(c@.skip(i as int).drop_first() =~= c@.skip(i + 1));
        assert(c@.skip(i as int)[0] == c@[i as int]);
        let ghost before = out@;
        out.push(c[i]);
        assert(before + (seq![c@[i as int]] + id_prefix(c@.skip(i + 1))) =~= out@ + id_prefix(c@.skip(i + 1)));
        i += 1;
    }
    if i < c.len() {
        assert(c@.skip(i as int)[0] == c@[i as int]);
    }
    assert(id_prefix(c@.skip(i as int)) =~= Seq::<char>::empty());
    assert(out@ + Seq::<char>::empty() =~= out@);
    out
}

/// Derive a public cover-art URL from a known web video page address.
pub fn infer_art_url_from_url(url: &str) -> (r: Option<String>)
    ensures
        opt_view(r) == inferred_art_url(url@),
{
    proof {
        reveal_strlit("http");
        reveal_strlit("https");
    }
    let p = match parse_url(url) {
        Some(p) => p,
        None => return None,
    };
    if !str_eq(p.scheme.as_str(), "http") && !str_eq(p.scheme.as_str(), "https") {
        return None;
    }
    let host = match &p.host {
        Some(h) => lower_ascii_text(h.as_str()),
        None => return None,
    };
    let candidate = match video_id_candidate(&host, &p) {
        Some(c) => c,
        None => return None,
    };
    let id = id_chars(&candidate);
    if id.len() == 0 || id.len() > 32 {
        return None;
    }
    let id_text = string_from(id.as_slice());
    let head = concat_str("https://i.ytimg.com/vi/", id_text.as_str());
    Some(concat_str(head.as_str(), "/hqdefault.jpg"))
}

/// The page address of a track: a non-empty override, else the player's.
pub open spec fn effective_url_spec(override_url: Option<Seq<char>>, player_url: Option<Seq<char>>) -> Option<Seq<char>> {
    if override_url is Some && override_url->0.len() > 0 { override_url } else { player_url }
}

/// The page address of a track: a non-empty override, else the player's.
pub fn effective_url(override_url: Option<String>, player_url: Option<String>) -> (r: Option<String>)
    ensures
        opt_view(r) == effective_url_spec(opt_view(override_url), opt_view(player_url)),
{
    match override_url {
        Some(u) => {
            if char_len(u.as_str()) > 0 {
                return Some(u);
            }
        },
        None => {},
    }
    player_url
}

/// The art source of a track under the options: the player's art URL and
/// the thumbnail inferred from the page address only where allowed.
pub open spec fn art_source_spec_for(
    options: ArtSourceOptions,
    player_art_url: Option<Seq<char>>,
    page_url: Option<Seq<char>>,
    embedded: Option<Seq<u8>>,
) -> Option<ArtSourceV> {
    let art = if options.allow_mpris_art_url { player_art_url } else { None };
    let inferred = if options.allow_inferred_url {
        match page_url {
            Some(u) => inferred_art_url(u),
            None => None,
        }
    } else {
        None
    };
    select_spec(art, inferred, embedded)
}

/// The art source of a track from the player's art URL, the page address
/// and the first embedded picture.
pub fn art_source_with_options(
    options: ArtSourceOptions,
    player_art_url: Option<&str>,
    page_url: Option<&str>,
    embedded: Option<Vec<u8>>,
) -> (r: Option<ArtSource>)
    ensures
        opt_source(r) == art_source_spec_for(options, opt_str(player_art_url), opt_str(page_url), opt_bytes(embedded)),
{
    let art = if options.allow_mpris_art_url { player_art_url } else { None };
    let inferred = if options.allow_inferred_url {
        match page_url {
            Some(u) => infer_art_url_from_url(u),
            None => None,
        }
    } else {
        None
    };
    select_art_source(art, inferred, embedded)
}

/// The components of a track's cache key: those of the cover cache, then
/// the player's art URL when it is not empty.
pub open spec fn metadata_key_components(f: KeyFields, art_url: Option<Seq<char>>) -> Seq<Seq<char>> {
    key_components(f) + if art_url is Some && art_url->0.len() > 0 {
        seq!["art_url:"@ + art_url->0]
    } else {
        Seq::<Seq<char>>::empty()
    }
}

/// The cache key of a track: the BLAKE3 digest of its components joined by
/// `||` (a fixed key text when it has none).
pub open spec fn metadata_cache_key(f: KeyFields, art_url: Option<Seq<char>>) -> Seq<char> {
    let c = metadata_key_components(f, art_url);
    let parts = if c.len() == 0 { seq!["default_mprisence_key"@] } else { c };
    blake3_hex(utf8(join_seqs(parts, "||"@)))
}

/// The cache key of a track, from its fields and the player's art URL.
pub fn generate_cache_key(f: &KeyFields, art_url: Option<&str>) -> (r: String)
    ensures
        r@ == metadata_cache_key(*f, opt_str(art_url)),
{
    let mut parts = generate_key_parts(f);
    match art_url {
        Some(a) => {
            if char_len(a) > 0 {
                let ghost prev = strs(parts@);
                parts.push(concat_str("art_url:", a));
                assert(strs(parts@) =~= prev.push("art_url:"@ + a@));
            }
        },
        None => {},
    }
    assert(strs(parts@) =~= metadata_key_components(*f, opt_str(art_url)));
    if parts.len() == 0 {
        parts.push("default_mprisence_key".to_owned());
        assert(strs(parts@) =~= seq!["default_mprisence_key"@]);
    }
    let joined = join_strings(parts.as_slice(), "||");
    assert(parts@.map_values(|p: String| p@) =~= strs(parts@));
    let bytes = utf8_bytes(joined.as_str());
    blake3_hex_of(bytes.as_slice())
}

/// The artists of a track: the player's list, else the file tag's single
/// artist.
pub fn artists_from(player: Option<Vec<String>>, tag: Option<String>) -> (r: Option<Vec<String>>)
    ensures
        match player {
            Some(v) => r == Some(v),
            None => match tag {
                Some(t) => r is Some && r->0@.len() == 1 && r->0@[0]@ == t@,
                None => r is None,
            },
        },
{
    match player {
        Some(v) => Some(v),
        None => match tag {
            Some(t) => Some(vec![t]),
            None => None,
        },
    }
}

/// Art-source priority: an `http(s)` art URL that reads as a source is
/// used whatever else is at hand; otherwise a URL inferred from the page
/// address beats any other art URL and the embedded picture.
pub proof fn law_art_source_priority(art_url: Option<Seq<char>>, inferred: Option<Seq<char>>, embedded: Option<Seq<u8>>)
    ensures
        art_url is Some && http_prefixed(art_url->0) && art_source_spec(art_url->0) is Some
            ==> select_spec(art_url, inferred, embedded) == art_source_spec(art_url->0),
        !(art_url is Some && http_prefixed(art_url->0)) && inferred is Some
            ==> select_spec(art_url, inferred, embedded) == Some(ArtSourceV::Url(inferred->0)),
        art_url is None && inferred is None
            ==> select_spec(art_url, inferred, embedded) == match embedded { Some(b) => Some(ArtSourceV::Bytes(b)), None => None },
{
}

/// A thumbnail is only inferred for a video id of one to 32 characters,
/// each a letter, a digit, `_` or `-`.
pub proof fn law_inferred_id_shape(c: Seq<char>)
    ensures
        id_prefix(c).len() <= c.len(),
        forall|i: int| 0 <= i < id_prefix(c).len() ==> id_char(#[trigger] id_prefix(c)[i]),
    decreases c.len(),
{
    if c.len() > 0 && id_char(c[0]) {
        law_inferred_id_shape(c.drop_first());
        assert forall|i: int| 0 <= i < id_prefix(c).len() implies id_char(#[trigger] id_prefix(c)[i]) by {
            if i > 0 {
                assert(id_prefix(c)[i] == id_prefix(c.drop_first())[i - 1]);
            }
        }
    }
}

} // verus!
