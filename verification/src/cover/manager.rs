//! Decisions of the cover-art lookup: which providers are set up, whether a
//! cached or direct URL may be used, where local art is searched, and which
//! provider is asked next. Requests, file access and provider uploads are
//! made by the caller between these steps.
use vstd::prelude::*;
use crate::cover::art::{percent_decoded, url_decode, ArtSource, ArtSourceV};
use crate::text::{lowercase, to_lowercase, ascii_lower, chars_of, has_suffix, str_eq, str_starts_with, to_ascii_lower, string_from};
use crate::urls::{parse_url, url_parts, HostAddr, HostAddrV};

verus! {

broadcast use vstd::string::group_string_axioms;

/// A cover-art provider.
#[derive(Debug, Clone, Copy, PartialEq, Eq, Structural)]
pub enum ProviderKind {
    Musicbrainz,
    Imgbb,
    Catbox,
}

/// Providers set up from the configured names, in order: unknown names are
/// skipped, and ImgBB only with an API key.
pub open spec fn provider_list(names: Seq<Seq<char>>, imgbb_has_key: bool) -> Seq<ProviderKind>
    decreases names.len(),
{
    if names.len() == 0 {
        Seq::<ProviderKind>::empty()
    } else {
        let prev = provider_list(names.drop_last(), imgbb_has_key);
        let n = names.last();
        if n == "musicbrainz"@ {
            prev.push(ProviderKind::Musicbrainz)
        } else if n == "imgbb"@ {
            if imgbb_has_key { prev.push(ProviderKind::Imgbb) } else { prev }
        } else if n == "catbox"@ {
            prev.push(ProviderKind::Catbox)
        } else {
            prev
        }
    }
}

pub fn configured_providers(names: &Vec<String>, imgbb_has_key: bool) -> (r: Vec<ProviderKind>)
    ensures
        r@ == provider_list(names@.map_values(|s: String| s@), imgbb_has_key),
{
    let ghost ns = names@.map_values(|s: String| s@);
    let mut out: Vec<ProviderKind> = Vec::new();
    let mut i: usize = 0;
    while i < names.len()
        invariant
            i <= names@.len(),
            ns == names@.map_values(|s: String| s@),
            out@ == provider_list(ns.take(i as int), imgbb_has_key),
        decreases names@.len() - i,
    {
        assert(ns.take(i + 1).drop_last() =~= ns.take(i as int));
        assert(ns.take(i + 1).last() == names@[i as int]@);
        let n = names[i].as_str();
        if str_eq(n, "musicbrainz") {
            out.push(ProviderKind::Musicbrainz);
        } else if str_eq(n, "imgbb") {
            if imgbb_has_key {
                out.push(ProviderKind::Imgbb);
            }
        } else if str_eq(n, "catbox") {
            out.push(ProviderKind::Catbox);
        }
        i += 1;
    }
    assert(ns.take(names@.len() as int) =~= ns);
    out
}

/// Source kinds a provider takes: MusicBrainz any (it searches by
/// metadata), the uploaders only image data.
pub open spec fn supports_source(kind: ProviderKind, src: ArtSourceV) -> bool {
    match kind {
        ProviderKind::Musicbrainz => true,
        _ => !(src is Url),
    }
}

pub fn supports_source_type(kind: ProviderKind, src: &ArtSource) -> (r: bool)
    ensures
        r == supports_source(kind, src@),
{
    match kind {
        ProviderKind::Musicbrainz => true,
        _ => match src {
            ArtSource::Url(_) => false,
            _ => true,
        },
    }
}

/// No provider looks up art from metadata alone.
pub fn supports_metadata_only(kind: ProviderKind) -> (r: bool)
    ensures
        !r,
{
    false
}

/// The next provider, from `start` on, that takes the source.
pub fn next_provider(kinds: &Vec<ProviderKind>, start: usize, src: &ArtSource) -> (r: Option<usize>)
    ensures
        match r {
            Some(i) => start <= i < kinds@.len() && supports_source(kinds@[i as int], src@)
                && forall|j: int| start <= j < i ==> !supports_source(#[trigger] kinds@[j], src@),
            None => forall|j: int| start <= j < kinds@.len() ==> !supports_source(#[trigger] kinds@[j], src@),
        },
{
    let mut i = start;
    while i < kinds.len()
        invariant
            start <= i,
            forall|j: int| start <= j < i ==> !supports_source(#[trigger] kinds@[j], src@),
        decreases kinds@.len() - i,
    {
        if supports_source_type(kinds[i], src) {
            return Some(i);
        }
        i += 1;
    }
    None
}

/// Whether a domain names the local machine.
pub open spec fn is_localhost(d: Seq<char>) -> bool {
    let l = d.map_values(|c: char| ascii_lower(c));
    l == "localhost"@ || ".localhost"@.is_suffix_of(l)
}

/// IPv4 loopback, private, link-local or unspecified address.
pub open spec fn ipv4_local(o: Seq<u8>) -> bool {
    ||| o[0] == 127
    ||| o[0] == 10
    ||| (o[0] == 172 && 16 <= o[1] && o[1] <= 31)
    ||| (o[0] == 192 && o[1] == 168)
    ||| (o[0] == 169 && o[1] == 254)
    ||| (o[0] == 0 && o[1] == 0 && o[2] == 0 && o[3] == 0)
}

/// IPv6 loopback, unique-local, link-local or unspecified address.
pub open spec fn ipv6_local(g: Seq<u16>) -> bool {
    let zero_prefix = g[0] == 0 && g[1] == 0 && g[2] == 0 && g[3] == 0 && g[4] == 0 && g[5] == 0 && g[6] == 0;
    ||| (zero_prefix && g[7] == 1)
    ||| (zero_prefix && g[7] == 0)
    ||| (g[0] & 0xfe00u16) == 0xfc00u16
    ||| (g[0] & 0xffc0u16) == 0xfe80u16
}

/// A URL pointing at this machine or a private network, which Discord
/// could not load.
pub open spec fn local_or_private(url: Seq<char>) -> bool {
    match url_parts(url) {
        Some(p) => match p.host_addr {
            Some(HostAddrV::Domain(d)) => is_localhost(d),
            Some(HostAddrV::Ipv4(o)) => o.len() == 4 && ipv4_local(o),
            Some(HostAddrV::Ipv6(g)) => g.len() == 8 && ipv6_local(g),
            None => false,
        },
        None => false,
    }
}

fn domain_is_localhost(d: &str) -> (r: bool)
    ensures
        r == is_localhost(d@),
{
    let v = chars_of(d);
    let mut low: Vec<char> = Vec::new();
    let mut i: usize = 0;
    while i < v.len()
        invariant
            i <= v@.len(),
            v@ == d@,
            low@ == d@.take(i as int).map_values(|c: char| ascii_lower(c)),
        decreases v@.len() - i,
    {
        low.push(to_ascii_lower(v[i]));
        i += 1;
        assert(low@ =~= d@.take(i as int).map_values(|c: char| ascii_lower(c)));
    }
    assert(d@.take(d@.len() as int) =~= d@);
    let l = string_from(low.as_slice());
    let dot = chars_of(".localhost");
    str_eq(l.as_str(), "localhost") || has_suffix(low.as_slice(), dot.as_slice())
}

/// Whether a URL points at this machine or a private network.
pub fn is_local_or_private_url(url: &str) -> (r: bool)
    ensures
        r == local_or_private(url@),
{
    match parse_url(url) {
        Some(p) => match &p.host_addr {
            Some(HostAddr::Domain(d)) => domain_is_localhost(d.as_str()),
            Some(HostAddr::Ipv4(o)) => {
                o[0] == 127 || o[0] == 10 || (o[0] == 172 && 16 <= o[1] && o[1] <= 31)
                    || (o[0] == 192 && o[1] == 168) || (o[0] == 169 && o[1] == 254)
                    || (o[0] == 0 && o[1] == 0 && o[2] == 0 && o[3] == 0)
            },
            Some(HostAddr::Ipv6(g)) => {
                let zero_prefix = g[0] == 0 && g[1] == 0 && g[2] == 0 && g[3] == 0 && g[4] == 0 && g[5] == 0 && g[6] == 0;
                (zero_prefix && g[7] == 1) || (zero_prefix && g[7] == 0) || (g[0] & 0xfe00u16) == 0xfc00u16
                    || (g[0] & 0xffc0u16) == 0xfe80u16
            },
            None => false,
        },
        None => false,
    }
}

/// What to do with a cached entry.
#[derive(Debug, Clone, Copy, PartialEq, Eq, Structural)]
pub enum CachedDecision {
    /// Serve the cached URL, recording a fresh validation time when it was
    /// just checked.
    Serve { refresh_validated: bool },
    /// The URL failed its check: recover its bytes and drop the entry.
    Discard,
}

/// A cached URL is served unless it was due a check and failed it
/// (`check_passed` is the check's outcome, when one was made).
pub fn cached_decision(needs_validation: bool, check_passed: bool) -> (r: CachedDecision)
    ensures
        r == (if !needs_validation {
            CachedDecision::Serve { refresh_validated: false }
        } else if check_passed {
            CachedDecision::Serve { refresh_validated: true }
        } else {
            CachedDecision::Discard
        }),
{
    if !needs_validation {
        CachedDecision::Serve { refresh_validated: false }
    } else if check_passed {
        CachedDecision::Serve { refresh_validated: true }
    } else {
        CachedDecision::Discard
    }
}

/// Only `http(s)` URLs are checked with a request; others pass as they are.
pub fn needs_http_check(url: &str) -> (r: bool)
    ensures
        r == ("http://"@.is_prefix_of(url@) || "https://"@.is_prefix_of(url@)),
{
    str_starts_with(url, "http://") || str_starts_with(url, "https://")
}

/// A status in the success range.
pub open spec fn success(status: u16) -> bool {
    200 <= status && status <= 299
}

/// A URL checks out when a `HEAD` request succeeds, or else a `GET` probe
/// does (`None`: the request failed).
pub fn check_outcome(head_status: Option<u16>, get_status: Option<u16>) -> (r: bool)
    ensures
        r == ((head_status is Some && success(head_status.unwrap()))
            || (get_status is Some && success(get_status.unwrap()))),
{
    match head_status {
        Some(s) => if 200 <= s && s <= 299 { return true; },
        None => {},
    }
    match get_status {
        Some(s) => 200 <= s && s <= 299,
        None => false,
    }
}

/// What the lookup does with the source from the player's metadata.
#[derive(Debug, Clone, PartialEq, Eq)]
pub enum DirectStep {
    /// Not a URL: hand it to the providers.
    NotUrl,
    /// A local or private URL: fetch its bytes for the providers instead.
    FetchPrivate(String),
    /// A public URL: use it as it is if it checks out.
    CheckDirect(String),
}

pub fn direct_step(source: &Option<ArtSource>) -> (r: DirectStep)
    ensures
        match *source {
            Some(ArtSource::Url(u)) => if local_or_private(u@) {
                r matches DirectStep::FetchPrivate(x) && x@ == u@
            } else {
                r matches DirectStep::CheckDirect(x) && x@ == u@
            },
            _ => r == DirectStep::NotUrl,
        },
{
    match source {
        Some(ArtSource::Url(u)) => {
            if is_local_or_private_url(u.as_str()) {
                DirectStep::FetchPrivate(u.clone())
            } else {
                DirectStep::CheckDirect(u.clone())
            }
        },
        _ => DirectStep::NotUrl,
    }
}

/// What the providers are given: bytes recovered from a discarded cache
/// entry, else the metadata's source.
pub fn provider_source(recovered: Option<Vec<u8>>, source: &Option<ArtSource>) -> (r: Option<ArtSource>)
    ensures
        match recovered {
            Some(b) => r matches Some(ArtSource::Bytes(x)) && x@ == b@,
            None => match *source {
                Some(s) => r is Some && r.unwrap()@ == s@,
                None => r is None,
            },
        },
{
    match recovered {
        Some(b) => Some(ArtSource::Bytes(b)),
        None => match source {
            Some(s) => Some(s.clone_source()),
            None => None,
        },
    }
}

impl ArtSource {
    pub fn clone_source(&self) -> (r: ArtSource)
        ensures
            r@ == self@,
    {
        match self {
            ArtSource::Url(u) => ArtSource::Url(u.clone()),
            ArtSource::File(p) => ArtSource::File(p.clone()),
            ArtSource::Base64(d) => ArtSource::Base64(d.clone()),
            ArtSource::Bytes(b) => {
                let mut v: Vec<u8> = Vec::new();
                let mut i: usize = 0;
                while i < b.len()
                    invariant
                        i <= b@.len(),
                        v@ == b@.take(i as int),
                    decreases b@.len() - i,
                {
                    v.push(b[i]);
                    i += 1;
                    assert(v@ =~= b@.take(i as int));
                }
                assert(b@.take(b@.len() as int) =~= b@);
                ArtSource::Bytes(v)
            },
        }
    }
}

/// The local path of a track played from a `file://` URL.
pub open spec fn track_file_path(url: Seq<char>) -> Option<Seq<char>> {
    if "file://"@.is_prefix_of(url) { percent_decoded(url.skip(7)) } else { None }
}

pub fn local_track_path(url: &str) -> (r: Option<String>)
    ensures
        match r {
            Some(p) => track_file_path(url@) == Some(p@),
            None => track_file_path(url@) is None,
        },
{
    proof { reveal_strlit("file://"); }
    if !str_starts_with(url, "file://") {
        return None;
    }
    let v = chars_of(url);
    let mut rest: Vec<char> = Vec::new();
    let mut i: usize = 7;
    while i < v.len()
        invariant
            7 <= i <= v@.len(),
            v@ == url@,
            rest@ == url@.subrange(7, i as int),
        decreases v@.len() - i,
    {
        rest.push(v[i]);
        i += 1;
        assert(rest@ =~= url@.subrange(7, i as int));
    }
    assert(rest@ =~= url@.skip(7));
    let s = string_from(rest.as_slice());
    url_decode(s.as_str())
}

/// Image file extensions searched for next to a track.
pub open spec fn image_extension(e: Seq<char>) -> bool {
    e == "jpg"@ || e == "jpeg"@ || e == "png"@ || e == "bmp"@ || e == "gif"@ || e == "tiff"@
        || e == "tif"@ || e == "webp"@ || e == "heic"@
}

/// A file next to a track is its cover when its extension is an image's
/// and its name, without the extension, is one of the configured cover
/// names, both compared in lower case.
pub open spec fn cover_file_spec(stem: Seq<char>, extension: Seq<char>, names: Seq<Seq<char>>) -> bool {
    image_extension(lowercase(extension)) && exists|i: int| 0 <= i < names.len() && lowercase(names[i]) == lowercase(stem)
}

/// Whether a file (name without extension, and extension) is a cover for
/// the configured names.
pub fn is_local_cover_file(stem: &str, extension: &str, file_names: &Vec<String>) -> (r: bool)
    ensures
        r == cover_file_spec(stem@, extension@, file_names@.map_values(|s: String| s@)),
{
    let ghost names = file_names@.map_values(|s: String| s@);
    let ext = to_lowercase(extension);
    let e = ext.as_str();
    let is_image = str_eq(e, "jpg") || str_eq(e, "jpeg") || str_eq(e, "png") || str_eq(e, "bmp") || str_eq(e, "gif")
        || str_eq(e, "tiff") || str_eq(e, "tif") || str_eq(e, "webp") || str_eq(e, "heic");
    if !is_image {
        return false;
    }
    let lower_stem = to_lowercase(stem);
    let mut i: usize = 0;
    while i < file_names.len()
        invariant
            i <= file_names@.len(),
            names == file_names@.map_values(|s: String| s@),
            lower_stem@ == lowercase(stem@),
            image_extension(lowercase(extension@)),
            forall|j: int| 0 <= j < i ==> lowercase(#[trigger] names[j]) != lowercase(stem@),
        decreases file_names@.len() - i,
    {
        let n = to_lowercase(file_names[i].as_str());
        if str_eq(n.as_str(), lower_stem.as_str()) {
            assert(lowercase(names[i as int]) == lowercase(stem@));
            return true;
        }
        i += 1;
    }
    false
}

} // verus!
