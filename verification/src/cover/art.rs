//! Where cover art comes from (a URL, a file, inline base64 or bytes), and
//! the content-addressed keys the cache files it under.
use vstd::prelude::*;
use base64::Engine;
use crate::text::{chars_of, contains_seq, has_prefix, occurs_at, str_contains, str_starts_with, string_from};

verus! {

broadcast use vstd::string::group_string_axioms;

/// UTF-8 encoding of one character.
pub open spec fn utf8_char(c: char) -> Seq<u8> {
    let v = c as u32;
    if v < 0x80 {
        seq![v as u8]
    } else if v < 0x800 {
        seq![(0xC0 + v / 64) as u8, (0x80 + v % 64) as u8]
    } else if v < 0x10000 {
        seq![(0xE0 + v / 4096) as u8, (0x80 + (v / 64) % 64) as u8, (0x80 + v % 64) as u8]
    } else {
        seq![(0xF0 + v / 262144) as u8, (0x80 + (v / 4096) % 64) as u8, (0x80 + (v / 64) % 64) as u8, (0x80 + v % 64) as u8]
    }
}

/// UTF-8 encoding of a text (`str::as_bytes`).
pub open spec fn utf8(s: Seq<char>) -> Seq<u8>
    decreases s.len(),
{
    if s.len() == 0 { Seq::<u8>::empty() } else { utf8(s.drop_last()) + utf8_char(s.last()) }
}

/// The UTF-8 bytes of a string.
pub fn utf8_bytes(s: &str) -> (r: Vec<u8>)
    ensures
        r@ == utf8(s@),
{
    let v = chars_of(s);
    let mut out: Vec<u8> = Vec::new();
    let mut i: usize = 0;
    while i < v.len()
        invariant
            i <= v@.len(),
            v@ == s@,
            out@ == utf8(s@.take(i as int)),
        decreases v@.len() - i,
    {
        assert(s@.take(i + 1).drop_last() =~= s@.take(i as int));
        let c = v[i] as u32;
        let ghost before = out@;
        if c < 0x80 {
            out.push(c as u8);
        } else if c < 0x800 {
            out.push((0xC0 + c / 64) as u8);
            out.push((0x80 + c % 64) as u8);
        } else if c < 0x10000 {
            out.push((0xE0 + c / 4096) as u8);
            out.push((0x80 + (c / 64) % 64) as u8);
            out.push((0x80 + c % 64) as u8);
        } else {
            out.push((0xF0 + c / 262144) as u8);
            out.push((0x80 + (c / 4096) % 64) as u8);
            out.push((0x80 + (c / 64) % 64) as u8);
            out.push((0x80 + c % 64) as u8);
        }
        assert(out@ =~= before + utf8_char(s@[i as int]));
        i += 1;
    }
    assert(s@.take(s@.len() as int) =~= s@);
    out
}

/// Name of the lower-case hexadecimal BLAKE3 digest of the bytes.
pub uninterp spec fn blake3_hex(data: Seq<u8>) -> Seq<char>;

/// BLAKE3 digest of `data` in lower-case hexadecimal.
///
/// Wraps `blake3::hash` and `Hash::to_hex`; the digest is named by
/// `blake3_hex`.
#[verifier::external_body]
pub(crate) fn blake3_hex_of(data: &[u8]) -> (r: String)
    ensures
        r@ == blake3_hex(data@),
{
    blake3::hash(data).to_hex().to_string()
}

/// Name of what standard base64 decoding makes of the text (`None` when
/// it is not valid base64).
pub uninterp spec fn base64_decoded(text: Seq<char>) -> Option<Seq<u8>>;

/// Decode standard (padded) base64.
///
/// Wraps `base64::engine::general_purpose::STANDARD.decode`; the outcome is
/// named by `base64_decoded`.
#[verifier::external_body]
pub(crate) fn decode_base64(text: &str) -> (r: Option<Vec<u8>>)
    ensures
        match r {
            Some(b) => base64_decoded(text@) == Some(b@),
            None => base64_decoded(text@) is None,
        },
{
    base64::engine::general_purpose::STANDARD.decode(text.as_bytes()).ok()
}

/// Name of what percent-decoding makes of a text (`None` when the decoded
/// bytes are not UTF-8).
pub uninterp spec fn percent_decoded(text: Seq<char>) -> Option<Seq<char>>;

/// Percent-decode a text; `+` stays as it is.
///
/// Wraps `urlencoding::decode`; the outcome is named by `percent_decoded`.
#[verifier::external_body]
pub(crate) fn url_decode(text: &str) -> (r: Option<String>)
    ensures
        match r {
            Some(s) => percent_decoded(text@) == Some(s@),
            None => percent_decoded(text@) is None,
        },
{
    match urlencoding::decode(text) {
        Ok(s) => Some(s.into_owned()),
        Err(_) => None,
    }
}

/// Bytes `urlencoding` keeps as they are: ASCII letters, digits, `-._~`.
pub open spec fn url_safe_byte(b: u8) -> bool {
    (48 <= b <= 57) || (65 <= b <= 90) || (97 <= b <= 122) || b == 45 || b == 46 || b == 95 || b == 126
}

/// Upper-case hexadecimal digit.
pub open spec fn hex_upper(d: u8) -> char {
    if d < 10 { ((48 + d) as u8) as char } else { ((55 + d) as u8) as char }
}

/// Percent-encoding of bytes: safe bytes as themselves, others as `%XX`.
pub open spec fn percent_encoded(bytes: Seq<u8>) -> Seq<char>
    decreases bytes.len(),
{
    if bytes.len() == 0 {
        Seq::<char>::empty()
    } else {
        let b = bytes.last();
        percent_encoded(bytes.drop_last()) + if url_safe_byte(b) {
            seq![b as char]
        } else {
            seq!['%', hex_upper(b / 16), hex_upper(b % 16)]
        }
    }
}

/// Percent-encode the UTF-8 bytes of a text.
///
/// Wraps `urlencoding::encode`, which keeps ASCII letters, digits and
/// `-._~` and writes every other byte as `%` and two upper-case hex digits.
#[verifier::external_body]
pub(crate) fn url_encode(text: &str) -> (r: String)
    ensures
        r@ == percent_encoded(utf8(text@)),
{
    urlencoding::encode(text).into_owned()
}

/// Where cover art comes from.
#[derive(Debug, Clone)]
pub enum ArtSource {
    Url(String),
    File(String),
    Base64(String),
    Bytes(Vec<u8>),
}

pub enum ArtSourceV {
    Url(Seq<char>),
    File(Seq<char>),
    Base64(Seq<char>),
    Bytes(Seq<u8>),
}

impl View for ArtSource {
    type V = ArtSourceV;

    open spec fn view(&self) -> ArtSourceV {
        match self {
            ArtSource::Url(s) => ArtSourceV::Url(s@),
            ArtSource::File(s) => ArtSourceV::File(s@),
            ArtSource::Base64(s) => ArtSourceV::Base64(s@),
            ArtSource::Bytes(b) => ArtSourceV::Bytes(b@),
        }
    }
}

/// First position at or after `from` where `p` occurs in `s`.
pub open spec fn first_occurrence_from(s: Seq<char>, p: Seq<char>, from: int) -> Option<int>
    decreases s.len() + 1 - from,
{
    if from < 0 || from + p.len() > s.len() {
        None
    } else if occurs_at(s, p, from) {
        Some(from)
    } else {
        first_occurrence_from(s, p, from + 1)
    }
}

/// The second piece of `s` split at `sep` (`str::split(sep).nth(1)`): what
/// lies after the first occurrence up to the next one.
pub open spec fn second_piece(s: Seq<char>, sep: Seq<char>) -> Option<Seq<char>> {
    match first_occurrence_from(s, sep, 0) {
        Some(i) => match first_occurrence_from(s, sep, i + sep.len()) {
            Some(j) => Some(s.subrange(i + sep.len(), j)),
            None => Some(s.skip(i + sep.len())),
        },
        None => None,
    }
}

fn find_from(s: &Vec<char>, p: &Vec<char>, from: usize) -> (r: Option<usize>)
    requires
        p@.len() > 0,
    ensures
        match r {
            Some(i) => first_occurrence_from(s@, p@, from as int) == Some(i as int) && from <= i
                && i + p@.len() <= s@.len(),
            None => first_occurrence_from(s@, p@, from as int) is None,
        },
    decreases s@.len() + 1 - from,
{
    if from > s.len() || p.len() > s.len() - from {
        return None;
    }
    let mut k: usize = 0;
    let n = s.len();
    assert(n == s@.len());
    while k < p.len()
        invariant
            k <= p@.len(),
            n == s@.len(),
            p@.len() > 0,
            from + p@.len() <= s@.len(),
            forall|j: int| 0 <= j < k ==> s@[from + j] == p@[j],
        decreases p@.len() - k,
    {
        if s[from + k] != p[k] {
            assert(!occurs_at(s@, p@, from as int));
            return find_from(s, p, from + 1);
        }
        k += 1;
    }
    assert(s@.subrange(from as int, from + p@.len()) =~= p@);
    Some(from)
}

fn slice_chars(s: &Vec<char>, a: usize, b: usize) -> (r: String)
    requires
        a <= b <= s@.len(),
    ensures
        r@ == s@.subrange(a as int, b as int),
{
    let mut out: Vec<char> = Vec::new();
    let mut i: usize = a;
    while i < b
        invariant
            a <= i <= b,
            b <= s@.len(),
            out@ == s@.subrange(a as int, i as int),
        decreases b - i,
    {
        out.push(s[i]);
        i += 1;
        assert(out@ =~= s@.subrange(a as int, i as int));
    }
    string_from(out.as_slice())
}

/// How an MPRIS art URL is read: an inline `data:image/...base64,` payload,
/// an `http(s)` URL, a percent-encoded `file://` path, or else a plain path.
pub open spec fn art_source_spec(url: Seq<char>) -> Option<ArtSourceV> {
    if "data:image/"@.is_prefix_of(url) && contains_seq(url, "base64,"@) {
        match second_piece(url, "base64,"@) {
            Some(d) => Some(ArtSourceV::Base64(d)),
            None => None,
        }
    } else if "http://"@.is_prefix_of(url) || "https://"@.is_prefix_of(url) {
        Some(ArtSourceV::Url(url))
    } else if "file://"@.is_prefix_of(url) {
        match percent_decoded(url.skip(7)) {
            Some(p) => Some(ArtSourceV::File(p)),
            None => None,
        }
    } else {
        Some(ArtSourceV::File(url))
    }
}

pub const URL_KEY_PREFIX: &'static str = "mprisence-cover-url-v1\0";
pub const CONTENT_KEY_PREFIX: &'static str = "mprisence-cover-content-v1\0";

/// Cache key of image content, whatever form it came in.
pub open spec fn content_key(bytes: Seq<u8>) -> Seq<char> {
    blake3_hex(utf8(CONTENT_KEY_PREFIX@) + bytes)
}

/// Cache key of an image known only by its URL.
pub open spec fn url_key(url: Seq<char>) -> Seq<char> {
    blake3_hex(utf8(URL_KEY_PREFIX@) + utf8(url))
}

/// Cache key of a source: of the content for inline data and files (given
/// the file's bytes), of the URL otherwise; none for undecodable base64 or
/// a file whose bytes are not at hand.
pub open spec fn source_key(src: ArtSourceV, file_bytes: Option<Seq<u8>>) -> Option<Seq<char>> {
    match src {
        ArtSourceV::Url(u) => Some(url_key(u)),
        ArtSourceV::Bytes(b) => Some(content_key(b)),
        ArtSourceV::Base64(d) => match base64_decoded(d) {
            Some(b) => Some(content_key(b)),
            None => None,
        },
        ArtSourceV::File(_) => match file_bytes {
            Some(b) => Some(content_key(b)),
            None => None,
        },
    }
}

/// A cover-art failure.
#[derive(Debug, Clone, PartialEq, Eq)]
pub enum CoverArtError {
    InvalidBase64,
    Provider(String),
    Other(String),
}

impl ArtSource {
    /// Read an MPRIS art URL.
    pub fn from_art_url(url: &str) -> (r: Option<ArtSource>)
        ensures
            match r {
                Some(s) => art_source_spec(url@) == Some(s@),
                None => art_source_spec(url@) is None,
            },
    {
        proof {
            reveal_strlit("data:image/");
            reveal_strlit("base64,");
            reveal_strlit("http://");
            reveal_strlit("https://");
            reveal_strlit("file://");
        }
        if str_starts_with(url, "data:image/") && str_contains(url, "base64,") {
            let s = chars_of(url);
            let sep = chars_of("base64,");
            return match find_from(&s, &sep, 0) {
                Some(i) => {
                    assert(s.len() == s@.len());
                    let start = i + sep.len();
                    match find_from(&s, &sep, start) {
                        Some(j) => Some(ArtSource::Base64(slice_chars(&s, start, j))),
                        None => {
                            let d = slice_chars(&s, start, s.len());
                            assert(s@.subrange(start as int, s@.len() as int) =~= s@.skip(start as int));
                            Some(ArtSource::Base64(d))
                        },
                    }
                },
                None => None,
            };
        }
        if str_starts_with(url, "http://") || str_starts_with(url, "https://") {
            return Some(ArtSource::Url(url.to_owned()));
        }
        if str_starts_with(url, "file://") {
            let s = chars_of(url);
            let rest = slice_chars(&s, 7, s.len());
            assert(s@.subrange(7, s@.len() as int) =~= url@.skip(7));
            return match url_decode(rest.as_str()) {
                Some(p) => Some(ArtSource::File(p)),
                None => None,
            };
        }
        Some(ArtSource::File(url.to_owned()))
    }

    /// Cache key of the source: of its content for inline data (the caller
    /// supplies a file's content as `file_bytes`), of the URL otherwise.
    pub fn cache_key(&self, file_bytes: Option<&[u8]>) -> (r: Result<String, CoverArtError>)
        ensures
            match source_key(self@, match file_bytes { Some(b) => Some(b@), None => None }) {
                Some(k) => r is Ok && r.unwrap()@ == k,
                None => r is Err && (self@ is Base64 ==> r == Err::<String, CoverArtError>(CoverArtError::InvalidBase64)),
            },
    {
        match self {
            ArtSource::Url(u) => {
                let mut data = utf8_bytes(URL_KEY_PREFIX);
                let ub = utf8_bytes(u.as_str());
                append_bytes(&mut data, &ub);
                Ok(blake3_hex_of(data.as_slice()))
            },
            ArtSource::Bytes(b) => Ok(content_key_exec(b.as_slice())),
            ArtSource::Base64(d) => match decode_base64(d.as_str()) {
                Some(b) => Ok(content_key_exec(b.as_slice())),
                None => Err(CoverArtError::InvalidBase64),
            },
            ArtSource::File(_) => match file_bytes {
                Some(b) => Ok(content_key_exec(b)),
                None => Err(CoverArtError::Other("file content unavailable".to_owned())),
            },
        }
    }

    /// Inline bytes of the source, where it carries them.
    pub fn inline_bytes(&self) -> (r: Option<Vec<u8>>)
        ensures
            match self@ {
                ArtSourceV::Bytes(b) => r is Some && r.unwrap()@ == b,
                ArtSourceV::Base64(d) => match base64_decoded(d) {
                    Some(b) => r is Some && r.unwrap()@ == b,
                    None => r is None,
                },
                _ => r is None,
            },
    {
        match self {
            ArtSource::Bytes(b) => {
                let mut out: Vec<u8> = Vec::new();
                append_bytes(&mut out, b);
                Some(out)
            },
            ArtSource::Base64(d) => decode_base64(d.as_str()),
            _ => None,
        }
    }
}

fn append_bytes(out: &mut Vec<u8>, more: &[u8])
    ensures
        final(out)@ == old(out)@ + more@,
{
    let ghost start = out@;
    let mut i: usize = 0;
    while i < more.len()
        invariant
            i <= more@.len(),
            out@ == start + more@.take(i as int),
        decreases more@.len() - i,
    {
        out.push(more[i]);
        i += 1;
        assert(out@ =~= start + more@.take(i as int));
    }
    assert(more@.take(more@.len() as int) =~= more@);
}

/// Cache key of image content.
pub fn content_key_exec(bytes: &[u8]) -> (r: String)
    ensures
        r@ == content_key(bytes@),
{
    let mut data = utf8_bytes(CONTENT_KEY_PREFIX);
    append_bytes(&mut data, bytes);
    blake3_hex_of(data.as_slice())
}

/// The same image content has one cache key whether it comes as bytes, as
/// base64 or as a file.
pub proof fn law_same_content_same_key(b: Seq<u8>, d: Seq<char>, path: Seq<char>, any_bytes: Option<Seq<u8>>)
    requires
        base64_decoded(d) == Some(b),
    ensures
        source_key(ArtSourceV::Bytes(b), any_bytes) == source_key(ArtSourceV::Base64(d), any_bytes),
        source_key(ArtSourceV::Bytes(b), any_bytes) == source_key(ArtSourceV::File(path), Some(b)),
{
}

} // verus!
