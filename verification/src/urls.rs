//! The parts of a URL the rest of the library reads, as plain values.
use vstd::prelude::*;
use url::Host;

verus! {

/// The host of a URL as parsed: a domain name or an address.
#[derive(Debug, Clone)]
pub enum HostAddr {
    Domain(String),
    Ipv4([u8; 4]),
    Ipv6([u16; 8]),
}

pub enum HostAddrV {
    Domain(Seq<char>),
    Ipv4(Seq<u8>),
    Ipv6(Seq<u16>),
}

impl View for HostAddr {
    type V = HostAddrV;

    open spec fn view(&self) -> HostAddrV {
        match self {
            HostAddr::Domain(d) => HostAddrV::Domain(d@),
            HostAddr::Ipv4(o) => HostAddrV::Ipv4(o@),
            HostAddr::Ipv6(g) => HostAddrV::Ipv6(g@),
        }
    }
}

/// Scheme, host, path, query and decoded query pairs of an absolute URL.
#[derive(Debug, Clone)]
pub struct UrlParts {
    pub scheme: String,
    pub host: Option<String>,
    pub host_addr: Option<HostAddr>,
    pub path: String,
    pub query: Option<String>,
    pub query_pairs: Vec<(String, String)>,
}

pub struct UrlPartsV {
    pub scheme: Seq<char>,
    pub host: Option<Seq<char>>,
    pub host_addr: Option<HostAddrV>,
    pub path: Seq<char>,
    pub query: Option<Seq<char>>,
    pub query_pairs: Seq<(Seq<char>, Seq<char>)>,
}

impl View for UrlParts {
    type V = UrlPartsV;

    open spec fn view(&self) -> UrlPartsV {
        UrlPartsV {
            scheme: self.scheme@,
            host: match self.host { Some(h) => Some(h@), None => None },
            host_addr: match self.host_addr { Some(h) => Some(h@), None => None },
            path: self.path@,
            query: match self.query { Some(q) => Some(q@), None => None },
            query_pairs: self.query_pairs@.map_values(|p: (String, String)| (p.0@, p.1@)),
        }
    }
}

/// Name of what `url::Url::parse` makes of a text, read through `scheme`,
/// `host_str`, `host`, `path`, `query` and `query_pairs`; `None` where it is
/// not an absolute URL.
pub uninterp spec fn url_parts(s: Seq<char>) -> Option<UrlPartsV>;

/// Parse an absolute URL into its parts.
///
/// Wraps `url::Url::parse` and reads the result's `scheme()`,
/// `host_str()`, `host()`, `path()`, `query()` and `query_pairs()`; the
/// outcome is named by `url_parts`.
#[verifier::external_body]
pub(crate) fn parse_url(s: &str) -> (r: Option<UrlParts>)
    ensures
        match r {
            Some(p) => url_parts(s@) == Some(p@),
            None => url_parts(s@) is None,
        },
{
    let u = url::Url::parse(s).ok()?;
    let host_addr = u.host().map(|h| match h {
        Host::Domain(d) => HostAddr::Domain(d.to_owned()),
        Host::Ipv4(ip) => HostAddr::Ipv4(ip.octets()),
        Host::Ipv6(ip) => HostAddr::Ipv6(ip.segments()),
    });
    let query_pairs = u.query_pairs().map(|(k, v)| (k.into_owned(), v.into_owned())).collect();
    let host = u.host_str().map(str::to_owned);
    Some(UrlParts { scheme: u.scheme().into(), host, host_addr, path: u.path().into(), query: u.query().map(str::to_owned), query_pairs })
}

/// The host of an absolute URL that has one, else the text itself.
pub open spec fn host_for_match(url: Seq<char>) -> Seq<char> {
    match url_parts(url) {
        Some(p) => match p.host {
            Some(h) => h,
            None => url,
        },
        None => url,
    }
}

/// An absolute `http` or `https` URL.
pub open spec fn is_http(url: Seq<char>) -> bool {
    match url_parts(url) {
        Some(p) => p.scheme == "http"@ || p.scheme == "https"@,
        None => false,
    }
}

pub fn url_host_for_match(url: &str) -> (r: String)
    ensures
        r@ == host_for_match(url@),
{
    match parse_url(url) {
        Some(p) => match p.host {
            Some(h) => h,
            None => url.to_owned(),
        },
        None => url.to_owned(),
    }
}

pub fn is_http_url(url: &str) -> (r: bool)
    ensures
        r == is_http(url@),
{
    match parse_url(url) {
        Some(p) => crate::text::str_eq(p.scheme.as_str(), "http") || crate::text::str_eq(p.scheme.as_str(), "https"),
        None => false,
    }
}

} // verus!
