//! Requests of the local settings page: which handler answers a request,
//! how a settings patch is checked, how its JSON values become TOML values,
//! and which cover file a preview may read.
use vstd::prelude::*;
use crate::metadata::{first_query_value, first_value};
use crate::text::{concat_str, opt_view, str_eq, str_starts_with};
use crate::urls::{parse_url, url_parts};

verus! {

broadcast use vstd::string::group_string_axioms;

/// The request methods the settings page answers.
#[derive(Debug, Clone, Copy, PartialEq, Eq, Structural)]
pub enum HttpMethod {
    Get,
    Put,
    Post,
    Patch,
    Other,
}

/// The handler of a request.
#[derive(Debug, Clone, Copy, PartialEq, Eq, Structural)]
pub enum Endpoint {
    Index,
    Favicon,
    ConfigText,
    SaveConfig,
    ValidateConfig,
    GetSettings,
    PatchSettings,
    ListPlayers,
    ListWebPlayers,
    Preview,
    CoverArt,
    NotFound,
}

/// Requests for a cover file start with this path.
pub const ART_PATH_PREFIX: &'static str = "/api/art?";

/// The handler for a method and a request path: cover requests first, then
/// the fixed routes, and `NotFound` for anything else.
pub open spec fn route_spec(m: HttpMethod, url: Seq<char>) -> Endpoint {
    if m == HttpMethod::Get && ART_PATH_PREFIX@.is_prefix_of(url) {
        Endpoint::CoverArt
    } else if m == HttpMethod::Get && url == "/"@ {
        Endpoint::Index
    } else if m == HttpMethod::Get && url == "/favicon.ico"@ {
        Endpoint::Favicon
    } else if m == HttpMethod::Get && url == "/api/config"@ {
        Endpoint::ConfigText
    } else if m == HttpMethod::Put && url == "/api/config"@ {
        Endpoint::SaveConfig
    } else if m == HttpMethod::Post && url == "/api/config/validate"@ {
        Endpoint::ValidateConfig
    } else if m == HttpMethod::Get && url == "/api/settings"@ {
        Endpoint::GetSettings
    } else if m == HttpMethod::Patch && url == "/api/settings"@ {
        Endpoint::PatchSettings
    } else if m == HttpMethod::Get && url == "/api/players"@ {
        Endpoint::ListPlayers
    } else if m == HttpMethod::Get && url == "/api/web_players"@ {
        Endpoint::ListWebPlayers
    } else if m == HttpMethod::Post && url == "/api/preview"@ {
        Endpoint::Preview
    } else {
        Endpoint::NotFound
    }
}

/// The handler that answers a request.
pub fn route(method: HttpMethod, url: &str) -> (r: Endpoint)
    ensures
        r == route_spec(method, url@),
{
    let get = method == HttpMethod::Get;
    if get && str_starts_with(url, ART_PATH_PREFIX) {
        Endpoint::CoverArt
    } else if get && str_eq(url, "/") {
        Endpoint::Index
    } else if get && str_eq(url, "/favicon.ico") {
        Endpoint::Favicon
    } else if get && str_eq(url, "/api/config") {
        Endpoint::ConfigText
    } else if method == HttpMethod::Put && str_eq(url, "/api/config") {
        Endpoint::SaveConfig
    } else if method == HttpMethod::Post && str_eq(url, "/api/config/validate") {
        Endpoint::ValidateConfig
    } else if get && str_eq(url, "/api/settings") {
        Endpoint::GetSettings
    } else if method == HttpMethod::Patch && str_eq(url, "/api/settings") {
        Endpoint::PatchSettings
    } else if get && str_eq(url, "/api/players") {
        Endpoint::ListPlayers
    } else if get && str_eq(url, "/api/web_players") {
        Endpoint::ListWebPlayers
    } else if method == HttpMethod::Post && str_eq(url, "/api/preview") {
        Endpoint::Preview
    } else {
        Endpoint::NotFound
    }
}

/// The fixed answers, as status, content type and body: the icon request
/// gets an empty answer and unknown requests a plain `not found`.
pub fn fixed_response(e: Endpoint) -> (r: Option<(u16, &'static str, String)>)
    ensures
        e == Endpoint::Favicon ==> (r matches Some((s, t, b)) && s == 204 && t@ == "image/x-icon"@ && b@.len() == 0),
        e == Endpoint::NotFound ==> (r matches Some((s, t, b)) && s == 404 && t@ == "text/plain"@ && b@ == "not found"@),
        e != Endpoint::Favicon && e != Endpoint::NotFound ==> r is None,
{
    match e {
        Endpoint::Favicon => {
            proof {
                reveal_strlit("");
            }
            Some((204, "image/x-icon", "".to_string()))
        },
        Endpoint::NotFound => Some((404, "text/plain", "not found".to_string())),
        _ => None,
    }
}

/// A JSON value of a settings patch. A number keeps its value when it is a
/// whole number that fits in `i64`, and its text either way.
#[derive(Debug, PartialEq)]
pub enum JsonValue {
    Null,
    Bool(bool),
    Number(Option<i64>, String),
    Str(String),
    Array(Vec<JsonValue>),
    Object,
}

/// A TOML value a patch writes.
#[derive(Debug, PartialEq)]
pub enum TomlValue {
    Bool(bool),
    Int(i64),
    Str(String),
    Array(Vec<TomlValue>),
}

/// Mathematical form of `TomlValue`.
pub enum TomlV {
    Bool(bool),
    Int(i64),
    Str(Seq<char>),
    Array(Seq<TomlV>),
}

pub open spec fn toml_view(t: TomlValue) -> TomlV
    decreases t,
{
    match t {
        TomlValue::Bool(b) => TomlV::Bool(b),
        TomlValue::Int(n) => TomlV::Int(n),
        TomlValue::Str(s) => TomlV::Str(s@),
        TomlValue::Array(v) => TomlV::Array(
            Seq::new(v@.len(), |i: int| if 0 <= i < v@.len() { toml_view(v@[i]) } else { TomlV::Bool(false) }),
        ),
    }
}

/// The TOML value for a JSON value: `null` removes the key (`None`), and
/// arrays are converted item by item, the first failing item deciding the
/// error.
pub open spec fn json_to_toml_spec(j: JsonValue) -> Result<Option<TomlV>, Seq<char>>
    decreases j,
{
    match j {
        JsonValue::Null => Ok(None),
        JsonValue::Bool(b) => Ok(Some(TomlV::Bool(b))),
        JsonValue::Str(s) => Ok(Some(TomlV::Str(s@))),
        JsonValue::Number(n, text) => match n {
            Some(v) => Ok(Some(TomlV::Int(v))),
            None => Err("unsupported number: "@ + text@),
        },
        JsonValue::Array(items) => match json_items_spec(items@) {
            Ok(ts) => Ok(Some(TomlV::Array(ts))),
            Err(e) => Err(e),
        },
        JsonValue::Object => Err("objects not supported; patch one key at a time"@),
    }
}

/// The TOML values of array items; a `null` item is refused.
pub open spec fn json_items_spec(items: Seq<JsonValue>) -> Result<Seq<TomlV>, Seq<char>>
    decreases items,
{
    if items.len() == 0 {
        Ok(Seq::empty())
    } else {
        proof {
            vstd::seq::axiom_seq_subrange_decreases(items, 1, items.len() as int);
        }
        match json_to_toml_spec(items[0]) {
            Err(e) => Err(e),
            Ok(None) => Err("null in array"@),
            Ok(Some(t)) => match json_items_spec(items.subrange(1, items.len() as int)) {
                Ok(ts) => Ok(seq![t] + ts),
                Err(e) => Err(e),
            },
        }
    }
}

/// The outcome of converting a value, read through the view of its result.
pub open spec fn conversion_view(r: Result<Option<TomlValue>, String>) -> Result<Option<TomlV>, Seq<char>> {
    match r {
        Ok(Some(t)) => Ok(Some(toml_view(t))),
        Ok(None) => Ok(None),
        Err(e) => Err(e@),
    }
}

/// Convert a patch value to the TOML value it writes, `None` for a removal.
pub fn json_to_toml(value: &JsonValue) -> (r: Result<Option<TomlValue>, String>)
    ensures
        conversion_view(r) == json_to_toml_spec(*value),
    decreases value,
{
    match value {
        JsonValue::Null => Ok(None),
        JsonValue::Bool(b) => Ok(Some(TomlValue::Bool(*b))),
        JsonValue::Str(s) => Ok(Some(TomlValue::Str(s.clone()))),
        JsonValue::Number(n, text) => match n {
            Some(v) => Ok(Some(TomlValue::Int(*v))),
            None => Err(concat_str("unsupported number: ", text.as_str())),
        },
        JsonValue::Object => Err("objects not supported; patch one key at a time".to_string()),
        JsonValue::Array(items) => {
            let ghost all = items@;
            let mut out: Vec<TomlValue> = Vec::new();
            let mut i: usize = 0;
            assert(all.subrange(0, all.len() as int) =~= all);
            while i < items.len()
                invariant
                    *value == JsonValue::Array(*items),
                    all == items@,
                    i <= all.len(),
                    out@.len() == i,
                    json_items_spec(all) == prepend_items(
                        Seq::new(out@.len(), |k: int| toml_view(out@[k])),
                        json_items_spec(all.subrange(i as int, all.len() as int)),
                    ),
                decreases all.len() - i,
            {
                let ghost rest = all.subrange(i as int, all.len() as int);
                assert(rest[0] == items@[i as int]);
                assert(rest.subrange(1, rest.len() as int) =~= all.subrange(i + 1, all.len() as int));
                proof {
                    vstd::std_specs::vec::axiom_vec_index_decreases(*items, i as int);
                    assert(decreases_to!(*value => value->Array_0));
                }
                let converted = json_to_toml(&items[i]);
                match converted {
                    Err(e) => {
                        return Err(e);
                    },
                    Ok(None) => {
                        return Err("null in array".to_string());
                    },
                    Ok(Some(t)) => {
                        let ghost before = Seq::new(out@.len(), |k: int| toml_view(out@[k]));
                        out.push(t);
                        assert(Seq::new(out@.len(), |k: int| toml_view(out@[k])) =~= before + seq![toml_view(t)]);
                        proof {
                            match json_items_spec(all.subrange(i + 1, all.len() as int)) {
                                Ok(ts) => {
                                    assert(before + (seq![toml_view(t)] + ts) =~= (before + seq![toml_view(t)]) + ts);
                                },
                                Err(_) => {},
                            }
                        }
                    },
                }
                i += 1;
            }
            assert(all.subrange(i as int, all.len() as int) =~= Seq::<JsonValue>::empty());
            let ghost outv = Seq::new(out@.len(), |k: int| toml_view(out@[k]));
            assert(outv + Seq::<TomlV>::empty() =~= outv);
            let arr = TomlValue::Array(out);
            assert(toml_view(arr) is Array);
            assert(toml_view(arr)->Array_0 =~= outv);
            Ok(Some(arr))
        },
    }
}

/// Converted items before the rest's outcome.
pub open spec fn prepend_items(done: Seq<TomlV>, rest: Result<Seq<TomlV>, Seq<char>>) -> Result<Seq<TomlV>, Seq<char>> {
    match rest {
        Ok(ts) => Ok(done + ts),
        Err(e) => Err(e),
    }
}

/// One key to write, or to remove with a `null` value, and its table path.
#[derive(Debug)]
pub struct PatchChange {
    pub path: Vec<String>,
    pub value: JsonValue,
}

/// A settings patch: a primary change, then further changes in order.
#[derive(Debug)]
pub struct PatchRequest {
    pub path: Vec<String>,
    pub value: JsonValue,
    pub also: Vec<PatchChange>,
}

/// The changes to apply in order, and the error to answer once all of them
/// applied (a later change without a path).
#[derive(Debug)]
pub struct PatchPlan {
    pub changes: Vec<PatchChange>,
    pub then_error: Option<String>,
}

/// The index of the first change without a path, or their number.
pub open spec fn first_empty_path(also: Seq<PatchChange>) -> int
    decreases also.len(),
{
    if also.len() == 0 {
        0
    } else if also[0].path@.len() == 0 {
        0
    } else {
        1 + first_empty_path(also.drop_first())
    }
}

proof fn lemma_first_empty_path_bounds(also: Seq<PatchChange>)
    ensures
        0 <= first_empty_path(also) <= also.len(),
        first_empty_path(also) < also.len() ==> also[first_empty_path(also)].path@.len() == 0,
        forall|k: int| 0 <= k < first_empty_path(also) ==> also[k].path@.len() > 0,
    decreases also.len(),
{
    if also.len() > 0 && also[0].path@.len() > 0 {
        lemma_first_empty_path_bounds(also.drop_first());
        assert forall|k: int| 0 <= k < first_empty_path(also) implies also[k].path@.len() > 0 by {
            if k > 0 {
                assert(also[k] == also.drop_first()[k - 1]);
            }
        }
    }
}

/// How a patch request is carried out: refused with `empty path` when the
/// primary change has no path; otherwise the primary change and the
/// further changes before the first one without a path, which then ends
/// the request with `empty secondary path` once the others applied.
pub fn patch_plan(request: PatchRequest) -> (r: Result<PatchPlan, String>)
    ensures
        request.path@.len() == 0 ==> (r matches Err(e) && e@ == "empty path"@),
        request.path@.len() > 0 ==> (r matches Ok(p) && {
            let j = first_empty_path(request.also@);
            &&& p.changes@.len() == j + 1
            &&& p.changes@[0].path == request.path
            &&& p.changes@[0].value == request.value
            &&& forall|k: int| 0 <= k < j ==> #[trigger] p.changes@[k + 1] == request.also@[k]
            &&& opt_view(p.then_error) == if j < request.also@.len() {
                Some("empty secondary path"@)
            } else {
                None
            }
        }),
{
    if request.path.len() == 0 {
        return Err("empty path".to_string());
    }
    let PatchRequest { path, value, also } = request;
    let ghost all = also@;
    proof {
        lemma_first_empty_path_bounds(all);
    }
    let mut j: usize = 0;
    while j < also.len() && also[j].path.len() > 0
        invariant
            all == also@,
            j <= all.len(),
            j <= first_empty_path(all),
            0 <= first_empty_path(all) <= all.len(),
            first_empty_path(all) < all.len() ==> all[first_empty_path(all)].path@.len() == 0,
        decreases all.len() - j,
    {
        j += 1;
    }
    let then_error = if j < also.len() { Some("empty secondary path".to_string()) } else { None };
    let mut changes = also;
    changes.truncate(j);
    changes.insert(0, PatchChange { path, value });
    Ok(PatchPlan { changes, then_error })
}

/// A player's reported cover: its bus name and art address.
#[derive(Debug, Clone)]
pub struct ArtEntry {
    pub player_bus_name: String,
    pub art_url: Option<String>,
}

/// The bus name a cover request asks for: the first `player_bus_name`
/// query value of the request path read on `http://localhost`.
pub open spec fn art_request_bus(url: Seq<char>) -> Option<Seq<char>> {
    match url_parts("http://localhost"@ + url) {
        Some(p) => first_value(p.query_pairs, "player_bus_name"@),
        None => None,
    }
}

/// The art address of the first entry of the bus, if that entry has one.
pub open spec fn entry_art(entries: Seq<ArtEntry>, bus: Seq<char>) -> Option<Seq<char>>
    decreases entries.len(),
{
    if entries.len() == 0 {
        None
    } else if entries[0].player_bus_name@ == bus {
        opt_view(entries[0].art_url)
    } else {
        entry_art(entries.drop_first(), bus)
    }
}

/// Name of the local path `url::Url::to_file_path` gives for a text that
/// parses as a URL, when that path is valid UTF-8.
pub uninterp spec fn file_path_of(url: Seq<char>) -> Option<Seq<char>>;

/// Wraps `url::Url::parse` and `Url::to_file_path`; a path that is not
/// valid UTF-8 is none. The outcome is named by `file_path_of`.
#[verifier::external_body]
fn url_file_path(url: &str) -> (r: Option<String>)
    ensures
        opt_view(r) == file_path_of(url@),
{
    let path = url::Url::parse(url).ok()?.to_file_path().ok()?;
    path.into_os_string().into_string().ok()
}

/// The file a cover request may read: the local path of the art address a
/// live player reports for the requested bus name. Paths the request names
/// itself are never read.
pub fn art_file_path(request_url: &str, entries: &Vec<ArtEntry>) -> (r: Option<String>)
    ensures
        opt_view(r) == match art_request_bus(request_url@) {
            Some(bus) => match entry_art(entries@, bus) {
                Some(art) => file_path_of(art),
                None => None,
            },
            None => None,
        },
{
    let full = concat_str("http://localhost", request_url);
    let parts = match parse_url(full.as_str()) {
        Some(p) => p,
        None => return None,
    };
    let bus = match first_query_value(&parts.query_pairs, "player_bus_name") {
        Some(b) => b,
        None => return None,
    };
    assert(art_request_bus(request_url@) == Some(bus@)) by {
        reveal_strlit("player_bus_name");
        assert(parts@.query_pairs == parts.query_pairs@.map_values(|p: (String, String)| (p.0@, p.1@)));
    }
    let ghost es = entries@;
    assert(es.skip(0) =~= es);
    let mut i: usize = 0;
    while i < entries.len()
        invariant
            i <= es.len(),
            es == entries@,
            entry_art(es, bus@) == entry_art(es.skip(i as int), bus@),
            art_request_bus(request_url@) == Some(bus@),
        decreases es.len() - i,
    {
        assert(es.skip(i as int).drop_first() =~= es.skip(i + 1));
        assert(es.skip(i as int)[0] == es[i as int]);
        if str_eq(entries[i].player_bus_name.as_str(), bus.as_str()) {
            match &entries[i].art_url {
                Some(art) => {
                    return url_file_path(art.as_str());
                },
                None => {
                    return None;
                },
            }
        }
        i += 1;
    }
    None
}

/// The answer to a validation request: whether the text loads as a
/// configuration, the load error if not, and the warnings about its keys.
#[derive(Debug, Clone)]
pub struct ConfigValidation {
    pub valid: bool,
    pub error: Option<String>,
    pub warnings: Vec<String>,
}

/// The validation answer for the outcome of loading a configuration text
/// and the warnings found in it.
pub fn config_validation(loaded: Result<(), String>, warnings: Vec<String>) -> (r: ConfigValidation)
    ensures
        r.valid == (loaded is Ok),
        match loaded {
            Ok(()) => r.error is None,
            Err(e) => r.error matches Some(m) && m@ == e@,
        },
        r.warnings@ == warnings@,
{
    match loaded {
        Ok(()) => ConfigValidation { valid: true, error: None, warnings },
        Err(e) => ConfigValidation { valid: false, error: Some(e), warnings },
    }
}

} // verus!
