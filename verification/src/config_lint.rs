//! Warnings about a configuration file's settings: unknown keys, keys that
//! are deprecated, and keys that no longer have an effect. The file is read
//! as its tables, each with its keys in order.
use vstd::prelude::*;
use crate::cover::cache::{strings_equal, strs};
use crate::cover::provider::strings_contain;
use crate::text::{char_len, concat_str, str_eq};

verus! {

broadcast use vstd::string::group_string_axioms;

/// One table of a configuration file: the keys leading to it from the root
/// (none for the root), and its keys in order.
#[derive(Debug, Clone)]
pub struct TableKeys {
    pub path: Vec<String>,
    pub keys: Vec<String>,
}

/// The tables of a configuration file.
#[derive(Debug, Clone)]
pub struct ConfigTables {
    pub tables: Vec<TableKeys>,
}

pub struct TableKeysV {
    pub path: Seq<Seq<char>>,
    pub keys: Seq<Seq<char>>,
}

pub open spec fn table_views(ts: Seq<TableKeys>) -> Seq<TableKeysV> {
    ts.map_values(|t: TableKeys| TableKeysV { path: strs(t.path@), keys: strs(t.keys@) })
}

/// The keys of the first table at `path`.
pub open spec fn table_at(ts: Seq<TableKeysV>, path: Seq<Seq<char>>) -> Option<Seq<Seq<char>>>
    decreases ts.len(),
{
    if ts.len() == 0 {
        None
    } else if ts[0].path == path {
        Some(ts[0].keys)
    } else {
        table_at(ts.drop_first(), path)
    }
}

/// Where a key is, written with dots.
pub open spec fn setting_path(prefix: Seq<char>, key: Seq<char>) -> Seq<char> {
    if prefix.len() == 0 { key } else { prefix + "."@ + key }
}

/// A warning for each key that is not allowed, in order.
pub open spec fn unknown_warnings(prefix: Seq<char>, keys: Seq<Seq<char>>, allowed: Seq<Seq<char>>) -> Seq<Seq<char>>
    decreases keys.len(),
{
    if keys.len() == 0 {
        Seq::empty()
    } else {
        let prev = unknown_warnings(prefix, keys.drop_last(), allowed);
        if allowed.contains(keys.last()) {
            prev
        } else {
            prev.push("Unknown setting: "@ + setting_path(prefix, keys.last()))
        }
    }
}

/// The unknown keys of the table at `path`, if there is one.
pub open spec fn table_warnings(ts: Seq<TableKeysV>, path: Seq<Seq<char>>, prefix: Seq<char>, allowed: Seq<Seq<char>>) -> Seq<Seq<char>> {
    match table_at(ts, path) {
        Some(keys) => unknown_warnings(prefix, keys, allowed),
        None => Seq::empty(),
    }
}

pub open spec fn root_allowed() -> Seq<Seq<char>> {
    seq![
        "interval"@, "event_driven"@, "fallback_poll_interval"@, "discovery_interval"@,
        "allowed_players"@, "web_player_enabled"@, "template"@, "time"@, "cover"@,
        "activity_type"@, "player"@, "web_player"@,
    ]
}

pub open spec fn template_allowed() -> Seq<Seq<char>> {
    seq!["details"@, "detail"@, "state"@, "large_text"@, "small_text"@]
}

pub open spec fn time_allowed() -> Seq<Seq<char>> {
    seq!["show"@, "as_elapsed"@]
}

pub open spec fn activity_type_allowed() -> Seq<Seq<char>> {
    seq!["use_content_type"@, "default"@]
}

pub open spec fn cover_allowed() -> Seq<Seq<char>> {
    seq!["file_names"@, "provider"@, "local_search_depth"@]
}

pub open spec fn provider_allowed() -> Seq<Seq<char>> {
    seq!["provider"@, "imgbb"@, "musicbrainz"@, "catbox"@]
}

pub open spec fn imgbb_allowed() -> Seq<Seq<char>> {
    seq!["api_key"@, "expiration"@]
}

pub open spec fn musicbrainz_allowed() -> Seq<Seq<char>> {
    seq!["min_score"@]
}

pub open spec fn catbox_allowed() -> Seq<Seq<char>> {
    seq!["user_hash"@, "use_litter"@, "litter_hours"@]
}

/// Keys of a player or web-player layer, with those of its section.
pub open spec fn layer_allowed(section: Seq<char>) -> Seq<Seq<char>> {
    seq![
        "match_pattern"@, "match_patterns"@, "name"@, "ignore"@, "app_id"@, "icon"@,
        "show_icon"@, "status_display_type"@, "override_activity_type"@,
    ] + if section == "player"@ {
        seq!["ignore_unmatched"@, "allow_streaming"@]
    } else {
        seq!["title_suffix"@]
    }
}

pub open spec fn web_default_ignore_warning() -> Seq<char> {
    "web_player.default.ignore is no longer used; set web_player_enabled = false to turn web players off"@
}

/// The warnings of the layers of a section, layer after layer: unknown
/// keys, and for the web players' default layer a key `ignore` that is no
/// longer used.
pub open spec fn layer_warnings(ts: Seq<TableKeysV>, section: Seq<char>, keys: Seq<Seq<char>>) -> Seq<Seq<char>>
    decreases keys.len(),
{
    if keys.len() == 0 {
        Seq::empty()
    } else {
        let prev = layer_warnings(ts, section, keys.drop_last());
        let k = keys.last();
        match table_at(ts, seq![section, k]) {
            Some(layer) => prev + unknown_warnings(section + "."@ + k, layer, layer_allowed(section))
                + if section == "web_player"@ && k == "default"@ && layer.contains("ignore"@) {
                    seq![web_default_ignore_warning()]
                } else {
                    Seq::<Seq<char>>::empty()
                },
            None => prev,
        }
    }
}

pub open spec fn section_warnings(ts: Seq<TableKeysV>, section: Seq<char>) -> Seq<Seq<char>> {
    match table_at(ts, seq![section]) {
        Some(keys) => layer_warnings(ts, section, keys),
        None => Seq::empty(),
    }
}

/// Unknown keys in `template`, `time`, `activity_type` and `cover`.
pub open spec fn plain_tables_spec(ts: Seq<TableKeysV>) -> Seq<Seq<char>> {
    table_warnings(ts, seq!["template"@], "template"@, template_allowed())
        + table_warnings(ts, seq!["time"@], "time"@, time_allowed())
        + table_warnings(ts, seq!["activity_type"@], "activity_type"@, activity_type_allowed())
        + table_warnings(ts, seq!["cover"@], "cover"@, cover_allowed())
}

/// Unknown keys in `cover.provider` and its provider tables, when it is a
/// table.
pub open spec fn provider_tables_spec(ts: Seq<TableKeysV>) -> Seq<Seq<char>> {
    let provider = seq!["cover"@, "provider"@];
    if table_at(ts, provider) is Some {
        table_warnings(ts, provider, "cover.provider"@, provider_allowed())
            + table_warnings(ts, provider.push("imgbb"@), "cover.provider.imgbb"@, imgbb_allowed())
            + table_warnings(ts, provider.push("musicbrainz"@), "cover.provider.musicbrainz"@, musicbrainz_allowed())
            + table_warnings(ts, provider.push("catbox"@), "cover.provider.catbox"@, catbox_allowed())
    } else {
        Seq::empty()
    }
}

/// The deprecated `discovery_interval` and `template.detail`, and the
/// removed `clear_on_pause`.
pub open spec fn deprecation_spec(ts: Seq<TableKeysV>, root: Seq<Seq<char>>) -> Seq<Seq<char>> {
    (if root.contains("discovery_interval"@) {
        seq!["discovery_interval is deprecated; use fallback_poll_interval"@]
    } else {
        Seq::<Seq<char>>::empty()
    }) + (match table_at(ts, seq!["template"@]) {
        Some(t) => if t.contains("detail"@) {
            seq!["template.detail is deprecated; use template.details"@]
        } else {
            Seq::<Seq<char>>::empty()
        },
        None => Seq::<Seq<char>>::empty(),
    }) + (if root.contains("clear_on_pause"@) {
        seq!["clear_on_pause was removed and has no effect"@]
    } else {
        Seq::<Seq<char>>::empty()
    })
}

/// All warnings about a configuration file, in this order: unknown keys at
/// the root, in `template`, `time`, `activity_type`, `cover`,
/// `cover.provider` and its provider tables, and in each player and web
/// player layer; then the deprecated `discovery_interval` and
/// `template.detail`, and the removed `clear_on_pause`. None without a root
/// table.
pub open spec fn warnings_spec(ts: Seq<TableKeysV>) -> Seq<Seq<char>> {
    match table_at(ts, Seq::empty()) {
        None => Seq::empty(),
        Some(root) => unknown_warnings(Seq::empty(), root, root_allowed())
            + plain_tables_spec(ts)
            + provider_tables_spec(ts)
            + section_warnings(ts, "player"@)
            + section_warnings(ts, "web_player"@)
            + deprecation_spec(ts, root),
    }
}

fn find_table(ts: &ConfigTables, path: &Vec<String>) -> (r: Option<usize>)
    ensures
        match r {
            Some(i) => i < ts.tables@.len() && table_at(table_views(ts.tables@), strs(path@)) == Some(strs(ts.tables@[i as int].keys@)),
            None => table_at(table_views(ts.tables@), strs(path@)) is None,
        },
{
    let ghost tv = table_views(ts.tables@);
    assert(tv.skip(0) =~= tv);
    let mut i: usize = 0;
    while i < ts.tables.len()
        invariant
            i <= ts.tables@.len(),
            tv == table_views(ts.tables@),
            table_at(tv, strs(path@)) == table_at(tv.skip(i as int), strs(path@)),
        decreases ts.tables@.len() - i,
    {
        assert(tv.skip(i as int).drop_first() =~= tv.skip(i + 1));
        assert(tv.skip(i as int)[0] == tv[i as int]);
        if strings_equal(&ts.tables[i].path, path) {
            return Some(i);
        }
        i += 1;
    }
    assert(tv.skip(i as int) =~= Seq::<TableKeysV>::empty());
    None
}

fn push_unknown(out: &mut Vec<String>, prefix: &str, keys: &Vec<String>, allowed: &Vec<String>)
    ensures
        strs(final(out)@) == strs(old(out)@) + unknown_warnings(prefix@, strs(keys@), strs(allowed@)),
{
    proof {
        reveal_strlit(".");
    }
    let ghost start = strs(out@);
    let ghost ks = strs(keys@);
    let mut i: usize = 0;
    while i < keys.len()
        invariant
            i <= keys@.len(),
            ks == strs(keys@),
            strs(out@) == start + unknown_warnings(prefix@, ks.take(i as int), strs(allowed@)),
        decreases keys@.len() - i,
    {
        assert(ks.take(i + 1).drop_last() =~= ks.take(i as int));
        let k = keys[i].as_str();
        if !strings_contain(allowed, k) {
            let path = if char_len(prefix) == 0 {
                k.to_owned()
            } else {
                let p = concat_str(prefix, ".");
                concat_str(p.as_str(), k)
            };
            let ghost prev = strs(out@);
            out.push(concat_str("Unknown setting: ", path.as_str()));
            assert(strs(out@) =~= prev.push("Unknown setting: "@ + setting_path(prefix@, k@)));
        }
        i += 1;
    }
    assert(ks.take(keys@.len() as int) =~= ks);
}

fn push_table(out: &mut Vec<String>, ts: &ConfigTables, path: &Vec<String>, prefix: &str, allowed: &Vec<String>)
    ensures
        strs(final(out)@) == strs(old(out)@) + table_warnings(table_views(ts.tables@), strs(path@), prefix@, strs(allowed@)),
{
    match find_table(ts, path) {
        Some(i) => push_unknown(out, prefix, &ts.tables[i].keys, allowed),
        None => {
            assert(strs(out@) =~= strs(out@) + Seq::<Seq<char>>::empty());
        },
    }
}

fn list_of(a: &str) -> (r: Vec<String>)
    ensures
        strs(r@) == seq![a@],
{
    let mut v: Vec<String> = Vec::new();
    v.push(a.to_owned());
    assert(strs(v@) =~= seq![a@]);
    v
}

fn extended(v: Vec<String>, a: &str) -> (r: Vec<String>)
    ensures
        strs(r@) == strs(v@).push(a@),
{
    let mut w = v;
    let ghost prev = strs(w@);
    w.push(a.to_owned());
    assert(strs(w@) =~= prev.push(a@));
    w
}

fn layer_allowed_list(is_player: bool) -> (r: Vec<String>)
    ensures
        strs(r@) == layer_allowed(if is_player { "player"@ } else { "web_player"@ }),
{
    proof {
        reveal_strlit("player");
        reveal_strlit("web_player");
        assert("player"@.len() != "web_player"@.len());
    }
    let v = list_of("match_pattern");
    let v = extended(v, "match_patterns");
    let v = extended(v, "name");
    let v = extended(v, "ignore");
    let v = extended(v, "app_id");
    let v = extended(v, "icon");
    let v = extended(v, "show_icon");
    let v = extended(v, "status_display_type");
    let v = extended(v, "override_activity_type");
    let r = if is_player {
        let v = extended(v, "ignore_unmatched");
        extended(v, "allow_streaming")
    } else {
        extended(v, "title_suffix")
    };
    assert(strs(r@) =~= layer_allowed(if is_player { "player"@ } else { "web_player"@ }));
    r
}

fn push_section(out: &mut Vec<String>, ts: &ConfigTables, is_player: bool)
    ensures
        strs(final(out)@) == strs(old(out)@) + section_warnings(table_views(ts.tables@), if is_player { "player"@ } else { "web_player"@ }),
{
    proof {
        reveal_strlit("player");
        reveal_strlit("web_player");
        reveal_strlit("default");
        reveal_strlit("ignore");
        reveal_strlit(".");
    }
    assert("player"@.len() != "web_player"@.len());
    let section: &str = if is_player { "player" } else { "web_player" };
    let ghost sec = section@;
    let ghost tv = table_views(ts.tables@);
    let allowed = layer_allowed_list(is_player);
    let section_path = list_of(section);
    let ghost start = strs(out@);
    match find_table(ts, &section_path) {
        None => {
            assert(strs(out@) =~= start + Seq::<Seq<char>>::empty());
        },
        Some(si) => {
            let keys = &ts.tables[si].keys;
            let ghost ks = strs(keys@);
            let mut i: usize = 0;
            while i < keys.len()
                invariant
                    i <= keys@.len(),
                    ks == strs(keys@),
                    sec == section@,
                    sec == (if is_player { "player"@ } else { "web_player"@ }),
                    "player"@.len() != "web_player"@.len(),
                    tv == table_views(ts.tables@),
                    strs(allowed@) == layer_allowed(sec),
                    strs(out@) == start + layer_warnings(tv, sec, ks.take(i as int)),
                decreases keys@.len() - i,
            {
                assert(ks.take(i + 1).drop_last() =~= ks.take(i as int));
                let k = keys[i].as_str();
                let mut layer_path = list_of(section);
                layer_path = extended(layer_path, k);
                assert(strs(layer_path@) =~= seq![sec, k@]);
                let ghost before = strs(out@);
                match find_table(ts, &layer_path) {
                    Some(li) => {
                        let prefix = concat_str(concat_str(section, ".").as_str(), k);
                        let layer = &ts.tables[li].keys;
                        push_unknown(out, prefix.as_str(), layer, &allowed);
                        let ghost mid = strs(out@);
                        if !is_player && str_eq(k, "default") && strings_contain(layer, "ignore") {
                            out.push("web_player.default.ignore is no longer used; set web_player_enabled = false to turn web players off".to_owned());
                            assert(strs(out@) =~= mid.push(web_default_ignore_warning()));
                        }
                        assert(strs(out@) =~= before + (unknown_warnings(sec + "."@ + k@, strs(layer@), layer_allowed(sec))
                            + if sec == "web_player"@ && k@ == "default"@ && strs(layer@).contains("ignore"@) {
                                seq![web_default_ignore_warning()]
                            } else {
                                Seq::<Seq<char>>::empty()
                            }));
                    },
                    None => {},
                }
                i += 1;
            }
            assert(ks.take(keys@.len() as int) =~= ks);
        },
    }
}

fn push_if(out: &mut Vec<String>, cond: bool, message: &str)
    ensures
        strs(final(out)@) == strs(old(out)@) + if cond { seq![message@] } else { Seq::<Seq<char>>::empty() },
{
    let ghost prev = strs(out@);
    if cond {
        out.push(message.to_owned());
    }
    assert(strs(out@) =~= prev + if cond { seq![message@] } else { Seq::<Seq<char>>::empty() });
}

fn push_root(out: &mut Vec<String>, root: &Vec<String>)
    ensures
        strs(final(out)@) == strs(old(out)@) + unknown_warnings(Seq::empty(), strs(root@), root_allowed()),
{
    proof {
        reveal_strlit("");
        assert(""@ =~= Seq::<char>::empty());
    }
    let v = list_of("interval");
    let v = extended(v, "event_driven");
    let v = extended(v, "fallback_poll_interval");
    let v = extended(v, "discovery_interval");
    let v = extended(v, "allowed_players");
    let v = extended(v, "web_player_enabled");
    let v = extended(v, "template");
    let v = extended(v, "time");
    let v = extended(v, "cover");
    let v = extended(v, "activity_type");
    let v = extended(v, "player");
    let root_list = extended(v, "web_player");
    assert(strs(root_list@) =~= root_allowed());
    push_unknown(out, "", root, &root_list);
}

fn push_plain_tables(out: &mut Vec<String>, ts: &ConfigTables)
    ensures
        strs(final(out)@) == strs(old(out)@) + plain_tables_spec(table_views(ts.tables@)),
{
    let ghost start = strs(out@);
    let ghost tv = table_views(ts.tables@);
    let v = list_of("details");
    let v = extended(v, "detail");
    let v = extended(v, "state");
    let v = extended(v, "large_text");
    let template_list = extended(v, "small_text");
    assert(strs(template_list@) =~= template_allowed());
    push_table(out, ts, &list_of("template"), "template", &template_list);
    let ghost a = strs(out@);

    let time_list = extended(list_of("show"), "as_elapsed");
    assert(strs(time_list@) =~= time_allowed());
    push_table(out, ts, &list_of("time"), "time", &time_list);
    let ghost b = strs(out@);

    let activity_list = extended(list_of("use_content_type"), "default");
    assert(strs(activity_list@) =~= activity_type_allowed());
    push_table(out, ts, &list_of("activity_type"), "activity_type", &activity_list);
    let ghost c = strs(out@);

    let cover_list = extended(extended(list_of("file_names"), "provider"), "local_search_depth");
    assert(strs(cover_list@) =~= cover_allowed());
    push_table(out, ts, &list_of("cover"), "cover", &cover_list);
    assert(strs(out@) =~= start + plain_tables_spec(tv));
}

fn push_provider_tables(out: &mut Vec<String>, ts: &ConfigTables)
    ensures
        strs(final(out)@) == strs(old(out)@) + provider_tables_spec(table_views(ts.tables@)),
{
    let ghost start = strs(out@);
    let ghost tv = table_views(ts.tables@);
    let provider_path = extended(list_of("cover"), "provider");
    let ghost pp = strs(provider_path@);
    assert(pp =~= seq!["cover"@, "provider"@]);
    if find_table(ts, &provider_path).is_some() {
        let provider_list = extended(extended(extended(list_of("provider"), "imgbb"), "musicbrainz"), "catbox");
        assert(strs(provider_list@) =~= provider_allowed());
        push_table(out, ts, &provider_path, "cover.provider", &provider_list);
        let imgbb_path = extended(extended(list_of("cover"), "provider"), "imgbb");
        let imgbb_list = extended(list_of("api_key"), "expiration");
        assert(strs(imgbb_list@) =~= imgbb_allowed());
        assert(strs(imgbb_path@) =~= pp.push("imgbb"@));
        push_table(out, ts, &imgbb_path, "cover.provider.imgbb", &imgbb_list);
        let mb_path = extended(extended(list_of("cover"), "provider"), "musicbrainz");
        let mb_list = list_of("min_score");
        assert(strs(mb_path@) =~= pp.push("musicbrainz"@));
        push_table(out, ts, &mb_path, "cover.provider.musicbrainz", &mb_list);
        let cb_path = extended(extended(list_of("cover"), "provider"), "catbox");
        let cb_list = extended(extended(list_of("user_hash"), "use_litter"), "litter_hours");
        assert(strs(cb_list@) =~= catbox_allowed());
        assert(strs(cb_path@) =~= pp.push("catbox"@));
        push_table(out, ts, &cb_path, "cover.provider.catbox", &cb_list);
        assert(strs(out@) =~= start + provider_tables_spec(tv));
    } else {
        assert(strs(out@) =~= start + provider_tables_spec(tv));
    }
}

fn push_deprecations(out: &mut Vec<String>, ts: &ConfigTables, root: &Vec<String>)
    ensures
        strs(final(out)@) == strs(old(out)@) + deprecation_spec(table_views(ts.tables@), strs(root@)),
{
    let ghost start = strs(out@);
    push_if(out, strings_contain(root, "discovery_interval"), "discovery_interval is deprecated; use fallback_poll_interval");
    let detail = match find_table(ts, &list_of("template")) {
        Some(ti) => strings_contain(&ts.tables[ti].keys, "detail"),
        None => false,
    };
    push_if(out, detail, "template.detail is deprecated; use template.details");
    push_if(out, strings_contain(root, "clear_on_pause"), "clear_on_pause was removed and has no effect");
    assert(strs(out@) =~= start + deprecation_spec(table_views(ts.tables@), strs(root@)));
}

/// Warnings about a configuration file's settings.
pub fn config_warnings(ts: &ConfigTables) -> (r: Vec<String>)
    ensures
        strs(r@) == warnings_spec(table_views(ts.tables@)),
{
    let ghost tv = table_views(ts.tables@);
    let mut out: Vec<String> = Vec::new();
    let root_path: Vec<String> = Vec::new();
    assert(strs(root_path@) =~= Seq::<Seq<char>>::empty());
    let ri = match find_table(ts, &root_path) {
        Some(i) => i,
        None => {
            assert(strs(out@) =~= Seq::<Seq<char>>::empty());
            return out;
        },
    };
    let root = &ts.tables[ri].keys;
    assert(strs(out@) =~= Seq::<Seq<char>>::empty());
    push_root(&mut out, root);
    let ghost a = strs(out@);
    push_plain_tables(&mut out, ts);
    let ghost b = strs(out@);
    push_provider_tables(&mut out, ts);
    let ghost c = strs(out@);
    push_section(&mut out, ts, true);
    let ghost d = strs(out@);
    push_section(&mut out, ts, false);
    let ghost e = strs(out@);
    push_deprecations(&mut out, ts, root);
    proof {
        reveal_strlit("player");
        reveal_strlit("web_player");
        assert("player"@.len() != "web_player"@.len());
    }
    assert(strs(out@) =~= warnings_spec(tv));
    out
}

#[verifier::external_type_specification]
#[verifier::external_body]
#[verifier::reject_recursive_types(K)]
#[verifier::reject_recursive_types(V)]
pub struct ExTomlMap<K, V>(toml::map::Map<K, V>);

#[verifier::external_type_specification]
#[verifier::external_body]
pub struct ExTomlValue(toml::Value);

/// Name of the root table `toml` parses a configuration text into; `None`
/// where the text is not a TOML document.
pub uninterp spec fn toml_document(text: Seq<char>) -> Option<toml::Table>;

/// Name of a table's keys, in the order the table yields them.
pub uninterp spec fn toml_keys(t: toml::Table) -> Seq<Seq<char>>;

/// Name of the table stored under a key of a table; `None` where the key is
/// missing or holds another kind of value.
pub uninterp spec fn toml_child(t: toml::Table, key: Seq<char>) -> Option<toml::Table>;

/// Name of how deeply tables nest inside a table.
pub uninterp spec fn toml_depth(t: toml::Table) -> nat;

/// Parse a configuration text as a TOML document.
///
/// Wraps `toml::from_str::<toml::Value>`; a document that parses has a
/// table at its root. The outcome is named by `toml_document`.
#[verifier::external_body]
fn parse_toml_document(text: &str) -> (r: Option<toml::Table>)
    ensures
        r == toml_document(text@),
{
    match toml::from_str::<toml::Value>(text) {
        Ok(toml::Value::Table(t)) => Some(t),
        _ => None,
    }
}

/// The keys of a table.
///
/// Wraps `toml::map::Map::keys`, collected in the order it yields them.
#[verifier::external_body]
fn toml_table_keys(t: &toml::Table) -> (r: Vec<String>)
    ensures
        strs(r@) == toml_keys(*t),
{
    t.keys().cloned().collect()
}

/// The table under a key of a table.
///
/// Wraps `toml::map::Map::get` and `toml::Value::as_table`; the outcome is
/// named by `toml_child`. A table found inside another nests less deeply
/// than it, as the values of a parsed document form a finite tree.
#[verifier::external_body]
fn toml_child_table<'a>(t: &'a toml::Table, key: &str) -> (r: Option<&'a toml::Table>)
    ensures
        match r {
            Some(c) => toml_child(*t, key@) == Some(*c) && toml_depth(*c) < toml_depth(*t),
            None => toml_child(*t, key@) is None,
        },
{
    t.get(key).and_then(toml::Value::as_table)
}

/// The tables of a document from table `t` at `path` down: the table
/// itself with its keys, then, key by key, the tables nested under it.
pub open spec fn key_tables_at(t: toml::Table, path: Seq<Seq<char>>) -> Seq<TableKeysV>
    decreases toml_depth(t), 1nat, 0nat,
{
    seq![TableKeysV { path, keys: toml_keys(t) }] + nested_tables(t, path, toml_keys(t))
}

/// The tables nested under the keys `ks` of table `t`, key by key.
pub open spec fn nested_tables(t: toml::Table, path: Seq<Seq<char>>, ks: Seq<Seq<char>>) -> Seq<TableKeysV>
    decreases toml_depth(t), 0nat, ks.len(),
{
    if ks.len() == 0 {
        Seq::empty()
    } else {
        nested_tables(t, path, ks.drop_last()) + match toml_child(t, ks.last()) {
            Some(c) => if toml_depth(c) < toml_depth(t) { key_tables_at(c, path.push(ks.last())) } else { Seq::empty() },
            None => Seq::empty(),
        }
    }
}

/// The tables of a configuration text, root first; `None` where it is not
/// TOML.
pub open spec fn text_tables(text: Seq<char>) -> Option<Seq<TableKeysV>> {
    match toml_document(text) {
        Some(root) => Some(key_tables_at(root, Seq::empty())),
        None => None,
    }
}

fn collect_key_tables(t: &toml::Table, path: &Vec<String>, out: &mut Vec<TableKeys>)
    ensures
        table_views(final(out)@) == table_views(old(out)@) + key_tables_at(*t, strs(path@)),
    decreases toml_depth(*t), 1nat, 0nat,
{
    let keys = toml_table_keys(t);
    let ghost start = table_views(out@);
    out.push(TableKeys { path: crate::config::clone_vec(path), keys: crate::config::clone_vec(&keys) });
    assert(table_views(out@) =~= start + seq![TableKeysV { path: strs(path@), keys: toml_keys(*t) }]);
    let ghost mid = table_views(out@);
    let mut i: usize = 0;
    while i < keys.len()
        invariant
            i <= keys@.len(),
            strs(keys@) == toml_keys(*t),
            table_views(out@) == mid + nested_tables(*t, strs(path@), strs(keys@).take(i as int)),
        decreases keys@.len() - i,
    {
        let ghost ks = strs(keys@).take(i + 1);
        assert(ks.drop_last() =~= strs(keys@).take(i as int));
        assert(ks.last() == keys@[i as int]@);
        let ghost before = table_views(out@);
        match toml_child_table(t, keys[i].as_str()) {
            Some(c) => {
                let mut child_path = crate::config::clone_vec(path);
                child_path.push(keys[i].clone());
                assert(strs(child_path@) =~= strs(path@).push(keys@[i as int]@));
                collect_key_tables(c, &child_path, out);
                assert(table_views(out@) =~= mid + nested_tables(*t, strs(path@), ks));
            },
            None => {
                assert(table_views(out@) =~= mid + nested_tables(*t, strs(path@), ks));
            },
        }
        i += 1;
    }
    assert(strs(keys@).take(keys@.len() as int) =~= strs(keys@));
    assert(table_views(out@) =~= start + key_tables_at(*t, strs(path@)));
}

/// The tables of a configuration text, each with its path and its keys in
/// order; `None` where the text is not TOML.
pub fn parse_key_tables(text: &str) -> (r: Option<ConfigTables>)
    ensures
        match text_tables(text@) {
            Some(tv) => r matches Some(ts) && table_views(ts.tables@) == tv,
            None => r is None,
        },
{
    match parse_toml_document(text) {
        Some(root) => {
            let mut tables: Vec<TableKeys> = Vec::new();
            let root_path: Vec<String> = Vec::new();
            assert(strs(root_path@) =~= Seq::<Seq<char>>::empty());
            assert(table_views(tables@) =~= Seq::<TableKeysV>::empty());
            collect_key_tables(&root, &root_path, &mut tables);
            assert(table_views(tables@) =~= key_tables_at(root, Seq::empty()));
            Some(ConfigTables { tables })
        },
        None => None,
    }
}

/// Warnings about a configuration text's settings; none where the text is
/// not TOML.
pub fn config_warnings_of_text(body: &str) -> (r: Vec<String>)
    ensures
        match text_tables(body@) {
            Some(tv) => strs(r@) == warnings_spec(tv),
            None => r@.len() == 0,
        },
{
    match parse_key_tables(body) {
        Some(ts) => config_warnings(&ts),
        None => Vec::new(),
    }
}

} // verus!
