//! The text of the command-line reports: the list of players and the
//! effective configuration, line by line.
use vstd::prelude::*;
use crate::config::{ActivityType, ActivityTypesConfig, CoverConfig, PlayerConfig, StatusDisplayType, TemplateConfig, TimeConfig};
use crate::sorting::{lemma_insert_by_at, sort_by};
use crate::text::{lex_less, normalize_identity, normalize_player_identity, str_less};
use crate::cover::cache::strs;
use crate::health::PlaybackStatus;
use crate::text::{char_len, chars_of, concat_str, decimal, decimal_string, join_seqs, join_strings, string_from, str_eq};

verus! {

broadcast use vstd::string::group_string_axioms;

pub const NAME_COLUMN_WIDTH: usize = 32;
pub const TITLE_COLUMN_WIDTH: usize = 36;
pub const DIVIDER_WIDTH: usize = 56;
pub const CONFIG_KEY_WIDTH: usize = 18;

/// `n` copies of `c`.
pub open spec fn repeat(c: char, n: nat) -> Seq<char> {
    Seq::new(n, |i: int| c)
}

/// A string of `n` copies of `c`.
pub fn repeat_char(c: char, n: usize) -> (r: String)
    ensures
        r@ == repeat(c, n as nat),
{
    let mut v: Vec<char> = Vec::new();
    let mut i: usize = 0;
    while i < n
        invariant
            i <= n,
            v@ == repeat(c, i as nat),
        decreases n - i,
    {
        v.push(c);
        i += 1;
        assert(v@ =~= repeat(c, i as nat));
    }
    string_from(v.as_slice())
}

/// The divider line under a heading.
pub fn create_divider() -> (r: String)
    ensures
        r@ == repeat('─', DIVIDER_WIDTH as nat),
{
    repeat_char('─', DIVIDER_WIDTH)
}

/// The icon of a playback status.
pub open spec fn status_glyph(s: PlaybackStatus) -> Seq<char> {
    match s {
        PlaybackStatus::Playing => "▶"@,
        PlaybackStatus::Paused => "⏸"@,
        PlaybackStatus::Stopped => "⏹"@,
    }
}

pub fn format_playback_status_icon(s: PlaybackStatus) -> (r: &'static str)
    ensures
        r@ == status_glyph(s),
{
    match s {
        PlaybackStatus::Playing => "▶",
        PlaybackStatus::Paused => "⏸",
        PlaybackStatus::Stopped => "⏹",
    }
}

/// The icon of a listed player: a cross when it is ignored or not allowed,
/// else its status's icon, `?` when unknown.
pub open spec fn icon_spec(status: Option<PlaybackStatus>, ignored: bool, allowed: bool) -> Seq<char> {
    if ignored || !allowed {
        "✖"@
    } else {
        match status {
            Some(s) => status_glyph(s),
            None => "?"@,
        }
    }
}

pub fn status_icon(status: Option<PlaybackStatus>, ignored: bool, allowed: bool) -> (r: &'static str)
    ensures
        r@ == icon_spec(status, ignored, allowed),
{
    if ignored || !allowed {
        "✖"
    } else {
        match status {
            Some(s) => format_playback_status_icon(s),
            None => "?",
        }
    }
}

/// The words of a listed player's state: its status, `ignored`,
/// `disallowed`, joined by `, `; `unknown` when there are none.
pub open spec fn status_text_spec(status: Option<PlaybackStatus>, ignored: bool, allowed: bool) -> Seq<char> {
    let a: Seq<Seq<char>> = match status {
        Some(PlaybackStatus::Playing) => seq!["playing"@],
        Some(PlaybackStatus::Paused) => seq!["paused"@],
        Some(PlaybackStatus::Stopped) => seq!["stopped"@],
        None => Seq::empty(),
    };
    let b = if ignored { a.push("ignored"@) } else { a };
    let c = if !allowed { b.push("disallowed"@) } else { b };
    if c.len() == 0 { "unknown"@ } else { join_seqs(c, ", "@) }
}

pub fn detail_status_text(status: Option<PlaybackStatus>, ignored: bool, allowed: bool) -> (r: String)
    ensures
        r@ == status_text_spec(status, ignored, allowed),
{
    let mut parts: Vec<String> = Vec::new();
    match status {
        Some(PlaybackStatus::Playing) => parts.push("playing".to_owned()),
        Some(PlaybackStatus::Paused) => parts.push("paused".to_owned()),
        Some(PlaybackStatus::Stopped) => parts.push("stopped".to_owned()),
        None => {},
    }
    let ghost a = strs(parts@);
    if ignored {
        parts.push("ignored".to_owned());
    }
    let ghost b = strs(parts@);
    assert(b =~= if ignored { a.push("ignored"@) } else { a });
    if !allowed {
        parts.push("disallowed".to_owned());
    }
    assert(strs(parts@) =~= if !allowed { b.push("disallowed"@) } else { b });
    assert(match status {
        Some(PlaybackStatus::Playing) => a =~= seq!["playing"@],
        Some(PlaybackStatus::Paused) => a =~= seq!["paused"@],
        Some(PlaybackStatus::Stopped) => a =~= seq!["stopped"@],
        None => a =~= Seq::<Seq<char>>::empty(),
    });
    if parts.len() == 0 {
        "unknown".to_owned()
    } else {
        assert(parts@.map_values(|p: String| p@) =~= strs(parts@));
        join_strings(parts.as_slice(), ", ")
    }
}

/// The summary column's state: the same words as in the details.
pub fn summary_status_text(status: Option<PlaybackStatus>, ignored: bool, allowed: bool) -> (r: String)
    ensures
        r@ == status_text_spec(status, ignored, allowed),
{
    detail_status_text(status, ignored, allowed)
}

/// A value cut to `width` characters: kept when it fits, else its first
/// `width - 3` characters and `...`, or only dots when `width` is at most 3.
pub open spec fn truncated(v: Seq<char>, width: nat) -> Seq<char> {
    if v.len() <= width {
        v
    } else if width <= 3 {
        repeat('.', width)
    } else {
        v.take(width - 3) + "..."@
    }
}

pub fn truncate_value(value: &str, width: usize) -> (r: String)
    ensures
        r@ == truncated(value@, width as nat),
{
    let v = chars_of(value);
    if v.len() <= width {
        return value.to_owned();
    }
    if width <= 3 {
        return repeat_char('.', width);
    }
    let mut out: Vec<char> = Vec::new();
    let mut i: usize = 0;
    while i < width - 3
        invariant
            width > 3,
            i <= width - 3,
            width - 3 < v@.len(),
            v@ == value@,
            out@ == value@.take(i as int),
        decreases width - 3 - i,
    {
        out.push(v[i]);
        i += 1;
        assert(out@ =~= value@.take(i as int));
    }
    let head = string_from(out.as_slice());
    concat_str(head.as_str(), "...")
}

/// Text padded with spaces on the right to `width` characters.
pub open spec fn pad_right(v: Seq<char>, width: nat) -> Seq<char> {
    if v.len() >= width { v } else { v + repeat(' ', (width - v.len()) as nat) }
}

pub fn pad_to(value: &str, width: usize) -> (r: String)
    ensures
        r@ == pad_right(value@, width as nat),
{
    let n = char_len(value);
    if n >= width {
        value.to_owned()
    } else {
        let spaces = repeat_char(' ', width - n);
        concat_str(value, spaces.as_str())
    }
}

/// A table cell: the value cut to the width and padded to it.
pub open spec fn cell(v: Seq<char>, width: nat) -> Seq<char> {
    if width == 0 { Seq::empty() } else { pad_right(truncated(v, width), width) }
}

pub fn format_cell(value: &str, width: usize) -> (r: String)
    ensures
        r@ == cell(value@, width as nat),
{
    if width == 0 {
        return String::new();
    }
    let t = truncate_value(value, width);
    pad_to(t.as_str(), width)
}

/// The summary title: `title — album`, the title, the album alone when
/// there is no title, else a dash.
pub open spec fn summary_title_spec(title: Option<Seq<char>>, album: Option<Seq<char>>) -> Seq<char> {
    if title is Some && album is Some && title->0.len() > 0 && album->0.len() > 0 {
        title->0 + " — "@ + album->0
    } else if title is Some && title->0.len() > 0 {
        title->0
    } else if title is None && album is Some && album->0.len() > 0 {
        album->0
    } else {
        "—"@
    }
}

pub fn format_summary_title(title: Option<&str>, album: Option<&str>) -> (r: String)
    ensures
        r@ == summary_title_spec(
            match title { Some(t) => Some(t@), None => None },
            match album { Some(a) => Some(a@), None => None },
        ),
{
    match (title, album) {
        (Some(t), Some(a)) => {
            if char_len(t) > 0 && char_len(a) > 0 {
                let head = concat_str(t, " — ");
                return concat_str(head.as_str(), a);
            }
        },
        _ => {},
    }
    match title {
        Some(t) => {
            if char_len(t) > 0 {
                return t.to_owned();
            }
        },
        None => {},
    }
    match (title, album) {
        (None, Some(a)) => if char_len(a) > 0 { a.to_owned() } else { "—".to_owned() },
        _ => "—".to_owned(),
    }
}

/// Artist names joined by ` • `.
pub fn format_artists(artists: &Vec<String>) -> (r: String)
    ensures
        r@ == join_seqs(strs(artists@), " • "@),
{
    assert(artists@.map_values(|p: String| p@) =~= strs(artists@));
    join_strings(artists.as_slice(), " • ")
}

/// A number written with at least two digits.
pub open spec fn two_digits(n: nat) -> Seq<char> {
    if n < 10 { seq!['0'] + decimal(n) } else { decimal(n) }
}

/// A length in seconds as minutes and seconds, `mm:ss`.
pub open spec fn track_length_spec(secs: nat) -> Seq<char> {
    two_digits(secs / 60) + ":"@ + two_digits(secs % 60)
}

fn two_digit_string(n: u64) -> (r: String)
    ensures
        r@ == two_digits(n as nat),
{
    let d = decimal_string(n);
    proof {
        reveal_strlit("0");
        assert("0"@ =~= seq!['0']);
    }
    if n < 10 { concat_str("0", d.as_str()) } else { d }
}

pub fn format_track_length(total_seconds: u64) -> (r: String)
    ensures
        r@ == track_length_spec(total_seconds as nat),
{
    proof { reveal_strlit("0"); reveal_strlit(":"); }
    let m = two_digit_string(total_seconds / 60);
    let s = two_digit_string(total_seconds % 60);
    let head = concat_str(m.as_str(), ":");
    concat_str(head.as_str(), s.as_str())
}

pub open spec fn bool_text(b: bool) -> Seq<char> {
    if b { "true"@ } else { "false"@ }
}

pub fn format_bool(value: bool) -> (r: &'static str)
    ensures
        r@ == bool_text(value),
{
    if value { "true" } else { "false" }
}

/// Whether a listed player shows on Discord, and why not.
pub open spec fn presence_spec(cfg_ignore: bool, app_id: Seq<char>, allow_streaming: bool, allowed: bool) -> Seq<char> {
    if !allowed {
        "disallowed by allowed_players"@
    } else if cfg_ignore {
        "ignored (app_id = "@ + app_id + ")"@
    } else {
        "enabled (allow_streaming = "@ + bool_text(allow_streaming) + ")"@
    }
}

pub fn format_presence(config: &PlayerConfig, allowed: bool) -> (r: String)
    ensures
        r@ == presence_spec(config.ignore, config.app_id@, config.allow_streaming, allowed),
{
    if !allowed {
        "disallowed by allowed_players".to_owned()
    } else if config.ignore {
        let head = concat_str("ignored (app_id = ", config.app_id.as_str());
        concat_str(head.as_str(), ")")
    } else {
        let head = concat_str("enabled (allow_streaming = ", format_bool(config.allow_streaming));
        concat_str(head.as_str(), ")")
    }
}

/// One listed player, as the report shows it (the length in seconds).
#[derive(Debug, Clone)]
pub struct PlayerDisplay {
    pub id: String,
    pub player_bus_name: String,
    pub identity: String,
    pub status: Option<PlaybackStatus>,
    pub title: Option<String>,
    pub artists: Option<Vec<String>>,
    pub album: Option<String>,
    pub length_secs: Option<u64>,
    pub config: PlayerConfig,
    pub allowed: bool,
}

pub open spec fn ov(o: Option<String>) -> Option<Seq<char>> {
    match o {
        Some(s) => Some(s@),
        None => None,
    }
}

/// The summary line of a listed player.
pub open spec fn summary_line(e: PlayerDisplay) -> Seq<char> {
    icon_spec(e.status, e.config.ignore, e.allowed) + " "@
        + cell(e.identity@, NAME_COLUMN_WIDTH as nat) + " "@
        + cell(summary_title_spec(ov(e.title), ov(e.album)), TITLE_COLUMN_WIDTH as nat)
        + " ["@ + status_text_spec(e.status, e.config.ignore, e.allowed) + "]"@
}

/// The detail lines of a listed player.
pub open spec fn detail_lines(e: PlayerDisplay) -> Seq<Seq<char>> {
    seq![icon_spec(e.status, e.config.ignore, e.allowed) + " "@ + e.identity@ + "  ["@
        + status_text_spec(e.status, e.config.ignore, e.allowed) + "]"@]
        + (match e.title { Some(t) => seq!["  Title    : "@ + t@], None => Seq::empty() })
        + (match e.artists {
            Some(a) => if a@.len() > 0 { seq!["  Artists  : "@ + join_seqs(strs(a@), " • "@)] } else { Seq::empty() },
            None => Seq::empty(),
        })
        + (match e.album { Some(a) => seq!["  Album    : "@ + a@], None => Seq::empty() })
        + (match e.length_secs { Some(l) => seq!["  Length   : "@ + track_length_spec(l as nat)], None => Seq::empty() })
        + seq![
            "  Presence : "@ + presence_spec(e.config.ignore, e.config.app_id@, e.config.allow_streaming, e.allowed),
            "  ID       : "@ + e.id@,
            "  Bus Name : "@ + e.player_bus_name@,
        ]
}

pub open spec fn count_where(es: Seq<PlayerDisplay>, f: spec_fn(PlayerDisplay) -> bool) -> nat
    decreases es.len(),
{
    if es.len() == 0 { 0 } else { count_where(es.drop_last(), f) + if f(es.last()) { 1nat } else { 0nat } }
}

pub open spec fn is_playing_allowed(e: PlayerDisplay) -> bool {
    e.allowed && e.status == Some(PlaybackStatus::Playing)
}

pub open spec fn is_paused_allowed(e: PlayerDisplay) -> bool {
    e.allowed && e.status == Some(PlaybackStatus::Paused)
}

pub open spec fn is_excluded(e: PlayerDisplay) -> bool {
    e.config.ignore || !e.allowed
}

pub open spec fn summary_lines(es: Seq<PlayerDisplay>) -> Seq<Seq<char>>
    decreases es.len(),
{
    if es.len() == 0 { Seq::empty() } else { summary_lines(es.drop_last()).push(summary_line(es.last())) }
}

/// The details of the players, a blank line between two players.
pub open spec fn details_of(es: Seq<PlayerDisplay>) -> Seq<Seq<char>>
    decreases es.len(),
{
    if es.len() == 0 {
        Seq::empty()
    } else if es.len() == 1 {
        detail_lines(es[0])
    } else {
        details_of(es.drop_last()) + seq![Seq::<char>::empty()] + detail_lines(es.last())
    }
}

/// The player list: a line saying there are none; or a blank line, the
/// counts, a divider and a summary line per player, then, in detail, a
/// blank line, `Details`, a divider and each player's details.
pub open spec fn players_list_spec(es: Seq<PlayerDisplay>, detailed: bool) -> Seq<Seq<char>> {
    if es.len() == 0 {
        seq!["No MPRIS players found"@]
    } else {
        let divider = repeat('─', DIVIDER_WIDTH as nat);
        let head = "MPRIS players: "@ + decimal(es.len()) + " ("@ + decimal(count_where(es, |e: PlayerDisplay| is_playing_allowed(e)))
            + " playing, "@ + decimal(count_where(es, |e: PlayerDisplay| is_paused_allowed(e))) + " paused, "@
            + decimal(count_where(es, |e: PlayerDisplay| is_excluded(e))) + " excluded)"@;
        seq![Seq::<char>::empty(), head, divider] + summary_lines(es)
            + if detailed {
                seq![Seq::<char>::empty(), "Details"@, divider] + details_of(es)
            } else {
                Seq::empty()
            }
    }
}

fn push_line(out: &mut Vec<String>, line: String)
    ensures
        strs(final(out)@) == strs(old(out)@).push(line@),
{
    let ghost prev = strs(out@);
    out.push(line);
    assert(strs(out@) =~= prev.push(line@));
}

fn summary_line_of(e: &PlayerDisplay) -> (r: String)
    ensures
        r@ == summary_line(*e),
{
    let icon = status_icon(e.status, e.config.ignore, e.allowed);
    let title = format_summary_title(
        match &e.title { Some(t) => Some(t.as_str()), None => None },
        match &e.album { Some(a) => Some(a.as_str()), None => None },
    );
    let mut s = concat_str(icon, " ");
    s.append(format_cell(e.identity.as_str(), NAME_COLUMN_WIDTH).as_str());
    s.append(" ");
    s.append(format_cell(title.as_str(), TITLE_COLUMN_WIDTH).as_str());
    s.append(" [");
    s.append(summary_status_text(e.status, e.config.ignore, e.allowed).as_str());
    s.append("]");
    s
}

#[verifier::spinoff_prover]
#[verifier::rlimit(40)]
fn push_details(out: &mut Vec<String>, e: &PlayerDisplay)
    ensures
        strs(final(out)@) == strs(old(out)@) + detail_lines(*e),
{
    let ghost start = strs(out@);
    let mut first = concat_str(status_icon(e.status, e.config.ignore, e.allowed), " ");
    first.append(e.identity.as_str());
    first.append("  [");
    first.append(detail_status_text(e.status, e.config.ignore, e.allowed).as_str());
    first.append("]");
    push_line(out, first);
    let ghost a = strs(out@);
    match &e.title {
        Some(t) => push_line(out, concat_str("  Title    : ", t.as_str())),
        None => {},
    }
    let ghost b = strs(out@);
    match &e.artists {
        Some(a) => if a.len() > 0 {
            push_line(out, concat_str("  Artists  : ", format_artists(a).as_str()));
        },
        None => {},
    }
    let ghost c = strs(out@);
    match &e.album {
        Some(al) => push_line(out, concat_str("  Album    : ", al.as_str())),
        None => {},
    }
    let ghost d = strs(out@);
    match e.length_secs {
        Some(l) => push_line(out, concat_str("  Length   : ", format_track_length(l).as_str())),
        None => {},
    }
    let ghost f = strs(out@);
    push_line(out, concat_str("  Presence : ", format_presence(&e.config, e.allowed).as_str()));
    push_line(out, concat_str("  ID       : ", e.id.as_str()));
    push_line(out, concat_str("  Bus Name : ", e.player_bus_name.as_str()));
    assert(strs(out@) =~= start + detail_lines(*e));
}

/// The lines of the player list.
pub fn players_list_lines(entries: &Vec<PlayerDisplay>, detailed: bool) -> (r: Vec<String>)
    requires
        entries@.len() < u64::MAX,
    ensures
        strs(r@) == players_list_spec(entries@, detailed),
{
    let mut out: Vec<String> = Vec::new();
    if entries.len() == 0 {
        push_line(&mut out, "No MPRIS players found".to_owned());
        assert(strs(out@) =~= seq!["No MPRIS players found"@]);
        return out;
    }
    let ghost es = entries@;
    let mut playing: u64 = 0;
    let mut paused: u64 = 0;
    let mut excluded: u64 = 0;
    let mut i: usize = 0;
    while i < entries.len()
        invariant
            i <= entries@.len(),
            entries@.len() < u64::MAX,
            es == entries@,
            playing == count_where(es.take(i as int), |e: PlayerDisplay| is_playing_allowed(e)),
            paused == count_where(es.take(i as int), |e: PlayerDisplay| is_paused_allowed(e)),
            excluded == count_where(es.take(i as int), |e: PlayerDisplay| is_excluded(e)),
            playing <= i && paused <= i && excluded <= i,
        decreases entries@.len() - i,
    {
        assert(es.take(i + 1).drop_last() =~= es.take(i as int));
        assert(es.take(i + 1).last() == es[i as int]);
        let e = &entries[i];
        if e.allowed && e.status == Some(PlaybackStatus::Playing) {
            playing += 1;
        }
        if e.allowed && e.status == Some(PlaybackStatus::Paused) {
            paused += 1;
        }
        if e.config.ignore || !e.allowed {
            excluded += 1;
        }
        i += 1;
    }
    assert(es.take(entries@.len() as int) =~= es);
    push_line(&mut out, String::new());
    let mut head = concat_str("MPRIS players: ", decimal_string(entries.len() as u64).as_str());
    head.append(" (");
    head.append(decimal_string(playing).as_str());
    head.append(" playing, ");
    head.append(decimal_string(paused).as_str());
    head.append(" paused, ");
    head.append(decimal_string(excluded).as_str());
    head.append(" excluded)");
    push_line(&mut out, head);
    push_line(&mut out, create_divider());
    let ghost before_summary = strs(out@);
    let mut k: usize = 0;
    while k < entries.len()
        invariant
            k <= entries@.len(),
            es == entries@,
            strs(out@) == before_summary + summary_lines(es.take(k as int)),
        decreases entries@.len() - k,
    {
        assert(es.take(k + 1).drop_last() =~= es.take(k as int));
        push_line(&mut out, summary_line_of(&entries[k]));
        k += 1;
    }
    assert(es.take(entries@.len() as int) =~= es);
    let ghost after_summary = strs(out@);
    if detailed {
        push_line(&mut out, String::new());
        push_line(&mut out, "Details".to_owned());
        push_line(&mut out, create_divider());
        let ghost before_details = strs(out@);
        let mut j: usize = 0;
        while j < entries.len()
            invariant
                j <= entries@.len(),
                es == entries@,
                strs(out@) == before_details + details_of(es.take(j as int)),
            decreases entries@.len() - j,
        {
            assert(es.take(j + 1).drop_last() =~= es.take(j as int));
            if j > 0 {
                push_line(&mut out, String::new());
            }
            let ghost mid = strs(out@);
            push_details(&mut out, &entries[j]);
            assert(j == 0 ==> es.take(1)[0] == es[0]);
            assert(strs(out@) =~= before_details + details_of(es.take(j + 1)));
            j += 1;
        }
        assert(es.take(entries@.len() as int) =~= es);
    }
    proof {
        reveal_strlit("");
        assert(""@ =~= Seq::<char>::empty());
    }
    assert(strs(out@) =~= players_list_spec(entries@, detailed));
    out
}

/// A configuration line: the key padded to its column after the indent,
/// then the value.
pub open spec fn kv_line(indent: nat, key: Seq<char>, value: Seq<char>) -> Seq<char> {
    repeat(' ', indent) + pad_right(key, CONFIG_KEY_WIDTH as nat) + ": "@ + value
}

fn kv(indent: usize, key: &str, value: &str) -> (r: String)
    ensures
        r@ == kv_line(indent as nat, key@, value@),
{
    let mut s = repeat_char(' ', indent);
    s.append(pad_to(key, CONFIG_KEY_WIDTH).as_str());
    s.append(": ");
    s.append(value);
    s
}

/// A list of strings as `["a", "b"]`.
pub open spec fn quoted(v: Seq<char>) -> Seq<char> {
    "\""@ + v + "\""@
}

pub open spec fn vector_text(values: Seq<Seq<char>>) -> Seq<char> {
    if values.len() == 0 {
        "[]"@
    } else {
        "["@ + join_seqs(values.map_values(|v: Seq<char>| quoted(v)), ", "@) + "]"@
    }
}

pub fn format_vector(values: &Vec<String>) -> (r: String)
    ensures
        r@ == vector_text(strs(values@)),
{
    if values.len() == 0 {
        return "[]".to_owned();
    }
    let ghost target = strs(values@).map_values(|v: Seq<char>| quoted(v));
    let mut quoted_values: Vec<String> = Vec::new();
    let mut i: usize = 0;
    while i < values.len()
        invariant
            i <= values@.len(),
            target == strs(values@).map_values(|v: Seq<char>| quoted(v)),
            strs(quoted_values@) == target.take(i as int),
        decreases values@.len() - i,
    {
        let mut q = concat_str("\"", values[i].as_str());
        q.append("\"");
        let ghost prev = strs(quoted_values@);
        quoted_values.push(q);
        assert(strs(quoted_values@) =~= prev.push(target[i as int]));
        assert(target.take(i + 1) =~= target.take(i as int).push(target[i as int]));
        i += 1;
    }
    assert(target.take(values@.len() as int) =~= target);
    assert(quoted_values@.map_values(|p: String| p@) =~= strs(quoted_values@));
    let mut s = "[".to_owned();
    s.append(join_strings(quoted_values.as_slice(), ", ").as_str());
    s.append("]");
    s
}

/// An activity type in lower case.
pub open spec fn activity_text(a: ActivityType) -> Seq<char> {
    match a {
        ActivityType::Listening => "listening"@,
        ActivityType::Watching => "watching"@,
        ActivityType::Playing => "playing"@,
        ActivityType::Competing => "competing"@,
    }
}

pub fn format_activity_type(activity: Option<ActivityType>) -> (r: &'static str)
    ensures
        r@ == match activity { Some(a) => activity_text(a), None => "—"@ },
{
    match activity {
        Some(ActivityType::Listening) => "listening",
        Some(ActivityType::Watching) => "watching",
        Some(ActivityType::Playing) => "playing",
        Some(ActivityType::Competing) => "competing",
        None => "—",
    }
}

/// A status display type in lower case.
pub open spec fn display_type_text(d: StatusDisplayType) -> Seq<char> {
    match d {
        StatusDisplayType::Name => "name"@,
        StatusDisplayType::State => "state"@,
        StatusDisplayType::Details => "details"@,
    }
}

pub fn format_status_disp_type(d: StatusDisplayType) -> (r: &'static str)
    ensures
        r@ == display_type_text(d),
{
    match d {
        StatusDisplayType::Name => "name",
        StatusDisplayType::State => "state",
        StatusDisplayType::Details => "details",
    }
}

/// `default` first, then by key.
pub open spec fn key_before(a: Seq<char>, b: Seq<char>) -> bool {
    if a == "default"@ { b != "default"@ } else if b == "default"@ { false } else { lex_less(a, b) }
}

pub open spec fn entry_order() -> spec_fn((Seq<char>, PlayerConfig), (Seq<char>, PlayerConfig)) -> bool {
    |x: (Seq<char>, PlayerConfig), y: (Seq<char>, PlayerConfig)| key_before(x.0, y.0)
}

pub open spec fn entry_views(v: Seq<(String, PlayerConfig)>) -> Seq<(Seq<char>, PlayerConfig)> {
    v.map_values(|p: (String, PlayerConfig)| (p.0@, p.1))
}

fn key_comes_before(a: &str, b: &str) -> (r: bool)
    ensures
        r == key_before(a@, b@),
{
    if str_eq(a, "default") { !str_eq(b, "default") } else if str_eq(b, "default") { false } else { str_less(a, b) }
}

fn copy_config(c: &PlayerConfig) -> (r: PlayerConfig)
    ensures
        r == *c,
{
    PlayerConfig {
        name: match &c.name { Some(n) => Some(n.clone()), None => None },
        ignore: c.ignore,
        app_id: c.app_id.clone(),
        icon: c.icon.clone(),
        show_icon: c.show_icon,
        allow_streaming: c.allow_streaming,
        status_display_type: c.status_display_type,
        override_activity_type: c.override_activity_type,
    }
}

/// The player entries, `default` first, then by key.
pub fn sort_player_configs(entries: &Vec<(String, PlayerConfig)>) -> (r: Vec<(String, PlayerConfig)>)
    ensures
        entry_views(r@) == sort_by(entry_views(entries@), entry_order()),
{
    let ghost vs = entry_views(entries@);
    let mut out: Vec<(String, PlayerConfig)> = Vec::new();
    let mut k: usize = 0;
    while k < entries.len()
        invariant
            k <= entries@.len(),
            vs == entry_views(entries@),
            entry_views(out@) == sort_by(vs.take(k as int), entry_order()),
        decreases entries@.len() - k,
    {
        assert(vs.take(k + 1).drop_last() =~= vs.take(k as int));
        let x = (entries[k].0.clone(), copy_config(&entries[k].1));
        let ghost sv = entry_views(out@);
        let mut j: usize = 0;
        while j < out.len() && !key_comes_before(x.0.as_str(), out[j].0.as_str())
            invariant
                j <= out@.len(),
                sv == entry_views(out@),
                forall|m: int| 0 <= m < j ==> !(entry_order())((x.0@, x.1), #[trigger] sv[m]),
            decreases out@.len() - j,
        {
            j += 1;
        }
        proof { lemma_insert_by_at(sv, (x.0@, x.1), entry_order(), j as int); }
        let ghost xv = (x.0@, x.1);
        out.insert(j, x);
        assert(entry_views(out@) =~= sv.take(j as int) + seq![xv] + sv.skip(j as int));
        k += 1;
    }
    assert(vs.take(entries@.len() as int) =~= vs);
    out
}

/// The name an override is shown under.
pub open spec fn display_name(key: Seq<char>) -> Seq<char> {
    if key == "default"@ { "default"@ } else { normalize_identity(key) }
}

/// The lines of one player entry of the configuration report.
pub open spec fn override_lines(key: Seq<char>, c: PlayerConfig) -> Seq<Seq<char>> {
    seq![
        (if c.ignore { "✖"@ } else { "▶"@ }) + " "@ + display_name(key),
        kv_line(4, "app_id"@, c.app_id@),
        kv_line(4, "allow_streaming"@, bool_text(c.allow_streaming)),
        kv_line(4, "status_disp_type"@, display_type_text(c.status_display_type)),
        kv_line(4, "show_icon"@, bool_text(c.show_icon)),
        kv_line(4, "ignore"@, bool_text(c.ignore)),
        kv_line(4, "icon"@, c.icon@),
    ] + match c.override_activity_type {
        Some(a) => seq![kv_line(4, "activity_type"@, activity_text(a))],
        None => Seq::empty(),
    }
}

/// The player entries' lines, a blank line between two entries.
pub open spec fn overrides_of(es: Seq<(Seq<char>, PlayerConfig)>) -> Seq<Seq<char>>
    decreases es.len(),
{
    if es.len() == 0 {
        Seq::empty()
    } else if es.len() == 1 {
        override_lines(es[0].0, es[0].1)
    } else {
        overrides_of(es.drop_last()) + seq![Seq::<char>::empty()] + override_lines(es.last().0, es.last().1)
    }
}

/// The effective settings the configuration report shows.
#[derive(Debug, Clone)]
pub struct ConfigSummary {
    pub config_path: String,
    pub interval_ms: u64,
    pub clear_on_pause: bool,
    pub allowed_players: Vec<String>,
    pub activity: ActivityTypesConfig,
    pub time: TimeConfig,
    pub cover: CoverConfig,
    pub template: TemplateConfig,
    pub player_configs: Vec<(String, PlayerConfig)>,
}

pub open spec fn header_lines(c: ConfigSummary) -> Seq<Seq<char>> {
    seq![Seq::<char>::empty(), c.config_path@ + " )"@, repeat('─', DIVIDER_WIDTH as nat)]
}

pub open spec fn general_lines(c: ConfigSummary) -> Seq<Seq<char>> {
    seq![
        Seq::<char>::empty(), "General"@,
        kv_line(2, "interval"@, decimal(c.interval_ms as nat) + " ms"@),
        kv_line(2, "clear_on_pause"@, bool_text(c.clear_on_pause)),
        kv_line(2, "config_path"@, c.config_path@),
        kv_line(2, "allowed_players"@, vector_text(strs(c.allowed_players@))),
    ]
}

pub open spec fn activity_time_lines(c: ConfigSummary) -> Seq<Seq<char>> {
    seq![
        Seq::<char>::empty(), "Activity"@,
        kv_line(2, "default_type"@, activity_text(c.activity.default)),
        kv_line(2, "use_content_type"@, bool_text(c.activity.use_content_type)),
        Seq::<char>::empty(), "Time Display"@,
        kv_line(2, "show_time"@, bool_text(c.time.show)),
        kv_line(2, "as_elapsed"@, bool_text(c.time.as_elapsed)),
    ]
}

pub open spec fn cover_lines(c: ConfigSummary) -> Seq<Seq<char>> {
    seq![
        Seq::<char>::empty(), "Cover Art"@,
        kv_line(2, "providers"@, vector_text(strs(c.cover.provider.provider@))),
        kv_line(2, "imgbb_expiration"@, decimal(c.cover.provider.imgbb.expiration as nat) + " s"@),
        kv_line(2, "imgbb_api_key"@, if c.cover.provider.imgbb.api_key is Some { "set"@ } else { "not set"@ }),
        kv_line(2, "mb_min_score"@, decimal(c.cover.provider.musicbrainz.min_score as nat)),
        kv_line(2, "local_search_depth"@, decimal(c.cover.local_search_depth as nat)),
        kv_line(2, "file_names"@, vector_text(strs(c.cover.file_names@))),
    ]
}

pub open spec fn template_lines(c: ConfigSummary) -> Seq<Seq<char>> {
    seq![
        Seq::<char>::empty(), "Templates"@,
        kv_line(2, "detail"@, c.template.details@),
        kv_line(2, "state"@, c.template.state@),
        kv_line(2, "large_text"@, c.template.large_text@),
        kv_line(2, "small_text"@, c.template.small_text@),
    ]
}

/// The settings sections of the report: general, activity, time, cover
/// art and templates.
pub open spec fn settings_lines(c: ConfigSummary) -> Seq<Seq<char>> {
    header_lines(c) + general_lines(c) + activity_time_lines(c) + cover_lines(c) + template_lines(c)
}

/// The configuration report: the settings, then `Overrides Detail`, a
/// divider and each player entry (`default` first, then by key), or
/// `(none)`.
pub open spec fn config_report_spec(c: ConfigSummary) -> Seq<Seq<char>> {
    let sorted = sort_by(entry_views(c.player_configs@), entry_order());
    settings_lines(c) + seq![Seq::<char>::empty(), "Overrides Detail"@, repeat('─', DIVIDER_WIDTH as nat)]
        + if sorted.len() == 0 { seq!["  (none)"@] } else { overrides_of(sorted) }
}

fn push_override(out: &mut Vec<String>, key: &str, c: &PlayerConfig)
    ensures
        strs(final(out)@) == strs(old(out)@) + override_lines(key@, *c),
{
    let ghost start = strs(out@);
    let name = if str_eq(key, "default") { "default".to_owned() } else { normalize_player_identity(key) };
    let icon: &str = if c.ignore { "✖" } else { "▶" };
    let mut first = concat_str(icon, " ");
    first.append(name.as_str());
    push_line(out, first);
    push_line(out, kv(4, "app_id", c.app_id.as_str()));
    push_line(out, kv(4, "allow_streaming", format_bool(c.allow_streaming)));
    push_line(out, kv(4, "status_disp_type", format_status_disp_type(c.status_display_type)));
    push_line(out, kv(4, "show_icon", format_bool(c.show_icon)));
    push_line(out, kv(4, "ignore", format_bool(c.ignore)));
    push_line(out, kv(4, "icon", c.icon.as_str()));
    let ghost mid = strs(out@);
    match c.override_activity_type {
        Some(a) => push_line(out, kv(4, "activity_type", format_activity_type(Some(a)))),
        None => {},
    }
    assert(strs(out@) =~= start + override_lines(key@, *c));
}

fn push_header_general(out: &mut Vec<String>, c: &ConfigSummary)
    ensures
        strs(final(out)@) == strs(old(out)@) + header_lines(*c) + general_lines(*c),
{
    let ghost start = strs(out@);
    push_line(out, String::new());
    push_line(out, concat_str(c.config_path.as_str(), " )"));
    push_line(out, create_divider());
    push_line(out, String::new());
    push_line(out, "General".to_owned());
    push_line(out, kv(2, "interval", concat_str(decimal_string(c.interval_ms).as_str(), " ms").as_str()));
    push_line(out, kv(2, "clear_on_pause", format_bool(c.clear_on_pause)));
    push_line(out, kv(2, "config_path", c.config_path.as_str()));
    push_line(out, kv(2, "allowed_players", format_vector(&c.allowed_players).as_str()));
    proof {
        reveal_strlit("");
        assert(""@ =~= Seq::<char>::empty());
    }
    assert(strs(out@) =~= start + header_lines(*c) + general_lines(*c));
}

fn push_activity_time(out: &mut Vec<String>, c: &ConfigSummary)
    ensures
        strs(final(out)@) == strs(old(out)@) + activity_time_lines(*c),
{
    let ghost start = strs(out@);
    push_line(out, String::new());
    push_line(out, "Activity".to_owned());
    push_line(out, kv(2, "default_type", format_activity_type(Some(c.activity.default))));
    push_line(out, kv(2, "use_content_type", format_bool(c.activity.use_content_type)));
    push_line(out, String::new());
    push_line(out, "Time Display".to_owned());
    push_line(out, kv(2, "show_time", format_bool(c.time.show)));
    push_line(out, kv(2, "as_elapsed", format_bool(c.time.as_elapsed)));
    proof {
        reveal_strlit("");
        assert(""@ =~= Seq::<char>::empty());
    }
    assert(strs(out@) =~= start + activity_time_lines(*c));
}

fn push_cover(out: &mut Vec<String>, c: &ConfigSummary)
    ensures
        strs(final(out)@) == strs(old(out)@) + cover_lines(*c),
{
    let ghost start = strs(out@);
    push_line(out, String::new());
    push_line(out, "Cover Art".to_owned());
    push_line(out, kv(2, "providers", format_vector(&c.cover.provider.provider).as_str()));
    push_line(out, kv(2, "imgbb_expiration", concat_str(decimal_string(c.cover.provider.imgbb.expiration).as_str(), " s").as_str()));
    let key_state: &str = if c.cover.provider.imgbb.api_key.is_some() { "set" } else { "not set" };
    push_line(out, kv(2, "imgbb_api_key", key_state));
    push_line(out, kv(2, "mb_min_score", decimal_string(c.cover.provider.musicbrainz.min_score as u64).as_str()));
    push_line(out, kv(2, "local_search_depth", decimal_string(c.cover.local_search_depth as u64).as_str()));
    push_line(out, kv(2, "file_names", format_vector(&c.cover.file_names).as_str()));
    proof {
        reveal_strlit("");
        assert(""@ =~= Seq::<char>::empty());
    }
    assert(strs(out@) =~= start + cover_lines(*c));
}

fn push_templates(out: &mut Vec<String>, c: &ConfigSummary)
    ensures
        strs(final(out)@) == strs(old(out)@) + template_lines(*c),
{
    let ghost start = strs(out@);
    push_line(out, String::new());
    push_line(out, "Templates".to_owned());
    push_line(out, kv(2, "detail", c.template.details.as_str()));
    push_line(out, kv(2, "state", c.template.state.as_str()));
    push_line(out, kv(2, "large_text", c.template.large_text.as_str()));
    push_line(out, kv(2, "small_text", c.template.small_text.as_str()));
    proof {
        reveal_strlit("");
        assert(""@ =~= Seq::<char>::empty());
    }
    assert(strs(out@) =~= start + template_lines(*c));
}

fn push_settings(out: &mut Vec<String>, c: &ConfigSummary)
    ensures
        strs(final(out)@) == strs(old(out)@) + settings_lines(*c),
{
    let ghost start = strs(out@);
    push_header_general(out, c);
    push_activity_time(out, c);
    push_cover(out, c);
    push_templates(out, c);
    assert(strs(out@) =~= start + settings_lines(*c));
}

/// The lines of the configuration report.
pub fn config_report_lines(c: &ConfigSummary) -> (r: Vec<String>)
    ensures
        strs(r@) == config_report_spec(*c),
{
    let mut out: Vec<String> = Vec::new();
    push_settings(&mut out, c);
    push_line(&mut out, String::new());
    push_line(&mut out, "Overrides Detail".to_owned());
    push_line(&mut out, create_divider());
    let ghost before = strs(out@);
    let sorted = sort_player_configs(&c.player_configs);
    let ghost sv = entry_views(sorted@);
    if sorted.len() == 0 {
        push_line(&mut out, "  (none)".to_owned());
    } else {
        let mut j: usize = 0;
        while j < sorted.len()
            invariant
                j <= sorted@.len(),
                sv == entry_views(sorted@),
                strs(out@) == before + overrides_of(sv.take(j as int)),
            decreases sorted@.len() - j,
        {
            assert(sv.take(j + 1).drop_last() =~= sv.take(j as int));
            if j > 0 {
                push_line(&mut out, String::new());
            }
            push_override(&mut out, sorted[j].0.as_str(), &sorted[j].1);
            assert(j == 0 ==> sv.take(1)[0] == sv[0]);
            assert(strs(out@) =~= before + overrides_of(sv.take(j + 1)));
            j += 1;
        }
        assert(sv.take(sorted@.len() as int) =~= sv);
    }
    proof {
        reveal_strlit("");
        assert(""@ =~= Seq::<char>::empty());
    }
    assert(strs(out@) =~= config_report_spec(*c));
    out
}

/// The command line: an optional command.
#[derive(Debug, Clone)]
pub struct Cli {
    pub command: Option<Command>,
}

/// A command of the command line.
#[derive(Debug, Clone)]
pub enum Command {
    Players { command: PlayersCommand },
    Config,
    Version { command: Option<VersionCommand> },
}

/// A command about players.
#[derive(Debug, Clone)]
pub enum PlayersCommand {
    List { detailed: bool },
}

/// A command about versions.
#[derive(Debug, Clone)]
pub enum VersionCommand {
    Validate { version: String },
}

/// A table cell is exactly as wide as its column, whatever the value.
pub proof fn law_cell_fills_column(v: Seq<char>, width: nat)
    requires
        width > 0,
    ensures
        cell(v, width).len() == width,
        truncated(v, width).len() <= width,
{
    reveal_strlit("...");
}

} // verus!
