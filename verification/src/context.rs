//! The values a track offers to the activity templates: from the player,
//! from its metadata, from the file's tag and from the audio properties,
//! each under its template name.
use vstd::prelude::*;
use crate::cover::cache::strs;
use crate::health::PlaybackStatus;
use crate::report::{format_track_length, track_length_spec};
use crate::text::{concat_str, decimal, decimal_string, join_seqs, join_strings};

verus! {

broadcast use vstd::string::group_string_axioms;

/// What the player reports: its identity, the position in seconds, its
/// status, and its volume in percent.
#[derive(Debug, Clone)]
pub struct PlayerInfo {
    pub identity: String,
    pub position_secs: u64,
    pub status: Option<PlaybackStatus>,
    pub volume_percent: Option<u8>,
}

/// What the track's metadata holds (the rating already written out, the
/// length in seconds).
#[derive(Debug, Clone)]
pub struct MetadataInfo {
    pub album_artists: Option<Vec<String>>,
    pub album_name: Option<String>,
    pub artists: Option<Vec<String>>,
    pub auto_rating: Option<String>,
    pub disc_number: Option<i32>,
    pub length_secs: Option<u64>,
    pub title: Option<String>,
    pub track_number: Option<i32>,
}

/// The text items of the file's tag.
#[derive(Debug, Clone, Default)]
pub struct TagInfo {
    pub album_artist: Option<String>,
    pub album_title: Option<String>,
    pub arranger: Option<String>,
    pub bpm: Option<String>,
    pub catalog_number: Option<String>,
    pub color: Option<String>,
    pub composer: Option<String>,
    pub conductor: Option<String>,
    pub director: Option<String>,
    pub disc_number: Option<String>,
    pub disc_total: Option<String>,
    pub encoded_by: Option<String>,
    pub genre: Option<String>,
    pub label: Option<String>,
    pub language: Option<String>,
    pub lyricist: Option<String>,
    pub mix_dj: Option<String>,
    pub mix_engineer: Option<String>,
    pub mood: Option<String>,
    pub performer: Option<String>,
    pub producer: Option<String>,
    pub publisher: Option<String>,
    pub recording_date: Option<String>,
    pub track_artist: Option<String>,
    pub track_number: Option<String>,
    pub track_title: Option<String>,
    pub track_total: Option<String>,
    pub year: Option<String>,
}

/// The audio properties of the file.
#[derive(Debug, Clone, Copy)]
pub struct AudioProperties {
    pub audio_bitrate: Option<u32>,
    pub bit_depth: Option<u8>,
    pub channels: Option<u8>,
    pub overall_bitrate: Option<u32>,
    pub sample_rate: Option<u32>,
}

/// A number as `Display` writes it.
pub open spec fn signed_decimal(n: int) -> Seq<char> {
    if n < 0 { seq!['-'] + decimal((-n) as nat) } else { decimal(n as nat) }
}

fn signed_decimal_string(n: i32) -> (r: String)
    ensures
        r@ == signed_decimal(n as int),
{
    proof {
        reveal_strlit("-");
        assert("-"@ =~= seq!['-']);
    }
    if n < 0 {
        let m: u64 = if n == i32::MIN { 2147483648 } else { (-n) as u64 };
        concat_str("-", decimal_string(m).as_str())
    } else {
        decimal_string(n as u64)
    }
}

pub type Entry = (Seq<char>, Seq<char>);

pub open spec fn opt_entry(name: Seq<char>, v: Option<String>) -> Seq<Entry> {
    match v {
        Some(s) => seq![(name, s@)],
        None => Seq::empty(),
    }
}

/// The player's values: identity, position, status and its icon, volume.
pub open spec fn player_entries(p: PlayerInfo) -> Seq<Entry> {
    seq![("player"@, p.identity@), ("position"@, track_length_spec(p.position_secs as nat))]
        + match p.status {
            Some(PlaybackStatus::Playing) => seq![("status"@, "playing"@), ("status_icon"@, "▶"@)],
            Some(PlaybackStatus::Paused) => seq![("status"@, "paused"@), ("status_icon"@, "⏸"@)],
            Some(PlaybackStatus::Stopped) => seq![("status"@, "stopped"@), ("status_icon"@, "⏹"@)],
            None => Seq::empty(),
        }
        + match p.volume_percent {
            Some(v) => seq![("volume"@, decimal(v as nat))],
            None => Seq::empty(),
        }
}

pub open spec fn joined_entry(name: Seq<char>, v: Option<Vec<String>>) -> Seq<Entry> {
    match v {
        Some(list) => seq![(name, join_seqs(strs(list@), ", "@))],
        None => Seq::empty(),
    }
}

/// The metadata's values, names joined by `, `, the length as `mm:ss`.
pub open spec fn metadata_entries(m: MetadataInfo) -> Seq<Entry> {
    joined_entry("album_artists"@, m.album_artists)
        + opt_entry("album_name"@, m.album_name)
        + joined_entry("artists"@, m.artists)
        + opt_entry("auto_rating"@, m.auto_rating)
        + match m.disc_number { Some(d) => seq![("disc_number"@, signed_decimal(d as int))], None => Seq::empty() }
        + match m.length_secs { Some(l) => seq![("length"@, track_length_spec(l as nat))], None => Seq::empty() }
        + opt_entry("title"@, m.title)
        + match m.track_number { Some(t) => seq![("track_number"@, signed_decimal(t as int))], None => Seq::empty() }
}

/// The first part of the tag's values.
pub open spec fn tag_entries_first(t: TagInfo) -> Seq<Entry> {
    opt_entry("album_artists"@, t.album_artist)
        + opt_entry("album_name"@, t.album_title)
        + opt_entry("arranger"@, t.arranger)
        + opt_entry("bpm"@, t.bpm)
        + opt_entry("catalog_number"@, t.catalog_number)
        + opt_entry("color"@, t.color)
        + opt_entry("composer"@, t.composer)
        + opt_entry("conductor"@, t.conductor)
        + opt_entry("director"@, t.director)
        + opt_entry("disc_number"@, t.disc_number)
        + opt_entry("disc_total"@, t.disc_total)
        + opt_entry("encoded_by"@, t.encoded_by)
        + opt_entry("genre"@, t.genre)
        + opt_entry("label"@, t.label)
        + opt_entry("language"@, t.language)
}

/// The second part of the tag's values.
pub open spec fn tag_entries_second(t: TagInfo) -> Seq<Entry> {
    opt_entry("language"@, t.language)
        + opt_entry("lyricist"@, t.lyricist)
        + opt_entry("mix_dj"@, t.mix_dj)
        + opt_entry("mix_engineer"@, t.mix_engineer)
        + opt_entry("mood"@, t.mood)
        + opt_entry("perfomer"@, t.performer)
        + opt_entry("producer"@, t.producer)
        + opt_entry("publisher"@, t.publisher)
        + opt_entry("recording_date"@, t.recording_date)
        + opt_entry("artists"@, t.track_artist)
        + opt_entry("track_number"@, t.track_number)
        + opt_entry("title"@, t.track_title)
        + opt_entry("track_total"@, t.track_total)
        + opt_entry("year"@, t.year)
}

/// The tag's values under their template names (the performer is named
/// `perfomer`, the track artist `artists`, the track title `title`).
pub open spec fn tag_entries(t: TagInfo) -> Seq<Entry> {
    tag_entries_first(t) + tag_entries_second(t)
}

pub open spec fn num_entry(name: Seq<char>, v: Option<u32>) -> Seq<Entry> {
    match v {
        Some(n) => seq![(name, decimal(n as nat))],
        None => Seq::empty(),
    }
}

/// The audio properties' values.
pub open spec fn property_entries(p: AudioProperties) -> Seq<Entry> {
    num_entry("audio_bitrate"@, p.audio_bitrate)
        + num_entry("bit_depth"@, match p.bit_depth { Some(b) => Some(b as u32), None => None })
        + num_entry("channels"@, match p.channels { Some(c) => Some(c as u32), None => None })
        + num_entry("overall_bitrate"@, p.overall_bitrate)
        + num_entry("sample_rate"@, p.sample_rate)
}

/// The template values, in the order they are set: player, metadata, tag,
/// properties; a later value of a name replaces an earlier one.
pub open spec fn context_entries(
    player: Option<PlayerInfo>,
    metadata: Option<MetadataInfo>,
    tag: Option<TagInfo>,
    properties: Option<AudioProperties>,
) -> Seq<Entry> {
    (match player { Some(p) => player_entries(p), None => Seq::empty() })
        + (match metadata { Some(m) => metadata_entries(m), None => Seq::empty() })
        + (match tag { Some(t) => tag_entries(t), None => Seq::empty() })
        + (match properties { Some(p) => property_entries(p), None => Seq::empty() })
}

/// The template data: each name with the last value set for it.
pub open spec fn data_map(es: Seq<Entry>) -> Map<Seq<char>, Seq<char>>
    decreases es.len(),
{
    if es.len() == 0 { Map::empty() } else { data_map(es.drop_last()).insert(es.last().0, es.last().1) }
}

pub open spec fn entry_views(v: Seq<(String, String)>) -> Seq<Entry> {
    v.map_values(|p: (String, String)| (p.0@, p.1@))
}

fn put(out: &mut Vec<(String, String)>, name: &str, value: String)
    ensures
        entry_views(final(out)@) == entry_views(old(out)@).push((name@, value@)),
{
    let ghost prev = entry_views(out@);
    let ghost v = value@;
    out.push((name.to_owned(), value));
    assert(entry_views(out@) =~= prev.push((name@, v)));
}

fn put_opt(out: &mut Vec<(String, String)>, name: &str, value: &Option<String>)
    ensures
        entry_views(final(out)@) == entry_views(old(out)@) + opt_entry(name@, *value),
{
    let ghost prev = entry_views(out@);
    match value {
        Some(s) => put(out, name, s.clone()),
        None => {},
    }
    assert(entry_views(out@) =~= prev + opt_entry(name@, *value));
}

fn put_num(out: &mut Vec<(String, String)>, name: &str, value: Option<u32>)
    ensures
        entry_views(final(out)@) == entry_views(old(out)@) + num_entry(name@, value),
{
    let ghost prev = entry_views(out@);
    match value {
        Some(n) => put(out, name, decimal_string(n as u64)),
        None => {},
    }
    assert(entry_views(out@) =~= prev + num_entry(name@, value));
}

fn put_joined(out: &mut Vec<(String, String)>, name: &str, value: &Option<Vec<String>>)
    ensures
        entry_views(final(out)@) == entry_views(old(out)@) + joined_entry(name@, *value),
{
    let ghost prev = entry_views(out@);
    match value {
        Some(list) => {
            assert(list@.map_values(|p: String| p@) =~= strs(list@));
            put(out, name, join_strings(list.as_slice(), ", "));
        },
        None => {},
    }
    assert(entry_views(out@) =~= prev + joined_entry(name@, *value));
}

fn put_player(out: &mut Vec<(String, String)>, p: &PlayerInfo)
    ensures
        entry_views(final(out)@) == entry_views(old(out)@) + player_entries(*p),
{
    let ghost start = entry_views(out@);
    put(out, "player", p.identity.clone());
    put(out, "position", format_track_length(p.position_secs));
    let ghost a = entry_views(out@);
    match p.status {
        Some(PlaybackStatus::Playing) => {
            put(out, "status", "playing".to_owned());
            put(out, "status_icon", "▶".to_owned());
        },
        Some(PlaybackStatus::Paused) => {
            put(out, "status", "paused".to_owned());
            put(out, "status_icon", "⏸".to_owned());
        },
        Some(PlaybackStatus::Stopped) => {
            put(out, "status", "stopped".to_owned());
            put(out, "status_icon", "⏹".to_owned());
        },
        None => {},
    }
    let ghost b = entry_views(out@);
    match p.volume_percent {
        Some(v) => put(out, "volume", decimal_string(v as u64)),
        None => {},
    }
    assert(entry_views(out@) =~= start + player_entries(*p));
}

fn put_metadata(out: &mut Vec<(String, String)>, m: &MetadataInfo)
    ensures
        entry_views(final(out)@) == entry_views(old(out)@) + metadata_entries(*m),
{
    let ghost start = entry_views(out@);
    let ghost p1 = joined_entry("album_artists"@, m.album_artists);
    let ghost p2 = p1 + opt_entry("album_name"@, m.album_name);
    let ghost p3 = p2 + joined_entry("artists"@, m.artists);
    let ghost p4 = p3 + opt_entry("auto_rating"@, m.auto_rating);
    let ghost p5 = p4 + match m.disc_number { Some(d) => seq![("disc_number"@, signed_decimal(d as int))], None => Seq::<Entry>::empty() };
    let ghost p6 = p5 + match m.length_secs { Some(l) => seq![("length"@, track_length_spec(l as nat))], None => Seq::<Entry>::empty() };
    let ghost p7 = p6 + opt_entry("title"@, m.title);
    let ghost p8 = p7 + match m.track_number { Some(t) => seq![("track_number"@, signed_decimal(t as int))], None => Seq::<Entry>::empty() };
    put_joined(out, "album_artists", &m.album_artists);
    assert(entry_views(out@) =~= start + p1);
    put_opt(out, "album_name", &m.album_name);
    assert(entry_views(out@) =~= start + p2);
    put_joined(out, "artists", &m.artists);
    assert(entry_views(out@) =~= start + p3);
    put_opt(out, "auto_rating", &m.auto_rating);
    assert(entry_views(out@) =~= start + p4);
    match m.disc_number {
        Some(d) => put(out, "disc_number", signed_decimal_string(d)),
        None => {},
    }
    assert(entry_views(out@) =~= start + p5);
    match m.length_secs {
        Some(l) => put(out, "length", format_track_length(l)),
        None => {},
    }
    assert(entry_views(out@) =~= start + p6);
    put_opt(out, "title", &m.title);
    assert(entry_views(out@) =~= start + p7);
    match m.track_number {
        Some(t) => put(out, "track_number", signed_decimal_string(t)),
        None => {},
    }
    assert(entry_views(out@) =~= start + p8);
    assert(p8 == metadata_entries(*m));
}

fn put_tag_first(out: &mut Vec<(String, String)>, t: &TagInfo)
    ensures
        entry_views(final(out)@) == entry_views(old(out)@) + tag_entries_first(*t),
{
    let ghost start = entry_views(out@);
    put_opt(out, "album_artists", &t.album_artist);
    assert(entry_views(out@) =~= start + opt_entry("album_artists"@, t.album_artist));
    put_opt(out, "album_name", &t.album_title);
    assert(entry_views(out@) =~= start + (opt_entry("album_artists"@, t.album_artist) + opt_entry("album_name"@, t.album_title)));
    put_opt(out, "arranger", &t.arranger);
    assert(entry_views(out@) =~= start + (opt_entry("album_artists"@, t.album_artist) + opt_entry("album_name"@, t.album_title) + opt_entry("arranger"@, t.arranger)));
    put_opt(out, "bpm", &t.bpm);
    assert(entry_views(out@) =~= start + (opt_entry("album_artists"@, t.album_artist) + opt_entry("album_name"@, t.album_title) + opt_entry("arranger"@, t.arranger) + opt_entry("bpm"@, t.bpm)));
    put_opt(out, "catalog_number", &t.catalog_number);
    assert(entry_views(out@) =~= start + (opt_entry("album_artists"@, t.album_artist) + opt_entry("album_name"@, t.album_title) + opt_entry("arranger"@, t.arranger) + opt_entry("bpm"@, t.bpm) + opt_entry("catalog_number"@, t.catalog_number)));
    put_opt(out, "color", &t.color);
    assert(entry_views(out@) =~= start + (opt_entry("album_artists"@, t.album_artist) + opt_entry("album_name"@, t.album_title) + opt_entry("arranger"@, t.arranger) + opt_entry("bpm"@, t.bpm) + opt_entry("catalog_number"@, t.catalog_number) + opt_entry("color"@, t.color)));
    put_opt(out, "composer", &t.composer);
    assert(entry_views(out@) =~= start + (opt_entry("album_artists"@, t.album_artist) + opt_entry("album_name"@, t.album_title) + opt_entry("arranger"@, t.arranger) + opt_entry("bpm"@, t.bpm) + opt_entry("catalog_number"@, t.catalog_number) + opt_entry("color"@, t.color) + opt_entry("composer"@, t.composer)));
    put_opt(out, "conductor", &t.conductor);
    assert(entry_views(out@) =~= start + (opt_entry("album_artists"@, t.album_artist) + opt_entry("album_name"@, t.album_title) + opt_entry("arranger"@, t.arranger) + opt_entry("bpm"@, t.bpm) + opt_entry("catalog_number"@, t.catalog_number) + opt_entry("color"@, t.color) + opt_entry("composer"@, t.composer) + opt_entry("conductor"@, t.conductor)));
    put_opt(out, "director", &t.director);
    assert(entry_views(out@) =~= start + (opt_entry("album_artists"@, t.album_artist) + opt_entry("album_name"@, t.album_title) + opt_entry("arranger"@, t.arranger) + opt_entry("bpm"@, t.bpm) + opt_entry("catalog_number"@, t.catalog_number) + opt_entry("color"@, t.color) + opt_entry("composer"@, t.composer) + opt_entry("conductor"@, t.conductor) + opt_entry("director"@, t.director)));
    put_opt(out, "disc_number", &t.disc_number);
    assert(entry_views(out@) =~= start + (opt_entry("album_artists"@, t.album_artist) + opt_entry("album_name"@, t.album_title) + opt_entry("arranger"@, t.arranger) + opt_entry("bpm"@, t.bpm) + opt_entry("catalog_number"@, t.catalog_number) + opt_entry("color"@, t.color) + opt_entry("composer"@, t.composer) + opt_entry("conductor"@, t.conductor) + opt_entry("director"@, t.director) + opt_entry("disc_number"@, t.disc_number)));
    put_opt(out, "disc_total", &t.disc_total);
    assert(entry_views(out@) =~= start + (opt_entry("album_artists"@, t.album_artist) + opt_entry("album_name"@, t.album_title) + opt_entry("arranger"@, t.arranger) + opt_entry("bpm"@, t.bpm) + opt_entry("catalog_number"@, t.catalog_number) + opt_entry("color"@, t.color) + opt_entry("composer"@, t.composer) + opt_entry("conductor"@, t.conductor) + opt_entry("director"@, t.director) + opt_entry("disc_number"@, t.disc_number) + opt_entry("disc_total"@, t.disc_total)));
    put_opt(out, "encoded_by", &t.encoded_by);
    assert(entry_views(out@) =~= start + (opt_entry("album_artists"@, t.album_artist) + opt_entry("album_name"@, t.album_title) + opt_entry("arranger"@, t.arranger) + opt_entry("bpm"@, t.bpm) + opt_entry("catalog_number"@, t.catalog_number) + opt_entry("color"@, t.color) + opt_entry("composer"@, t.composer) + opt_entry("conductor"@, t.conductor) + opt_entry("director"@, t.director) + opt_entry("disc_number"@, t.disc_number) + opt_entry("disc_total"@, t.disc_total) + opt_entry("encoded_by"@, t.encoded_by)));
    put_opt(out, "genre", &t.genre);
    assert(entry_views(out@) =~= start + (opt_entry("album_artists"@, t.album_artist) + opt_entry("album_name"@, t.album_title) + opt_entry("arranger"@, t.arranger) + opt_entry("bpm"@, t.bpm) + opt_entry("catalog_number"@, t.catalog_number) + opt_entry("color"@, t.color) + opt_entry("composer"@, t.composer) + opt_entry("conductor"@, t.conductor) + opt_entry("director"@, t.director) + opt_entry("disc_number"@, t.disc_number) + opt_entry("disc_total"@, t.disc_total) + opt_entry("encoded_by"@, t.encoded_by) + opt_entry("genre"@, t.genre)));
    put_opt(out, "label", &t.label);
    assert(entry_views(out@) =~= start + (opt_entry("album_artists"@, t.album_artist) + opt_entry("album_name"@, t.album_title) + opt_entry("arranger"@, t.arranger) + opt_entry("bpm"@, t.bpm) + opt_entry("catalog_number"@, t.catalog_number) + opt_entry("color"@, t.color) + opt_entry("composer"@, t.composer) + opt_entry("conductor"@, t.conductor) + opt_entry("director"@, t.director) + opt_entry("disc_number"@, t.disc_number) + opt_entry("disc_total"@, t.disc_total) + opt_entry("encoded_by"@, t.encoded_by) + opt_entry("genre"@, t.genre) + opt_entry("label"@, t.label)));
    put_opt(out, "language", &t.language);
    assert(entry_views(out@) =~= start + (opt_entry("album_artists"@, t.album_artist) + opt_entry("album_name"@, t.album_title) + opt_entry("arranger"@, t.arranger) + opt_entry("bpm"@, t.bpm) + opt_entry("catalog_number"@, t.catalog_number) + opt_entry("color"@, t.color) + opt_entry("composer"@, t.composer) + opt_entry("conductor"@, t.conductor) + opt_entry("director"@, t.director) + opt_entry("disc_number"@, t.disc_number) + opt_entry("disc_total"@, t.disc_total) + opt_entry("encoded_by"@, t.encoded_by) + opt_entry("genre"@, t.genre) + opt_entry("label"@, t.label) + opt_entry("language"@, t.language)));
}

fn put_tag_second(out: &mut Vec<(String, String)>, t: &TagInfo)
    ensures
        entry_views(final(out)@) == entry_views(old(out)@) + tag_entries_second(*t),
{
    let ghost start = entry_views(out@);
    put_opt(out, "language", &t.language);
    assert(entry_views(out@) =~= start + opt_entry("language"@, t.language));
    put_opt(out, "lyricist", &t.lyricist);
    assert(entry_views(out@) =~= start + (opt_entry("language"@, t.language) + opt_entry("lyricist"@, t.lyricist)));
    put_opt(out, "mix_dj", &t.mix_dj);
    assert(entry_views(out@) =~= start + (opt_entry("language"@, t.language) + opt_entry("lyricist"@, t.lyricist) + opt_entry("mix_dj"@, t.mix_dj)));
    put_opt(out, "mix_engineer", &t.mix_engineer);
    assert(entry_views(out@) =~= start + (opt_entry("language"@, t.language) + opt_entry("lyricist"@, t.lyricist) + opt_entry("mix_dj"@, t.mix_dj) + opt_entry("mix_engineer"@, t.mix_engineer)));
    put_opt(out, "mood", &t.mood);
    assert(entry_views(out@) =~= start + (opt_entry("language"@, t.language) + opt_entry("lyricist"@, t.lyricist) + opt_entry("mix_dj"@, t.mix_dj) + opt_entry("mix_engineer"@, t.mix_engineer) + opt_entry("mood"@, t.mood)));
    put_opt(out, "perfomer", &t.performer);
    assert(entry_views(out@) =~= start + (opt_entry("language"@, t.language) + opt_entry("lyricist"@, t.lyricist) + opt_entry("mix_dj"@, t.mix_dj) + opt_entry("mix_engineer"@, t.mix_engineer) + opt_entry("mood"@, t.mood) + opt_entry("perfomer"@, t.performer)));
    put_opt(out, "producer", &t.producer);
    assert(entry_views(out@) =~= start + (opt_entry("language"@, t.language) + opt_entry("lyricist"@, t.lyricist) + opt_entry("mix_dj"@, t.mix_dj) + opt_entry("mix_engineer"@, t.mix_engineer) + opt_entry("mood"@, t.mood) + opt_entry("perfomer"@, t.performer) + opt_entry("producer"@, t.producer)));
    put_opt(out, "publisher", &t.publisher);
    assert(entry_views(out@) =~= start + (opt_entry("language"@, t.language) + opt_entry("lyricist"@, t.lyricist) + opt_entry("mix_dj"@, t.mix_dj) + opt_entry("mix_engineer"@, t.mix_engineer) + opt_entry("mood"@, t.mood) + opt_entry("perfomer"@, t.performer) + opt_entry("producer"@, t.producer) + opt_entry("publisher"@, t.publisher)));
    put_opt(out, "recording_date", &t.recording_date);
    assert(entry_views(out@) =~= start + (opt_entry("language"@, t.language) + opt_entry("lyricist"@, t.lyricist) + opt_entry("mix_dj"@, t.mix_dj) + opt_entry("mix_engineer"@, t.mix_engineer) + opt_entry("mood"@, t.mood) + opt_entry("perfomer"@, t.performer) + opt_entry("producer"@, t.producer) + opt_entry("publisher"@, t.publisher) + opt_entry("recording_date"@, t.recording_date)));
    put_opt(out, "artists", &t.track_artist);
    assert(entry_views(out@) =~= start + (opt_entry("language"@, t.language) + opt_entry("lyricist"@, t.lyricist) + opt_entry("mix_dj"@, t.mix_dj) + opt_entry("mix_engineer"@, t.mix_engineer) + opt_entry("mood"@, t.mood) + opt_entry("perfomer"@, t.performer) + opt_entry("producer"@, t.producer) + opt_entry("publisher"@, t.publisher) + opt_entry("recording_date"@, t.recording_date) + opt_entry("artists"@, t.track_artist)));
    put_opt(out, "track_number", &t.track_number);
    assert(entry_views(out@) =~= start + (opt_entry("language"@, t.language) + opt_entry("lyricist"@, t.lyricist) + opt_entry("mix_dj"@, t.mix_dj) + opt_entry("mix_engineer"@, t.mix_engineer) + opt_entry("mood"@, t.mood) + opt_entry("perfomer"@, t.performer) + opt_entry("producer"@, t.producer) + opt_entry("publisher"@, t.publisher) + opt_entry("recording_date"@, t.recording_date) + opt_entry("artists"@, t.track_artist) + opt_entry("track_number"@, t.track_number)));
    put_opt(out, "title", &t.track_title);
    assert(entry_views(out@) =~= start + (opt_entry("language"@, t.language) + opt_entry("lyricist"@, t.lyricist) + opt_entry("mix_dj"@, t.mix_dj) + opt_entry("mix_engineer"@, t.mix_engineer) + opt_entry("mood"@, t.mood) + opt_entry("perfomer"@, t.performer) + opt_entry("producer"@, t.producer) + opt_entry("publisher"@, t.publisher) + opt_entry("recording_date"@, t.recording_date) + opt_entry("artists"@, t.track_artist) + opt_entry("track_number"@, t.track_number) + opt_entry("title"@, t.track_title)));
    put_opt(out, "track_total", &t.track_total);
    assert(entry_views(out@) =~= start + (opt_entry("language"@, t.language) + opt_entry("lyricist"@, t.lyricist) + opt_entry("mix_dj"@, t.mix_dj) + opt_entry("mix_engineer"@, t.mix_engineer) + opt_entry("mood"@, t.mood) + opt_entry("perfomer"@, t.performer) + opt_entry("producer"@, t.producer) + opt_entry("publisher"@, t.publisher) + opt_entry("recording_date"@, t.recording_date) + opt_entry("artists"@, t.track_artist) + opt_entry("track_number"@, t.track_number) + opt_entry("title"@, t.track_title) + opt_entry("track_total"@, t.track_total)));
    put_opt(out, "year", &t.year);
    assert(entry_views(out@) =~= start + (opt_entry("language"@, t.language) + opt_entry("lyricist"@, t.lyricist) + opt_entry("mix_dj"@, t.mix_dj) + opt_entry("mix_engineer"@, t.mix_engineer) + opt_entry("mood"@, t.mood) + opt_entry("perfomer"@, t.performer) + opt_entry("producer"@, t.producer) + opt_entry("publisher"@, t.publisher) + opt_entry("recording_date"@, t.recording_date) + opt_entry("artists"@, t.track_artist) + opt_entry("track_number"@, t.track_number) + opt_entry("title"@, t.track_title) + opt_entry("track_total"@, t.track_total) + opt_entry("year"@, t.year)));
}

fn put_tag(out: &mut Vec<(String, String)>, t: &TagInfo)
    ensures
        entry_views(final(out)@) == entry_views(old(out)@) + tag_entries(*t),
{
    let ghost start = entry_views(out@);
    put_tag_first(out, t);
    put_tag_second(out, t);
    assert(entry_views(out@) =~= start + tag_entries(*t));
}

fn put_properties(out: &mut Vec<(String, String)>, p: &AudioProperties)
    ensures
        entry_views(final(out)@) == entry_views(old(out)@) + property_entries(*p),
{
    let ghost start = entry_views(out@);
    put_num(out, "audio_bitrate", p.audio_bitrate);
    put_num(out, "bit_depth", match p.bit_depth { Some(b) => Some(b as u32), None => None });
    put_num(out, "channels", match p.channels { Some(c) => Some(c as u32), None => None });
    put_num(out, "overall_bitrate", p.overall_bitrate);
    put_num(out, "sample_rate", p.sample_rate);
    assert(entry_views(out@) =~= start + property_entries(*p));
}

/// The template values of a track, in the order they are set; the data
/// is `data_map` of them.
pub fn context_data(
    player: &Option<PlayerInfo>,
    metadata: &Option<MetadataInfo>,
    tag: &Option<TagInfo>,
    properties: &Option<AudioProperties>,
) -> (r: Vec<(String, String)>)
    ensures
        entry_views(r@) == context_entries(*player, *metadata, *tag, *properties),
{
    let mut out: Vec<(String, String)> = Vec::new();
    assert(entry_views(out@) =~= Seq::<Entry>::empty());
    match player {
        Some(p) => put_player(&mut out, p),
        None => {},
    }
    let ghost a = entry_views(out@);
    match metadata {
        Some(m) => put_metadata(&mut out, m),
        None => {},
    }
    let ghost b = entry_views(out@);
    match tag {
        Some(t) => put_tag(&mut out, t),
        None => {},
    }
    let ghost c = entry_views(out@);
    match properties {
        Some(p) => put_properties(&mut out, p),
        None => {},
    }
    assert(entry_views(out@) =~= context_entries(*player, *metadata, *tag, *properties));
    out
}

/// A player's playback status reaches the template data as its own word
/// and icon: `playing` with ▶, `paused` with ⏸, `stopped` with ⏹, whatever
/// else the track carries.
pub proof fn law_status_word_and_icon(
    p: PlayerInfo,
    m: Option<MetadataInfo>,
    t: Option<TagInfo>,
    pr: Option<AudioProperties>,
)
    ensures
        p.status == Some(PlaybackStatus::Playing) ==> context_entries(Some(p), m, t, pr).contains(("status"@, "playing"@))
            && context_entries(Some(p), m, t, pr).contains(("status_icon"@, "▶"@)),
        p.status == Some(PlaybackStatus::Paused) ==> context_entries(Some(p), m, t, pr).contains(("status"@, "paused"@))
            && context_entries(Some(p), m, t, pr).contains(("status_icon"@, "⏸"@)),
        p.status == Some(PlaybackStatus::Stopped) ==> context_entries(Some(p), m, t, pr).contains(("status"@, "stopped"@))
            && context_entries(Some(p), m, t, pr).contains(("status_icon"@, "⏹"@)),
        p.status is None ==> !context_entries(Some(p), None, None, None).contains(("status"@, "playing"@)),
{
    let es = context_entries(Some(p), m, t, pr);
    let pe = player_entries(p);
    if p.status is Some {
        assert(es[2] == pe[2]);
        assert(es[3] == pe[3]);
    } else {
        let es0 = context_entries(Some(p), None, None, None);
        reveal_strlit("status");
        reveal_strlit("player");
        reveal_strlit("position");
        reveal_strlit("volume");
        if es0.contains(("status"@, "playing"@)) {
            let i = choose|i: int| 0 <= i < es0.len() && es0[i] == ("status"@, "playing"@);
            assert(es0 =~= pe);
            assert(pe[i].0 == "status"@);
            if i == 0 {
                assert(pe[0].0 == "player"@);
                assert("player"@[0] != "status"@[0]);
            } else if i == 1 {
                assert(pe[1].0 == "position"@);
                assert("position"@[0] == 'p');
                assert("status"@[0] == 's');
            } else {
                assert(pe[2].0 == "volume"@);
                assert("volume"@[0] != "status"@[0]);
            }
        }
    }
}

/// The template data names the player by its identity, gives its
/// position as `mm:ss`, and its volume when it reports one.
pub proof fn law_player_values(
    p: PlayerInfo,
    m: Option<MetadataInfo>,
    t: Option<TagInfo>,
    pr: Option<AudioProperties>,
)
    ensures
        context_entries(Some(p), m, t, pr).contains(("player"@, p.identity@)),
        context_entries(Some(p), m, t, pr).contains(("position"@, track_length_spec(p.position_secs as nat))),
        p.volume_percent matches Some(v) ==> context_entries(Some(p), m, t, pr).contains(("volume"@, decimal(v as nat))),
{
    let es = context_entries(Some(p), m, t, pr);
    let pe = player_entries(p);
    assert(es[0] == pe[0]);
    assert(es[1] == pe[1]);
    if p.volume_percent is Some {
        let k: int = if p.status is Some { 4 } else { 2 };
        assert(es[k] == pe[k]);
    }
}

} // verus!
