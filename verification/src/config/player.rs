//! Per-player settings in their unresolved form: each field may be unset,
//! and an unset field reads as that of the `default` entry.
use vstd::prelude::*;
use crate::config::{DEFAULT_PLAYER_APP_ID, DEFAULT_PLAYER_ICON};
use crate::text::{normalize_identity, normalize_player_identity, opt_view, str_eq};

verus! {

broadcast use vstd::string::group_string_axioms;

/// Settings of one player as written, every field but `ignore` optional.
#[derive(Debug, Clone)]
pub struct PlayerConfig {
    pub app_id: Option<String>,
    pub icon: Option<String>,
    pub ignore: bool,
    pub show_icon: Option<bool>,
    pub allow_streaming: Option<bool>,
}

impl Default for PlayerConfig {
    /// The built-in settings: the default application id and icon, not
    /// ignored, no icon, no streams.
    fn default() -> (r: Self)
        ensures
            opt_view(r.app_id) == Some(DEFAULT_PLAYER_APP_ID@),
            opt_view(r.icon) == Some(DEFAULT_PLAYER_ICON@),
            !r.ignore,
            r.show_icon == Some(false),
            r.allow_streaming == Some(false),
    {
        PlayerConfig {
            app_id: Some(DEFAULT_PLAYER_APP_ID.to_owned()),
            icon: Some(DEFAULT_PLAYER_ICON.to_owned()),
            ignore: false,
            show_icon: Some(false),
            allow_streaming: Some(false),
        }
    }
}

/// The settings stored under `key` (the first entry with that key).
pub open spec fn player_entry(players: Seq<(String, PlayerConfig)>, key: Seq<char>) -> Option<PlayerConfig>
    decreases players.len(),
{
    if players.len() == 0 {
        None
    } else if players[0].0@ == key {
        Some(players[0].1)
    } else {
        player_entry(players.drop_first(), key)
    }
}

/// Index of the first entry under `key`.
fn find_player_entry(players: &Vec<(String, PlayerConfig)>, key: &str) -> (r: Option<usize>)
    ensures
        match r {
            Some(i) => i < players@.len() && player_entry(players@, key@) == Some(players@[i as int].1),
            None => player_entry(players@, key@) is None,
        },
{
    let mut i: usize = 0;
    assert(players@.skip(0) =~= players@);
    while i < players.len()
        invariant
            i <= players@.len(),
            player_entry(players@, key@) == player_entry(players@.skip(i as int), key@),
        decreases players@.len() - i,
    {
        let ghost rest = players@.skip(i as int);
        assert(rest[0] == players@[i as int]);
        if str_eq(players[i].0.as_str(), key) {
            return Some(i);
        }
        assert(rest.drop_first() =~= players@.skip(i + 1));
        i += 1;
    }
    None
}

/// The settings unset fields fall back to: the `default` entry with the
/// application id and icon filled in where it leaves them unset, or the
/// built-in settings where there is no such entry.
pub open spec fn fallback_ok(players: Seq<(String, PlayerConfig)>, r: PlayerConfig) -> bool {
    match player_entry(players, "default"@) {
        Some(d) => {
            &&& opt_view(r.app_id) == Some(match d.app_id { Some(a) => a@, None => DEFAULT_PLAYER_APP_ID@ })
            &&& opt_view(r.icon) == Some(match d.icon { Some(i) => i@, None => DEFAULT_PLAYER_ICON@ })
            &&& r.ignore == d.ignore
            &&& r.show_icon == d.show_icon
            &&& r.allow_streaming == d.allow_streaming
        },
        None => {
            &&& opt_view(r.app_id) == Some(DEFAULT_PLAYER_APP_ID@)
            &&& opt_view(r.icon) == Some(DEFAULT_PLAYER_ICON@)
            &&& !r.ignore
            &&& r.show_icon == Some(false)
            &&& r.allow_streaming == Some(false)
        },
    }
}

/// The settings that unset fields fall back to, from the configured players.
pub fn default_player_config(players: &Vec<(String, PlayerConfig)>) -> (r: PlayerConfig)
    ensures
        fallback_ok(players@, r),
{
    match find_player_entry(players, "default") {
        Some(i) => {
            let d = &players[i].1;
            let app_id = match &d.app_id {
                Some(a) => a.clone(),
                None => DEFAULT_PLAYER_APP_ID.to_owned(),
            };
            let icon = match &d.icon {
                Some(c) => c.clone(),
                None => DEFAULT_PLAYER_ICON.to_owned(),
            };
            PlayerConfig {
                app_id: Some(app_id),
                icon: Some(icon),
                ignore: d.ignore,
                show_icon: d.show_icon,
                allow_streaming: d.allow_streaming,
            }
        },
        None => PlayerConfig::default(),
    }
}

impl PlayerConfig {
    /// The application id, else that of `fallback`.
    pub fn app_id_or_default<'a>(&'a self, fallback: &'a PlayerConfig) -> (r: &'a str)
        requires
            self.app_id is Some || fallback.app_id is Some,
        ensures
            r@ == match self.app_id { Some(a) => a@, None => fallback.app_id.unwrap()@ },
    {
        match &self.app_id {
            Some(app_id) => app_id.as_str(),
            None => fallback.app_id.as_ref().unwrap().as_str(),
        }
    }

    /// The icon, else that of `fallback`.
    pub fn icon_or_default<'a>(&'a self, fallback: &'a PlayerConfig) -> (r: &'a str)
        requires
            self.icon is Some || fallback.icon is Some,
        ensures
            r@ == match self.icon { Some(i) => i@, None => fallback.icon.unwrap()@ },
    {
        match &self.icon {
            Some(icon) => icon.as_str(),
            None => fallback.icon.as_ref().unwrap().as_str(),
        }
    }

    /// Whether to show the icon, else as `fallback` says.
    pub fn show_icon_or_default(&self, fallback: &PlayerConfig) -> (r: bool)
        requires
            self.show_icon is Some || fallback.show_icon is Some,
        ensures
            r == match self.show_icon { Some(b) => b, None => fallback.show_icon.unwrap() },
    {
        match self.show_icon {
            Some(show_icon) => show_icon,
            None => fallback.show_icon.unwrap(),
        }
    }

    /// Whether streams are shown, else as `fallback` says.
    pub fn allow_streaming_or_default(&self, fallback: &PlayerConfig) -> (r: bool)
        requires
            self.allow_streaming is Some || fallback.allow_streaming is Some,
        ensures
            r == match self.allow_streaming { Some(b) => b, None => fallback.allow_streaming.unwrap() },
    {
        match self.allow_streaming {
            Some(allow_streaming) => allow_streaming,
            None => fallback.allow_streaming.unwrap(),
        }
    }

    /// The settings of a player, looked up by its identity in config-key
    /// form (lower case, spaces as underscores), else `fallback`.
    pub fn get_or_default<'a>(players: &'a Vec<(String, PlayerConfig)>, fallback: &'a PlayerConfig, identity: &str)
        -> (r: &'a PlayerConfig)
        ensures
            *r == match player_entry(players@, normalize_identity(identity@)) {
                Some(c) => c,
                None => *fallback,
            },
    {
        let key = normalize_player_identity(identity);
        match find_player_entry(players, key.as_str()) {
            Some(i) => &players[i].1,
            None => fallback,
        }
    }
}

} // verus!
