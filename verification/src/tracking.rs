//! Which players the daemon tracks: the admission of a discovered player,
//! the verdict on a tracked one after a scan or a configuration change, and
//! the bookkeeping of which bus name won among duplicates.
use vstd::prelude::*;
use crate::config::PlayerConfigV;
use crate::cover::cache::{sort_strings, sorted_strs, strs};
use crate::resolve::{
    player_allowed, player_resolution, resolve_web_spec, title_match_spec,
    web_override_spec, Config,
};
use crate::config::web_into_player;
use crate::text::{join_seqs, join_strings, str_eq};

verus! {

broadcast use vstd::string::group_string_axioms;

/// The settings of a source as `Config::resolve_source` gives them: through
/// its URL when it has one, else through a title naming a web player, else
/// the player's own.
pub open spec fn source_config(
    cfg: Config,
    identity: Seq<char>,
    bus: Seq<char>,
    url: Option<Seq<char>>,
    title: Option<Seq<char>>,
) -> PlayerConfigV {
    let native = player_resolution(cfg, identity, bus).0;
    match url {
        Some(u) => web_override_spec(cfg, native, Some(u)),
        None => if cfg.web_player_enabled && title is Some
            && title_match_spec(cfg.merged_web_player@, title.unwrap()) is Some {
            web_into_player(resolve_web_spec(cfg, title_match_spec(cfg.merged_web_player@, title.unwrap()).unwrap().0))
        } else {
            native
        },
    }
}

/// A discovered player is tracked when it is allowed and not ignored; a
/// player ignored by its own settings is still tracked when the settings of
/// what it plays (its URL or title) do not ignore it.
pub open spec fn admitted(
    cfg: Config,
    identity: Seq<char>,
    bus: Seq<char>,
    url: Option<Seq<char>>,
    title: Option<Seq<char>>,
) -> bool {
    player_allowed(cfg, identity, bus) && (!player_resolution(cfg, identity, bus).0.ignore
        || !source_config(cfg, identity, bus, url, title).ignore)
}

/// Why a tracked player stops being tracked, if it does.
#[derive(Debug, Clone, Copy, PartialEq, Eq, Structural)]
pub enum Removal {
    /// The last scan did not find it.
    Gone,
    /// Its settings (or those of what it plays) now ignore it.
    Ignored,
    /// `allowed_players` no longer admits it.
    NotAllowed,
}

impl Removal {
    /// The reason, as the daemon reports it.
    pub fn reason(&self) -> (r: &'static str)
        ensures
            r@ == match *self {
                Removal::Gone => "player no longer exists"@,
                Removal::Ignored => "player is now ignored"@,
                Removal::NotAllowed => "player is not in the allowed list"@,
            },
    {
        match self {
            Removal::Gone => "player no longer exists",
            Removal::Ignored => "player is now ignored",
            Removal::NotAllowed => "player is not in the allowed list",
        }
    }
}

/// The verdict on a tracked player: kept (`None`) when the scan found it,
/// its source settings do not ignore it and it is allowed; otherwise the
/// first failing reason in that order.
pub open spec fn verdict_spec(
    cfg: Config,
    found: bool,
    identity: Seq<char>,
    bus: Seq<char>,
    url: Option<Seq<char>>,
    title: Option<Seq<char>>,
) -> Option<Removal> {
    if !found {
        Some(Removal::Gone)
    } else if source_config(cfg, identity, bus, url, title).ignore {
        Some(Removal::Ignored)
    } else if !player_allowed(cfg, identity, bus) {
        Some(Removal::NotAllowed)
    } else {
        None
    }
}

impl Config {
    /// Whether a discovered player is tracked, given the URL and title it
    /// plays.
    pub fn admits_player(&self, identity: &str, player_bus_name: &str, url: Option<&str>, title: Option<&str>) -> (r: bool)
        ensures
            r == admitted(*self, identity@, player_bus_name@, opt_str(url), opt_str(title)),
    {
        if !self.is_player_allowed(identity, player_bus_name) {
            return false;
        }
        let own = self.get_player_config(identity, player_bus_name);
        if !own.ignore {
            return true;
        }
        let source = self.resolve_source(identity, player_bus_name, url, title);
        proof {
            lemma_source_config(*self, identity@, player_bus_name@, url, title, source.config@);
        }
        !source.config.ignore
    }

    /// Whether a tracked player stays tracked, and why not.
    pub fn tracking_verdict(&self, found: bool, identity: &str, player_bus_name: &str, url: Option<&str>, title: Option<&str>)
        -> (r: Option<Removal>)
        ensures
            r == verdict_spec(*self, found, identity@, player_bus_name@, opt_str(url), opt_str(title)),
    {
        if !found {
            return Some(Removal::Gone);
        }
        let source = self.resolve_source(identity, player_bus_name, url, title);
        proof {
            lemma_source_config(*self, identity@, player_bus_name@, url, title, source.config@);
        }
        if source.config.ignore {
            Some(Removal::Ignored)
        } else if !self.is_player_allowed(identity, player_bus_name) {
            Some(Removal::NotAllowed)
        } else {
            None
        }
    }
}

/// The text of an optional string slice.
pub open spec fn opt_str(o: Option<&str>) -> Option<Seq<char>> {
    match o {
        Some(s) => Some(s@),
        None => None,
    }
}

proof fn lemma_source_config(
    cfg: Config,
    identity: Seq<char>,
    bus: Seq<char>,
    url: Option<&str>,
    title: Option<&str>,
    got: PlayerConfigV,
)
    requires
        match url {
            Some(u) => got == web_override_spec(cfg, player_resolution(cfg, identity, bus).0, Some(u@)),
            None => if cfg.web_player_enabled && title is Some
                && title_match_spec(cfg.merged_web_player@, title.unwrap()@) is Some {
                got == web_into_player(resolve_web_spec(cfg, title_match_spec(cfg.merged_web_player@, title.unwrap()@).unwrap().0))
            } else {
                got == player_resolution(cfg, identity, bus).0
            },
        },
    ensures
        got == source_config(cfg, identity, bus, opt_str(url), opt_str(title)),
{
}

/// Which bus name was selected among the duplicates of a player, and
/// among which bus names.
#[derive(Debug, Clone)]
pub struct DedupSelection {
    pub buses_signature: String,
    pub winner_bus: String,
}

/// The bus names of duplicates, sorted and joined by `", "`.
pub open spec fn signature_spec(bus_names: Seq<Seq<char>>) -> Seq<char> {
    join_seqs(sorted_strs(bus_names), ", "@)
}

/// The signature of a set of duplicate bus names.
pub fn buses_signature(bus_names: &Vec<String>) -> (r: String)
    ensures
        r@ == signature_spec(strs(bus_names@)),
{
    let sorted = sort_strings(bus_names);
    let r = join_strings(sorted.as_slice(), ", ");
    assert(sorted@.map_values(|p: String| p@) =~= strs(sorted@));
    r
}

/// The selection to record after a scan found duplicates with the given bus
/// names and winner: a new one when none was recorded or the bus names or
/// the winner changed (the change is then reported), none otherwise.
pub fn dedup_update(previous: Option<&DedupSelection>, bus_names: &Vec<String>, winner_bus: &str) -> (r: Option<DedupSelection>)
    ensures
        match previous {
            Some(p) => if p.buses_signature@ == signature_spec(strs(bus_names@)) && p.winner_bus@ == winner_bus@ {
                r is None
            } else {
                r matches Some(s) && s.buses_signature@ == signature_spec(strs(bus_names@)) && s.winner_bus@ == winner_bus@
            },
            None => r matches Some(s) && s.buses_signature@ == signature_spec(strs(bus_names@)) && s.winner_bus@ == winner_bus@,
        },
{
    let signature = buses_signature(bus_names);
    match previous {
        Some(p) => {
            if str_eq(p.buses_signature.as_str(), signature.as_str()) && str_eq(p.winner_bus.as_str(), winner_bus) {
                return None;
            }
        },
        None => {},
    }
    Some(DedupSelection { buses_signature: signature, winner_bus: winner_bus.to_string() })
}

/// A player that a scan keeps tracking is one the next scan admits, with
/// the same URL and title.
pub proof fn law_kept_players_are_admitted(
    cfg: Config,
    identity: Seq<char>,
    bus: Seq<char>,
    url: Option<Seq<char>>,
    title: Option<Seq<char>>,
)
    requires
        verdict_spec(cfg, true, identity, bus, url, title) is None,
    ensures
        admitted(cfg, identity, bus, url, title),
{
}

} // verus!
