//! Per-player event listening: which bus signals mean a refresh or the
//! player's exit, which events a listener emits when it stops, and how
//! queued refreshes of one listener are coalesced.
use vstd::prelude::*;
use crate::text::{concat_str, opt_view, str_eq};

verus! {

pub const MPRIS_PATH: &'static str = "/org/mpris/MediaPlayer2";
pub const DBUS_INTERFACE: &'static str = "org.freedesktop.DBus";
pub const PROPERTIES_INTERFACE: &'static str = "org.freedesktop.DBus.Properties";
pub const PLAYER_INTERFACE: &'static str = "org.mpris.MediaPlayer2.Player";
pub const TRACK_LIST_INTERFACE: &'static str = "org.mpris.MediaPlayer2.TrackList";

/// What a listener reports about its player.
#[derive(Debug, Clone, PartialEq, Eq)]
pub enum PlayerEventKind {
    /// A signal that matters was received; re-read the player's state.
    Refresh,
    /// The player released or transferred its bus name.
    ListenerExited,
    /// The listener failed while polling for signals.
    ListenerError(String),
}

/// An event of a listener: the player's key, the listener's generation,
/// and what happened.
#[derive(Debug, Clone)]
pub struct PlayerEvent {
    pub norm_id: String,
    pub listener_generation: u64,
    pub kind: PlayerEventKind,
}

/// What the main loop does with a presence after an event.
#[derive(Debug, Clone, Copy, PartialEq, Eq, Structural)]
pub enum EventOutcome {
    Continue,
    ShouldRemove,
}

/// What a bus signal means for the listener.
#[derive(Debug, Clone, Copy, PartialEq, Eq, Structural)]
pub enum SignalAction {
    Refresh,
    PlayerExited,
    Ignore,
}

/// A bus signal as plain values: its header fields, its three string
/// arguments when it carries them, and its first argument when that is a
/// string.
#[derive(Debug, Clone)]
pub struct SignalInfo {
    pub interface: Option<String>,
    pub member: Option<String>,
    pub sender: Option<String>,
    pub path: Option<String>,
    pub string_args3: Option<(String, String, String)>,
    pub first_string_arg: Option<String>,
}

pub open spec fn is_text(o: Option<String>, t: Seq<char>) -> bool {
    o is Some && o->0@ == t
}

/// The meaning of a signal for the listener of `bus_name`, whose current
/// owner is `owner`: the bus's `NameOwnerChanged` for that name, leaving
/// that owner, is the player's exit; from the owner on the MPRIS path,
/// `PropertiesChanged` of the player or track-list interface, `Seeked` and
/// `TrackMetadataChanged` ask for a refresh; anything else is ignored.
pub open spec fn classify_spec(sig: SignalInfo, bus_name: Seq<char>, owner: Seq<char>) -> SignalAction {
    if is_text(sig.interface, DBUS_INTERFACE@) && is_text(sig.member, "NameOwnerChanged"@) {
        match sig.string_args3 {
            Some((name, old_owner, new_owner)) => if name@ == bus_name && old_owner@ == owner && new_owner@ != owner {
                SignalAction::PlayerExited
            } else {
                SignalAction::Ignore
            },
            None => SignalAction::Ignore,
        }
    } else if !is_text(sig.sender, owner) || !is_text(sig.path, MPRIS_PATH@) {
        SignalAction::Ignore
    } else if is_text(sig.interface, PROPERTIES_INTERFACE@) && is_text(sig.member, "PropertiesChanged"@) {
        if is_text(sig.first_string_arg, PLAYER_INTERFACE@) || is_text(sig.first_string_arg, TRACK_LIST_INTERFACE@) {
            SignalAction::Refresh
        } else {
            SignalAction::Ignore
        }
    } else if (is_text(sig.interface, PLAYER_INTERFACE@) && is_text(sig.member, "Seeked"@))
        || (is_text(sig.interface, TRACK_LIST_INTERFACE@) && is_text(sig.member, "TrackMetadataChanged"@)) {
        SignalAction::Refresh
    } else {
        SignalAction::Ignore
    }
}

fn text_is(o: &Option<String>, t: &str) -> (r: bool)
    ensures
        r == is_text(*o, t@),
{
    match o {
        Some(s) => str_eq(s.as_str(), t),
        None => false,
    }
}

/// The meaning of a signal for the listener of `bus_name` owned by
/// `unique_owner`.
pub fn classify_signal(sig: &SignalInfo, bus_name: &str, unique_owner: &str) -> (r: SignalAction)
    ensures
        r == classify_spec(*sig, bus_name@, unique_owner@),
{
    if text_is(&sig.interface, DBUS_INTERFACE) && text_is(&sig.member, "NameOwnerChanged") {
        return match &sig.string_args3 {
            Some((name, old_owner, new_owner)) => {
                if str_eq(name.as_str(), bus_name) && str_eq(old_owner.as_str(), unique_owner)
                    && !str_eq(new_owner.as_str(), unique_owner) {
                    SignalAction::PlayerExited
                } else {
                    SignalAction::Ignore
                }
            },
            None => SignalAction::Ignore,
        };
    }
    if !text_is(&sig.sender, unique_owner) || !text_is(&sig.path, MPRIS_PATH) {
        return SignalAction::Ignore;
    }
    if text_is(&sig.interface, PROPERTIES_INTERFACE) && text_is(&sig.member, "PropertiesChanged") {
        return if text_is(&sig.first_string_arg, PLAYER_INTERFACE) || text_is(&sig.first_string_arg, TRACK_LIST_INTERFACE) {
            SignalAction::Refresh
        } else {
            SignalAction::Ignore
        };
    }
    if (text_is(&sig.interface, PLAYER_INTERFACE) && text_is(&sig.member, "Seeked"))
        || (text_is(&sig.interface, TRACK_LIST_INTERFACE) && text_is(&sig.member, "TrackMetadataChanged")) {
        SignalAction::Refresh
    } else {
        SignalAction::Ignore
    }
}

/// The match rule for ownership changes of a bus name.
pub fn name_owner_match_rule(bus_name: &str) -> (r: String)
    ensures
        r@ == "type='signal',sender='org.freedesktop.DBus',interface='org.freedesktop.DBus',member='NameOwnerChanged',arg0='"@
            + bus_name@ + "'"@,
{
    let head = concat_str(
        "type='signal',sender='org.freedesktop.DBus',interface='org.freedesktop.DBus',member='NameOwnerChanged',arg0='",
        bus_name,
    );
    concat_str(head.as_str(), "'")
}

/// How listening ended.
#[derive(Debug, Clone, PartialEq, Eq)]
pub enum ListenerExit {
    Cancelled,
    PlayerExited,
    ReceiverClosed,
    Failed(String),
}

/// The events a listener sends when it stops: the player's exit is
/// reported; a failure is reported with its message and then as an exit,
/// unless the listener was cancelled meanwhile; a cancelled listener or a
/// closed receiver sends nothing.
pub fn listener_exit_events(exit: ListenerExit, cancelled: bool) -> (r: Vec<PlayerEventKind>)
    ensures
        match exit {
            ListenerExit::PlayerExited => r@ == seq![PlayerEventKind::ListenerExited],
            ListenerExit::Failed(e) => if cancelled {
                r@.len() == 0
            } else {
                r@ == seq![PlayerEventKind::ListenerError(e), PlayerEventKind::ListenerExited]
            },
            _ => r@.len() == 0,
        },
{
    let mut out: Vec<PlayerEventKind> = Vec::new();
    match exit {
        ListenerExit::PlayerExited => {
            out.push(PlayerEventKind::ListenerExited);
        },
        ListenerExit::Failed(e) => {
            if !cancelled {
                out.push(PlayerEventKind::ListenerError(e));
                out.push(PlayerEventKind::ListenerExited);
            }
        },
        _ => {},
    }
    assert(exit is PlayerExited ==> out@ =~= seq![PlayerEventKind::ListenerExited]);
    out
}

/// An event as plain values.
pub open spec fn event_view(e: PlayerEvent) -> (Seq<char>, u64, PlayerEventKind) {
    (e.norm_id@, e.listener_generation, e.kind)
}

pub open spec fn event_views(v: Seq<PlayerEvent>) -> Seq<(Seq<char>, u64, PlayerEventKind)> {
    v.map_values(|e: PlayerEvent| event_view(e))
}

/// A refresh of the same player from the same listener.
pub open spec fn same_refresh(a: (Seq<char>, u64, PlayerEventKind), b: (Seq<char>, u64, PlayerEventKind)) -> bool {
    b.0 == a.0 && b.1 == a.1 && b.2 is Refresh
}

/// The event kept and the events deferred after coalescing the queued
/// events into a refresh: each later refresh of the same listener replaces
/// the kept one; every other queued event is deferred, in order.
pub open spec fn coalesce_spec(
    event: (Seq<char>, u64, PlayerEventKind),
    queued: Seq<(Seq<char>, u64, PlayerEventKind)>,
) -> ((Seq<char>, u64, PlayerEventKind), Seq<(Seq<char>, u64, PlayerEventKind)>)
    decreases queued.len(),
{
    if queued.len() == 0 {
        (event, Seq::empty())
    } else {
        let (kept, deferred) = coalesce_spec(event, queued.drop_last());
        if same_refresh(kept, queued.last()) {
            (queued.last(), deferred)
        } else {
            (kept, deferred.push(queued.last()))
        }
    }
}

fn clone_event(e: &PlayerEvent) -> (r: PlayerEvent)
    ensures
        event_view(r) == event_view(*e),
{
    let kind = match &e.kind {
        PlayerEventKind::Refresh => PlayerEventKind::Refresh,
        PlayerEventKind::ListenerExited => PlayerEventKind::ListenerExited,
        PlayerEventKind::ListenerError(m) => PlayerEventKind::ListenerError(m.clone()),
    };
    PlayerEvent { norm_id: e.norm_id.clone(), listener_generation: e.listener_generation, kind }
}

fn same_listener_refresh(a: &PlayerEvent, b: &PlayerEvent) -> (r: bool)
    ensures
        r == same_refresh(event_view(*a), event_view(*b)),
{
    str_eq(b.norm_id.as_str(), a.norm_id.as_str()) && b.listener_generation == a.listener_generation
        && match b.kind {
        PlayerEventKind::Refresh => true,
        _ => false,
    }
}

/// Coalesce the events queued behind `event`: for a refresh, later
/// refreshes of the same player and listener replace it and everything
/// else is deferred in order; any other event is handled first and the
/// queued events after it, unchanged.
pub fn drain_latest_refresh(event: PlayerEvent, queued: Vec<PlayerEvent>) -> (r: (PlayerEvent, Vec<PlayerEvent>))
    ensures
        event.kind is Refresh ==> (event_view(r.0), event_views(r.1@)) == coalesce_spec(event_view(event), event_views(queued@)),
        !(event.kind is Refresh) ==> event_view(r.0) == event_view(event) && event_views(r.1@) == event_views(queued@),
{
    let is_refresh = match event.kind {
        PlayerEventKind::Refresh => true,
        _ => false,
    };
    if !is_refresh {
        return (event, queued);
    }
    let ghost qs = event_views(queued@);
    let mut kept = event;
    let mut deferred: Vec<PlayerEvent> = Vec::new();
    let mut i: usize = 0;
    while i < queued.len()
        invariant
            i <= queued@.len(),
            qs == event_views(queued@),
            (event_view(kept), event_views(deferred@)) == coalesce_spec(event_view(event), qs.take(i as int)),
        decreases queued@.len() - i,
    {
        assert(qs.take(i + 1).drop_last() =~= qs.take(i as int));
        let newer = clone_event(&queued[i]);
        if same_listener_refresh(&kept, &newer) {
            kept = newer;
        } else {
            let ghost prev = event_views(deferred@);
            deferred.push(newer);
            assert(event_views(deferred@) =~= prev.push(event_view(newer)));
        }
        i += 1;
    }
    assert(qs.take(queued@.len() as int) =~= qs);
    (kept, deferred)
}

/// Coalescing a refresh only drops refreshes of the same player and
/// listener: every other queued event is deferred, in order, and the kept
/// event is still a refresh of that listener.
pub proof fn law_coalesce_defers_the_rest(
    event: (Seq<char>, u64, PlayerEventKind),
    queued: Seq<(Seq<char>, u64, PlayerEventKind)>,
)
    requires
        event.2 is Refresh,
    ensures
        coalesce_spec(event, queued).1 == queued.filter(|x: (Seq<char>, u64, PlayerEventKind)| !same_refresh(event, x)),
        coalesce_spec(event, queued).0.0 == event.0,
        coalesce_spec(event, queued).0.1 == event.1,
        coalesce_spec(event, queued).0.2 is Refresh,
    decreases queued.len(),
{
    reveal(Seq::filter);
    if queued.len() > 0 {
        law_coalesce_defers_the_rest(event, queued.drop_last());
    }
}

} // verus!
