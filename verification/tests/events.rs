use mprisence::events::{
    classify_signal, drain_latest_refresh, listener_exit_events, name_owner_match_rule,
    ListenerExit, PlayerEvent, PlayerEventKind, SignalAction, SignalInfo, DBUS_INTERFACE,
    MPRIS_PATH, PLAYER_INTERFACE, PROPERTIES_INTERFACE, TRACK_LIST_INTERFACE,
};

const BUS_NAME: &str = "org.mpris.MediaPlayer2.test";
const UNIQUE_OWNER: &str = ":1.42";

fn signal(interface: &str, member: &str, sender: &str) -> SignalInfo {
    SignalInfo {
        interface: Some(interface.to_string()),
        member: Some(member.to_string()),
        sender: Some(sender.to_string()),
        path: Some(MPRIS_PATH.to_string()),
        string_args3: None,
        first_string_arg: None,
    }
}

fn event(norm_id: &str, listener_generation: u64, kind: PlayerEventKind) -> PlayerEvent {
    PlayerEvent { norm_id: norm_id.to_string(), listener_generation, kind }
}

#[test]
fn accepts_player_properties_from_expected_owner() {
    let mut message = signal(PROPERTIES_INTERFACE, "PropertiesChanged", UNIQUE_OWNER);
    message.first_string_arg = Some(PLAYER_INTERFACE.to_string());
    assert_eq!(classify_signal(&message, BUS_NAME, UNIQUE_OWNER), SignalAction::Refresh);
}

#[test]
fn rejects_player_signal_from_unrelated_owner() {
    let mut message = signal(PROPERTIES_INTERFACE, "PropertiesChanged", ":1.99");
    message.first_string_arg = Some(PLAYER_INTERFACE.to_string());
    assert_eq!(classify_signal(&message, BUS_NAME, UNIQUE_OWNER), SignalAction::Ignore);
}

#[test]
fn detects_loss_of_expected_owner() {
    let mut message = signal(DBUS_INTERFACE, "NameOwnerChanged", DBUS_INTERFACE);
    message.string_args3 = Some((BUS_NAME.to_string(), UNIQUE_OWNER.to_string(), String::new()));
    assert_eq!(classify_signal(&message, BUS_NAME, UNIQUE_OWNER), SignalAction::PlayerExited);
}

#[test]
fn other_signals_of_the_owner() {
    assert_eq!(
        classify_signal(&signal(PLAYER_INTERFACE, "Seeked", UNIQUE_OWNER), BUS_NAME, UNIQUE_OWNER),
        SignalAction::Refresh
    );
    assert_eq!(
        classify_signal(&signal(TRACK_LIST_INTERFACE, "TrackMetadataChanged", UNIQUE_OWNER), BUS_NAME, UNIQUE_OWNER),
        SignalAction::Refresh
    );
    let mut other_props = signal(PROPERTIES_INTERFACE, "PropertiesChanged", UNIQUE_OWNER);
    other_props.first_string_arg = Some("org.mpris.MediaPlayer2".to_string());
    assert_eq!(classify_signal(&other_props, BUS_NAME, UNIQUE_OWNER), SignalAction::Ignore);
    let mut wrong_path = signal(PLAYER_INTERFACE, "Seeked", UNIQUE_OWNER);
    wrong_path.path = Some("/other".to_string());
    assert_eq!(classify_signal(&wrong_path, BUS_NAME, UNIQUE_OWNER), SignalAction::Ignore);
    let mut handover = signal(DBUS_INTERFACE, "NameOwnerChanged", DBUS_INTERFACE);
    handover.string_args3 = Some((BUS_NAME.to_string(), ":1.7".to_string(), UNIQUE_OWNER.to_string()));
    assert_eq!(classify_signal(&handover, BUS_NAME, UNIQUE_OWNER), SignalAction::Ignore);
}

#[test]
fn coalesces_only_refreshes_from_same_listener() {
    let queued = vec![
        event("alpha", 7, PlayerEventKind::Refresh),
        event("alpha", 8, PlayerEventKind::Refresh),
        event("beta", 7, PlayerEventKind::Refresh),
        event("alpha", 7, PlayerEventKind::ListenerExited),
    ];
    let first = event("alpha", 7, PlayerEventKind::Refresh);
    let (_, deferred) = drain_latest_refresh(first, queued);

    assert_eq!(deferred.len(), 3);
    assert_eq!(deferred[0].listener_generation, 8);
    assert_eq!(deferred[1].norm_id, "beta");
    assert!(matches!(deferred[2].kind, PlayerEventKind::ListenerExited));
}

#[test]
fn non_refresh_events_are_not_coalesced() {
    let queued = vec![event("alpha", 7, PlayerEventKind::Refresh)];
    let (kept, deferred) = drain_latest_refresh(event("alpha", 7, PlayerEventKind::ListenerExited), queued);
    assert_eq!(kept.kind, PlayerEventKind::ListenerExited);
    assert_eq!(deferred.len(), 1);
}

#[test]
fn exit_events_and_match_rule() {
    assert_eq!(listener_exit_events(ListenerExit::PlayerExited, false), vec![PlayerEventKind::ListenerExited]);
    assert_eq!(
        listener_exit_events(ListenerExit::Failed("x".to_string()), false),
        vec![PlayerEventKind::ListenerError("x".to_string()), PlayerEventKind::ListenerExited]
    );
    assert!(listener_exit_events(ListenerExit::Failed("x".to_string()), true).is_empty());
    assert!(listener_exit_events(ListenerExit::Cancelled, false).is_empty());
    assert!(listener_exit_events(ListenerExit::ReceiverClosed, false).is_empty());
    assert_eq!(
        name_owner_match_rule("org.mpris.MediaPlayer2.vlc"),
        "type='signal',sender='org.freedesktop.DBus',interface='org.freedesktop.DBus',member='NameOwnerChanged',arg0='org.mpris.MediaPlayer2.vlc'"
    );
}
