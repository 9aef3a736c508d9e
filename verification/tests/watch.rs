use mprisence::discord::{discord_socket_names, runtime_dir};
use mprisence::config::ConfigChange;
use mprisence::player::{cmus_remote_result, cmus_track_token, CmusRemoteError, CmusState};
use mprisence::watch::{watch_error_change, ConfigWatcher, FileEventKind, WatchAction};

fn names(v: &[Option<&str>]) -> Vec<Option<String>> {
    v.iter().map(|n| n.map(|s| s.to_string())).collect()
}

#[test]
fn events_on_the_config_file_reload_after_the_debounce_time() {
    let w = ConfigWatcher::new("config.toml".to_string(), 1000);
    let touched = names(&[Some("other.toml"), Some("config.toml")]);
    assert_eq!(w.on_event(FileEventKind::Modify, &touched, 1300), WatchAction::Reload);
    assert_eq!(w.on_event(FileEventKind::Create, &touched, 1250), WatchAction::Reload);
    assert_eq!(w.on_event(FileEventKind::Remove, &touched, 1249), WatchAction::Debounced);
}

#[test]
fn unrelated_events_are_ignored() {
    let w = ConfigWatcher::new("config.toml".to_string(), 0);
    assert_eq!(w.on_event(FileEventKind::Other, &names(&[Some("config.toml")]), 10_000), WatchAction::Ignore);
    assert_eq!(w.on_event(FileEventKind::Modify, &names(&[Some("x.toml"), None]), 10_000), WatchAction::Ignore);
    assert_eq!(w.on_event(FileEventKind::Modify, &names(&[]), 10_000), WatchAction::Ignore);
}

#[test]
fn only_a_successful_reload_restarts_the_window() {
    let mut w = ConfigWatcher::new("config.toml".to_string(), 0);
    let touched = names(&[Some("config.toml")]);
    assert_eq!(w.on_reload_result(5000, Err("bad toml".to_string())), ConfigChange::Error("bad toml".to_string()));
    assert_eq!(w.last_reload_ms, 0);
    assert_eq!(w.on_event(FileEventKind::Modify, &touched, 5100), WatchAction::Reload);
    assert_eq!(w.on_reload_result(5100, Ok(())), ConfigChange::Reloaded);
    assert_eq!(w.last_reload_ms, 5100);
    assert_eq!(w.on_event(FileEventKind::Modify, &touched, 5200), WatchAction::Debounced);
    assert_eq!(watch_error_change("gone".to_string()), ConfigChange::Error("gone".to_string()));
}

#[test]
fn cmus_remote_answers() {
    assert_eq!(
        cmus_remote_result(true, Some(0), "status playing\nfile /music/a.flac\n", ""),
        Ok(Some("/music/a.flac".to_string()))
    );
    assert_eq!(cmus_remote_result(true, Some(0), "status stopped\n", ""), Ok(None));
    assert_eq!(
        cmus_remote_result(false, Some(1), "out text", "  cmus is not running \n"),
        Err(CmusRemoteError::NonZeroExit { status: Some(1), stderr: "cmus is not running".to_string() })
    );
    assert_eq!(
        cmus_remote_result(false, None, " only stdout ", "  "),
        Err(CmusRemoteError::NonZeroExit { status: None, stderr: "only stdout".to_string() })
    );
    assert_eq!(
        cmus_remote_result(false, Some(2), "", ""),
        Err(CmusRemoteError::NonZeroExit { status: Some(2), stderr: "no output".to_string() })
    );
}

#[test]
fn discord_sockets_are_looked_for_in_the_runtime_directory() {
    assert_eq!(runtime_dir(None), "/tmp");
    assert_eq!(runtime_dir(Some("/run/user/1000".to_string())), "/run/user/1000");
    let names = discord_socket_names();
    assert_eq!(names.len(), 20);
    assert_eq!(names[0], "discord-ipc-0");
    assert_eq!(names[9], "discord-ipc-9");
    assert_eq!(names[10], "app/com.discordapp.Discord/discord-ipc-0");
    assert_eq!(names[19], "app/com.discordapp.Discord/discord-ipc-9");
}

#[test]
fn cmus_state_keeps_the_path_per_track_and_reports_failures_once() {
    assert_eq!(cmus_track_token(None, Some("file:///a.flac"), Some("A")), Some("file:///a.flac".to_string()));
    assert_eq!(cmus_track_token(Some("/t/1"), Some("u"), None), Some("/t/1".to_string()));
    assert_eq!(cmus_track_token(None, None, None), None);

    let mut state = CmusState::new();
    state.observe_track(Some("t1".to_string()));
    assert!(state.needs_path());
    assert!(state.record_answer(Err(CmusRemoteError::Timeout(2000))));
    assert!(!state.record_answer(Err(CmusRemoteError::Launch("missing".to_string()))));
    assert!(!state.record_answer(Ok(Some("/music/a b.flac".to_string()))));
    assert!(!state.needs_path());
    assert_eq!(state.current_url(), (Some("file:///music/a%20b.flac".to_string()), false));

    state.observe_track(Some("t1".to_string()));
    assert!(!state.needs_path());
    state.observe_track(Some("t2".to_string()));
    assert!(state.needs_path() && !state.error_logged);

    assert!(!state.record_answer(Ok(Some("relative.flac".to_string()))));
    assert_eq!(state.current_url(), (None, true));
    assert_eq!(state.current_url(), (None, false));
    state.reset();
    assert!(state.track_id.is_none() && state.path.is_none() && !state.error_logged);
}
