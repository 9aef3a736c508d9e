use mprisence::health::{
    ArtDecision, HealthCheckInput, PlaybackStatus, PlayerHealth, TrackFingerprint, TransitionOutcome,
    BROWSER_SILENCE_TIMEOUT_MS, STALLED_PLAYING_THRESHOLD_BROWSER_MS, STALLED_PLAYING_THRESHOLD_GENERAL_MS,
};

const NOW: u64 = 10_000_000;
const SEC: u64 = 1000;

fn track(title: &str, artist: &str, url: &str, art_url: &str, track_id: &str) -> TrackFingerprint {
    TrackFingerprint {
        track_id: Some(track_id.to_string()),
        url: Some(url.to_string()),
        art_url: Some(art_url.to_string()),
        title: Some(title.to_string()),
        artists: vec![artist.to_string()],
        length: Some(180 * SEC),
    }
}

fn make_input<'a>(
    status: PlaybackStatus,
    track: &'a TrackFingerprint,
    position: u64,
    is_browser: bool,
    gen: u64,
    now: u64,
    last_event: u64,
) -> HealthCheckInput<'a> {
    HealthCheckInput {
        playback_status: status,
        position,
        track,
        track_length: track.length,
        is_browser_source: is_browser,
        generation: gen,
        now,
        last_event,
    }
}

#[test]
fn confirming_transitions_to_healthy_on_position_move() {
    let mut health = PlayerHealth::Confirming { generation: 1, since: NOW };
    let t = track("Song", "Artist", "https://youtube.com/watch?v=abc", "", "id1");
    let inp = make_input(PlaybackStatus::Playing, &t, 5 * SEC, true, 1, NOW, NOW);
    let outcome = health.transition(&inp);
    assert!(matches!(outcome, TransitionOutcome::Push { .. }));
    assert!(matches!(health, PlayerHealth::Healthy { .. }));
}

#[test]
fn confirming_stays_confirming_when_position_zero() {
    let mut health = PlayerHealth::Confirming { generation: 1, since: NOW };
    let t = track("Song", "Artist", "https://youtube.com/watch?v=abc", "", "id1");
    let inp = make_input(PlaybackStatus::Playing, &t, 0, true, 1, NOW, NOW);
    let outcome = health.transition(&inp);
    assert!(matches!(outcome, TransitionOutcome::Noop));
    assert!(matches!(health, PlayerHealth::Confirming { .. }));
}

#[test]
fn confirming_transitions_to_stalled_on_timeout() {
    let mut health = PlayerHealth::Confirming {
        generation: 1,
        since: NOW - STALLED_PLAYING_THRESHOLD_BROWSER_MS - SEC,
    };
    let t = track("Song", "Artist", "https://youtube.com/watch?v=abc", "", "id1");
    let inp = make_input(PlaybackStatus::Playing, &t, 0, true, 1, NOW, NOW);
    let outcome = health.transition(&inp);
    assert!(matches!(outcome, TransitionOutcome::Clear));
    assert!(matches!(health, PlayerHealth::Stalled { .. }));
}

#[test]
fn healthy_native_stalls_after_threshold() {
    let mut health = PlayerHealth::Healthy {
        generation: 1,
        last_event: NOW - STALLED_PLAYING_THRESHOLD_GENERAL_MS - SEC,
        last_position: 22 * SEC,
    };
    let t = track("Song", "Artist", "https://example.com/stream", "", "id1");
    let inp = make_input(PlaybackStatus::Playing, &t, 22 * SEC, false, 1, NOW, NOW);
    let outcome = health.transition(&inp);
    assert!(matches!(outcome, TransitionOutcome::Clear));
    assert!(matches!(health, PlayerHealth::Stalled { .. }));
}

#[test]
fn healthy_does_not_stall_before_threshold() {
    let mut health = PlayerHealth::Healthy { generation: 1, last_event: NOW, last_position: 22 * SEC };
    let t = track("Song", "Artist", "https://example.com/stream", "", "id1");
    let inp = make_input(PlaybackStatus::Playing, &t, 22 * SEC, false, 1, NOW, NOW);
    let outcome = health.transition(&inp);
    assert!(matches!(outcome, TransitionOutcome::Push { .. }));
    assert!(matches!(health, PlayerHealth::Healthy { .. }));
}

#[test]
fn healthy_browser_stalls_after_4s() {
    let mut health = PlayerHealth::Healthy {
        generation: 1,
        last_event: NOW - STALLED_PLAYING_THRESHOLD_BROWSER_MS - SEC,
        last_position: 22 * SEC,
    };
    let t = track("Song", "Artist", "https://youtube.com/watch?v=abc", "", "id1");
    let inp = make_input(PlaybackStatus::Playing, &t, 22 * SEC, true, 1, NOW, NOW);
    let outcome = health.transition(&inp);
    assert!(matches!(outcome, TransitionOutcome::Clear));
    assert!(matches!(health, PlayerHealth::Stalled { .. }));
}

#[test]
fn healthy_stalls_on_ended_song() {
    let mut health = PlayerHealth::Healthy { generation: 1, last_event: NOW, last_position: 0 };
    let mut t = track("Song", "Artist", "https://youtube.com/watch?v=abc", "", "id1");
    t.length = Some(180 * SEC);
    let inp = make_input(PlaybackStatus::Playing, &t, 179 * SEC, false, 1, NOW, NOW);
    let outcome = health.transition(&inp);
    assert!(matches!(outcome, TransitionOutcome::Clear));
    assert!(matches!(health, PlayerHealth::Stalled { .. }));
}

#[test]
fn healthy_not_stalled_when_far_from_end() {
    let mut health = PlayerHealth::Healthy { generation: 1, last_event: NOW, last_position: 0 };
    let mut t = track("Song", "Artist", "https://youtube.com/watch?v=abc", "", "id1");
    t.length = Some(180 * SEC);
    let inp = make_input(PlaybackStatus::Playing, &t, 100 * SEC, false, 1, NOW, NOW);
    let outcome = health.transition(&inp);
    assert!(matches!(outcome, TransitionOutcome::Push { .. }));
    assert!(matches!(health, PlayerHealth::Healthy { .. }));
}

#[test]
fn stalled_recovers_on_position_change() {
    let mut health = PlayerHealth::Stalled { generation: 1, since: NOW, last_position: 10 * SEC };
    let t = track("Song", "Artist", "https://example.com/stream", "", "id1");
    let inp = make_input(PlaybackStatus::Playing, &t, 23 * SEC, false, 1, NOW, NOW);
    let outcome = health.transition(&inp);
    assert!(matches!(outcome, TransitionOutcome::Push { .. }));
    assert!(matches!(health, PlayerHealth::Healthy { .. }));
}

#[test]
fn stalled_stays_stalled_when_position_unchanged() {
    let mut health = PlayerHealth::Stalled { generation: 1, since: NOW, last_position: 42 * SEC };
    let t = track("Song", "Artist", "https://example.com/stream", "", "id1");
    let inp = make_input(PlaybackStatus::Playing, &t, 42 * SEC, false, 1, NOW, NOW);
    let outcome = health.transition(&inp);
    assert!(matches!(outcome, TransitionOutcome::Noop));
    assert!(matches!(health, PlayerHealth::Stalled { .. }));
}

fn goes_healthy_on(status: PlaybackStatus) {
    for mut health in vec![
        PlayerHealth::Healthy { generation: 1, last_event: NOW, last_position: 0 },
        PlayerHealth::Stalled { generation: 1, since: NOW, last_position: 0 },
    ] {
        let t = track("Song", "Artist", "https://youtube.com/watch?v=abc", "", "id1");
        let inp = make_input(status, &t, 22 * SEC, false, 1, NOW, NOW);
        let outcome = health.transition(&inp);
        assert!(matches!(outcome, TransitionOutcome::Clear), "expected Clear, got {:?}", outcome);
        assert!(matches!(health, PlayerHealth::Healthy { .. }));
    }
}

#[test]
fn any_state_goes_healthy_on_pause() {
    goes_healthy_on(PlaybackStatus::Paused);
}

#[test]
fn any_state_goes_healthy_on_stop() {
    goes_healthy_on(PlaybackStatus::Stopped);
}

#[test]
fn browser_silence_triggers_stall() {
    let mut health = PlayerHealth::Healthy {
        generation: 1,
        last_event: NOW - BROWSER_SILENCE_TIMEOUT_MS - SEC,
        last_position: 0,
    };
    let t = track("Song", "Artist", "https://youtube.com/watch?v=abc", "", "id1");
    let inp = make_input(PlaybackStatus::Playing, &t, 50 * SEC, true, 1, NOW, NOW);
    let outcome = health.transition(&inp);
    assert!(matches!(outcome, TransitionOutcome::Clear));
    assert!(matches!(health, PlayerHealth::Stalled { .. }));
}

#[test]
fn native_does_not_stall_on_silence() {
    let mut health = PlayerHealth::Healthy {
        generation: 1,
        last_event: NOW - BROWSER_SILENCE_TIMEOUT_MS - SEC,
        last_position: 50 * SEC,
    };
    let t = track("Song", "Artist", "https://example.com/stream", "", "id1");
    let inp = make_input(PlaybackStatus::Playing, &t, 50 * SEC, false, 1, NOW, NOW);
    let outcome = health.transition(&inp);
    assert!(matches!(outcome, TransitionOutcome::Clear));
    assert!(matches!(health, PlayerHealth::Stalled { .. }));
}

#[test]
fn art_decision_default_is_normal() {
    let decision = ArtDecision::default();
    assert!(decision.read_cache);
    assert!(decision.source_options.allow_mpris_art_url);
}

#[test]
fn art_decision_healthy_returns_default() {
    let health = PlayerHealth::Healthy { generation: 1, last_event: NOW, last_position: 0 };
    let t = track("Song", "Artist", "https://example.com", "", "id1");
    let decision = health.art_decision(&t);
    assert!(decision.read_cache);
    assert!(decision.source_options.allow_mpris_art_url);
}

#[test]
fn observe_progress_refreshes_only_moving_healthy_players() {
    let t = track("Song", "Artist", "https://example.com", "", "id1");
    let mut health = PlayerHealth::Healthy { generation: 3, last_event: NOW - 20 * SEC, last_position: 5 * SEC };
    health.observe_progress(&make_input(PlaybackStatus::Playing, &t, 9 * SEC, true, 3, NOW, NOW));
    assert_eq!(health, PlayerHealth::Healthy { generation: 3, last_event: NOW, last_position: 9 * SEC });
    let mut stalled = PlayerHealth::Stalled { generation: 3, since: NOW, last_position: 5 * SEC };
    stalled.observe_progress(&make_input(PlaybackStatus::Playing, &t, 9 * SEC, true, 3, NOW, NOW));
    assert_eq!(stalled, PlayerHealth::Stalled { generation: 3, since: NOW, last_position: 5 * SEC });
    let mut paused = PlayerHealth::Healthy { generation: 3, last_event: NOW - 1, last_position: 5 * SEC };
    paused.observe_progress(&make_input(PlaybackStatus::Paused, &t, 9 * SEC, true, 3, NOW, NOW));
    assert_eq!(paused, PlayerHealth::Healthy { generation: 3, last_event: NOW - 1, last_position: 5 * SEC });
}

#[test]
fn not_playing_keeps_reported_position_and_generation() {
    let t = track("Song", "Artist", "https://example.com", "", "id1");
    let mut health = PlayerHealth::Confirming { generation: 1, since: NOW };
    let out = health.transition(&make_input(PlaybackStatus::Paused, &t, 7 * SEC, true, 9, NOW, NOW));
    assert_eq!(out, TransitionOutcome::Clear);
    assert_eq!(health, PlayerHealth::Healthy { generation: 9, last_event: NOW, last_position: 7 * SEC });
    assert_eq!(health.last_position(), 7 * SEC);
    assert_eq!(health.state_name(), "Healthy");
}

#[test]
fn ended_check_handles_short_tracks() {
    let mut t = track("Song", "Artist", "https://example.com", "", "id1");
    t.length = Some(1500);
    let inp = make_input(PlaybackStatus::Playing, &t, 0, false, 1, NOW, NOW);
    assert!(PlayerHealth::is_ended(&inp));
    t.length = None;
    let inp = make_input(PlaybackStatus::Playing, &t, 0, false, 1, NOW, NOW);
    assert!(!PlayerHealth::is_ended(&inp));
}

#[test]
fn fresh_states_are_stamped_on_the_clock() {
    let mut clock = mprisence::health::MonotonicClock::new();
    let before = clock.now_millis();
    match PlayerHealth::healthy(7, &mut clock) {
        PlayerHealth::Healthy { generation, last_event, last_position } => {
            assert_eq!(generation, 7);
            assert_eq!(last_position, 0);
            assert!(last_event >= before);
        }
        _ => panic!("expected a healthy state"),
    }
    match PlayerHealth::confirming(3, &mut clock) {
        PlayerHealth::Confirming { generation, since } => {
            assert_eq!(generation, 3);
            assert!(since >= before);
        }
        _ => panic!("expected a confirming state"),
    }
}
