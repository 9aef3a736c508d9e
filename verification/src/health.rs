//! Staleness tracking for one logical player.
//!
//! Times are milliseconds on one `MonotonicClock`, durations are
//! milliseconds.  The state machine decides, per poll, whether the current
//! presence is pushed, cleared, or left alone.
use vstd::prelude::*;

verus! {

/// How long position must be frozen before declaring a stall (native players).
pub const STALLED_PLAYING_THRESHOLD_GENERAL_MS: u64 = 8000;

/// How long position must be frozen before declaring a stall (browser sources).
pub const STALLED_PLAYING_THRESHOLD_BROWSER_MS: u64 = 4000;

/// Silence (no position movement) after which a browser source is stalled.
pub const BROWSER_SILENCE_TIMEOUT_MS: u64 = 30000;

/// A track is considered ended when its position is within this of its length.
pub const TRACK_END_MARGIN_MS: u64 = 2000;

/// Threshold after which a liveness refresh is worth a debug line.
pub const PROGRESS_LOG_AGE_MS: u64 = 10000;

/// Playback status reported by an MPRIS player.
#[derive(Debug, Clone, Copy, PartialEq, Eq, Structural)]
pub enum PlaybackStatus {
    Playing,
    Paused,
    Stopped,
}

#[verifier::external_type_specification]
#[verifier::external_body]
pub struct ExInstant(std::time::Instant);

/// The current instant of the monotonic clock.
///
/// Wraps `std::time::Instant::now`; nothing is promised about the value.
#[verifier::external_body]
fn instant_now() -> std::time::Instant {
    std::time::Instant::now()
}

/// Whole milliseconds from `origin` to now on the monotonic clock.
///
/// Wraps `std::time::Instant::elapsed`; nothing is promised about the value
/// (it depends on the time of the call).
#[verifier::external_body]
fn millis_elapsed(origin: &std::time::Instant) -> u64 {
    origin.elapsed().as_millis() as u64
}

/// What a clock reads when it is made: stamps up to this long before it
/// was made can still be written.
pub const CLOCK_START_MS: u64 = 86_400_000;

/// A monotonic clock in milliseconds, unaffected by changes of the system
/// time. It reads `CLOCK_START_MS` when made and counts up from there; a
/// reading is never below the one before it.
pub struct MonotonicClock {
    origin: std::time::Instant,
    last: u64,
}

impl MonotonicClock {
    /// The latest reading (`CLOCK_START_MS` before the first).
    pub closed spec fn latest(&self) -> u64 {
        self.last
    }

    pub fn new() -> (r: Self)
        ensures
            r.latest() == CLOCK_START_MS,
    {
        MonotonicClock { origin: instant_now(), last: CLOCK_START_MS }
    }

    /// The current reading.
    pub fn now_millis(&mut self) -> (r: u64)
        ensures
            r >= CLOCK_START_MS,
            r >= old(self).latest(),
            final(self).latest() == r,
    {
        let reading = CLOCK_START_MS.saturating_add(millis_elapsed(&self.origin));
        let r = if reading < self.last { self.last } else { reading };
        self.last = r;
        r
    }
}

/// Identity of the track a player reports (length in milliseconds).
#[derive(Debug, Clone, PartialEq, Eq)]
pub struct TrackFingerprint {
    pub track_id: Option<String>,
    pub url: Option<String>,
    pub art_url: Option<String>,
    pub title: Option<String>,
    pub artists: Vec<String>,
    pub length: Option<u64>,
}

/// Which art sources may be used when resolving cover art.
#[derive(Debug, Clone, Copy, PartialEq, Eq, Structural)]
pub struct ArtSourceOptions {
    pub allow_inferred_url: bool,
    pub allow_mpris_art_url: bool,
}

impl ArtSourceOptions {
    /// Every art source is allowed.
    pub fn new_default() -> (r: Self)
        ensures
            r.allow_inferred_url,
            r.allow_mpris_art_url,
    {
        ArtSourceOptions { allow_inferred_url: true, allow_mpris_art_url: true }
    }
}

impl Default for ArtSourceOptions {
    fn default() -> (r: Self)
        ensures
            r.allow_inferred_url && r.allow_mpris_art_url,
    {
        ArtSourceOptions { allow_inferred_url: true, allow_mpris_art_url: true }
    }
}

/// How cover art is fetched for a push.
#[derive(Debug, Clone, Copy, PartialEq, Eq, Structural)]
pub struct ArtDecision {
    pub source_options: ArtSourceOptions,
    pub read_cache: bool,
}

pub open spec fn default_art_decision() -> ArtDecision {
    ArtDecision {
        source_options: ArtSourceOptions { allow_inferred_url: true, allow_mpris_art_url: true },
        read_cache: true,
    }
}

impl Default for ArtDecision {
    fn default() -> (r: Self)
        ensures
            r == default_art_decision(),
    {
        ArtDecision { source_options: ArtSourceOptions::new_default(), read_cache: true }
    }
}

/// What the caller should do after a transition.
#[derive(Debug, Clone, Copy, PartialEq, Eq, Structural)]
pub enum TransitionOutcome {
    /// Push activity to Discord with the given art decision.
    Push { art_decision: ArtDecision },
    /// Clear Discord activity (stall detected, or not playing).
    Clear,
    /// Nothing to do this tick.
    Noop,
}

/// Everything the state machine reads for one decision.
#[derive(Debug)]
pub struct HealthCheckInput<'a> {
    pub playback_status: PlaybackStatus,
    /// Current position (ms).
    pub position: u64,
    pub track: &'a TrackFingerprint,
    /// Track length (ms), when known.
    pub track_length: Option<u64>,
    pub is_browser_source: bool,
    /// Update generation of this check.
    pub generation: u64,
    /// Time of this check (ms).
    pub now: u64,
    /// Time the last MPRIS event was received (ms).
    pub last_event: u64,
}

/// Staleness state of one logical player.
#[derive(Debug, Clone, Copy, PartialEq, Eq, Structural)]
pub enum PlayerHealth {
    /// Awaiting the first position move (browser sources at startup).
    Confirming { generation: u64, since: u64 },
    /// Fresh data; `last_position` is the last observed position.
    Healthy { generation: u64, last_event: u64, last_position: u64 },
    /// Playing but frozen or past its end; cleared until it moves again.
    Stalled { generation: u64, since: u64, last_position: u64 },
}

/// `now - earlier`, or zero when `earlier` is in the future.
pub open spec fn elapsed_ms(now: u64, earlier: u64) -> int {
    if now >= earlier { now - earlier } else { 0 }
}

pub open spec fn stall_threshold(is_browser: bool) -> u64 {
    if is_browser { STALLED_PLAYING_THRESHOLD_BROWSER_MS } else { STALLED_PLAYING_THRESHOLD_GENERAL_MS }
}

/// The position is within the end margin of the known track length.
pub open spec fn spec_is_ended(position: u64, track_length: Option<u64>) -> bool {
    match track_length {
        Some(len) => position + TRACK_END_MARGIN_MS >= len,
        None => false,
    }
}

pub open spec fn spec_is_silent(last_event: u64, now: u64) -> bool {
    elapsed_ms(now, last_event) >= BROWSER_SILENCE_TIMEOUT_MS
}

/// Position unchanged and no event for at least `threshold`.
pub open spec fn spec_is_frozen(last_position: u64, position: u64, last_event: u64, now: u64, threshold: u64) -> bool {
    position == last_position && elapsed_ms(now, last_event) >= threshold
}

pub open spec fn spec_last_position(h: PlayerHealth) -> u64 {
    match h {
        PlayerHealth::Healthy { last_position, .. } => last_position,
        PlayerHealth::Stalled { last_position, .. } => last_position,
        PlayerHealth::Confirming { .. } => 0,
    }
}

pub open spec fn push_outcome() -> TransitionOutcome {
    TransitionOutcome::Push { art_decision: default_art_decision() }
}

/// One step of the health state machine: the next state and the action.
pub open spec fn spec_transition(
    h: PlayerHealth,
    status: PlaybackStatus,
    position: u64,
    track_length: Option<u64>,
    is_browser: bool,
    generation: u64,
    now: u64,
) -> (PlayerHealth, TransitionOutcome) {
    if status != PlaybackStatus::Playing {
        (
            PlayerHealth::Healthy { generation, last_event: now, last_position: position },
            TransitionOutcome::Clear,
        )
    } else {
        match h {
            PlayerHealth::Confirming { generation: g, since } => {
                if position > 0 {
                    (PlayerHealth::Healthy { generation: g, last_event: now, last_position: position }, push_outcome())
                } else if elapsed_ms(now, since) >= stall_threshold(is_browser) {
                    (PlayerHealth::Stalled { generation: g, since: now, last_position: position }, TransitionOutcome::Clear)
                } else {
                    (PlayerHealth::Confirming { generation: g, since }, TransitionOutcome::Noop)
                }
            },
            PlayerHealth::Healthy { generation: g, last_event, last_position } => {
                if spec_is_ended(position, track_length)
                    || (is_browser && spec_is_silent(last_event, now))
                    || spec_is_frozen(last_position, position, last_event, now, stall_threshold(is_browser)) {
                    (PlayerHealth::Stalled { generation: g, since: now, last_position: position }, TransitionOutcome::Clear)
                } else {
                    (PlayerHealth::Healthy { generation: g, last_event: now, last_position: position }, push_outcome())
                }
            },
            PlayerHealth::Stalled { generation: g, since, last_position } => {
                if position > 0 && position != last_position {
                    (PlayerHealth::Healthy { generation: g, last_event: now, last_position: position }, push_outcome())
                } else {
                    (PlayerHealth::Stalled { generation: g, since, last_position: position }, TransitionOutcome::Noop)
                }
            },
        }
    }
}

/// Generation carried by a state.
pub open spec fn spec_generation(h: PlayerHealth) -> u64 {
    match h {
        PlayerHealth::Confirming { generation, .. } => generation,
        PlayerHealth::Healthy { generation, .. } => generation,
        PlayerHealth::Stalled { generation, .. } => generation,
    }
}

/// The input's fields, as `spec_transition` takes them.
pub open spec fn spec_step(h: PlayerHealth, input: HealthCheckInput) -> (PlayerHealth, TransitionOutcome) {
    spec_transition(
        h,
        input.playback_status,
        input.position,
        input.track_length,
        input.is_browser_source,
        input.generation,
        input.now,
    )
}

/// Liveness refresh on a skipped tick: a playing, healthy player that moved
/// records the new position and the check time; anything else is unchanged.
pub open spec fn spec_observe_progress(h: PlayerHealth, status: PlaybackStatus, position: u64, now: u64) -> PlayerHealth {
    match h {
        PlayerHealth::Healthy { generation, last_event, last_position } => {
            if status == PlaybackStatus::Playing && position != last_position {
                PlayerHealth::Healthy { generation, last_event: now, last_position: position }
            } else {
                h
            }
        },
        _ => h,
    }
}

/// Name of a state, as it appears in logs.
pub open spec fn spec_state_name(h: PlayerHealth) -> &'static str {
    match h {
        PlayerHealth::Confirming { .. } => "Confirming",
        PlayerHealth::Healthy { .. } => "Healthy",
        PlayerHealth::Stalled { .. } => "Stalled",
    }
}

impl PlayerHealth {
    /// A fresh `Healthy` state at the current reading of `clock`.
    pub fn healthy(generation: u64, clock: &mut MonotonicClock) -> (r: Self)
        ensures
            final(clock).latest() >= old(clock).latest(),
            r matches PlayerHealth::Healthy { generation: g, last_position, last_event }
                && g == generation && last_position == 0 && last_event == final(clock).latest()
                && last_event >= CLOCK_START_MS,
    {
        PlayerHealth::Healthy { generation, last_event: clock.now_millis(), last_position: 0 }
    }

    /// A `Confirming` state starting at the current reading of `clock`.
    pub fn confirming(generation: u64, clock: &mut MonotonicClock) -> (r: Self)
        ensures
            final(clock).latest() >= old(clock).latest(),
            r matches PlayerHealth::Confirming { generation: g, since }
                && g == generation && since == final(clock).latest() && since >= CLOCK_START_MS,
    {
        PlayerHealth::Confirming { generation, since: clock.now_millis() }
    }

    /// The last known position stored in this state.
    pub fn last_position(&self) -> (r: u64)
        ensures
            r == spec_last_position(*self),
    {
        match self {
            PlayerHealth::Healthy { last_position, .. } => *last_position,
            PlayerHealth::Stalled { last_position, .. } => *last_position,
            PlayerHealth::Confirming { .. } => 0,
        }
    }

    /// Name of the state, for logs.
    pub fn state_name(&self) -> (r: &'static str)
        ensures
            r == spec_state_name(*self),
    {
        match self {
            PlayerHealth::Confirming { .. } => "Confirming",
            PlayerHealth::Healthy { .. } => "Healthy",
            PlayerHealth::Stalled { .. } => "Stalled",
        }
    }

    /// Refresh liveness from a skipped poll without producing an action.
    pub fn observe_progress(&mut self, input: &HealthCheckInput)
        ensures
            *final(self) == spec_observe_progress(*old(self), input.playback_status, input.position, input.now),
    {
        if input.playback_status != PlaybackStatus::Playing {
            return;
        }
        match *self {
            PlayerHealth::Healthy { generation, last_event, last_position } => {
                if input.position != last_position {
                    *self = PlayerHealth::Healthy { generation, last_event: input.now, last_position: input.position };
                }
            },
            _ => {},
        }
    }

    /// Art decision for a re-push without transition: always the default.
    pub fn art_decision(&self, track: &TrackFingerprint) -> (r: ArtDecision)
        ensures
            r == default_art_decision(),
    {
        ArtDecision::default()
    }

    /// Position within the end margin of the track length.
    pub fn is_ended(input: &HealthCheckInput) -> (r: bool)
        ensures
            r == spec_is_ended(input.position, input.track_length),
    {
        match input.track_length {
            Some(len) => len <= TRACK_END_MARGIN_MS || input.position >= len - TRACK_END_MARGIN_MS,
            None => false,
        }
    }

    /// No event for the browser silence timeout.
    pub fn is_silent(last_event: u64, now: u64) -> (r: bool)
        ensures
            r == spec_is_silent(last_event, now),
    {
        now >= last_event && now - last_event >= BROWSER_SILENCE_TIMEOUT_MS
    }

    /// Position unchanged and the last event at least `threshold` ago.
    pub fn is_frozen(last_position: u64, current_position: u64, last_event: u64, now: u64, threshold: u64) -> (r: bool)
        ensures
            r == spec_is_frozen(last_position, current_position, last_event, now, threshold),
    {
        let position_stuck = current_position == last_position;
        let time_exceeded = if now >= last_event { now - last_event >= threshold } else { threshold == 0 };
        position_stuck && time_exceeded
    }

    /// Run one transition step and return the action to take.
    pub fn transition(&mut self, input: &HealthCheckInput) -> (outcome: TransitionOutcome)
        ensures
            (*final(self), outcome) == spec_step(*old(self), *input),
    {
        let now = input.now;
        let stall_threshold = if input.is_browser_source {
            STALLED_PLAYING_THRESHOLD_BROWSER_MS
        } else {
            STALLED_PLAYING_THRESHOLD_GENERAL_MS
        };
        if input.playback_status != PlaybackStatus::Playing {
            *self = PlayerHealth::Healthy { generation: input.generation, last_event: now, last_position: input.position };
            return TransitionOutcome::Clear;
        }
        let (new_self, outcome) = match *self {
            PlayerHealth::Confirming { generation, since } => {
                let waited = if now >= since { now - since } else { 0 };
                if input.position > 0 {
                    (
                        PlayerHealth::Healthy { generation, last_event: now, last_position: input.position },
                        TransitionOutcome::Push { art_decision: ArtDecision::default() },
                    )
                } else if waited >= stall_threshold {
                    (PlayerHealth::Stalled { generation, since: now, last_position: input.position }, TransitionOutcome::Clear)
                } else {
                    (PlayerHealth::Confirming { generation, since }, TransitionOutcome::Noop)
                }
            },
            PlayerHealth::Healthy { generation, last_event, last_position } => {
                if Self::is_ended(input) || (input.is_browser_source && Self::is_silent(last_event, now))
                    || Self::is_frozen(last_position, input.position, last_event, now, stall_threshold) {
                    (PlayerHealth::Stalled { generation, since: now, last_position: input.position }, TransitionOutcome::Clear)
                } else {
                    (
                        PlayerHealth::Healthy { generation, last_event: now, last_position: input.position },
                        TransitionOutcome::Push { art_decision: ArtDecision::default() },
                    )
                }
            },
            PlayerHealth::Stalled { generation, since, last_position } => {
                if input.position > 0 && input.position != last_position {
                    (
                        PlayerHealth::Healthy { generation, last_event: now, last_position: input.position },
                        TransitionOutcome::Push { art_decision: ArtDecision::default() },
                    )
                } else {
                    (PlayerHealth::Stalled { generation, since, last_position: input.position }, TransitionOutcome::Noop)
                }
            },
        };
        *self = new_self;
        outcome
    }
}

impl TrackFingerprint {
    /// A fingerprint from the fields of MPRIS metadata.
    pub fn from_mpris(
        track_id: Option<String>,
        url: Option<String>,
        art_url: Option<String>,
        title: Option<String>,
        artists: Option<Vec<String>>,
        length: Option<u64>,
    ) -> (r: Self)
        ensures
            r.track_id == track_id,
            r.url == url,
            r.art_url == art_url,
            r.title == title,
            r.artists@ == (match artists { Some(a) => a@, None => Seq::<String>::empty() }),
            r.length == length,
    {
        let artists = match artists {
            Some(a) => a,
            None => Vec::new(),
        };
        TrackFingerprint { track_id, url, art_url, title, artists, length }
    }
}

/// A player that is not playing always ends healthy at the reported
/// position, with its activity cleared, whatever state it was in.
pub proof fn law_not_playing_clears(
    h: PlayerHealth,
    status: PlaybackStatus,
    position: u64,
    track_length: Option<u64>,
    is_browser: bool,
    generation: u64,
    now: u64,
)
    requires
        status != PlaybackStatus::Playing,
    ensures
        spec_transition(h, status, position, track_length, is_browser, generation, now) == (
            PlayerHealth::Healthy { generation, last_event: now, last_position: position },
            TransitionOutcome::Clear,
        ),
{
}

/// A push always leaves the player healthy at the reported position, and
/// every push uses the default art decision.
pub proof fn law_push_means_healthy(
    h: PlayerHealth,
    status: PlaybackStatus,
    position: u64,
    track_length: Option<u64>,
    is_browser: bool,
    generation: u64,
    now: u64,
)
    ensures
        ({
            let (next, outcome) = spec_transition(h, status, position, track_length, is_browser, generation, now);
            outcome is Push ==> (next is Healthy && spec_last_position(next) == position && outcome == push_outcome())
        }),
{
}

/// While playing, a clear means the player is now stalled; a stalled player
/// is never pushed until its position moves to a new, non-zero value.
pub proof fn law_clear_while_playing_means_stalled(
    h: PlayerHealth,
    position: u64,
    track_length: Option<u64>,
    is_browser: bool,
    generation: u64,
    now: u64,
)
    ensures
        ({
            let (next, outcome) = spec_transition(h, PlaybackStatus::Playing, position, track_length, is_browser, generation, now);
            &&& outcome == TransitionOutcome::Clear ==> next is Stalled
            &&& (h is Stalled && (position == 0 || position == spec_last_position(h)))
                ==> (next is Stalled && outcome == TransitionOutcome::Noop)
        }),
{
}

/// While playing, a transition keeps the generation the state carried, and
/// always records the reported position in a healthy or stalled state.
pub proof fn law_playing_keeps_generation(
    h: PlayerHealth,
    position: u64,
    track_length: Option<u64>,
    is_browser: bool,
    generation: u64,
    now: u64,
)
    ensures
        ({
            let next = spec_transition(h, PlaybackStatus::Playing, position, track_length, is_browser, generation, now).0;
            &&& spec_generation(next) == spec_generation(h)
            &&& !(next is Confirming) ==> spec_last_position(next) == position
        }),
{
}

/// A healthy playing player whose track has reached its end is always stalled and cleared.
pub proof fn law_ended_track_stalls(
    g: u64,
    last_event: u64,
    last_position: u64,
    position: u64,
    len: u64,
    is_browser: bool,
    generation: u64,
    now: u64,
)
    requires
        position + TRACK_END_MARGIN_MS >= len,
    ensures
        ({
            let (next, outcome) = spec_transition(
                PlayerHealth::Healthy { generation: g, last_event, last_position },
                PlaybackStatus::Playing, position, Some(len), is_browser, generation, now);
            next is Stalled && outcome == TransitionOutcome::Clear
        }),
{
}

} // verus!
