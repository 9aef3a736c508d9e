//! The cover-art lookup as a sequence of steps: from the current stage and
//! what the last request gave, the next stage and the next request. The
//! caller reads the cache, checks URLs, fetches bytes, searches the track's
//! directory and asks the providers, and reports each outcome back.
use vstd::prelude::*;
use crate::cover::art::{ArtSource, ArtSourceV};
use crate::cover::manager::{is_local_or_private_url, local_or_private, supports_source, supports_source_type, ProviderKind};
use crate::cover::providers::CoverResult;

verus! {

/// A provider's answer as plain values: its URL, its name, and how long
/// the image stays (seconds).
pub struct ProvidedV {
    pub url: Seq<char>,
    pub provider: Seq<char>,
    pub expiration: Option<u64>,
}

pub open spec fn provided_view(r: CoverResult) -> ProvidedV {
    ProvidedV { url: r.url@, provider: r.provider@, expiration: r.expiration }
}

/// Where a lookup stands.
pub enum Phase {
    Idle,
    CheckingCache,
    ValidatingCached(String),
    RecoveringBytes,
    FetchingPrivate,
    ValidatingDirect(String),
    SearchingLocal,
    AskingProvider { local: bool, index: usize },
    ValidatingProvided { local: bool, index: usize, result: CoverResult },
    Finished,
}

pub enum PhaseV {
    Idle,
    CheckingCache,
    ValidatingCached(Seq<char>),
    RecoveringBytes,
    FetchingPrivate,
    ValidatingDirect(Seq<char>),
    SearchingLocal,
    AskingProvider { local: bool, index: int },
    ValidatingProvided { local: bool, index: int, result: ProvidedV },
    Finished,
}

pub open spec fn opt_source(o: Option<ArtSource>) -> Option<ArtSourceV> {
    match o {
        Some(s) => Some(s@),
        None => None,
    }
}

/// A cover-art lookup: its stage, the providers in order, the source the
/// player's metadata gave, the source the providers are given, the art
/// found next to the track, and the track's directory when it is a local
/// file.
pub struct CoverLookup {
    pub phase: Phase,
    pub providers: Vec<ProviderKind>,
    pub source: Option<ArtSource>,
    pub for_providers: Option<ArtSource>,
    pub local_art: Option<ArtSource>,
    pub track_dir: Option<String>,
}

pub struct LookupV {
    pub phase: PhaseV,
    pub providers: Seq<ProviderKind>,
    pub source: Option<ArtSourceV>,
    pub for_providers: Option<ArtSourceV>,
    pub local_art: Option<ArtSourceV>,
    pub track_dir: Option<Seq<char>>,
}

impl View for Phase {
    type V = PhaseV;

    open spec fn view(&self) -> PhaseV {
        match self {
            Phase::Idle => PhaseV::Idle,
            Phase::CheckingCache => PhaseV::CheckingCache,
            Phase::ValidatingCached(u) => PhaseV::ValidatingCached(u@),
            Phase::RecoveringBytes => PhaseV::RecoveringBytes,
            Phase::FetchingPrivate => PhaseV::FetchingPrivate,
            Phase::ValidatingDirect(u) => PhaseV::ValidatingDirect(u@),
            Phase::SearchingLocal => PhaseV::SearchingLocal,
            Phase::AskingProvider { local, index } => PhaseV::AskingProvider { local: *local, index: *index as int },
            Phase::ValidatingProvided { local, index, result } => PhaseV::ValidatingProvided {
                local: *local,
                index: *index as int,
                result: provided_view(*result),
            },
            Phase::Finished => PhaseV::Finished,
        }
    }
}

impl View for CoverLookup {
    type V = LookupV;

    open spec fn view(&self) -> LookupV {
        LookupV {
            phase: self.phase@,
            providers: self.providers@,
            source: opt_source(self.source),
            for_providers: opt_source(self.for_providers),
            local_art: opt_source(self.local_art),
            track_dir: match self.track_dir { Some(d) => Some(d@), None => None },
        }
    }
}

/// What the last request gave.
pub enum LookupEvent {
    Start,
    /// The cache entry of the track: its URL and whether it is due a check.
    CacheEntry(Option<(String, bool)>),
    UrlChecked(bool),
    BytesRecovered(Option<Vec<u8>>),
    PrivateFetched(Option<Vec<u8>>),
    LocalSearched(Option<ArtSource>),
    /// A provider's answer; `None` when it found nothing or failed.
    ProviderAnswered(Option<CoverResult>),
}

pub enum EventV {
    Start,
    CacheEntry(Option<(Seq<char>, bool)>),
    UrlChecked(bool),
    BytesRecovered(Option<Seq<u8>>),
    PrivateFetched(Option<Seq<u8>>),
    LocalSearched(Option<ArtSourceV>),
    ProviderAnswered(Option<ProvidedV>),
}

impl View for LookupEvent {
    type V = EventV;

    open spec fn view(&self) -> EventV {
        match self {
            LookupEvent::Start => EventV::Start,
            LookupEvent::CacheEntry(e) => EventV::CacheEntry(match e { Some((u, n)) => Some((u@, *n)), None => None }),
            LookupEvent::UrlChecked(b) => EventV::UrlChecked(*b),
            LookupEvent::BytesRecovered(b) => EventV::BytesRecovered(match b { Some(v) => Some(v@), None => None }),
            LookupEvent::PrivateFetched(b) => EventV::PrivateFetched(match b { Some(v) => Some(v@), None => None }),
            LookupEvent::LocalSearched(a) => EventV::LocalSearched(opt_source(*a)),
            LookupEvent::ProviderAnswered(r) => EventV::ProviderAnswered(match r { Some(x) => Some(provided_view(*x)), None => None }),
        }
    }
}

/// The next request.
pub enum LookupAction {
    ReadCache,
    CheckUrl(String),
    /// Serve the cached URL, recording a fresh check when it was just made.
    ServeCached { url: String, refresh_validated: bool },
    /// Recover the cached entry's bytes and remove the entry.
    DiscardCached,
    FetchBytes(String),
    SearchLocal(String),
    AskProvider { index: usize, source: ArtSource },
    /// Cache the URL (with the source's bytes where it has them) and serve
    /// it; the provider is `None` for a direct URL.
    StoreAndServe { provider: Option<String>, url: String, expiration: Option<u64>, payload_source: Option<ArtSource> },
    GiveUp,
    Ignore,
}

pub enum ActionV {
    ReadCache,
    CheckUrl(Seq<char>),
    ServeCached { url: Seq<char>, refresh_validated: bool },
    DiscardCached,
    FetchBytes(Seq<char>),
    SearchLocal(Seq<char>),
    AskProvider { index: int, source: ArtSourceV },
    StoreAndServe { provider: Option<Seq<char>>, url: Seq<char>, expiration: Option<u64>, payload_source: Option<ArtSourceV> },
    GiveUp,
    Ignore,
}

impl View for LookupAction {
    type V = ActionV;

    open spec fn view(&self) -> ActionV {
        match self {
            LookupAction::ReadCache => ActionV::ReadCache,
            LookupAction::CheckUrl(u) => ActionV::CheckUrl(u@),
            LookupAction::ServeCached { url, refresh_validated } => ActionV::ServeCached { url: url@, refresh_validated: *refresh_validated },
            LookupAction::DiscardCached => ActionV::DiscardCached,
            LookupAction::FetchBytes(u) => ActionV::FetchBytes(u@),
            LookupAction::SearchLocal(d) => ActionV::SearchLocal(d@),
            LookupAction::AskProvider { index, source } => ActionV::AskProvider { index: *index as int, source: source@ },
            LookupAction::StoreAndServe { provider, url, expiration, payload_source } => ActionV::StoreAndServe {
                provider: match provider { Some(p) => Some(p@), None => None },
                url: url@,
                expiration: *expiration,
                payload_source: opt_source(*payload_source),
            },
            LookupAction::GiveUp => ActionV::GiveUp,
            LookupAction::Ignore => ActionV::Ignore,
        }
    }
}

/// The first provider from `i` on that takes the source.
pub open spec fn first_supporting(kinds: Seq<ProviderKind>, i: int, src: ArtSourceV) -> Option<int>
    decreases kinds.len() - i,
{
    if i < 0 || i >= kinds.len() {
        None
    } else if supports_source(kinds[i], src) {
        Some(i)
    } else {
        first_supporting(kinds, i + 1, src)
    }
}

/// Ask the next provider, from `i` on, that takes the source the providers
/// are given; give up when none is left.
pub open spec fn try_main(s: LookupV, i: int) -> (LookupV, ActionV) {
    match s.for_providers {
        Some(src) => match first_supporting(s.providers, i, src) {
            Some(j) => (LookupV { phase: PhaseV::AskingProvider { local: false, index: j }, ..s }, ActionV::AskProvider { index: j, source: src }),
            None => (LookupV { phase: PhaseV::Finished, ..s }, ActionV::GiveUp),
        },
        None => (LookupV { phase: PhaseV::Finished, ..s }, ActionV::GiveUp),
    }
}

/// Ask the next provider, from `i` on, that takes the art found next to
/// the track; then the providers with the other source.
pub open spec fn try_local(s: LookupV, i: int) -> (LookupV, ActionV) {
    match s.local_art {
        Some(art) => match first_supporting(s.providers, i, art) {
            Some(j) => (LookupV { phase: PhaseV::AskingProvider { local: true, index: j }, ..s }, ActionV::AskProvider { index: j, source: art }),
            None => try_main(s, 0),
        },
        None => try_main(s, 0),
    }
}

/// Search the track's directory when the track is a local file, else go
/// to the providers.
pub open spec fn local_stage(s: LookupV) -> (LookupV, ActionV) {
    match s.track_dir {
        Some(d) => (LookupV { phase: PhaseV::SearchingLocal, ..s }, ActionV::SearchLocal(d)),
        None => try_main(s, 0),
    }
}

/// A URL from the player is fetched when it is local or private, checked
/// otherwise; any other source goes on to the local search.
pub open spec fn direct_stage(s: LookupV) -> (LookupV, ActionV) {
    match s.source {
        Some(ArtSourceV::Url(u)) => if local_or_private(u) {
            (LookupV { phase: PhaseV::FetchingPrivate, ..s }, ActionV::FetchBytes(u))
        } else {
            (LookupV { phase: PhaseV::ValidatingDirect(u), ..s }, ActionV::CheckUrl(u))
        },
        _ => local_stage(s),
    }
}

/// One step of the lookup: a cached URL is served as it is, or once it
/// checks out (else its bytes go to the providers); a direct URL from the
/// player is used once it checks out; then the art next to a local track
/// and the player's source are given to the providers that take them, in
/// order, and a provider's URL is used once it checks out. An event that
/// does not fit the stage changes nothing.
pub open spec fn step_spec(s: LookupV, e: EventV) -> (LookupV, ActionV) {
    match (s.phase, e) {
        (PhaseV::Idle, EventV::Start) => (LookupV { phase: PhaseV::CheckingCache, ..s }, ActionV::ReadCache),
        (PhaseV::CheckingCache, EventV::CacheEntry(None)) => direct_stage(LookupV { for_providers: s.source, ..s }),
        (PhaseV::CheckingCache, EventV::CacheEntry(Some((u, due)))) => if !due {
            (LookupV { phase: PhaseV::Finished, ..s }, ActionV::ServeCached { url: u, refresh_validated: false })
        } else {
            (LookupV { phase: PhaseV::ValidatingCached(u), ..s }, ActionV::CheckUrl(u))
        },
        (PhaseV::ValidatingCached(u), EventV::UrlChecked(ok)) => if ok {
            (LookupV { phase: PhaseV::Finished, ..s }, ActionV::ServeCached { url: u, refresh_validated: true })
        } else {
            (LookupV { phase: PhaseV::RecoveringBytes, ..s }, ActionV::DiscardCached)
        },
        (PhaseV::RecoveringBytes, EventV::BytesRecovered(b)) => direct_stage(LookupV {
            for_providers: match b { Some(bytes) => Some(ArtSourceV::Bytes(bytes)), None => s.source },
            ..s
        }),
        (PhaseV::FetchingPrivate, EventV::PrivateFetched(b)) => local_stage(match b {
            Some(bytes) => LookupV { for_providers: Some(ArtSourceV::Bytes(bytes)), ..s },
            None => s,
        }),
        (PhaseV::ValidatingDirect(u), EventV::UrlChecked(ok)) => if ok {
            (LookupV { phase: PhaseV::Finished, ..s }, ActionV::StoreAndServe { provider: None, url: u, expiration: None, payload_source: s.source })
        } else {
            local_stage(s)
        },
        (PhaseV::SearchingLocal, EventV::LocalSearched(found)) => match found {
            Some(art) => try_local(LookupV { local_art: Some(art), ..s }, 0),
            None => try_main(s, 0),
        },
        (PhaseV::AskingProvider { local, index }, EventV::ProviderAnswered(answer)) => match answer {
            Some(r) => (LookupV { phase: PhaseV::ValidatingProvided { local, index, result: r }, ..s }, ActionV::CheckUrl(r.url)),
            None => if local { try_local(s, index + 1) } else { try_main(s, index + 1) },
        },
        (PhaseV::ValidatingProvided { local, index, result }, EventV::UrlChecked(ok)) => if ok {
            (LookupV { phase: PhaseV::Finished, ..s }, ActionV::StoreAndServe {
                provider: Some(result.provider),
                url: result.url,
                expiration: result.expiration,
                payload_source: if local { s.local_art } else { s.for_providers },
            })
        } else if local {
            try_local(s, index + 1)
        } else {
            try_main(s, index + 1)
        },
        _ => (s, ActionV::Ignore),
    }
}

fn copy_source(o: &Option<ArtSource>) -> (r: Option<ArtSource>)
    ensures
        opt_source(r) == opt_source(*o),
{
    match o {
        Some(s) => Some(s.clone_source()),
        None => None,
    }
}

fn first_supporting_exec(kinds: &Vec<ProviderKind>, start: usize, src: &ArtSource) -> (r: Option<usize>)
    ensures
        match r {
            Some(j) => first_supporting(kinds@, start as int, src@) == Some(j as int) && j < kinds@.len(),
            None => first_supporting(kinds@, start as int, src@) is None,
        },
{
    let mut i = start;
    while i < kinds.len()
        invariant
            start <= i,
            first_supporting(kinds@, start as int, src@) == first_supporting(kinds@, i as int, src@),
        decreases kinds@.len() - i,
    {
        if supports_source_type(kinds[i], src) {
            return Some(i);
        }
        i += 1;
    }
    None
}

impl CoverLookup {
    /// A lookup for a track: the providers in order, the source from the
    /// player's metadata, and the directory of the track when it is a
    /// local file.
    pub fn new(providers: Vec<ProviderKind>, source: Option<ArtSource>, track_dir: Option<String>) -> (r: Self)
        ensures
            r@ == (LookupV {
                phase: PhaseV::Idle,
                providers: providers@,
                source: opt_source(source),
                for_providers: None,
                local_art: None,
                track_dir: match track_dir { Some(d) => Some(d@), None => None },
            }),
    {
        CoverLookup { phase: Phase::Idle, providers, source, for_providers: None, local_art: None, track_dir }
    }

    fn try_main_exec(self, i: usize) -> (r: (CoverLookup, LookupAction))
        ensures
            (r.0@, r.1@) == try_main(self@, i as int),
    {
        let mut s = self;
        let found = match &s.for_providers {
            Some(src) => match first_supporting_exec(&s.providers, i, src) {
                Some(j) => Some((j, src.clone_source())),
                None => None,
            },
            None => None,
        };
        match found {
            Some((j, src)) => {
                s.phase = Phase::AskingProvider { local: false, index: j };
                (s, LookupAction::AskProvider { index: j, source: src })
            },
            None => {
                s.phase = Phase::Finished;
                (s, LookupAction::GiveUp)
            },
        }
    }

    fn try_local_exec(self, i: usize) -> (r: (CoverLookup, LookupAction))
        ensures
            (r.0@, r.1@) == try_local(self@, i as int),
    {
        let mut s = self;
        let found = match &s.local_art {
            Some(art) => match first_supporting_exec(&s.providers, i, art) {
                Some(j) => Some((j, art.clone_source())),
                None => None,
            },
            None => None,
        };
        match found {
            Some((j, art)) => {
                s.phase = Phase::AskingProvider { local: true, index: j };
                (s, LookupAction::AskProvider { index: j, source: art })
            },
            None => s.try_main_exec(0),
        }
    }

    fn local_exec(self) -> (r: (CoverLookup, LookupAction))
        ensures
            (r.0@, r.1@) == local_stage(self@),
    {
        let mut s = self;
        match &s.track_dir {
            Some(d) => {
                let dir = d.clone();
                s.phase = Phase::SearchingLocal;
                (s, LookupAction::SearchLocal(dir))
            },
            None => s.try_main_exec(0),
        }
    }

    fn direct_exec(self) -> (r: (CoverLookup, LookupAction))
        ensures
            (r.0@, r.1@) == direct_stage(self@),
    {
        let mut s = self;
        let url = match &s.source {
            Some(ArtSource::Url(u)) => Some(u.clone()),
            _ => None,
        };
        match url {
            Some(u) => {
                if is_local_or_private_url(u.as_str()) {
                    s.phase = Phase::FetchingPrivate;
                    (s, LookupAction::FetchBytes(u))
                } else {
                    s.phase = Phase::ValidatingDirect(u.clone());
                    (s, LookupAction::CheckUrl(u))
                }
            },
            None => s.local_exec(),
        }
    }

    fn finish(self) -> (r: CoverLookup)
        ensures
            r@ == (LookupV { phase: PhaseV::Finished, ..self@ }),
    {
        let mut s = self;
        s.phase = Phase::Finished;
        s
    }

    /// The next stage and request, from what the last request gave.
    pub fn step(self, event: LookupEvent) -> (r: (CoverLookup, LookupAction))
        requires
            self.phase matches Phase::AskingProvider { index, .. } ==> index < usize::MAX,
            self.phase matches Phase::ValidatingProvided { index, .. } ==> index < usize::MAX,
        ensures
            (r.0@, r.1@) == step_spec(self@, event@),
    {
        let mut s = self;
        let ghost sv = s@;
        let ghost ev = event@;
        match (&s.phase, event) {
            (Phase::Idle, LookupEvent::Start) => {
                s.phase = Phase::CheckingCache;
                (s, LookupAction::ReadCache)
            },
            (Phase::CheckingCache, LookupEvent::CacheEntry(None)) => {
                s.for_providers = copy_source(&s.source);
                s.direct_exec()
            },
            (Phase::CheckingCache, LookupEvent::CacheEntry(Some((u, due)))) => {
                if !due {
                    (s.finish(), LookupAction::ServeCached { url: u, refresh_validated: false })
                } else {
                    s.phase = Phase::ValidatingCached(u.clone());
                    (s, LookupAction::CheckUrl(u))
                }
            },
            (Phase::ValidatingCached(u), LookupEvent::UrlChecked(ok)) => {
                let url = u.clone();
                if ok {
                    (s.finish(), LookupAction::ServeCached { url, refresh_validated: true })
                } else {
                    s.phase = Phase::RecoveringBytes;
                    (s, LookupAction::DiscardCached)
                }
            },
            (Phase::RecoveringBytes, LookupEvent::BytesRecovered(b)) => {
                s.for_providers = match b {
                    Some(bytes) => Some(ArtSource::Bytes(bytes)),
                    None => copy_source(&s.source),
                };
                s.direct_exec()
            },
            (Phase::FetchingPrivate, LookupEvent::PrivateFetched(b)) => {
                match b {
                    Some(bytes) => {
                        s.for_providers = Some(ArtSource::Bytes(bytes));
                    },
                    None => {},
                }
                s.local_exec()
            },
            (Phase::ValidatingDirect(u), LookupEvent::UrlChecked(ok)) => {
                let url = u.clone();
                if ok {
                    let payload = copy_source(&s.source);
                    (s.finish(), LookupAction::StoreAndServe { provider: None, url, expiration: None, payload_source: payload })
                } else {
                    s.local_exec()
                }
            },
            (Phase::SearchingLocal, LookupEvent::LocalSearched(found)) => {
                match found {
                    Some(art) => {
                        s.local_art = Some(art);
                        s.try_local_exec(0)
                    },
                    None => s.try_main_exec(0),
                }
            },
            (Phase::AskingProvider { local, index }, LookupEvent::ProviderAnswered(answer)) => {
                let local = *local;
                let index = *index;
                match answer {
                    Some(r) => {
                        let check = r.url.clone();
                        s.phase = Phase::ValidatingProvided { local, index, result: r };
                        (s, LookupAction::CheckUrl(check))
                    },
                    None => if local { s.try_local_exec(index + 1) } else { s.try_main_exec(index + 1) },
                }
            },
            (Phase::ValidatingProvided { local, index, result }, LookupEvent::UrlChecked(ok)) => {
                let local = *local;
                let index = *index;
                if ok {
                    let provider = Some(result.provider.clone());
                    let url = result.url.clone();
                    let expiration = result.expiration;
                    let payload = if local { copy_source(&s.local_art) } else { copy_source(&s.for_providers) };
                    (s.finish(), LookupAction::StoreAndServe { provider, url, expiration, payload_source: payload })
                } else if local {
                    s.try_local_exec(index + 1)
                } else {
                    s.try_main_exec(index + 1)
                }
            },
            _ => (s, LookupAction::Ignore),
        }
    }
}

/// A lookup only serves a URL that was checked and passed, or a cached
/// one that was not yet due a check: no step stores a URL without a
/// passed check.
pub proof fn law_only_checked_urls_are_stored(s: LookupV, e: EventV)
    ensures
        step_spec(s, e).1 is StoreAndServe ==> e == EventV::UrlChecked(true),
        step_spec(s, e).1 matches ActionV::ServeCached { refresh_validated, .. }
            ==> (refresh_validated ==> e == EventV::UrlChecked(true)),
{
}

/// `first_supporting` finds the first provider from `i` on that takes the
/// source, and none when no later provider takes it.
proof fn lemma_first_supporting(kinds: Seq<ProviderKind>, i: int, src: ArtSourceV)
    requires
        0 <= i,
    ensures
        match first_supporting(kinds, i, src) {
            Some(j) => i <= j < kinds.len() && supports_source(kinds[j], src)
                && forall|k: int| i <= k < j ==> !#[trigger] supports_source(kinds[k], src),
            None => forall|k: int| i <= k < kinds.len() ==> !#[trigger] supports_source(kinds[k], src),
        },
    decreases kinds.len() - i,
{
    if i < kinds.len() && !supports_source(kinds[i], src) {
        lemma_first_supporting(kinds, i + 1, src);
    }
}

/// When the player's public art URL fails its check the lookup goes on as
/// it would without such a URL: to the local search when the track is a
/// local file, else to the first provider that takes the player's source.
/// It gives up only when no provider takes that source, and it keeps what
/// it knows of the track.
pub proof fn law_failed_direct_url_goes_on(s: LookupV, u: Seq<char>)
    requires
        s.phase == PhaseV::ValidatingDirect(u),
    ensures
        step_spec(s, EventV::UrlChecked(false)).0.providers == s.providers,
        step_spec(s, EventV::UrlChecked(false)).0.source == s.source,
        step_spec(s, EventV::UrlChecked(false)).0.for_providers == s.for_providers,
        step_spec(s, EventV::UrlChecked(false)).0.local_art == s.local_art,
        step_spec(s, EventV::UrlChecked(false)).0.track_dir == s.track_dir,
        s.track_dir matches Some(d) ==> step_spec(s, EventV::UrlChecked(false)).1 == ActionV::SearchLocal(d)
            && step_spec(s, EventV::UrlChecked(false)).0.phase == PhaseV::SearchingLocal,
        s.track_dir is None ==> match s.for_providers {
            Some(src) => if exists|j: int| 0 <= j < s.providers.len() && #[trigger] supports_source(s.providers[j], src) {
                exists|j: int| 0 <= j < s.providers.len() && supports_source(s.providers[j], src)
                    && (forall|k: int| 0 <= k < j ==> !#[trigger] supports_source(s.providers[k], src))
                    && step_spec(s, EventV::UrlChecked(false)).1 == (ActionV::AskProvider { index: j, source: src })
            } else {
                step_spec(s, EventV::UrlChecked(false)).1 == ActionV::GiveUp
            },
            None => step_spec(s, EventV::UrlChecked(false)).1 == ActionV::GiveUp,
        },
{
    match s.for_providers {
        Some(src) => lemma_first_supporting(s.providers, 0, src),
        None => {},
    }
}

/// Whatever `first_supporting` finds, from any start, is a provider that
/// takes the source.
proof fn lemma_first_supporting_takes(kinds: Seq<ProviderKind>, src: ArtSourceV)
    ensures
        forall|i: int| #[trigger] first_supporting(kinds, i, src) is Some
            ==> 0 <= first_supporting(kinds, i, src).unwrap() < kinds.len()
                && supports_source(kinds[first_supporting(kinds, i, src).unwrap()], src),
{
    assert forall|i: int| #[trigger] first_supporting(kinds, i, src) is Some
        implies 0 <= first_supporting(kinds, i, src).unwrap() < kinds.len()
            && supports_source(kinds[first_supporting(kinds, i, src).unwrap()], src) by {
        if 0 <= i {
            lemma_first_supporting(kinds, i, src);
        }
    }
}

/// A lookup only asks a provider that takes the source it hands over.
pub proof fn law_providers_asked_take_the_source(s: LookupV, e: EventV)
    ensures
        step_spec(s, e).1 matches ActionV::AskProvider { index, source } ==> 0 <= index < s.providers.len()
            && supports_source(s.providers[index], source)
            && (step_spec(s, e).0.phase matches PhaseV::AskingProvider { index: asked, .. } && asked == index),
{
    let n = step_spec(s, e).0;
    match n.for_providers { Some(x) => lemma_first_supporting_takes(s.providers, x), None => {} }
    match n.local_art { Some(x) => lemma_first_supporting_takes(s.providers, x), None => {} }
}

/// A cached URL that is not yet due a check is served as it is, and one
/// that is due is checked first; neither ends in giving up.
pub proof fn law_cache_hit_served(s: LookupV, u: Seq<char>, due: bool)
    requires
        s.phase == PhaseV::CheckingCache,
    ensures
        !due ==> step_spec(s, EventV::CacheEntry(Some((u, due)))).1 == (ActionV::ServeCached { url: u, refresh_validated: false }),
        due ==> step_spec(s, EventV::CacheEntry(Some((u, due)))).1 == ActionV::CheckUrl(u),
        s.phase == PhaseV::CheckingCache ==> step_spec(s, EventV::CacheEntry(Some((u, due)))).1 != ActionV::GiveUp,
{
}

/// A provider that answers nothing is passed over: the lookup asks the
/// next provider that takes the same source, and gives up on that source
/// only when no later provider takes it.
pub proof fn law_empty_answer_asks_the_next_provider(s: LookupV, index: int)
    requires
        s.phase == (PhaseV::AskingProvider { local: false, index }),
        0 <= index,
        s.for_providers is Some,
    ensures
        ({
            let src = s.for_providers.unwrap();
            let a = step_spec(s, EventV::ProviderAnswered(None)).1;
            if exists|j: int| index < j < s.providers.len() && #[trigger] supports_source(s.providers[j], src) {
                exists|j: int| index < j < s.providers.len() && supports_source(s.providers[j], src)
                    && (forall|k: int| index < k < j ==> !#[trigger] supports_source(s.providers[k], src))
                    && a == (ActionV::AskProvider { index: j, source: src })
            } else {
                a == ActionV::GiveUp
            }
        }),
{
    lemma_first_supporting(s.providers, index + 1, s.for_providers.unwrap());
}

} // verus!
