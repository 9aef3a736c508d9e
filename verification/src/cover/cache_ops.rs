//! The steps of looking up, storing and removing a cache entry: which file
//! work comes next and how the usage counts move. The caller does the file
//! work and reports back what happened.
use vstd::prelude::*;
use crate::cover::cache::{
    adjusted, data_file_name, effective_ttl, CacheEntry, CacheUsage, MAX_CACHED_IMAGE_BYTES, MAX_CACHE_ENTRIES,
    MAX_CACHE_SIZE_BYTES,
};
use crate::text::opt_view;

verus! {

broadcast use vstd::string::group_string_axioms;

/// What reading an entry file gave.
#[derive(Debug, Clone)]
pub enum EntryRead {
    /// There is no such file.
    Missing,
    /// The file is there but could not be read.
    Unreadable,
    /// The file was read but does not hold an entry.
    Corrupt,
    Parsed(CacheEntry),
}

/// A lookup: the entry when it is there and live. An expired or corrupt
/// entry file is to be removed (`r.0`); one that could not be read is left.
pub fn lookup_outcome(read: EntryRead, now: u64) -> (r: (bool, Option<CacheEntry>))
    ensures
        match read {
            EntryRead::Missing => !r.0 && r.1 is None,
            EntryRead::Unreadable => !r.0 && r.1 is None,
            EntryRead::Corrupt => r.0 && r.1 is None,
            EntryRead::Parsed(e) => if now > e.expires_at {
                r.0 && r.1 is None
            } else {
                !r.0 && r.1 == Some(e)
            },
        },
{
    match read {
        EntryRead::Missing => (false, None),
        EntryRead::Unreadable => (false, None),
        EntryRead::Corrupt => (true, None),
        EntryRead::Parsed(e) => if now > e.expires_at { (true, None) } else { (false, Some(e)) },
    }
}

/// A file length as a usage delta; lengths past `i64::MAX` count as that.
pub open spec fn len_delta(len: u64) -> int {
    if len > i64::MAX as u64 { i64::MAX as int } else { len as int }
}

fn len_delta_exec(len: u64) -> (r: i64)
    ensures
        r == len_delta(len),
        r >= 0,
{
    if len > i64::MAX as u64 { i64::MAX } else { len as i64 }
}

/// Usage after a payload file was removed (`Some` with its length) or not.
pub open spec fn removed_usage(u: CacheUsage, removed_len: Option<u64>) -> CacheUsage {
    match removed_len {
        Some(len) => if len > 0 { adjusted(u, 0, -len_delta(len)) } else { u },
        None => u,
    }
}

/// Account for a payload file that was removed (`Some` with its length) or not.
pub fn account_removed(usage: &mut CacheUsage, removed_len: Option<u64>)
    ensures
        *final(usage) == removed_usage(*old(usage), removed_len),
{
    match removed_len {
        Some(len) => if len > 0 {
            let d = len_delta_exec(len);
            usage.adjust(0, -d);
        },
        None => {},
    }
}

/// Usage is over the entry count or size limit.
pub open spec fn over_limits(u: CacheUsage) -> bool {
    u.entries > MAX_CACHE_ENTRIES || u.bytes > MAX_CACHE_SIZE_BYTES
}

/// Where a store stands: the file work it waits on.
#[derive(Debug, Clone, Copy, PartialEq, Eq, Structural)]
pub enum StorePhase {
    WritingPayload,
    ReadingExisting,
    RemovingOld,
    WritingEntry,
    RemovingFailed,
    Enforcing,
    Done,
}

/// A store in progress: the entry it writes, what the entry file was
/// before, and the payload it writes with it.
#[derive(Debug, Clone)]
pub struct StoreOp {
    pub url: String,
    pub provider: String,
    pub now: u64,
    pub expires_at: u64,
    pub existed: bool,
    pub previous_len: u64,
    pub payload_len: u64,
    pub data_file: Option<String>,
    pub phase: StorePhase,
}

/// What the file work of a store gave.
#[derive(Debug, Clone)]
pub enum StoreEvent {
    PayloadWritten { ok: bool },
    /// The payload file named by the entry being replaced, if it was read.
    ExistingRead { data_file: Option<String> },
    /// `Some` with its length when the payload file was there and removed.
    PayloadRemoved { removed_len: Option<u64> },
    /// `Some` with the written length, or `None` when writing failed.
    EntryWritten { len: Option<u64> },
    LimitsEnforced { ok: bool },
}

/// The next file work of a store, or its end.
#[derive(Debug, Clone)]
pub enum StoreAction {
    WritePayload { name: String },
    ReadExisting,
    RemovePayload { name: String },
    WriteEntry { entry: CacheEntry },
    EnforceLimits,
    Finish { ok: bool },
}

/// Lifetime of a new entry: the provider's, capped at the cache's.
pub open spec fn ttl_of(provider_ttl: Option<u64>, cache_ttl: u64) -> u64 {
    match provider_ttl {
        Some(t) => if t < cache_ttl { t } else { cache_ttl },
        None => cache_ttl,
    }
}

/// The first phase: write the payload when there is one that fits; with
/// none, read the entry being replaced to drop its payload; with one that
/// does not fit, write the entry alone.
pub open spec fn store_start_phase(payload_len: Option<usize>) -> StorePhase {
    match payload_len {
        Some(n) => if 0 < n && n <= MAX_CACHED_IMAGE_BYTES { StorePhase::WritingPayload } else { StorePhase::WritingEntry },
        None => StorePhase::ReadingExisting,
    }
}

/// The entry a store writes.
pub open spec fn entry_of(op: StoreOp, e: CacheEntry) -> bool {
    &&& e.url@ == op.url@
    &&& e.provider@ == op.provider@
    &&& e.expires_at == op.expires_at
    &&& e.last_validated == op.now
    &&& opt_view(e.data_file) == opt_view(op.data_file)
}

/// Usage after an event of a store.
pub open spec fn store_usage_after(op: StoreOp, u: CacheUsage, ev: StoreEvent) -> CacheUsage {
    match op.phase {
        StorePhase::WritingPayload => match ev {
            StoreEvent::PayloadWritten { ok } => if ok { adjusted(u, 0, op.payload_len as int) } else { u },
            _ => u,
        },
        StorePhase::RemovingOld => match ev {
            StoreEvent::PayloadRemoved { removed_len } => removed_usage(u, removed_len),
            _ => u,
        },
        StorePhase::RemovingFailed => match ev {
            StoreEvent::PayloadRemoved { removed_len } => removed_usage(u, removed_len),
            _ => u,
        },
        StorePhase::WritingEntry => match ev {
            StoreEvent::EntryWritten { len: Some(l) } =>
                adjusted(u, if op.existed { 0 } else { 1 }, len_delta(l) - len_delta(op.previous_len)),
            _ => u,
        },
        _ => u,
    }
}

/// Phase after an event. An event the phase does not wait for ends the
/// store as failed.
pub open spec fn store_phase_after(op: StoreOp, u: CacheUsage, ev: StoreEvent) -> StorePhase {
    match op.phase {
        StorePhase::WritingPayload => match ev {
            StoreEvent::PayloadWritten { ok } => if ok { StorePhase::WritingEntry } else { StorePhase::Done },
            _ => StorePhase::Done,
        },
        StorePhase::ReadingExisting => match ev {
            StoreEvent::ExistingRead { data_file } => if data_file is Some {
                StorePhase::RemovingOld
            } else {
                StorePhase::WritingEntry
            },
            _ => StorePhase::Done,
        },
        StorePhase::RemovingOld => match ev {
            StoreEvent::PayloadRemoved { .. } => StorePhase::WritingEntry,
            _ => StorePhase::Done,
        },
        StorePhase::WritingEntry => match ev {
            StoreEvent::EntryWritten { len } => match len {
                Some(_) => if over_limits(store_usage_after(op, u, ev)) { StorePhase::Enforcing } else { StorePhase::Done },
                None => if op.data_file is Some { StorePhase::RemovingFailed } else { StorePhase::Done },
            },
            _ => StorePhase::Done,
        },
        _ => StorePhase::Done,
    }
}

/// Whether a store that ends on this event succeeded: its entry was
/// written and, where needed, the limits were enforced.
pub open spec fn store_ok_after(op: StoreOp, ev: StoreEvent) -> bool {
    match op.phase {
        StorePhase::WritingEntry => ev matches StoreEvent::EntryWritten { len: Some(_) },
        StorePhase::Enforcing => match ev {
            StoreEvent::LimitsEnforced { ok } => ok,
            _ => false,
        },
        _ => false,
    }
}

/// The action that goes with the phase after an event.
pub open spec fn store_action_ok(op: StoreOp, u: CacheUsage, ev: StoreEvent, a: StoreAction) -> bool {
    match store_phase_after(op, u, ev) {
        StorePhase::WritingEntry => a matches StoreAction::WriteEntry { entry } && entry_of(op, entry),
        StorePhase::RemovingOld => match (ev, a) {
            (StoreEvent::ExistingRead { data_file: Some(n) }, StoreAction::RemovePayload { name }) => name@ == n@,
            _ => false,
        },
        StorePhase::RemovingFailed => a matches StoreAction::RemovePayload { name }
            && opt_view(op.data_file) == Some(name@),
        StorePhase::Enforcing => a is EnforceLimits,
        StorePhase::Done => a == StoreAction::Finish { ok: store_ok_after(op, ev) },
        _ => false,
    }
}

impl StoreOp {
    /// Begin storing `url` under `key`, with a payload of `payload_len`
    /// bytes where there is one. `existed` and `previous_len` tell whether
    /// the entry file was there before and how long it was; `now` is in
    /// seconds since the epoch.
    pub fn start(
        key: &str,
        provider: &str,
        url: &str,
        provider_ttl: Option<u64>,
        cache_ttl: u64,
        payload_len: Option<usize>,
        existed: bool,
        previous_len: u64,
        now: u64,
    ) -> (r: (StoreOp, StoreAction))
        requires
            now + ttl_of(provider_ttl, cache_ttl) <= u64::MAX,
        ensures
            r.0.url@ == url@,
            r.0.provider@ == provider@,
            r.0.now == now,
            r.0.expires_at == now + ttl_of(provider_ttl, cache_ttl),
            r.0.existed == existed,
            r.0.previous_len == previous_len,
            r.0.payload_len == (match payload_len { Some(n) => n as u64, None => 0 }),
            r.0.phase == store_start_phase(payload_len),
            opt_view(r.0.data_file) == (if r.0.phase == StorePhase::WritingPayload { Some(key@ + ".bin"@) } else { None }),
            match r.0.phase {
                StorePhase::WritingPayload => r.1 matches StoreAction::WritePayload { name } && name@ == key@ + ".bin"@,
                StorePhase::WritingEntry => r.1 matches StoreAction::WriteEntry { entry } && entry_of(r.0, entry),
                _ => r.1 is ReadExisting,
            },
    {
        let ttl = effective_ttl(provider_ttl, cache_ttl);
        let plen: u64 = match payload_len { Some(n) => n as u64, None => 0 };
        let (phase, data_file) = match payload_len {
            Some(n) => if 0 < n && n <= MAX_CACHED_IMAGE_BYTES {
                (StorePhase::WritingPayload, Some(data_file_name(key)))
            } else {
                (StorePhase::WritingEntry, None)
            },
            None => (StorePhase::ReadingExisting, None),
        };
        let op = StoreOp {
            url: url.to_owned(),
            provider: provider.to_owned(),
            now,
            expires_at: now + ttl,
            existed,
            previous_len,
            payload_len: plen,
            data_file,
            phase,
        };
        let action = match phase {
            StorePhase::WritingPayload => StoreAction::WritePayload { name: data_file_name(key) },
            StorePhase::WritingEntry => StoreAction::WriteEntry { entry: op.entry() },
            _ => StoreAction::ReadExisting,
        };
        (op, action)
    }

    fn entry(&self) -> (e: CacheEntry)
        ensures
            entry_of(*self, e),
    {
        CacheEntry {
            url: self.url.clone(),
            provider: self.provider.clone(),
            expires_at: self.expires_at,
            last_validated: self.now,
            data_file: crate::text::clone_opt_string(&self.data_file),
        }
    }

    /// Take the outcome of the last file work: move the usage counts and
    /// give the next action.
    pub fn step(&mut self, usage: &mut CacheUsage, event: StoreEvent) -> (a: StoreAction)
        requires
            old(self).payload_len <= i64::MAX,
        ensures
            *final(self) == (StoreOp { phase: store_phase_after(*old(self), *old(usage), event), ..*old(self) }),
            *final(usage) == store_usage_after(*old(self), *old(usage), event),
            store_action_ok(*old(self), *old(usage), event, a),
    {
        let ghost op0 = *self;
        let ghost u0 = *usage;
        match self.phase {
            StorePhase::WritingPayload => match event {
                StoreEvent::PayloadWritten { ok } => if ok {
                    usage.adjust(0, self.payload_len as i64);
                    self.phase = StorePhase::WritingEntry;
                    StoreAction::WriteEntry { entry: self.entry() }
                } else {
                    self.phase = StorePhase::Done;
                    StoreAction::Finish { ok: false }
                },
                _ => {
                    self.phase = StorePhase::Done;
                    StoreAction::Finish { ok: false }
                },
            },
            StorePhase::ReadingExisting => match event {
                StoreEvent::ExistingRead { data_file } => match data_file {
                    Some(name) => {
                        self.phase = StorePhase::RemovingOld;
                        StoreAction::RemovePayload { name }
                    },
                    None => {
                        self.phase = StorePhase::WritingEntry;
                        StoreAction::WriteEntry { entry: self.entry() }
                    },
                },
                _ => {
                    self.phase = StorePhase::Done;
                    StoreAction::Finish { ok: false }
                },
            },
            StorePhase::RemovingOld => match event {
                StoreEvent::PayloadRemoved { removed_len } => {
                    account_removed(usage, removed_len);
                    self.phase = StorePhase::WritingEntry;
                    StoreAction::WriteEntry { entry: self.entry() }
                },
                _ => {
                    self.phase = StorePhase::Done;
                    StoreAction::Finish { ok: false }
                },
            },
            StorePhase::WritingEntry => match event {
                StoreEvent::EntryWritten { len } => match len {
                    Some(l) => {
                        let entries_delta: i64 = if self.existed { 0 } else { 1 };
                        let bytes_delta: i64 = len_delta_exec(l) - len_delta_exec(self.previous_len);
                        usage.adjust(entries_delta, bytes_delta);
                        if usage.exceeds_limits() {
                            self.phase = StorePhase::Enforcing;
                            StoreAction::EnforceLimits
                        } else {
                            self.phase = StorePhase::Done;
                            StoreAction::Finish { ok: true }
                        }
                    },
                    None => match &self.data_file {
                        Some(name) => {
                            let name = name.clone();
                            self.phase = StorePhase::RemovingFailed;
                            StoreAction::RemovePayload { name }
                        },
                        None => {
                            self.phase = StorePhase::Done;
                            StoreAction::Finish { ok: false }
                        },
                    },
                },
                _ => {
                    self.phase = StorePhase::Done;
                    StoreAction::Finish { ok: false }
                },
            },
            StorePhase::RemovingFailed => match event {
                StoreEvent::PayloadRemoved { removed_len } => {
                    account_removed(usage, removed_len);
                    self.phase = StorePhase::Done;
                    StoreAction::Finish { ok: false }
                },
                _ => {
                    self.phase = StorePhase::Done;
                    StoreAction::Finish { ok: false }
                },
            },
            StorePhase::Enforcing => {
                let ok = match event {
                    StoreEvent::LimitsEnforced { ok } => ok,
                    _ => false,
                };
                self.phase = StorePhase::Done;
                StoreAction::Finish { ok }
            },
            StorePhase::Done => StoreAction::Finish { ok: false },
        }
    }
}

/// Where a removal stands.
#[derive(Debug, Clone, Copy, PartialEq, Eq, Structural)]
pub enum RemovePhase {
    ReadingEntry,
    RemovingPayload,
    RemovingEntry,
    Done,
}

/// The removal of an entry file of `len` bytes and of its payload.
#[derive(Debug, Clone, Copy)]
pub struct RemoveOp {
    pub len: u64,
    pub phase: RemovePhase,
}

/// What the file work of a removal gave.
#[derive(Debug, Clone)]
pub enum RemoveEvent {
    /// The payload file the entry names, if it was read.
    EntryRead { data_file: Option<String> },
    /// `Some` with its length when the payload file was there and removed.
    PayloadRemoved { removed_len: Option<u64> },
    EntryRemoved { ok: bool },
}

/// The next file work of a removal, or its end.
#[derive(Debug, Clone)]
pub enum RemoveAction {
    ReadEntry,
    RemovePayload { name: String },
    RemoveEntry,
    Finish { ok: bool },
}

/// Usage after an event of a removal: a payload's bytes go when it was
/// removed; the entry and its bytes go when its file was removed.
pub open spec fn remove_usage_after(op: RemoveOp, u: CacheUsage, ev: RemoveEvent) -> CacheUsage {
    match op.phase {
        RemovePhase::RemovingPayload => match ev {
            RemoveEvent::PayloadRemoved { removed_len } => removed_usage(u, removed_len),
            _ => u,
        },
        RemovePhase::RemovingEntry => match ev {
            RemoveEvent::EntryRemoved { ok } => if ok { adjusted(u, -1, -len_delta(op.len)) } else { u },
            _ => u,
        },
        _ => u,
    }
}

/// Phase after an event; one the phase does not wait for ends the removal
/// as failed.
pub open spec fn remove_phase_after(op: RemoveOp, ev: RemoveEvent) -> RemovePhase {
    match op.phase {
        RemovePhase::ReadingEntry => match ev {
            RemoveEvent::EntryRead { data_file } => if data_file is Some {
                RemovePhase::RemovingPayload
            } else {
                RemovePhase::RemovingEntry
            },
            _ => RemovePhase::Done,
        },
        RemovePhase::RemovingPayload => match ev {
            RemoveEvent::PayloadRemoved { .. } => RemovePhase::RemovingEntry,
            _ => RemovePhase::Done,
        },
        _ => RemovePhase::Done,
    }
}

/// The action that goes with the phase after an event.
pub open spec fn remove_action_ok(op: RemoveOp, ev: RemoveEvent, a: RemoveAction) -> bool {
    match remove_phase_after(op, ev) {
        RemovePhase::RemovingPayload => match (ev, a) {
            (RemoveEvent::EntryRead { data_file: Some(n) }, RemoveAction::RemovePayload { name }) => name@ == n@,
            _ => false,
        },
        RemovePhase::RemovingEntry => a is RemoveEntry,
        RemovePhase::Done => a == RemoveAction::Finish {
            ok: op.phase == RemovePhase::RemovingEntry && ev == (RemoveEvent::EntryRemoved { ok: true }),
        },
        _ => false,
    }
}

impl RemoveOp {
    /// Begin removing an entry file: nothing to do when it is not there,
    /// else read it for the payload it names.
    pub fn start(existed: bool, len: u64) -> (r: (RemoveOp, RemoveAction))
        ensures
            r.0.len == len,
            existed ==> r.0.phase == RemovePhase::ReadingEntry && r.1 is ReadEntry,
            !existed ==> r.0.phase == RemovePhase::Done && r.1 == (RemoveAction::Finish { ok: true }),
    {
        if existed {
            (RemoveOp { len, phase: RemovePhase::ReadingEntry }, RemoveAction::ReadEntry)
        } else {
            (RemoveOp { len, phase: RemovePhase::Done }, RemoveAction::Finish { ok: true })
        }
    }

    /// Take the outcome of the last file work: move the usage counts and
    /// give the next action.
    pub fn step(&mut self, usage: &mut CacheUsage, event: RemoveEvent) -> (a: RemoveAction)
        ensures
            *final(self) == (RemoveOp { phase: remove_phase_after(*old(self), event), ..*old(self) }),
            *final(usage) == remove_usage_after(*old(self), *old(usage), event),
            remove_action_ok(*old(self), event, a),
    {
        match self.phase {
            RemovePhase::ReadingEntry => match event {
                RemoveEvent::EntryRead { data_file } => match data_file {
                    Some(name) => {
                        self.phase = RemovePhase::RemovingPayload;
                        RemoveAction::RemovePayload { name }
                    },
                    None => {
                        self.phase = RemovePhase::RemovingEntry;
                        RemoveAction::RemoveEntry
                    },
                },
                _ => {
                    self.phase = RemovePhase::Done;
                    RemoveAction::Finish { ok: false }
                },
            },
            RemovePhase::RemovingPayload => match event {
                RemoveEvent::PayloadRemoved { removed_len } => {
                    account_removed(usage, removed_len);
                    self.phase = RemovePhase::RemovingEntry;
                    RemoveAction::RemoveEntry
                },
                _ => {
                    self.phase = RemovePhase::Done;
                    RemoveAction::Finish { ok: false }
                },
            },
            RemovePhase::RemovingEntry => {
                let ok = match event {
                    RemoveEvent::EntryRemoved { ok } => ok,
                    _ => false,
                };
                if ok {
                    let d = len_delta_exec(self.len);
                    usage.adjust(-1, -d);
                }
                self.phase = RemovePhase::Done;
                RemoveAction::Finish { ok }
            },
            RemovePhase::Done => {
                RemoveAction::Finish { ok: false }
            },
        }
    }
}

} // verus!
