//! Decisions of the configuration file watcher: which file events lead to a
//! reload, how close reloads are debounced, and what subscribers are told.
use vstd::prelude::*;
use crate::config::ConfigChange;
use crate::text::{opt_view, str_eq};

verus! {

broadcast use vstd::string::group_string_axioms;

/// Minimum time between two reloads, in milliseconds.
pub const RELOAD_DEBOUNCE_MS: u64 = 250;

/// The kind of a file system event in the configuration's directory.
#[derive(Debug, Clone, Copy, PartialEq, Eq, Structural)]
pub enum FileEventKind {
    Create,
    Modify,
    Remove,
    Other,
}

/// What the watcher does with an event.
#[derive(Debug, Clone, Copy, PartialEq, Eq, Structural)]
pub enum WatchAction {
    /// Reload the configuration now.
    Reload,
    /// A relevant change that came too soon after the last reload.
    Debounced,
    /// Not an event about the configuration file.
    Ignore,
}

/// Whether one of the event's paths names the configuration file.
pub open spec fn names_file(names: Seq<Option<Seq<char>>>, file: Seq<char>) -> bool {
    exists|i: int| 0 <= i < names.len() && names[i] == Some(file)
}

/// Milliseconds from `since` to `now`, none when the clock went back.
pub open spec fn elapsed(now: u64, since: u64) -> int {
    if now >= since { now - since } else { 0 }
}

/// The watcher's state: the configuration's file name and when it was last
/// reloaded (or the watcher started), on a monotonic clock in milliseconds.
#[derive(Debug, Clone)]
pub struct ConfigWatcher {
    pub config_file_name: String,
    pub last_reload_ms: u64,
}

impl ConfigWatcher {
    /// The decision for an event of the given kind whose paths have the
    /// given file names.
    pub open spec fn action_spec(&self, kind: FileEventKind, names: Seq<Option<Seq<char>>>, now_ms: u64) -> WatchAction {
        if kind != FileEventKind::Other && names_file(names, self.config_file_name@) {
            if elapsed(now_ms, self.last_reload_ms) >= RELOAD_DEBOUNCE_MS {
                WatchAction::Reload
            } else {
                WatchAction::Debounced
            }
        } else {
            WatchAction::Ignore
        }
    }

    /// A watcher started at `started_ms`, which counts as its last reload.
    pub fn new(config_file_name: String, started_ms: u64) -> (r: Self)
        ensures
            r.config_file_name@ == config_file_name@,
            r.last_reload_ms == started_ms,
    {
        ConfigWatcher { config_file_name, last_reload_ms: started_ms }
    }

    /// What to do with an event: reload when it is a creation, change or
    /// removal touching the configuration file and the last reload is at
    /// least the debounce time ago.
    pub fn on_event(&self, kind: FileEventKind, file_names: &Vec<Option<String>>, now_ms: u64) -> (r: WatchAction)
        ensures
            r == self.action_spec(kind, file_names@.map_values(|n: Option<String>| opt_view(n)), now_ms),
    {
        let ghost names = file_names@.map_values(|n: Option<String>| opt_view(n));
        let relevant_kind = match kind {
            FileEventKind::Other => false,
            _ => true,
        };
        if !relevant_kind {
            return WatchAction::Ignore;
        }
        let mut found = false;
        let mut i: usize = 0;
        while i < file_names.len()
            invariant
                i <= file_names@.len(),
                names == file_names@.map_values(|n: Option<String>| opt_view(n)),
                found <==> exists|j: int| 0 <= j < i && names[j] == Some(self.config_file_name@),
            decreases file_names@.len() - i,
        {
            let hit = match &file_names[i] {
                Some(n) => str_eq(n.as_str(), self.config_file_name.as_str()),
                None => false,
            };
            assert(names[i as int] == opt_view(file_names@[i as int]));
            if hit {
                found = true;
            }
            i += 1;
        }
        if !found {
            return WatchAction::Ignore;
        }
        let since = if now_ms >= self.last_reload_ms { now_ms - self.last_reload_ms } else { 0 };
        if since >= RELOAD_DEBOUNCE_MS {
            WatchAction::Reload
        } else {
            WatchAction::Debounced
        }
    }

    /// After a reload at `now_ms`: a success restarts the debounce window
    /// and is announced as a reload; a failure keeps the window and is
    /// announced with its message.
    pub fn on_reload_result(&mut self, now_ms: u64, result: Result<(), String>) -> (r: ConfigChange)
        ensures
            final(self).config_file_name == old(self).config_file_name,
            match result {
                Ok(()) => final(self).last_reload_ms == now_ms && r == ConfigChange::Reloaded,
                Err(m) => final(self).last_reload_ms == old(self).last_reload_ms
                    && (r matches ConfigChange::Error(e) && e@ == m@),
            },
    {
        match result {
            Ok(()) => {
                self.last_reload_ms = now_ms;
                ConfigChange::Reloaded
            },
            Err(m) => ConfigChange::Error(m),
        }
    }
}

/// What subscribers are told when watching the directory itself fails.
pub fn watch_error_change(message: String) -> (r: ConfigChange)
    ensures
        r matches ConfigChange::Error(e) && e@ == message@,
{
    ConfigChange::Error(message)
}

/// No two reloads within the debounce time: once a reload succeeded at
/// `t`, an event before `t` plus the debounce time is not reloaded, whatever
/// it is.
pub proof fn law_reloads_are_debounced(w: ConfigWatcher, t: u64, kind: FileEventKind, names: Seq<Option<Seq<char>>>, now_ms: u64)
    requires
        w.last_reload_ms == t,
        t <= now_ms,
        now_ms < t + RELOAD_DEBOUNCE_MS,
    ensures
        w.action_spec(kind, names, now_ms) != WatchAction::Reload,
{
}

/// Events that do not touch the configuration file, or are neither a
/// creation, change nor removal, never reload it.
pub proof fn law_unrelated_events_are_ignored(w: ConfigWatcher, kind: FileEventKind, names: Seq<Option<Seq<char>>>, now_ms: u64)
    requires
        kind == FileEventKind::Other || !names_file(names, w.config_file_name@),
    ensures
        w.action_spec(kind, names, now_ms) == WatchAction::Ignore,
{
}

} // verus!
