//! Autostart through a systemd user unit or an XDG desktop-login entry: the
//! files written, how their state is read back, and what to do on enable,
//! disable and restart. Running `systemctl` and touching files is left to the
//! caller, which hands in what it observed.
use vstd::prelude::*;
use crate::text::{
    char_len, chars_of, concat_str, contains_seq, eq_ignore_ascii_case, eq_ignore_ascii_case_chars, has_char,
    join_seqs, join_strings, lines_chars, lines_of, opt_view, push_char, replace_char, replace_char_exec,
    seqs_of, split_once, split_once_chars, str_contains, str_eq, string_from, trim, trim_chars,
    trim_str,
};

verus! {

broadcast use vstd::string::group_string_axioms;

pub const SERVICE_NAME: &'static str = "mprisence.service";
pub const DESKTOP_FILE_NAME: &'static str = "mprisence.desktop";
pub const MANAGED_MARKER: &'static str = "Managed by `mprisence autostart`";

/// How autostart is provided.
#[derive(Clone, Copy, Debug, PartialEq, Eq, Structural)]
pub enum Method {
    Auto,
    Systemd,
    Desktop,
}

impl Default for Method {
    fn default() -> (r: Self)
        ensures
            r == Method::Auto,
    {
        Method::Auto
    }
}

/// What is known of one autostart backend.
#[derive(Clone, Debug, Default, PartialEq, Eq)]
pub struct BackendStatus {
    pub available: bool,
    pub installed: bool,
    pub enabled: bool,
    pub active: Option<bool>,
    pub path: Option<String>,
    pub managed: bool,
    pub detail: Option<String>,
}

/// Both backends.
#[derive(Clone, Debug, Default, PartialEq, Eq)]
pub struct Status {
    pub systemd: BackendStatus,
    pub desktop: BackendStatus,
}

/// Why an autostart operation was refused or failed.
#[derive(Clone, Debug, PartialEq, Eq)]
pub struct AutostartError {
    pub message: String,
}

impl Status {
    /// Some backend starts mprisence.
    pub fn enabled(&self) -> (r: bool)
        ensures
            r == (self.systemd.enabled || self.desktop.enabled),
    {
        self.systemd.enabled || self.desktop.enabled
    }

    /// Both backends would start mprisence.
    pub fn has_conflict(&self) -> (r: bool)
        ensures
            r == (self.systemd.enabled && self.desktop.enabled),
    {
        self.systemd.enabled && self.desktop.enabled
    }
}

/// The status made of what was read of each backend.
pub fn status(systemd: BackendStatus, desktop: BackendStatus) -> (r: Status)
    ensures
        r.systemd == systemd,
        r.desktop == desktop,
{
    Status { systemd, desktop }
}

fn error(message: &str) -> (r: AutostartError)
    ensures
        r.message@ == message@,
{
    AutostartError { message: message.to_owned() }
}

pub const SYSTEMD_UNAVAILABLE: &'static str = "the systemd user manager is unavailable; use `mprisence autostart enable --method desktop` for desktop-login autostart";
pub const RESTART_NEEDS_SYSTEMD: &'static str = "restart is available only for the systemd autostart method";
pub const SERVICE_NOT_INSTALLED: &'static str = "the mprisence systemd user service is not installed";
pub const PATH_HAS_NEWLINE: &'static str = "the mprisence executable path contains a newline";

/// `Auto` picks systemd where its user manager is available, else the
/// desktop entry.
pub open spec fn resolved_method(method: Method, systemd_available: bool) -> Method {
    match method {
        Method::Auto => if systemd_available { Method::Systemd } else { Method::Desktop },
        m => m,
    }
}

/// Message refusing to enable one method while `name` is already enabled.
pub open spec fn conflict_message(other: BackendStatus, name: Seq<char>) -> Seq<char> {
    name + " autostart is already enabled"@ + (match other.path {
        Some(p) => " at "@ + p@,
        None => Seq::<char>::empty(),
    }) + "; run `mprisence autostart disable` before switching methods"@
}

/// Refuse when the other backend is already enabled.
pub fn prevent_conflicting_method(other: &BackendStatus, name: &str) -> (r: Result<(), AutostartError>)
    ensures
        match r {
            Ok(()) => !other.enabled,
            Err(e) => other.enabled && e.message@ == conflict_message(*other, name@),
        },
{
    if !other.enabled {
        return Ok(());
    }
    let mut message = concat_str(name, " autostart is already enabled");
    match &other.path {
        Some(p) => {
            message.append(" at ");
            message.append(p.as_str());
        },
        None => {},
    }
    message.append("; run `mprisence autostart disable` before switching methods");
    Err(AutostartError { message })
}

/// The backend `enable` should set up, or why it must not: systemd needs its
/// user manager, and neither method is set up while the other is enabled.
pub fn enable(method: Method, before: &Status) -> (r: Result<Method, AutostartError>)
    ensures
        resolved_method(method, before.systemd.available) == Method::Systemd ==> match r {
            Ok(m) => m == Method::Systemd && before.systemd.available && !before.desktop.enabled,
            Err(e) => if !before.systemd.available {
                e.message@ == SYSTEMD_UNAVAILABLE@
            } else {
                before.desktop.enabled && e.message@ == conflict_message(before.desktop, "desktop-login"@)
            },
        },
        resolved_method(method, before.systemd.available) == Method::Desktop ==> match r {
            Ok(m) => m == Method::Desktop && !before.systemd.enabled,
            Err(e) => before.systemd.enabled && e.message@ == conflict_message(before.systemd, "systemd"@),
        },
{
    let selected = match method {
        Method::Auto => if before.systemd.available { Method::Systemd } else { Method::Desktop },
        m => m,
    };
    match selected {
        Method::Desktop => {
            match prevent_conflicting_method(&before.systemd, "systemd") {
                Ok(()) => Ok(Method::Desktop),
                Err(e) => Err(e),
            }
        },
        _ => {
            if !before.systemd.available {
                return Err(error(SYSTEMD_UNAVAILABLE));
            }
            match prevent_conflicting_method(&before.desktop, "desktop-login") {
                Ok(()) => Ok(Method::Systemd),
                Err(e) => Err(e),
            }
        },
    }
}

/// The backends `disable` turns off.
#[derive(Clone, Copy, Debug, PartialEq, Eq, Structural)]
pub struct DisablePlan {
    pub systemd: bool,
    pub desktop: bool,
}

/// Which backends to turn off: the systemd unit where it is installed or
/// running, the desktop entry where one is installed.
pub fn disable(before: &Status) -> (r: DisablePlan)
    ensures
        r.systemd == (before.systemd.available && (before.systemd.installed || before.systemd.active == Some(true))),
        r.desktop == before.desktop.installed,
{
    let running = match before.systemd.active {
        Some(a) => a,
        None => false,
    };
    DisablePlan {
        systemd: before.systemd.available && (before.systemd.installed || running),
        desktop: before.desktop.installed,
    }
}

/// The outcome of `disable` from the messages of the steps that failed:
/// success when none did, else one error naming all of them.
pub fn finish_disable(failures: &Vec<String>) -> (r: Result<(), AutostartError>)
    ensures
        failures@.len() == 0 <==> r is Ok,
        match r {
            Err(e) => e.message@ == join_seqs(failures@.map_values(|f: String| f@), "; "@),
            Ok(()) => true,
        },
{
    if failures.len() == 0 {
        return Ok(());
    }
    Err(AutostartError { message: join_strings(failures.as_slice(), "; ") })
}

/// `restart` is possible only for an installed systemd unit.
pub fn restart(current: &Status) -> (r: Result<(), AutostartError>)
    ensures
        match r {
            Ok(()) => current.systemd.available && current.systemd.installed,
            Err(e) => if !current.systemd.available {
                e.message@ == RESTART_NEEDS_SYSTEMD@
            } else {
                !current.systemd.installed && e.message@ == SERVICE_NOT_INSTALLED@
            },
        },
{
    if !current.systemd.available {
        return Err(error(RESTART_NEEDS_SYSTEMD));
    }
    if !current.systemd.installed {
        return Err(error(SERVICE_NOT_INSTALLED));
    }
    Ok(())
}

/// `systemctl is-enabled` answers that count as enabled.
pub open spec fn is_enabled_state(s: Seq<char>) -> bool {
    s == "enabled"@ || s == "enabled-runtime"@
}

/// `systemctl is-active` answers that count as running.
pub open spec fn is_active_state(s: Seq<char>) -> bool {
    s == "active"@ || s == "reloading"@ || s == "refreshing"@
}

/// Status of an available systemd user manager, from its answers: the unit's
/// `LoadState`, `is-enabled`, `is-active` and `FragmentPath` (each trimmed,
/// `None` where empty or failed), and the text of the unit file where it
/// could be read.
pub fn systemd_backend(
    load_state: Option<String>,
    enabled_state: Option<String>,
    active_state: Option<String>,
    fragment_path: Option<String>,
    unit_text: Option<String>,
) -> (r: BackendStatus)
    ensures
        r.available,
        r.installed == (match load_state { Some(s) => s@ != "not-found"@, None => false }),
        r.enabled == (match enabled_state { Some(s) => is_enabled_state(s@), None => false }),
        r.active == Some(match active_state { Some(s) => is_active_state(s@), None => false }),
        opt_view(r.path) == (match fragment_path { Some(p) => if p@.len() > 0 { Some(p@) } else { None }, None => None }),
        r.managed == (opt_view(r.path) is Some && match unit_text { Some(t) => contains_seq(t@, MANAGED_MARKER@), None => false }),
        opt_view(r.detail) == opt_view(load_state),
{
    let installed = match &load_state {
        Some(s) => !str_eq(s.as_str(), "not-found"),
        None => false,
    };
    let enabled = match &enabled_state {
        Some(s) => str_eq(s.as_str(), "enabled") || str_eq(s.as_str(), "enabled-runtime"),
        None => false,
    };
    let active = match &active_state {
        Some(s) => str_eq(s.as_str(), "active") || str_eq(s.as_str(), "reloading") || str_eq(s.as_str(), "refreshing"),
        None => false,
    };
    let path = match fragment_path {
        Some(p) => if char_len(p.as_str()) > 0 { Some(p) } else { None },
        None => None,
    };
    let managed = match (&path, &unit_text) {
        (Some(_), Some(t)) => text_is_managed(t.as_str()),
        _ => false,
    };
    BackendStatus { available: true, installed, enabled, active: Some(active), path, managed, detail: load_state }
}

/// Status of a systemd user manager that cannot be used, with the reason.
pub fn systemd_unavailable(detail: String) -> (r: BackendStatus)
    ensures
        !r.available && !r.installed && !r.enabled && r.active is None && r.path is None && !r.managed,
        opt_view(r.detail) == Some(detail@),
{
    BackendStatus { available: false, installed: false, enabled: false, active: None, path: None, managed: false, detail: Some(detail) }
}

/// Status of the desktop entry found (the user's entry, else the first
/// system one): its path and, where the file at that path could be read,
/// its text. No entry means not installed.
pub fn desktop_backend(entry: Option<(String, Option<String>)>) -> (r: BackendStatus)
    ensures
        r.available,
        r.installed == entry is Some,
        r.active is None,
        r.detail is None,
        match entry {
            Some((path, content)) => {
                &&& opt_view(r.path) == Some(path@)
                &&& r.enabled == (match content { Some(t) => !desktop_hidden_spec(t@), None => false })
                &&& r.managed == (match content { Some(t) => contains_seq(t@, MANAGED_MARKER@), None => false })
            },
            None => r.path is None && !r.enabled && !r.managed,
        },
{
    match entry {
        Some((path, content)) => {
            let (enabled, managed) = match &content {
                Some(t) => (!desktop_hidden(t.as_str()), text_is_managed(t.as_str())),
                None => (false, false),
            };
            BackendStatus { available: true, installed: true, enabled, active: None, path: Some(path), managed, detail: None }
        },
        None => BackendStatus { available: true, installed: false, enabled: false, active: None, path: None, managed: false, detail: None },
    }
}

/// The text carries the marker of a file this program wrote.
pub fn text_is_managed(text: &str) -> (r: bool)
    ensures
        r == contains_seq(text@, MANAGED_MARKER@),
{
    str_contains(text, MANAGED_MARKER)
}

pub const LEGACY_EXEC_START: &'static str = "ExecStart=%h/.cargo/bin/mprisence";

/// A unit from older releases: some line is exactly the old `ExecStart`.
pub open spec fn legacy_unit_spec(text: Seq<char>) -> bool {
    exists|i: int| 0 <= i < lines_of(text).len() && #[trigger] trim(lines_of(text)[i]) == LEGACY_EXEC_START@
}

pub fn text_is_legacy_unit(text: &str) -> (r: bool)
    ensures
        r == legacy_unit_spec(text@),
{
    let chars = chars_of(text);
    let lines = lines_chars(chars.as_slice());
    let ghost ls = seqs_of(lines@);
    let target = chars_of(LEGACY_EXEC_START);
    let mut i: usize = 0;
    while i < lines.len()
        invariant
            ls == seqs_of(lines@),
            ls == lines_of(text@),
            target@ == LEGACY_EXEC_START@,
            i <= ls.len(),
            forall|k: int| 0 <= k < i ==> trim(#[trigger] ls[k]) != LEGACY_EXEC_START@,
        decreases ls.len() - i,
    {
        let t = trim_chars(lines[i].as_slice());
        if crate::text::chars_eq(t.as_slice(), target.as_slice()) {
            assert(trim(ls[i as int]) == LEGACY_EXEC_START@);
            return true;
        }
        i += 1;
    }
    false
}

/// The managed user unit is (re)written when the service is not installed,
/// or when the installed unit is the user's own file and this program wrote
/// it or it is a legacy unit.
pub fn systemd_unit_needs_write(current: &BackendStatus, user_path: &str, legacy: bool) -> (r: bool)
    ensures
        r == (!current.installed || (opt_view(current.path) == Some(user_path@) && (current.managed || legacy))),
{
    let at_user_path = match &current.path {
        Some(p) => str_eq(p.as_str(), user_path),
        None => false,
    };
    !current.installed || (at_user_path && (current.managed || legacy))
}

/// What `enable` does to the desktop entry.
#[derive(Clone, Copy, Debug, PartialEq, Eq, Structural)]
pub enum DesktopEnableAction {
    /// Rewrite the user's own entry with `Hidden=false`.
    UnhideUserEntry,
    /// A system-wide entry starts mprisence already.
    KeepSystemEntry,
    /// Write the managed entry.
    WriteManagedEntry,
}

pub fn plan_enable_desktop(user_exists: bool, user_managed: bool, system_exists: bool) -> (r: DesktopEnableAction)
    ensures
        r == (if user_exists && !user_managed {
            DesktopEnableAction::UnhideUserEntry
        } else if !user_exists && system_exists {
            DesktopEnableAction::KeepSystemEntry
        } else {
            DesktopEnableAction::WriteManagedEntry
        }),
{
    if user_exists && !user_managed {
        DesktopEnableAction::UnhideUserEntry
    } else if !user_exists && system_exists {
        DesktopEnableAction::KeepSystemEntry
    } else {
        DesktopEnableAction::WriteManagedEntry
    }
}

/// What `disable` does to the desktop entry.
#[derive(Clone, Copy, Debug, PartialEq, Eq, Structural)]
pub enum DesktopDisableAction {
    /// Delete the managed user entry.
    RemoveUserEntry,
    /// Rewrite the user's own entry with `Hidden=true`.
    HideUserEntry,
    /// Write a managed entry that only hides the system one.
    WriteHiddenEntry,
}

pub fn plan_disable_desktop(current: &BackendStatus, user_path: &str, user_exists: bool, system_exists: bool)
    -> (r: DesktopDisableAction)
    ensures
        r == (if opt_view(current.path) == Some(user_path@) && current.managed && !system_exists {
            DesktopDisableAction::RemoveUserEntry
        } else if user_exists && !current.managed {
            DesktopDisableAction::HideUserEntry
        } else {
            DesktopDisableAction::WriteHiddenEntry
        }),
{
    let at_user_path = match &current.path {
        Some(p) => str_eq(p.as_str(), user_path),
        None => false,
    };
    if at_user_path && current.managed && !system_exists {
        DesktopDisableAction::RemoveUserEntry
    } else if user_exists && !current.managed {
        DesktopDisableAction::HideUserEntry
    } else {
        DesktopDisableAction::WriteHiddenEntry
    }
}

/// The managed entry that only hides a system-wide one.
pub open spec fn hidden_entry_spec() -> Seq<char> {
    "# "@ + MANAGED_MARKER@ + "\n[Desktop Entry]\nType=Application\nName=mprisence\nHidden=true\n"@
}

pub fn hidden_managed_entry() -> (r: String)
    ensures
        r@ == hidden_entry_spec(),
{
    let mut s = concat_str("# ", MANAGED_MARKER);
    s.append("\n[Desktop Entry]\nType=Application\nName=mprisence\nHidden=true\n");
    s
}

/// The text a path contains a line break.
pub open spec fn has_newline(s: Seq<char>) -> bool {
    s.contains('\n') || s.contains('\r')
}

/// Backslashes, double quotes and `%` specifiers escaped for a systemd
/// `ExecStart=` value.
pub open spec fn systemd_escaped(s: Seq<char>) -> Seq<char> {
    replace_char(replace_char(replace_char(s, '\\', seq!['\\', '\\']), '"', seq!['\\', '"']), '%', seq!['%', '%'])
}

/// Backslashes, double quotes, backticks and dollars escaped for a desktop
/// entry `Exec=` value.
pub open spec fn desktop_escaped(s: Seq<char>) -> Seq<char> {
    replace_char(replace_char(replace_char(replace_char(s, '\\', seq!['\\', '\\']), '"', seq!['\\', '"']), '`', seq!['\\', '`']), '$', seq!['\\', '$'])
}

fn quoted(inner: &Vec<char>) -> (r: String)
    ensures
        r@ == seq!['"'] + inner@ + seq!['"'],
{
    let mut out = String::new();
    push_char(&mut out, '"');
    let s = string_from(inner.as_slice());
    out.append(s.as_str());
    push_char(&mut out, '"');
    assert(out@ =~= seq!['"'] + inner@ + seq!['"']);
    out
}

fn path_has_newline(path: &str) -> (r: bool)
    ensures
        r == has_newline(path@),
{
    let chars = chars_of(path);
    has_char(chars.as_slice(), '\n') || has_char(chars.as_slice(), '\r')
}

/// The executable path as a quoted systemd `ExecStart=` value.
pub fn quote_systemd_path(path: &str) -> (r: Result<String, AutostartError>)
    ensures
        match r {
            Ok(q) => !has_newline(path@) && q@ == seq!['"'] + systemd_escaped(path@) + seq!['"'],
            Err(e) => has_newline(path@) && e.message@ == PATH_HAS_NEWLINE@,
        },
{
    if path_has_newline(path) {
        return Err(error(PATH_HAS_NEWLINE));
    }
    let chars = chars_of(path);
    let a = replace_char_exec(chars.as_slice(), '\\', &['\\', '\\']);
    let b = replace_char_exec(a.as_slice(), '"', &['\\', '"']);
    let c = replace_char_exec(b.as_slice(), '%', &['%', '%']);
    proof {
        assert((['\\', '\\'])@ =~= seq!['\\', '\\']);
    }
    Ok(quoted(&c))
}

/// The executable path as a quoted desktop-entry `Exec=` value.
pub fn quote_desktop_exec(path: &str) -> (r: Result<String, AutostartError>)
    ensures
        match r {
            Ok(q) => !has_newline(path@) && q@ == seq!['"'] + desktop_escaped(path@) + seq!['"'],
            Err(e) => has_newline(path@) && e.message@ == PATH_HAS_NEWLINE@,
        },
{
    if path_has_newline(path) {
        return Err(error(PATH_HAS_NEWLINE));
    }
    let chars = chars_of(path);
    let a = replace_char_exec(chars.as_slice(), '\\', &['\\', '\\']);
    let b = replace_char_exec(a.as_slice(), '"', &['\\', '"']);
    let c = replace_char_exec(b.as_slice(), '`', &['\\', '`']);
    let d = replace_char_exec(c.as_slice(), '$', &['\\', '$']);
    Ok(quoted(&d))
}

pub const UNIT_HEAD: &'static str = "\n[Unit]\nDescription=Discord Rich Presence for MPRIS media players\n\n[Service]\nType=simple\nExecStart=";
pub const UNIT_TAIL: &'static str = "\nRestart=on-failure\nRestartSec=10\nEnvironment=RUST_LOG=info\nEnvironment=RUST_BACKTRACE=1\n\n[Install]\nWantedBy=default.target\n";
pub const ENTRY_HEAD: &'static str = "\n[Desktop Entry]\nType=Application\nName=mprisence\nComment=Discord Rich Presence for media players\nExec=";
pub const ENTRY_TAIL: &'static str = "\nTerminal=false\nHidden=false\n";

/// The managed systemd user unit starting `executable`.
pub fn render_systemd_unit(executable: &str) -> (r: Result<String, AutostartError>)
    ensures
        match r {
            Ok(u) => !has_newline(executable@) && u@ == "# "@ + MANAGED_MARKER@ + UNIT_HEAD@
                + seq!['"'] + systemd_escaped(executable@) + seq!['"'] + UNIT_TAIL@,
            Err(e) => has_newline(executable@) && e.message@ == PATH_HAS_NEWLINE@,
        },
{
    let q = match quote_systemd_path(executable) {
        Ok(q) => q,
        Err(e) => return Err(e),
    };
    let mut s = concat_str("# ", MANAGED_MARKER);
    s.append(UNIT_HEAD);
    s.append(q.as_str());
    s.append(UNIT_TAIL);
    Ok(s)
}

/// The managed desktop-login entry starting `executable`.
pub fn render_desktop_entry(executable: &str) -> (r: Result<String, AutostartError>)
    ensures
        match r {
            Ok(u) => !has_newline(executable@) && u@ == "# "@ + MANAGED_MARKER@ + ENTRY_HEAD@
                + seq!['"'] + desktop_escaped(executable@) + seq!['"'] + ENTRY_TAIL@,
            Err(e) => has_newline(executable@) && e.message@ == PATH_HAS_NEWLINE@,
        },
{
    let q = match quote_desktop_exec(executable) {
        Ok(q) => q,
        Err(e) => return Err(e),
    };
    let mut s = concat_str("# ", MANAGED_MARKER);
    s.append(ENTRY_HEAD);
    s.append(q.as_str());
    s.append(ENTRY_TAIL);
    Ok(s)
}

/// The line sets the `Hidden` key (any case, spaces around the key allowed).
pub open spec fn is_hidden_key_line(line: Seq<char>) -> bool {
    match split_once(line, '=') {
        Some((k, _)) => eq_ignore_ascii_case(trim(k), "Hidden"@),
        None => false,
    }
}

/// The line sets `Hidden` to `true` (any case, spaces allowed).
pub open spec fn is_hidden_true_line(line: Seq<char>) -> bool {
    match split_once(line, '=') {
        Some((k, v)) => eq_ignore_ascii_case(trim(k), "Hidden"@) && eq_ignore_ascii_case(trim(v), "true"@),
        None => false,
    }
}

/// The desktop entry is hidden: some line sets `Hidden` to `true`.
pub open spec fn desktop_hidden_spec(content: Seq<char>) -> bool {
    exists|i: int| 0 <= i < lines_of(content).len() && #[trigger] is_hidden_true_line(lines_of(content)[i])
}

fn line_hidden_flags(line: &Vec<char>) -> (r: (bool, bool))
    ensures
        r.0 == is_hidden_key_line(line@),
        r.1 == is_hidden_true_line(line@),
{
    match split_once_chars(line.as_slice(), '=') {
        Some((k, v)) => {
            let kt = trim_chars(k.as_slice());
            let hidden: [char; 6] = ['H', 'i', 'd', 'd', 'e', 'n'];
            assert(hidden@ == "Hidden"@) by { reveal_strlit("Hidden"); assert(hidden@ =~= "Hidden"@); }
            let is_key = eq_ignore_ascii_case_chars(kt.as_slice(), &hidden);
            let vt = trim_chars(v.as_slice());
            let t: [char; 4] = ['t', 'r', 'u', 'e'];
            assert(t@ == "true"@) by { reveal_strlit("true"); assert(t@ =~= "true"@); }
            let is_true = eq_ignore_ascii_case_chars(vt.as_slice(), &t);
            (is_key, is_key && is_true)
        },
        None => (false, false),
    }
}

/// Whether a desktop entry's text hides it.
pub fn desktop_hidden(content: &str) -> (r: bool)
    ensures
        r == desktop_hidden_spec(content@),
{
    let chars = chars_of(content);
    let lines = lines_chars(chars.as_slice());
    let ghost ls = seqs_of(lines@);
    let mut i: usize = 0;
    while i < lines.len()
        invariant
            ls == seqs_of(lines@),
            ls == lines_of(content@),
            i <= ls.len(),
            forall|k: int| 0 <= k < i ==> !is_hidden_true_line(#[trigger] ls[k]),
        decreases ls.len() - i,
    {
        let (_, is_true) = line_hidden_flags(&lines[i]);
        if is_true {
            assert(is_hidden_true_line(ls[i as int]));
            return true;
        }
        i += 1;
    }
    false
}

/// Some line sets the `Hidden` key.
pub open spec fn any_hidden_key(ls: Seq<Seq<char>>) -> bool {
    exists|i: int| 0 <= i < ls.len() && #[trigger] is_hidden_key_line(ls[i])
}

/// The lines with the first `Hidden` line replaced by `value_line`, later
/// `Hidden` lines dropped, and `value_line` appended where there was none.
pub open spec fn hidden_rewritten(ls: Seq<Seq<char>>, value_line: Seq<char>) -> Seq<Seq<char>>
    decreases ls.len(),
{
    if ls.len() == 0 {
        Seq::<Seq<char>>::empty()
    } else {
        let prev = hidden_rewritten(ls.drop_last(), value_line);
        if is_hidden_key_line(ls.last()) {
            if any_hidden_key(ls.drop_last()) { prev } else { prev.push(value_line) }
        } else {
            prev.push(ls.last())
        }
    }
}

/// The entry with `Hidden` set to `hidden`, other lines kept in order.
pub open spec fn set_hidden_spec(content: Seq<char>, hidden: bool) -> Seq<char> {
    let value_line = if hidden { "Hidden=true"@ } else { "Hidden=false"@ };
    let ls = lines_of(content);
    let rewritten = hidden_rewritten(ls, value_line);
    let all = if any_hidden_key(ls) { rewritten } else { rewritten.push(value_line) };
    join_seqs(all, seq!['\n']) + seq!['\n']
}

/// Set the `Hidden` key of a desktop entry, keeping every other line.
pub fn set_desktop_hidden(content: &str, hidden: bool) -> (r: String)
    ensures
        r@ == set_hidden_spec(content@, hidden),
{
    let value_line: String = if hidden { "Hidden=true".to_owned() } else { "Hidden=false".to_owned() };
    let ghost vl = if hidden { "Hidden=true"@ } else { "Hidden=false"@ };
    let chars = chars_of(content);
    let lines = lines_chars(chars.as_slice());
    let ghost ls = seqs_of(lines@);
    let mut found = false;
    let mut out: Vec<String> = Vec::new();
    let mut i: usize = 0;
    while i < lines.len()
        invariant
            ls == seqs_of(lines@),
            ls == lines_of(content@),
            value_line@ == vl,
            i <= ls.len(),
            found == any_hidden_key(ls.take(i as int)),
            out@.map_values(|p: String| p@) == hidden_rewritten(ls.take(i as int), vl),
        decreases ls.len() - i,
    {
        let ghost prefix = ls.take(i as int);
        assert(ls.take(i + 1).drop_last() =~= prefix);
        assert(ls.take(i + 1).last() == ls[i as int]);
        let (is_key, _) = line_hidden_flags(&lines[i]);
        let ghost before = out@.map_values(|p: String| p@);
        if is_key {
            if !found {
                out.push(value_line.clone());
                assert(out@.map_values(|p: String| p@) =~= before.push(vl));
            }
            assert(any_hidden_key(ls.take(i + 1))) by {
                assert(ls.take(i + 1)[i as int] == ls[i as int]);
            }
            found = true;
        } else {
            out.push(string_from(lines[i].as_slice()));
            assert(out@.map_values(|p: String| p@) =~= before.push(ls[i as int]));
            assert(any_hidden_key(ls.take(i + 1)) == any_hidden_key(prefix)) by {
                if any_hidden_key(ls.take(i + 1)) {
                    let k = choose|k: int| 0 <= k < i + 1 && #[trigger] is_hidden_key_line(ls.take(i + 1)[k]);
                    assert(k < i);
                    assert(prefix[k] == ls.take(i + 1)[k]);
                }
                if any_hidden_key(prefix) {
                    let k = choose|k: int| 0 <= k < i && #[trigger] is_hidden_key_line(prefix[k]);
                    assert(prefix[k] == ls.take(i + 1)[k]);
                }
            }
        }
        i += 1;
    }
    assert(ls.take(ls.len() as int) =~= ls);
    if !found {
        let ghost before = out@.map_values(|p: String| p@);
        out.push(value_line);
        assert(out@.map_values(|p: String| p@) =~= before.push(vl));
    }
    let mut result = join_strings(out.as_slice(), "\n");
    push_char(&mut result, '\n');
    proof {
        reveal_strlit("\n");
        assert("\n"@ =~= seq!['\n']);
    }
    result
}

/// Trimmed command output, `None` where nothing is left.
pub fn nonempty_trimmed(text: &str) -> (r: Option<String>)
    ensures
        match r {
            Some(t) => t@ == trim(text@) && trim(text@).len() > 0,
            None => trim(text@).len() == 0,
        },
{
    let t = trim_str(text);
    if char_len(t.as_str()) == 0 { None } else { Some(t) }
}

/// What a failed command said: its trimmed standard error, else its trimmed
/// standard output, else how it exited.
pub fn command_message(stderr: &str, stdout: &str, exit_status: &str) -> (r: String)
    ensures
        r@ == (if trim(stderr@).len() > 0 {
            trim(stderr@)
        } else if trim(stdout@).len() > 0 {
            trim(stdout@)
        } else {
            "exited with "@ + exit_status@
        }),
{
    let e = trim_str(stderr);
    if char_len(e.as_str()) > 0 {
        return e;
    }
    let o = trim_str(stdout);
    if char_len(o.as_str()) > 0 {
        return o;
    }
    concat_str("exited with ", exit_status)
}

pub open spec fn summary_line(current: Status) -> Seq<char> {
    if current.systemd.enabled && current.desktop.enabled {
        "Autostart : conflict (systemd and desktop login are both enabled)\n"@
    } else if current.systemd.enabled || current.desktop.enabled {
        "Autostart : enabled\n"@
    } else {
        "Autostart : disabled\n"@
    }
}

pub open spec fn systemd_lines(b: BackendStatus) -> Seq<char> {
    if b.available {
        let enabled = if b.enabled { "enabled"@ } else if b.installed { "disabled"@ } else { "not installed"@ };
        let runtime = match b.active { Some(true) => ", running"@, Some(false) => ", stopped"@, None => Seq::<char>::empty() };
        "Systemd   : "@ + enabled + runtime + "\n"@ + (match b.path {
            Some(p) => "Unit      : "@ + p@ + "\n"@,
            None => Seq::<char>::empty(),
        })
    } else {
        "Systemd   : unavailable\n"@ + (match b.detail {
            Some(d) => "             "@ + d@ + "\n"@,
            None => Seq::<char>::empty(),
        })
    }
}

pub open spec fn desktop_lines(b: BackendStatus) -> Seq<char> {
    if b.installed || b.enabled {
        "Desktop   : "@ + (if b.enabled { "enabled at login"@ } else { "disabled"@ }) + "\n"@ + (match b.path {
            Some(p) => "Entry     : "@ + p@ + "\n"@,
            None => Seq::<char>::empty(),
        })
    } else {
        Seq::<char>::empty()
    }
}

/// The text `mprisence autostart status` prints.
pub open spec fn status_report_spec(current: Status) -> Seq<char> {
    "mprisence autostart\n\n"@ + summary_line(current) + systemd_lines(current.systemd) + desktop_lines(current.desktop)
        + "\n"@ + (if current.systemd.enabled || current.desktop.enabled {
            "Disable with: mprisence autostart disable\n"@
        } else {
            "Enable with:  mprisence autostart enable\n"@
        })
}

fn summary_section(current: &Status) -> (r: String)
    ensures
        r@ == summary_line(*current),
{
    if current.has_conflict() {
        "Autostart : conflict (systemd and desktop login are both enabled)\n".to_owned()
    } else if current.enabled() {
        "Autostart : enabled\n".to_owned()
    } else {
        "Autostart : disabled\n".to_owned()
    }
}

fn systemd_section(sd: &BackendStatus) -> (r: String)
    ensures
        r@ == systemd_lines(*sd),
{
    if sd.available {
        let mut out = "Systemd   : ".to_owned();
        if sd.enabled {
            out.append("enabled");
        } else if sd.installed {
            out.append("disabled");
        } else {
            out.append("not installed");
        }
        match sd.active {
            Some(true) => out.append(", running"),
            Some(false) => out.append(", stopped"),
            None => {},
        }
        out.append("\n");
        match &sd.path {
            Some(p) => {
                out.append("Unit      : ");
                out.append(p.as_str());
                out.append("\n");
            },
            None => {},
        }
        out
    } else {
        let mut out = "Systemd   : unavailable\n".to_owned();
        match &sd.detail {
            Some(d) => {
                out.append("             ");
                out.append(d.as_str());
                out.append("\n");
            },
            None => {},
        }
        out
    }
}

fn desktop_section(dk: &BackendStatus) -> (r: String)
    ensures
        r@ == desktop_lines(*dk),
{
    if dk.installed || dk.enabled {
        let mut out = "Desktop   : ".to_owned();
        if dk.enabled {
            out.append("enabled at login");
        } else {
            out.append("disabled");
        }
        out.append("\n");
        match &dk.path {
            Some(p) => {
                out.append("Entry     : ");
                out.append(p.as_str());
                out.append("\n");
            },
            None => {},
        }
        out
    } else {
        String::new()
    }
}

/// The status report shown to the user.
pub fn status_report(current: &Status) -> (r: String)
    ensures
        r@ == status_report_spec(*current),
{
    let mut out = "mprisence autostart\n\n".to_owned();
    let a = summary_section(current);
    out.append(a.as_str());
    let b = systemd_section(&current.systemd);
    out.append(b.as_str());
    let c = desktop_section(&current.desktop);
    out.append(c.as_str());
    out.append("\n");
    if current.enabled() {
        out.append("Disable with: mprisence autostart disable\n");
    } else {
        out.append("Enable with:  mprisence autostart enable\n");
    }
    out
}

/// The line `set_desktop_hidden` writes.
pub open spec fn hidden_value_line(hidden: bool) -> Seq<char> {
    if hidden { "Hidden=true"@ } else { "Hidden=false"@ }
}

proof fn lemma_value_line(hidden: bool)
    ensures
        is_hidden_key_line(hidden_value_line(hidden)),
        is_hidden_true_line(hidden_value_line(hidden)) == hidden,
        !hidden_value_line(hidden).contains('\n'),
        !hidden_value_line(hidden).contains('\r'),
{
    reveal_strlit("Hidden=true");
    reveal_strlit("Hidden=false");
    reveal_strlit("Hidden");
    reveal_strlit("true");
    let l = hidden_value_line(hidden);
    assert(crate::text::first_at(l, '=', 6));
    crate::text::lemma_first_at_unique(l, '=', 6);
    let k = l.take(6);
    let v = l.skip(7);
    assert(split_once(l, '=') == Some((k, v)));
    assert(k =~= "Hidden"@);
    assert(!crate::text::is_ws(k[0]) && !crate::text::is_ws(k.last()));
    assert(crate::text::trim_start(k) == k);
    assert(trim(k) == k);
    assert(eq_ignore_ascii_case(trim(k), "Hidden"@));
    assert(!crate::text::is_ws(v[0]) && !crate::text::is_ws(v.last()));
    assert(crate::text::trim_start(v) == v);
    assert(trim(v) == v);
    if hidden {
        assert(v =~= "true"@);
        assert(eq_ignore_ascii_case(trim(v), "true"@));
    } else {
        assert(v.len() == 5);
        assert(!eq_ignore_ascii_case(trim(v), "true"@));
    }
    assert(!l.contains('\n')) by {
        if l.contains('\n') {
            let i = choose|i: int| 0 <= i < l.len() && l[i] == '\n';
        }
    }
    assert(!l.contains('\r')) by {
        if l.contains('\r') {
            let i = choose|i: int| 0 <= i < l.len() && l[i] == '\r';
        }
    }
}

/// What the rewritten lines hold: the value line or kept lines that do not
/// set `Hidden`; a `Hidden` line exactly when the input had one; never two.
proof fn lemma_rewritten(ls: Seq<Seq<char>>, vl: Seq<char>)
    requires
        is_hidden_key_line(vl),
    ensures
        forall|i: int| 0 <= i < hidden_rewritten(ls, vl).len() ==> #[trigger] hidden_rewritten(ls, vl)[i] == vl
            || (!is_hidden_key_line(hidden_rewritten(ls, vl)[i]) && ls.contains(hidden_rewritten(ls, vl)[i])),
        any_hidden_key(hidden_rewritten(ls, vl)) == any_hidden_key(ls),
        forall|i: int, k: int| 0 <= i < k < hidden_rewritten(ls, vl).len()
            ==> !(is_hidden_key_line(#[trigger] hidden_rewritten(ls, vl)[i]) && is_hidden_key_line(#[trigger] hidden_rewritten(ls, vl)[k])),
    decreases ls.len(),
{
    if ls.len() > 0 {
        let pre = ls.drop_last();
        lemma_rewritten(pre, vl);
        let prev = hidden_rewritten(pre, vl);
        let r = hidden_rewritten(ls, vl);
        assert forall|x: Seq<char>| pre.contains(x) implies ls.contains(x) by {
            let j = choose|j: int| 0 <= j < pre.len() && pre[j] == x;
            assert(ls[j] == x);
        }
        assert(ls.contains(ls.last())) by { assert(ls[ls.len() - 1] == ls.last()); }
        if any_hidden_key(ls) != any_hidden_key(pre) {
            assert(is_hidden_key_line(ls.last())) by {
                let j = choose|j: int| 0 <= j < ls.len() && #[trigger] is_hidden_key_line(ls[j]);
                if j < ls.len() - 1 {
                    assert(pre[j] == ls[j]);
                }
            }
        }
        if any_hidden_key(pre) {
            let j = choose|j: int| 0 <= j < pre.len() && #[trigger] is_hidden_key_line(pre[j]);
            assert(ls[j] == pre[j]);
        }
        if is_hidden_key_line(ls.last()) {
            assert(ls[ls.len() - 1] == ls.last());
            if !any_hidden_key(pre) {
                assert(r == prev.push(vl));
                assert(!any_hidden_key(prev));
                assert forall|i: int| 0 <= i < prev.len() implies !is_hidden_key_line(#[trigger] prev[i]) by {}
                assert(r[prev.len() as int] == vl);
                assert forall|i: int| 0 <= i < r.len() implies #[trigger] r[i] == vl
                    || (!is_hidden_key_line(r[i]) && ls.contains(r[i])) by {
                    if i < prev.len() {
                        assert(r[i] == prev[i]);
                    }
                }
                assert forall|i: int, k: int| 0 <= i < k < r.len()
                    implies !(is_hidden_key_line(#[trigger] r[i]) && is_hidden_key_line(#[trigger] r[k])) by {
                    assert(r[i] == prev[i]);
                }
            }
        } else {
            assert(r == prev.push(ls.last()));
            assert forall|i: int| 0 <= i < r.len() implies #[trigger] r[i] == vl
                || (!is_hidden_key_line(r[i]) && ls.contains(r[i])) by {
                if i < prev.len() {
                    assert(r[i] == prev[i]);
                }
            }
            assert forall|i: int, k: int| 0 <= i < k < r.len()
                implies !(is_hidden_key_line(#[trigger] r[i]) && is_hidden_key_line(#[trigger] r[k])) by {
                assert(r[i] == prev[i]);
                if k < prev.len() {
                    assert(r[k] == prev[k]);
                }
            }
            if any_hidden_key(r) {
                let j = choose|j: int| 0 <= j < r.len() && #[trigger] is_hidden_key_line(r[j]);
                assert(j < prev.len());
                assert(prev[j] == r[j]);
            }
            if any_hidden_key(prev) {
                let j = choose|j: int| 0 <= j < prev.len() && #[trigger] is_hidden_key_line(prev[j]);
                assert(r[j] == prev[j]);
            }
        }
    }
}

/// Lines whose only `Hidden` line is the value line come back unchanged.
proof fn lemma_rewritten_fixed(ls: Seq<Seq<char>>, vl: Seq<char>)
    requires
        forall|i: int| 0 <= i < ls.len() && is_hidden_key_line(#[trigger] ls[i]) ==> ls[i] == vl,
        forall|i: int, k: int| 0 <= i < k < ls.len()
            ==> !(is_hidden_key_line(#[trigger] ls[i]) && is_hidden_key_line(#[trigger] ls[k])),
    ensures
        hidden_rewritten(ls, vl) == ls,
    decreases ls.len(),
{
    if ls.len() > 0 {
        let pre = ls.drop_last();
        assert forall|i: int| 0 <= i < pre.len() && is_hidden_key_line(#[trigger] pre[i]) implies pre[i] == vl by {
            assert(pre[i] == ls[i]);
        }
        assert forall|i: int, k: int| 0 <= i < k < pre.len()
            implies !(is_hidden_key_line(#[trigger] pre[i]) && is_hidden_key_line(#[trigger] pre[k])) by {
            assert(pre[i] == ls[i] && pre[k] == ls[k]);
        }
        lemma_rewritten_fixed(pre, vl);
        let n = ls.len() - 1;
        assert(ls[n] == ls.last());
        if is_hidden_key_line(ls.last()) {
            assert(!any_hidden_key(pre)) by {
                if any_hidden_key(pre) {
                    let j = choose|j: int| 0 <= j < pre.len() && #[trigger] is_hidden_key_line(pre[j]);
                    assert(ls[j] == pre[j]);
                }
            }
        }
        assert(pre.push(ls.last()) =~= ls);
    }
}

/// The lines that do not set the `Hidden` key, in their order.
pub open spec fn non_hidden_lines(ls: Seq<Seq<char>>) -> Seq<Seq<char>> {
    ls.filter(|l: Seq<char>| !is_hidden_key_line(l))
}

/// Rewriting the `Hidden` lines leaves the other lines as they were.
proof fn lemma_rewritten_keeps_others(ls: Seq<Seq<char>>, vl: Seq<char>)
    requires
        is_hidden_key_line(vl),
    ensures
        non_hidden_lines(hidden_rewritten(ls, vl)) == non_hidden_lines(ls),
    decreases ls.len(),
{
    broadcast use Seq::lemma_filter_push;
    let p = |l: Seq<char>| !is_hidden_key_line(l);
    if ls.len() == 0 {
        reveal(Seq::filter);
    } else {
        let pre = ls.drop_last();
        lemma_rewritten_keeps_others(pre, vl);
        assert(pre.push(ls.last()) =~= ls);
        assert(ls.filter(p) == pre.filter(p).push(ls.last()) || ls.filter(p) == pre.filter(p)) by {
            assert(pre.push(ls.last()).filter(p) == if p(ls.last()) { pre.filter(p).push(ls.last()) } else { pre.filter(p) });
        }
        let prev = hidden_rewritten(pre, vl);
        assert(prev.push(vl).filter(p) == prev.filter(p));
        assert(prev.push(ls.last()).filter(p) == if p(ls.last()) { prev.filter(p).push(ls.last()) } else { prev.filter(p) });
        assert(pre.push(ls.last()).filter(p) == if p(ls.last()) { pre.filter(p).push(ls.last()) } else { pre.filter(p) });
    }
}

/// After `set_desktop_hidden` the entry reads back as hidden exactly when
/// asked, and setting the same value again changes nothing. The text ends
/// with a newline, exactly one of its lines sets `Hidden` (to the value
/// asked for), and the other lines are those of the input that did not set
/// `Hidden`, in their order. This is stated for entries without carriage
/// returns, whose lines `str::lines` does not rewrite.
pub proof fn law_set_desktop_hidden(content: Seq<char>, hidden: bool)
    requires
        !content.contains('\r'),
    ensures
        desktop_hidden_spec(set_hidden_spec(content, hidden)) == hidden,
        set_hidden_spec(set_hidden_spec(content, hidden), hidden) == set_hidden_spec(content, hidden),
        set_hidden_spec(content, hidden).len() > 0,
        set_hidden_spec(content, hidden).last() == '\n',
        exists|j: int| 0 <= j < lines_of(set_hidden_spec(content, hidden)).len()
            && lines_of(set_hidden_spec(content, hidden))[j] == hidden_value_line(hidden)
            && forall|i: int| 0 <= i < lines_of(set_hidden_spec(content, hidden)).len()
                && #[trigger] is_hidden_key_line(lines_of(set_hidden_spec(content, hidden))[i]) ==> i == j,
        non_hidden_lines(lines_of(set_hidden_spec(content, hidden))) == non_hidden_lines(lines_of(content)),
{
    let vl = hidden_value_line(hidden);
    lemma_value_line(hidden);
    let ls = lines_of(content);
    let parts = crate::text::split_on(content, '\n');
    crate::text::lemma_split_on_pieces(content, '\n');
    crate::text::lemma_split_on_nonempty(content, '\n');
    assert forall|i: int| 0 <= i < ls.len() implies !(#[trigger] ls[i]).contains('\n') && !ls[i].contains('\r') by {
        let n = parts.len();
        if i < n - 1 {
            assert(ls[i] == crate::text::strip_cr(parts[i]));
        } else {
            assert(ls[i] == parts[n - 1]);
        }
        if ls[i].contains('\n') || ls[i].contains('\r') {
            let c = if ls[i].contains('\n') { '\n' } else { '\r' };
            let k = choose|k: int| 0 <= k < ls[i].len() && ls[i][k] == c;
            let p = if i < n - 1 { parts[i] } else { parts[n - 1] };
            assert(p[k] == c);
            assert(p.contains(c));
        }
    }
    lemma_rewritten(ls, vl);
    let r = hidden_rewritten(ls, vl);
    let all = if any_hidden_key(ls) { r } else { r.push(vl) };
    assert(set_hidden_spec(content, hidden) == join_seqs(all, seq!['\n']) + seq!['\n']);
    // Every line written is the value line or a kept line without `Hidden`.
    assert forall|i: int| 0 <= i < all.len() implies #[trigger] all[i] == vl
        || (!is_hidden_key_line(all[i]) && ls.contains(all[i])) by {
        if i < r.len() {
            assert(all[i] == r[i]);
        }
    }
    assert forall|i: int, k: int| 0 <= i < k < all.len()
        implies !(is_hidden_key_line(#[trigger] all[i]) && is_hidden_key_line(#[trigger] all[k])) by {
        assert(all[i] == r[i]);
        if k < r.len() {
            assert(all[k] == r[k]);
        } else if !any_hidden_key(ls) {
            assert(!is_hidden_key_line(r[i]));
        }
    }
    let key_at = choose|j: int| 0 <= j < all.len() && all[j] == vl;
    assert(exists|j: int| 0 <= j < all.len() && all[j] == vl) by {
        if any_hidden_key(ls) {
            let j = choose|j: int| 0 <= j < r.len() && #[trigger] is_hidden_key_line(r[j]);
            assert(all[j] == r[j]);
        } else {
            assert(all[r.len() as int] == vl);
        }
    }
    assert(all.len() >= 1);
    assert forall|i: int| 0 <= i < all.len() implies !(#[trigger] all[i]).contains('\n') && !all[i].contains('\r') by {
        if all[i] != vl {
            let j = choose|j: int| 0 <= j < ls.len() && ls[j] == all[i];
        }
    }
    crate::text::lemma_lines_of_joined(all);
    let result = set_hidden_spec(content, hidden);
    assert(lines_of(result) == all);
    // Reading back.
    if hidden {
        assert(is_hidden_true_line(lines_of(result)[key_at]));
    } else {
        assert forall|i: int| 0 <= i < all.len() implies !is_hidden_true_line(#[trigger] all[i]) by {
            if all[i] != vl {
                assert(!is_hidden_key_line(all[i]));
            }
        }
    }
    // Setting again.
    assert(any_hidden_key(all)) by {
        assert(is_hidden_key_line(all[key_at]));
    }
    lemma_rewritten_fixed(all, vl);
    // Exactly one `Hidden` line.
    assert forall|i: int| 0 <= i < all.len() && #[trigger] is_hidden_key_line(all[i]) implies i == key_at by {
        assert(is_hidden_key_line(all[key_at]));
        if i < key_at {
            assert(!(is_hidden_key_line(all[i]) && is_hidden_key_line(all[key_at])));
        } else if i > key_at {
            assert(!(is_hidden_key_line(all[key_at]) && is_hidden_key_line(all[i])));
        }
    }
    // The other lines, in order.
    lemma_rewritten_keeps_others(ls, vl);
    broadcast use Seq::lemma_filter_push;
    assert(non_hidden_lines(r.push(vl)) == non_hidden_lines(r)) by {
        let p = |l: Seq<char>| !is_hidden_key_line(l);
        assert(r.push(vl).filter(p) == r.filter(p));
    }
    assert(non_hidden_lines(all) == non_hidden_lines(ls));
    // The final newline.
    assert(result.last() == '\n');
}

} // verus!
