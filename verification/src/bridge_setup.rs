//! Installing the browser bridge: which browsers a command is for, the
//! native messaging manifest it writes, and the lines its commands print.
use vstd::prelude::*;
use crate::cover::cache::strs;
use crate::text::{concat_str, str_eq};

verus! {

broadcast use vstd::string::group_string_axioms;

/// The native messaging host's name.
pub const HOST_NAME: &'static str = "mprisence.web.bridge";
/// The browser extension allowed to talk to the host.
pub const EXTENSION_ID: &'static str = "mprisence-bridge@lazykern.github.io";
pub const MANIFEST_DESCRIPTION: &'static str = "mprisence-web-bridge — sends browser media to MPRIS";
/// Manifest directories, relative to the home directory.
pub const FIREFOX_MANIFEST_DIR: &'static str = ".mozilla/native-messaging-hosts";
pub const CHROMIUM_MANIFEST_DIR: &'static str = ".config/chromium/NativeMessagingHosts";

/// A command names browsers, or none for all of them.
pub open spec fn requested_spec(browsers: Seq<Seq<char>>, name: Seq<char>) -> bool {
    browsers.len() == 0 || browsers.contains(name)
}

/// Whether a command that names `browsers` is for the browser `name`.
pub fn browser_requested(browsers: &Vec<String>, name: &str) -> (r: bool)
    ensures
        r == requested_spec(strs(browsers@), name@),
{
    if browsers.len() == 0 {
        return true;
    }
    let mut i: usize = 0;
    while i < browsers.len()
        invariant
            i <= browsers@.len(),
            forall|k: int| 0 <= k < i ==> #[trigger] strs(browsers@)[k] != name@,
        decreases browsers@.len() - i,
    {
        if str_eq(browsers[i].as_str(), name) {
            assert(strs(browsers@)[i as int] == name@);
            return true;
        }
        i += 1;
    }
    assert(!strs(browsers@).contains(name@)) by {
        if strs(browsers@).contains(name@) {
            let k = choose|k: int| 0 <= k < strs(browsers@).len() && strs(browsers@)[k] == name@;
            assert(strs(browsers@)[k] != name@);
        }
    }
    false
}

/// The manifest's file name: the host name with `.json`.
pub fn manifest_file_name() -> (r: String)
    ensures
        r@ == HOST_NAME@ + ".json"@,
{
    concat_str(HOST_NAME, ".json")
}

/// The native messaging manifest for the bridge binary at `path`.
#[derive(Debug, Clone)]
pub struct NativeManifest {
    pub name: String,
    pub description: String,
    pub path: String,
    pub host_type: String,
    pub allowed_extensions: Vec<String>,
}

/// The manifest a browser reads to start the bridge binary at `binary_path`
/// over standard input and output, for the bridge extension only.
pub fn native_manifest(binary_path: &str) -> (r: NativeManifest)
    ensures
        r.name@ == HOST_NAME@,
        r.description@ == MANIFEST_DESCRIPTION@,
        r.path@ == binary_path@,
        r.host_type@ == "stdio"@,
        strs(r.allowed_extensions@) == seq![EXTENSION_ID@],
{
    let mut allowed: Vec<String> = Vec::new();
    allowed.push(EXTENSION_ID.to_string());
    assert(strs(allowed@) =~= seq![EXTENSION_ID@]);
    NativeManifest {
        name: HOST_NAME.to_string(),
        description: MANIFEST_DESCRIPTION.to_string(),
        path: binary_path.to_string(),
        host_type: "stdio".to_string(),
        allowed_extensions: allowed,
    }
}

/// What the doctor found of a browser's manifest.
#[derive(Debug, Clone, PartialEq, Eq)]
pub enum ManifestState {
    NotFound,
    ReadError(String),
    InvalidJson,
    BinaryMissing,
    BinaryOk,
}

/// The state of a manifest from what was observed, in the order it was
/// observed: whether the file exists, the error reading it, whether it is
/// JSON, and whether the binary its `path` names exists.
pub fn manifest_state(exists: bool, read_error: Option<String>, valid_json: bool, binary_exists: bool) -> (r: ManifestState)
    ensures
        !exists ==> r == ManifestState::NotFound,
        exists && read_error is Some ==> (r matches ManifestState::ReadError(e) && e@ == read_error->0@),
        exists && read_error is None && !valid_json ==> r == ManifestState::InvalidJson,
        exists && read_error is None && valid_json ==> r == (if binary_exists {
            ManifestState::BinaryOk
        } else {
            ManifestState::BinaryMissing
        }),
{
    if !exists {
        ManifestState::NotFound
    } else if let Some(e) = read_error {
        ManifestState::ReadError(e)
    } else if !valid_json {
        ManifestState::InvalidJson
    } else if binary_exists {
        ManifestState::BinaryOk
    } else {
        ManifestState::BinaryMissing
    }
}

/// The doctor's line about a browser's manifest.
pub open spec fn doctor_line_spec(browser: Seq<char>, path: Seq<char>, state: ManifestState) -> Seq<char> {
    match state {
        ManifestState::BinaryOk => "✓ "@ + browser + " manifest: "@ + path + " (binary OK)"@,
        ManifestState::BinaryMissing => "⚠ "@ + browser + " manifest: "@ + path + " (binary missing/stale)"@,
        ManifestState::InvalidJson => "⚠ "@ + browser + " manifest: "@ + path + " (invalid JSON)"@,
        ManifestState::ReadError(e) => "✗ "@ + browser + " manifest: "@ + path + " (read error: "@ + e@ + ")"@,
        ManifestState::NotFound => "✗ "@ + browser + " manifest: not found at "@ + path,
    }
}

/// The doctor's line about a browser's manifest at `path`.
pub fn doctor_manifest_line(browser: &str, path: &str, state: &ManifestState) -> (r: String)
    ensures
        r@ == doctor_line_spec(browser@, path@, *state),
{
    let (mark, mid) = match state {
        ManifestState::NotFound => ("✗ ", " manifest: not found at "),
        ManifestState::ReadError(_) => ("✗ ", " manifest: "),
        ManifestState::InvalidJson => ("⚠ ", " manifest: "),
        ManifestState::BinaryMissing => ("⚠ ", " manifest: "),
        ManifestState::BinaryOk => ("✓ ", " manifest: "),
    };
    let mut s = concat_str(mark, browser);
    s.append(mid);
    s.append(path);
    match state {
        ManifestState::NotFound => {},
        ManifestState::ReadError(e) => {
            s.append(" (read error: ");
            s.append(e.as_str());
            s.append(")");
        },
        ManifestState::InvalidJson => s.append(" (invalid JSON)"),
        ManifestState::BinaryMissing => s.append(" (binary missing/stale)"),
        ManifestState::BinaryOk => s.append(" (binary OK)"),
    }
    s
}

/// The line the installer prints for a written manifest.
pub fn installed_line(browser: &str, path: &str) -> (r: String)
    ensures
        r@ == "✓ "@ + browser@ + ": "@ + path@,
{
    let mut s = concat_str("✓ ", browser);
    s.append(": ");
    s.append(path);
    s
}

/// The line the uninstaller prints: the manifest was removed, or was not
/// there.
pub fn uninstalled_line(browser: &str, path: &str, existed: bool) -> (r: String)
    ensures
        r@ == if existed {
            "✗ Removed "@ + browser@ + ": "@ + path@
        } else {
            "  "@ + browser@ + " manifest not found: "@ + path@
        },
{
    if existed {
        let mut s = concat_str("✗ Removed ", browser);
        s.append(": ");
        s.append(path);
        s
    } else {
        let mut s = concat_str("  ", browser);
        s.append(" manifest not found: ");
        s.append(path);
        s
    }
}

} // verus!
