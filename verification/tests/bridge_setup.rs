use mprisence::bridge_setup::{
    browser_requested, doctor_manifest_line, installed_line, manifest_file_name, manifest_state,
    native_manifest, uninstalled_line, ManifestState,
};

#[test]
fn commands_without_browsers_are_for_all() {
    assert!(browser_requested(&vec![], "firefox"));
    let only = vec!["chromium".to_string()];
    assert!(browser_requested(&only, "chromium"));
    assert!(!browser_requested(&only, "firefox"));
}

#[test]
fn the_manifest_names_the_binary_and_the_extension() {
    assert_eq!(manifest_file_name(), "mprisence.web.bridge.json");
    let m = native_manifest("/usr/bin/mprisence-web-bridge");
    assert_eq!(m.name, "mprisence.web.bridge");
    assert_eq!(m.path, "/usr/bin/mprisence-web-bridge");
    assert_eq!(m.host_type, "stdio");
    assert_eq!(m.allowed_extensions, vec!["mprisence-bridge@lazykern.github.io".to_string()]);
}

#[test]
fn doctor_reports_each_manifest_state() {
    let p = "/h/.mozilla/native-messaging-hosts/mprisence.web.bridge.json";
    assert_eq!(manifest_state(false, None, true, true), ManifestState::NotFound);
    assert_eq!(manifest_state(true, Some("denied".to_string()), true, true), ManifestState::ReadError("denied".to_string()));
    assert_eq!(manifest_state(true, None, false, true), ManifestState::InvalidJson);
    assert_eq!(manifest_state(true, None, true, false), ManifestState::BinaryMissing);
    assert_eq!(manifest_state(true, None, true, true), ManifestState::BinaryOk);
    assert_eq!(doctor_manifest_line("Firefox", p, &ManifestState::BinaryOk), format!("✓ Firefox manifest: {p} (binary OK)"));
    assert_eq!(doctor_manifest_line("Firefox", p, &ManifestState::BinaryMissing), format!("⚠ Firefox manifest: {p} (binary missing/stale)"));
    assert_eq!(doctor_manifest_line("Firefox", p, &ManifestState::InvalidJson), format!("⚠ Firefox manifest: {p} (invalid JSON)"));
    assert_eq!(
        doctor_manifest_line("Firefox", p, &ManifestState::ReadError("denied".to_string())),
        format!("✗ Firefox manifest: {p} (read error: denied)")
    );
    assert_eq!(doctor_manifest_line("Chromium", p, &ManifestState::NotFound), format!("✗ Chromium manifest: not found at {p}"));
}

#[test]
fn install_and_uninstall_lines() {
    assert_eq!(installed_line("Firefox", "/x.json"), "✓ Firefox: /x.json");
    assert_eq!(uninstalled_line("Chromium", "/x.json", true), "✗ Removed Chromium: /x.json");
    assert_eq!(uninstalled_line("Chromium", "/x.json", false), "  Chromium manifest not found: /x.json");
}
