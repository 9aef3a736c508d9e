use mprisence::autostart::{
    command_message, desktop_backend, desktop_hidden, disable, enable, finish_disable, nonempty_trimmed,
    plan_disable_desktop, plan_enable_desktop, quote_desktop_exec, quote_systemd_path, render_desktop_entry,
    render_systemd_unit, restart, set_desktop_hidden, status, status_report, systemd_backend,
    systemd_unavailable, systemd_unit_needs_write, text_is_legacy_unit, BackendStatus, DesktopDisableAction,
    DesktopEnableAction, Method, Status,
};

#[test]
fn generated_systemd_unit_quotes_paths_and_specifiers() {
    let unit = render_systemd_unit("/home/Test User/bin/mprisence%dev").unwrap();
    assert!(unit.contains("ExecStart=\"/home/Test User/bin/mprisence%%dev\""));
    assert!(unit.contains("WantedBy=default.target"));
}

#[test]
fn generated_desktop_entry_quotes_paths() {
    let entry = render_desktop_entry("/home/Test User/bin/mprisence").unwrap();
    assert!(entry.contains("Exec=\"/home/Test User/bin/mprisence\""));
    assert!(entry.contains("Terminal=false"));
}

#[test]
fn desktop_hidden_is_case_insensitive() {
    assert!(desktop_hidden("[Desktop Entry]\nhidden = TRUE\n"));
    assert!(!desktop_hidden("[Desktop Entry]\nHidden=false\n"));
}

#[test]
fn desktop_toggle_preserves_custom_entry() {
    let original = "[Desktop Entry]\nName=Custom\nExec=/custom/mprisence\nHidden=true\n";
    let enabled = set_desktop_hidden(original, false);
    assert!(enabled.contains("Name=Custom"));
    assert!(enabled.contains("Exec=/custom/mprisence"));
    assert!(enabled.contains("Hidden=false"));
}

#[test]
fn legacy_unit_detection_is_specific_to_the_shipped_cargo_path() {
    assert!(text_is_legacy_unit("[Service]\nExecStart=%h/.cargo/bin/mprisence\n"));
    assert!(!text_is_legacy_unit("[Service]\nExecStart=/custom/mprisence\n"));
}

#[test]
fn set_hidden_replaces_first_and_drops_duplicates() {
    let out = set_desktop_hidden("A=1\nHidden=false\nB=2\nhidden=true\n", true);
    assert_eq!(out, "A=1\nHidden=true\nB=2\n");
    let out = set_desktop_hidden("A=1", true);
    assert_eq!(out, "A=1\nHidden=true\n");
}

#[test]
fn quoting_escapes_special_characters() {
    assert_eq!(quote_systemd_path("/a\\b\"c%d").unwrap(), "\"/a\\\\b\\\"c%%d\"");
    assert_eq!(quote_desktop_exec("/a`b$c").unwrap(), "\"/a\\`b\\$c\"");
    let err = quote_systemd_path("/a\nb").unwrap_err();
    assert_eq!(err.message, "the mprisence executable path contains a newline");
    assert!(render_desktop_entry("/x\r").is_err());
}

#[test]
fn full_unit_text_is_exact() {
    let unit = render_systemd_unit("/usr/bin/mprisence").unwrap();
    assert_eq!(
        unit,
        "# Managed by `mprisence autostart`\n[Unit]\nDescription=Discord Rich Presence for MPRIS media players\n\n[Service]\nType=simple\nExecStart=\"/usr/bin/mprisence\"\nRestart=on-failure\nRestartSec=10\nEnvironment=RUST_LOG=info\nEnvironment=RUST_BACKTRACE=1\n\n[Install]\nWantedBy=default.target\n"
    );
}

fn backend(enabled: bool, path: Option<&str>) -> BackendStatus {
    BackendStatus {
        available: true,
        installed: enabled,
        enabled,
        active: None,
        path: path.map(|p| p.to_string()),
        managed: false,
        detail: None,
    }
}

#[test]
fn enable_picks_method_and_refuses_conflicts() {
    let st = status(backend(false, None), backend(false, None));
    assert_eq!(enable(Method::Auto, &st), Ok(Method::Systemd));
    let mut unavailable = backend(false, None);
    unavailable.available = false;
    let st = status(unavailable.clone(), backend(false, None));
    assert_eq!(enable(Method::Auto, &st), Ok(Method::Desktop));
    let err = enable(Method::Systemd, &st).unwrap_err();
    assert!(err.message.starts_with("the systemd user manager is unavailable"));
    let st = status(backend(false, None), backend(true, Some("/home/u/.config/autostart/mprisence.desktop")));
    let err = enable(Method::Systemd, &st).unwrap_err();
    assert_eq!(
        err.message,
        "desktop-login autostart is already enabled at /home/u/.config/autostart/mprisence.desktop; run `mprisence autostart disable` before switching methods"
    );
    let st = status(backend(true, None), backend(false, None));
    let err = enable(Method::Desktop, &st).unwrap_err();
    assert_eq!(
        err.message,
        "systemd autostart is already enabled; run `mprisence autostart disable` before switching methods"
    );
    assert!(st.enabled());
    assert!(!st.has_conflict());
}

#[test]
fn disable_and_restart_plans() {
    let mut sd = backend(false, None);
    sd.active = Some(true);
    let st = status(sd, backend(true, None));
    let plan = disable(&st);
    assert!(plan.systemd && plan.desktop);
    assert!(finish_disable(&vec![]).is_ok());
    let err = finish_disable(&vec!["a".to_string(), "b".to_string()]).unwrap_err();
    assert_eq!(err.message, "a; b");
    assert_eq!(restart(&st).unwrap_err().message, "the mprisence systemd user service is not installed");
    let st = status(systemd_unavailable("gone".into()), backend(false, None));
    assert_eq!(restart(&st).unwrap_err().message, "restart is available only for the systemd autostart method");
}

#[test]
fn backend_status_from_observations() {
    let b = systemd_backend(
        Some("loaded".into()),
        Some("enabled-runtime".into()),
        Some("reloading".into()),
        Some("/u/mprisence.service".into()),
        Some("# Managed by `mprisence autostart`\n".into()),
    );
    assert!(b.available && b.installed && b.enabled && b.managed);
    assert_eq!(b.active, Some(true));
    let b = systemd_backend(Some("not-found".into()), None, Some("inactive".into()), Some("".into()), None);
    assert!(!b.installed && !b.enabled && !b.managed);
    assert_eq!(b.active, Some(false));
    assert_eq!(b.path, None);
    let d = desktop_backend(Some(("/e".into(), Some("[Desktop Entry]\nHidden=True\n".into()))));
    assert!(d.installed && !d.enabled && !d.managed);
    assert!(systemd_unit_needs_write(&backend(false, None), "/u", false));
    assert!(systemd_unit_needs_write(&backend(true, Some("/u")), "/u", true));
    assert!(!systemd_unit_needs_write(&backend(true, Some("/etc/u")), "/u", true));
}

#[test]
fn desktop_actions() {
    assert_eq!(plan_enable_desktop(true, false, true), DesktopEnableAction::UnhideUserEntry);
    assert_eq!(plan_enable_desktop(false, false, true), DesktopEnableAction::KeepSystemEntry);
    assert_eq!(plan_enable_desktop(true, true, false), DesktopEnableAction::WriteManagedEntry);
    let mut cur = backend(true, Some("/u"));
    cur.managed = true;
    assert_eq!(plan_disable_desktop(&cur, "/u", true, false), DesktopDisableAction::RemoveUserEntry);
    assert_eq!(plan_disable_desktop(&cur, "/u", true, true), DesktopDisableAction::WriteHiddenEntry);
    cur.managed = false;
    assert_eq!(plan_disable_desktop(&cur, "/u", true, true), DesktopDisableAction::HideUserEntry);
}

#[test]
fn command_output_messages() {
    assert_eq!(nonempty_trimmed("  active \n"), Some("active".to_string()));
    assert_eq!(nonempty_trimmed(" \n"), None);
    assert_eq!(command_message(" boom\n", "out", "exit status: 1"), "boom");
    assert_eq!(command_message("", " out ", "exit status: 1"), "out");
    assert_eq!(command_message("", "", "exit status: 1"), "exited with exit status: 1");
}

#[test]
fn status_report_text() {
    let st: Status = status(systemd_unavailable("systemctl was not found".into()), BackendStatus::default());
    let text = status_report(&st);
    assert_eq!(
        text,
        "mprisence autostart\n\nAutostart : disabled\nSystemd   : unavailable\n             systemctl was not found\n\nEnable with:  mprisence autostart enable\n"
    );
    let mut sd = backend(true, Some("/u/mprisence.service"));
    sd.active = Some(true);
    let st = status(sd, backend(true, None));
    let text = status_report(&st);
    assert!(text.contains("Autostart : conflict (systemd and desktop login are both enabled)\n"));
    assert!(text.contains("Systemd   : enabled, running\nUnit      : /u/mprisence.service\n"));
    assert!(text.contains("Desktop   : enabled at login\n"));
    assert!(text.ends_with("Disable with: mprisence autostart disable\n"));
    assert_eq!(Method::default(), Method::Auto);
}

#[test]
fn no_desktop_entry_is_not_installed() {
    let d = desktop_backend(None);
    assert!(d.available && !d.installed && !d.enabled && !d.managed && d.path.is_none());
    let unreadable = desktop_backend(Some(("/e".into(), None)));
    assert!(unreadable.installed && !unreadable.enabled && unreadable.path.as_deref() == Some("/e"));
}
