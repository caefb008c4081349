use agent_desktop::setup::{check_line, doctor_checks, doctor_ok, doctor_programs, Check, DoctorFacts, Paths};

fn facts(virtual_mode: bool, desktop: &str, available: &[&str]) -> DoctorFacts {
    DoctorFacts {
        virtual_mode,
        desktop: desktop.to_string(),
        executable: "/home/u/.local/share/agent-desktop/versions/1.0/agent-desktop".to_string(),
        installed: true,
        entry_path: "/home/u/.local/share/applications/agent-desktop.desktop".to_string(),
        entry_current: false,
        extension_current: false,
        available: available.iter().map(|s| s.to_string()).collect(),
        wayland: true,
        x11: false,
        session_bus: true,
        runtime_dir: true,
    }
}

#[test]
fn install_paths_follow_the_user_layout() {
    let p = Paths::discover(Some("/home/u"), None, None).unwrap();
    assert_eq!(p.data, "/home/u/.local/share");
    assert_eq!(p.bin, "/home/u/.local/bin");
    assert_eq!(p.executable("1.2.3"), "/home/u/.local/share/agent-desktop/versions/1.2.3/agent-desktop");
    assert_eq!(p.extension(), "/home/u/.local/share/gnome-shell/extensions/agent-desktop@local");
    let custom = Paths::discover(Some("/home/u"), Some("/data"), Some("/opt/bin")).unwrap();
    assert_eq!((custom.data.as_str(), custom.bin.as_str()), ("/data", "/opt/bin"));
    assert_eq!(Paths::discover(Some("/home/u"), Some(""), None).unwrap().data, "/home/u/.local/share");
}

#[test]
fn install_paths_must_be_absolute() {
    assert_eq!(Paths::discover(None, None, None).unwrap_err(), "HOME is required");
    assert_eq!(Paths::discover(Some("home"), None, None).unwrap_err(), "HOME must be absolute");
    assert_eq!(Paths::discover(Some("/h"), Some("rel"), None).unwrap_err(), "XDG_DATA_HOME must be absolute");
    assert_eq!(Paths::discover(Some("/h"), None, Some("bin")).unwrap_err(), "--bin-dir must be absolute");
}

#[test]
fn the_doctor_checks_what_the_mode_needs() {
    assert_eq!(doctor_programs().len(), 14);
    let live = doctor_checks(&facts(false, "KDE", &["kbuildsycoca6"]));
    let names: Vec<&str> = live.iter().map(|c| c.name.as_str()).collect();
    assert_eq!(
        names,
        vec!["installation", "kde-registration", "gnome-extension", "desktop-session", "session-bus", "runtime-directory", "kde-cache"]
    );
    assert!(live[1].required && !live[1].ok);
    assert!(!doctor_ok(&live));
    let virt = doctor_checks(&facts(true, "GNOME", &["dbus-daemon", "kwin_wayland", "kbuildsycoca6", "Xwayland", "/usr/libexec/at-spi-bus-launcher"]));
    assert_eq!(virt.len(), 8);
    assert!(!virt[2].required);
    assert!(doctor_ok(&virt));
    assert_eq!(virt[3].detail, "Install dbus-daemon for managed KDE virtual seats");
}

#[test]
fn doctor_lines_say_ok_fail_or_note() {
    let c = |ok, required| Check { name: "x".to_string(), ok, required, detail: "d".to_string() };
    assert_eq!(check_line(&c(true, true)), "OK x: d");
    assert_eq!(check_line(&c(false, true)), "FAIL x: d");
    assert_eq!(check_line(&c(false, false)), "NOTE x: d");
}
