use agent_desktop::drivers::{detect_desktop, detect_session, Desktop, Probe, SessionType};
use agent_desktop::error::BackendError;
use agent_desktop::platform::kde::{
    application_entry, desktop_string, io, kwin_probe, private_directory, registration_failed,
};
use agent_desktop::platform::gnome::{extension_probe, mutter_probe};
use agent_desktop::platform::portal::{portal_present, remote_desktop_probe, screenshot_probe};
use agent_desktop::platform::registry::{candidates, reached, unavailable, Registry};
use agent_desktop::registry::Candidates;

fn probe(id: &'static str, ok: bool) -> Probe {
    Probe { id, ok, detail: String::new() }
}

#[test]
fn the_entry_quotes_the_executable_for_exec_and_desktop_syntax() {
    let template = "[Desktop Entry]\nType=Application\nExec=agent-desktop\nTryExec=agent-desktop\nX-KDE-DBUS-Restricted-Interfaces=org.kde.KWin.ScreenShot2\n";
    let entry = application_entry(Some("/d/data space$%\\name/agent-desktop"), template).unwrap();
    assert_eq!(
        entry,
        "[Desktop Entry]\nType=Application\nExec=\"/d/data space\\\\$%%\\\\\\\\name/agent-desktop\"\nTryExec=/d/data space$%\\\\name/agent-desktop\nX-KDE-DBUS-Restricted-Interfaces=org.kde.KWin.ScreenShot2\n"
    );
    assert!(entry.lines().any(|l| l.starts_with("Exec=\\") || l.starts_with("Exec=\"")));
    match application_entry(None, template) {
        Err(BackendError::Unsupported { reason }) => {
            assert_eq!(reason, "KDE application registration requires a UTF-8 executable path")
        }
        _ => panic!("expected refusal"),
    }
    assert_eq!(desktop_string("a\tb\nc\\"), "a\\tb\\nc\\\\");
}

#[test]
fn registration_cannot_write_outside_the_private_session() {
    assert_eq!(private_directory("/run/session", "/run/session/data"), Some("/run/session/data".to_string()));
    assert_eq!(private_directory("/run/session/", "/run/session/data"), Some("/run/session/data".to_string()));
    assert_eq!(private_directory("/run/session", "/run/session"), None);
    assert_eq!(private_directory("/run/session", "/run/session-data"), None);
    assert_eq!(private_directory("/run/session", "/home/u/.local/share/host-applications"), None);
    match registration_failed("boom") {
        BackendError::ExternalCommandFailed { stderr } => assert_eq!(stderr, "KDE application registration failed: boom"),
        _ => panic!("expected failure"),
    }
    match io("denied") {
        BackendError::Failed(m) => assert_eq!(m, "KDE application registration: denied"),
        _ => panic!("expected failure"),
    }
}

#[test]
fn kwin_is_probed_by_its_bus_name() {
    let p = kwin_probe("kwin", Ok(vec!["org.freedesktop.DBus".to_string(), "org.kde.KWin".to_string()]));
    assert!(p.ok);
    assert_eq!(p.detail, "org.kde.KWin on session bus");
    let p = kwin_probe("kwin", Ok(vec![]));
    assert_eq!((p.ok, p.detail.as_str()), (false, "org.kde.KWin not on session bus"));
    let p = kwin_probe("kwin", Err("no bus".to_string()));
    assert_eq!(p.detail, "dbus list_names: no bus");
}

#[test]
fn session_and_desktop_come_from_the_environment() {
    assert_eq!(detect_session("X11", true, false), SessionType::X11);
    assert_eq!(detect_session("", true, true), SessionType::Wayland);
    assert_eq!(detect_session("tty", false, true), SessionType::X11);
    assert_eq!(detect_session("", false, false), SessionType::Wayland);
    assert_eq!(detect_desktop("KDE"), Desktop::Kde);
    assert_eq!(detect_desktop("ubuntu:GNOME"), Desktop::Gnome);
    assert_eq!(detect_desktop(""), Desktop::Other);
}

#[test]
fn the_first_passing_backend_serves_and_probing_stops_there() {
    let mut reg: Registry<&str, &str, &str> = Registry::new();
    assert!(reg.offer_shot("portal", probe("portal", false)));
    assert!(!reg.offer_shot("kwin", probe("kwin", true)));
    assert_eq!(reg.shot().ok(), Some(&"kwin"));
    assert_eq!(reg.probes.len(), 2);
    let e = reg.input().unwrap_err();
    assert_eq!(e.message, "No backend for input; inspect agentdesktop.getState() for probe failures");
    assert_eq!(unavailable("window targeting").code, "unsupported");
    assert!(!reg.offer_shot("portal-later", probe("portal-later", true)));
    assert_eq!(reg.shot().ok(), Some(&"kwin"));
    assert_eq!(reg.probes.len(), 2);
}

#[test]
fn sessions_probe_their_own_backends_before_the_portal() {
    let c = candidates(SessionType::X11, Desktop::Kde);
    assert_eq!((c.shots, c.inputs, c.windows), (vec!["x11-getimage"], vec!["x11-xtest"], vec!["x11-ewmh"]));
    let c = candidates(SessionType::Wayland, Desktop::Kde);
    assert_eq!(c.shots, vec!["kwin-screenshot2", "portal-screenshot"]);
    assert_eq!(c.inputs, vec!["kwin-eis", "portal-remotedesktop"]);
    assert_eq!(c.windows, vec!["kwin-scripting"]);
    let c = candidates(SessionType::Wayland, Desktop::Gnome);
    assert_eq!(c.shots, vec!["gnome-shell-screenshot", "portal-screenshot"]);
    assert_eq!(c.inputs, vec!["mutter-eis", "portal-remotedesktop"]);
    assert_eq!(c.windows, vec!["gnome-shell-extension"]);
    let c = candidates(SessionType::Wayland, Desktop::Other);
    assert_eq!((c.shots.len(), c.inputs.len(), c.windows.len()), (1, 1, 0));
}

#[test]
fn every_candidate_is_probed_but_the_first_passing_one_wins() {
    let mut c: Candidates<u8, u8, u8> = Candidates::new();
    c.consider_shot(1, probe("a", true));
    c.consider_shot(2, probe("b", true));
    c.consider_input(3, probe("c", false));
    c.consider_windows(4, probe("d", true));
    assert!(c.finish().is_err());
    let mut c: Candidates<u8, u8, u8> = Candidates::new();
    c.consider_shot(1, probe("a", false));
    c.consider_shot(2, probe("b", true));
    c.consider_input(3, probe("c", true));
    c.consider_windows(4, probe("d", true));
    let reg = c.finish().ok().unwrap();
    assert_eq!((reg.shot, reg.input, reg.windows, reg.probes.len()), (2, 3, 4, 4));
}

#[test]
fn probes_report_readiness_or_the_failure() {
    let p = reached("x11-getimage", Ok(()), "X11 root window reachable");
    assert!(p.ok);
    assert_eq!(p.detail, "X11 root window reachable");
    let p = reached("x11-xtest", Err("x11: DISPLAY not set".to_string()), "XTEST extension available");
    assert!(!p.ok);
    assert_eq!(p.detail, "x11: DISPLAY not set");
}

#[test]
fn gnome_probes_name_mutter_and_the_extension() {
    let p = mutter_probe(Ok(-2));
    assert_eq!((p.id, p.ok, p.detail.as_str()), ("mutter-eis", true, "Mutter RemoteDesktop version -2"));
    let p = mutter_probe(Ok(1));
    assert_eq!(p.detail, "Mutter RemoteDesktop version 1");
    let p = mutter_probe(Err("no such object".to_string()));
    assert!(!p.ok);
    assert_eq!(p.detail, "no such object");
    let p = extension_probe("gnome-shell-extension", Ok(()));
    assert_eq!(p.detail, "GNOME companion extension reachable");
    let p = extension_probe("gnome-shell-screenshot", Err("unknown name".to_string()));
    assert_eq!((p.id, p.ok), ("gnome-shell-screenshot", false));
    assert_eq!(p.detail, "Enable agent-desktop@local: unknown name");
}

#[test]
fn portal_probes_follow_the_portal_bus_name() {
    let names = Ok(vec![":1.2".to_string(), "org.freedesktop.portal.Desktop".to_string()]);
    assert!(portal_present(&names));
    assert!(!portal_present(&Ok(vec!["org.kde.KWin".to_string()])));
    assert!(!portal_present(&Err("bus gone".to_string())));
    assert_eq!(screenshot_probe(true).detail, "portal Desktop present");
    assert_eq!(screenshot_probe(false).detail, "org.freedesktop.portal.Desktop missing");
    assert_eq!(
        remote_desktop_probe(true).detail,
        "Portal present; authorization is requested on first input"
    );
    let p = remote_desktop_probe(false);
    assert_eq!((p.id, p.ok, p.detail.as_str()), ("portal-remotedesktop", false, "RemoteDesktop portal unavailable"));
}

