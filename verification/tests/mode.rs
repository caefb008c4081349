use agent_desktop::mode::parse_dbus_address;

#[test]
fn parses_dbus_launch_sh_syntax() {
    let sample = "DBUS_SESSION_BUS_ADDRESS='unix:abstract=/tmp/dbus-abc,guid=def';\nexport DBUS_SESSION_BUS_ADDRESS;\n";
    assert_eq!(
        parse_dbus_address(sample).unwrap(),
        "unix:abstract=/tmp/dbus-abc,guid=def"
    );
}

#[test]
fn missing_address_returns_none() {
    assert!(parse_dbus_address("DBUS_SESSION_PID=42").is_none());
}

#[test]
fn a_single_virtual_seat_runs_kwin_virtually_and_writes_its_environment() {
    assert_eq!(
        agent_desktop::mode::virtual_kwin_args(1800, 1125),
        vec!["--virtual", "--width", "1800", "--height", "1125", "--xwayland"]
    );
    assert_eq!(
        agent_desktop::mode::virtual_env("unix:path=/tmp/bus", "wayland-virtual"),
        "DBUS_SESSION_BUS_ADDRESS=unix:path=/tmp/bus\nWAYLAND_DISPLAY=wayland-virtual\nXDG_SESSION_TYPE=wayland\nXDG_CURRENT_DESKTOP=KDE\n"
    );
}
