use agent_desktop::error::BackendError;
use agent_desktop::session::environment::{check_joinable, parse_environment};
use agent_desktop::session::farm::{
    check_farm_size, plan_existing, status, FarmTable, SeatPlan, SeatRecord, MAX_SEATS,
};
use agent_desktop::session::health::{
    assess_liveness, pid_list_string, signed_decimal_string, Health, SeatHealth,
};
use agent_desktop::session::process::{
    await_exit, environ_contains, has_runtime, is_member, kill_round, proc_entry_pid, termination_round, ProcessIdentity, Signal,
    SignalKind,
};
use agent_desktop::session::seat::{
    check_dimensions, helper_script, kwin_args, log_name, name_wait, occupied, resolve_program,
    socket_resources, startup_error, startup_step, unset_for_helper, SeatParams, VirtualSeat,
    WaitStep,
};

fn failed(r: BackendError) -> String {
    match r {
        BackendError::Failed(m) => m,
        other => panic!("unexpected error {other:?}"),
    }
}

#[test]
fn environment_files_set_session_variables() {
    let env = parse_environment("# seat\n\nDISPLAY=:1\nXDG_RUNTIME_DIR=/run/a=b\r\nDISPLAY=:2\n").unwrap();
    assert_eq!(env.get("DISPLAY"), Some(":2".to_string()));
    assert_eq!(env.get("XDG_RUNTIME_DIR"), Some("/run/a=b".to_string()));
    assert_eq!(env.len(), 2);
    assert!(check_joinable(&env).is_err());
    let joinable = parse_environment("DBUS_SESSION_BUS_ADDRESS=unix:path=/x\nXDG_RUNTIME_DIR=/r").unwrap();
    assert!(check_joinable(&joinable).is_ok());
}

#[test]
fn environment_files_refuse_foreign_or_malformed_lines() {
    assert_eq!(failed(parse_environment("DISPLAY=:1\nPATH=/bin\n").unwrap_err()), "Unexpected session variable PATH");
    assert_eq!(failed(parse_environment("DISPLAY\n").unwrap_err()), "Malformed session environment");
    let missing = parse_environment("DISPLAY=:1").unwrap();
    assert_eq!(
        failed(check_joinable(&missing).unwrap_err()),
        "Session requires DBUS_SESSION_BUS_ADDRESS and XDG_RUNTIME_DIR"
    );
}

#[test]
fn stat_lines_give_pid_and_start_time() {
    let stat = "4242 (my (odd) prog) S 1 4242 4242 0 -1 4194560 100 0 0 0 1 2 0 0 20 0 1 0 987654 123 456";
    assert_eq!(ProcessIdentity::parse_stat(4242, stat), Some(ProcessIdentity { pid: 4242, started: 987654 }));
    let zombie = "7 (x) Z 1 7 7 0 -1 4194560 100 0 0 0 1 2 0 0 20 0 1 0 55 0 0";
    assert_eq!(ProcessIdentity::parse_stat(7, zombie), None);
    assert_eq!(ProcessIdentity::parse_stat(7, "garbage"), None);
    assert_eq!(proc_entry_pid("123"), Some(123));
    assert_eq!(proc_entry_pid("self"), None);
}

#[test]
fn a_reused_pid_is_not_the_same_process() {
    let p = ProcessIdentity { pid: 10, started: 500 };
    assert!(p.alive(Some(ProcessIdentity { pid: 10, started: 500 })));
    assert!(!p.alive(Some(ProcessIdentity { pid: 10, started: 501 })));
    assert!(!p.alive(None));
}

#[test]
fn seat_members_carry_the_seat_variable() {
    let environ = b"HOME=/root\0AGENT_DESKTOP_SEAT=3\0PATH=/bin\0";
    assert!(environ_contains(environ, "AGENT_DESKTOP_SEAT", "3"));
    assert!(!environ_contains(environ, "AGENT_DESKTOP_SEAT", "30"));
    let me = ProcessIdentity { pid: 5, started: 9 };
    assert_eq!(is_member(5, 1, Some(me), environ, "AGENT_DESKTOP_SEAT", "3", Some(me)), Some(me));
    assert_eq!(is_member(5, 5, Some(me), environ, "AGENT_DESKTOP_SEAT", "3", Some(me)), None);
    let reused = ProcessIdentity { pid: 5, started: 10 };
    assert_eq!(is_member(5, 1, Some(me), environ, "AGENT_DESKTOP_SEAT", "3", Some(reused)), None);
}

#[test]
fn exited_helpers_make_a_seat_degraded_or_stopped() {
    let ps = [ProcessIdentity { pid: 11, started: 1 }, ProcessIdentity { pid: -2, started: 2 }];
    let partly = assess_liveness(&ps, &[true, false]);
    assert_eq!(partly.dead_pids, vec![-2]);
    assert_eq!(partly.issues, vec!["Session helpers exited: [-2]".to_string()]);
    assert!(!partly.all_exited);
    let health = partly.after_probe(Ok(()));
    assert_eq!(health.health, Health::Degraded);
    let all = assess_liveness(&ps, &[false, false]);
    assert!(all.all_exited);
    let stopped = all.after_exit(false);
    assert_eq!(stopped.health, Health::Stopped);
    let lingering = assess_liveness(&ps, &[false, false]).after_exit(true);
    assert_eq!(lingering.health, Health::Degraded);
    assert_eq!(lingering.issues.last().unwrap(), "Owned helper processes remain after the session exited");
    let none = assess_liveness(&[], &[]);
    assert_eq!(none.issues, vec!["No tracked session helpers".to_string()]);
}

#[test]
fn live_helpers_are_ready_exactly_when_the_probe_passes() {
    let ps = [ProcessIdentity { pid: 11, started: 1 }];
    let ok = assess_liveness(&ps, &[true]).after_probe(Ok(()));
    assert_eq!(ok.health, Health::Ready);
    assert!(ok.issues.is_empty());
    let missing = assess_liveness(&ps, &[true]).after_probe(Err("Wayland socket missing-wayland is absent".to_string()));
    assert_eq!(missing.health, Health::Degraded);
    assert_eq!(missing.issues, vec!["Wayland socket missing-wayland is absent".to_string()]);
    assert_eq!(pid_list_string(&[1, -20, 300]), "[1, -20, 300]");
    assert_eq!(signed_decimal_string(i32::MIN), "-2147483648");
}

fn record(id: u32, dir: &str) -> SeatRecord {
    SeatRecord {
        id,
        processes: vec![],
        bus_address: String::new(),
        wayland_display: format!("wayland-agent-{id}"),
        env_file: format!("{dir}/session.env"),
        runtime_dir: dir.to_string(),
    }
}

fn health(h: Health, issues: &[&str]) -> SeatHealth {
    SeatHealth { health: h, dead_pids: vec![], issues: issues.iter().map(|s| s.to_string()).collect() }
}

#[test]
fn farms_hold_one_to_sixteen_seats() {
    assert!(check_farm_size(1).is_ok());
    assert!(check_farm_size(MAX_SEATS).is_ok());
    assert_eq!(failed(check_farm_size(0).unwrap_err()), "Farm size must be 1..16");
    assert!(check_farm_size(17).is_err());
}

#[test]
fn recorded_seats_are_kept_replaced_or_block_the_farm() {
    assert_eq!(plan_existing(2, &health(Health::Ready, &[])).unwrap(), SeatPlan::Keep);
    assert_eq!(plan_existing(2, &health(Health::Stopped, &[])).unwrap(), SeatPlan::Replace);
    assert_eq!(
        failed(plan_existing(2, &health(Health::Degraded, &["a", "b"])).unwrap_err()),
        "Seat 2 is degraded: a; b; tear it down before restarting"
    );
}

#[test]
fn removing_a_seat_keeps_the_others_in_order() {
    let mut table = FarmTable::new();
    table.add(record(0, "/r/0"));
    table.add(record(1, "/r/1"));
    table.add(record(0, "/r/0b"));
    table.add(record(2, "/r/2"));
    assert_eq!(table.find(0), Some(0));
    assert_eq!(table.find(7), None);
    let dirs = table.remove_seat(0);
    assert_eq!(dirs, vec!["/r/0".to_string(), "/r/0b".to_string()]);
    assert_eq!(table.seats.iter().map(|s| s.id).collect::<Vec<_>>(), vec![1, 2]);
}

#[test]
fn an_unready_seat_is_reported_by_number() {
    let mut table = FarmTable::new();
    table.add(record(0, "/r/0"));
    table.add(record(1, "/r/1"));
    let s = status(table, vec![health(Health::Ready, &[]), health(Health::Degraded, &["probe failed"])]);
    assert_eq!(s.seats.len(), 2);
    assert_eq!(failed(s.check_ready().unwrap_err()), "Seat 1 is not ready: probe failed");
}

#[test]
fn seat_startup_decisions() {
    assert_eq!(SeatParams { id: 3, width: 800, height: 600 }.socket_name(), "wayland-agent-3");
    assert!(check_dimensions(320, 240).is_ok());
    assert_eq!(failed(check_dimensions(100, 600).unwrap_err()), "Virtual dimensions must be 320..7680 by 240..4320");
    assert_eq!(socket_resources("wayland-agent-0"), vec!["wayland-agent-0".to_string(), "wayland-agent-0.lock".to_string()]);
    assert_eq!(failed(occupied("/run/wayland-agent-0.lock")), "Seat resource already exists: /run/wayland-agent-0.lock");
    assert_eq!(resolve_program("at-spi-bus-launcher", false), "/usr/libexec/at-spi-bus-launcher");
    assert_eq!(resolve_program("dbus-daemon", true), "dbus-daemon");
    assert_eq!(log_name("kwin_wayland"), "kwin_wayland.log");
    assert!(helper_script("/r/ready").contains("> '/r/ready'\nexec sleep infinity\n"));
    assert_eq!(
        kwin_args("wayland-agent-1", 1280, 720, "/r/helper.sh"),
        vec![
            "--virtual", "--socket", "wayland-agent-1", "--width", "1280", "--height", "720", "--xwayland",
            "--no-lockscreen", "--no-kactivities", "--exit-with-session", "/r/helper.sh"
        ]
    );
    assert!(matches!(startup_step(true, true, false, true), WaitStep::Ready));
    assert!(matches!(startup_step(true, false, false, false), WaitStep::Fail("A session helper exited during KWin startup")));
    assert!(matches!(startup_step(false, true, true, true), WaitStep::Fail("KWin did not become ready within 20 seconds")));
    assert!(matches!(startup_step(false, false, true, false), WaitStep::Sleep));
}

#[test]
fn startup_failures_quote_the_end_of_the_log() {
    let log: String = (1..=15).map(|i| format!("line {i}\n")).collect();
    let message = failed(startup_error("socket missing", &log));
    let expected: Vec<String> = (4..=15).map(|i| format!("line {i}")).collect();
    assert_eq!(message, format!("Seat startup failed: socket missing\n{}", expected.join("\n")));
}

#[test]
fn a_seat_environment_points_into_its_runtime() {
    let mut seat = VirtualSeat::new(SeatParams { id: 4, width: 800, height: 600 }, "/run/seat4".to_string());
    assert_eq!(seat.path("ready"), "/run/seat4/ready");
    let env = seat.base_environment();
    assert_eq!(env.get("WAYLAND_DISPLAY"), Some("wayland-agent-4".to_string()));
    assert_eq!(env.get("XDG_CONFIG_HOME"), Some("/run/seat4/config".to_string()));
    assert_eq!(env.get("GTK_A11Y"), Some("atspi".to_string()));
    assert_eq!(unset_for_helper(&env), vec!["SESSION_MANAGER", "DISPLAY", "AT_SPI_BUS_ADDRESS"]);
    assert!(seat.set_bus_address("  unix:path=/run/seat4/bus\n").is_ok());
    assert_eq!(failed(seat.set_bus_address("tcp:host=x").unwrap_err()), "Invalid session bus address");
    seat.track(ProcessIdentity { pid: 77, started: 1 });
    assert_eq!(seat.identities(), vec![ProcessIdentity { pid: 77, started: 1 }]);
    let teardown = seat.shutdown();
    assert_eq!(teardown.runtime_dir, "/run/seat4");
    assert_eq!(teardown.processes.len(), 1);
}

#[test]
fn teardown_signals_members_then_helpers_newest_first() {
    let helpers = [ProcessIdentity { pid: 10, started: 1 }, ProcessIdentity { pid: 11, started: 2 }];
    let members = [ProcessIdentity { pid: 50, started: 9 }];
    let term = termination_round(&helpers, &members);
    assert_eq!(
        term,
        vec![
            Signal { process: members[0], group: false, kind: SignalKind::Terminate },
            Signal { process: helpers[1], group: true, kind: SignalKind::Terminate },
            Signal { process: helpers[0], group: true, kind: SignalKind::Terminate },
        ]
    );
    let kill = kill_round(&helpers, &members);
    assert_eq!(kill[0], Signal { process: helpers[1], group: true, kind: SignalKind::Kill });
    assert_eq!(kill[2], Signal { process: members[0], group: false, kind: SignalKind::Kill });
    assert!(termination_round(&[], &[]).is_empty());
}

#[test]
fn bus_names_are_awaited_for_five_seconds() {
    assert!(matches!(name_wait(true, "org.a11y.Bus", 100, 99_999), Ok(true)));
    assert!(matches!(name_wait(false, "org.a11y.Bus", 100, 5_099), Ok(false)));
    match name_wait(false, "org.a11y.Bus", 100, 5_100) {
        Err(BackendError::Timeout { detail }) => assert_eq!(detail, "Waiting for org.a11y.Bus"),
        other => panic!("expected a timeout, got {other:?}"),
    }
    assert!(matches!(name_wait(false, "x", u64::MAX, u64::MAX), Ok(false)));
}

#[test]
fn teardown_waits_two_seconds_and_only_for_an_owned_runtime() {
    assert!(!has_runtime(""));
    assert!(has_runtime("/run/user/1000/agent-desktop-seat-x"));
    assert!(await_exit(true, 100, 2_099));
    assert!(!await_exit(true, 100, 2_100));
    assert!(!await_exit(false, 100, 100));
}
