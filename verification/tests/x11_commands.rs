use agent_desktop::error::BackendError;
use agent_desktop::keymap::Modifier;
use agent_desktop::types::{Bbox, Button, Ref};
use agent_desktop::x11_commands::{
    btn_arg, choose_shot_tool, click_args, command_failed, drag_args, key_args, modifier_commands, move_args,
    scroll_args, shot_args, shot_probe, tool_probe, type_args, window_command_args, wmctrl_windows,
    ShotTool,
};

#[test]
fn wmctrl_listing_becomes_windows() {
    let listing = "0x03e0000a  0 1234   10   20   800  600  host Terminal - bash\n\
                   short line\n\
                   0x04000001 -1 99 abc -7 -5 300 host\r\n";
    let windows = wmctrl_windows(listing);
    assert_eq!(windows.len(), 2);
    assert_eq!(windows[0].window_ref, Ref("x11:0x03e0000a".to_string()));
    assert_eq!(windows[0].title, "Terminal - bash");
    assert_eq!(windows[0].geometry, Bbox { x: 10, y: 20, w: 800, h: 600 });
    assert!(!windows[0].is_active);
    assert_eq!(windows[0].class, "");
    assert_eq!(windows[1].title, "");
    assert_eq!(windows[1].geometry, Bbox { x: 0, y: -7, w: 0, h: 300 });
    assert!(wmctrl_windows("").is_empty());
}

#[test]
fn xdotool_pointer_commands() {
    assert_eq!(click_args(5, -3, Button::Right), vec!["mousemove", "5", "-3", "click", "3"]);
    assert_eq!(move_args(0, 7), vec!["mousemove", "0", "7"]);
    assert_eq!(
        drag_args(&[(1, 2), (50, 60), (3, 4)], Button::Left).unwrap(),
        vec!["mousemove", "1", "2", "mousedown", "1", "mousemove", "3", "4", "mouseup", "1"]
    );
    match drag_args(&[], Button::Middle) {
        Err(BackendError::Unsupported { reason }) => assert_eq!(reason, "drag needs ≥1 point"),
        _ => panic!("expected refusal"),
    }
    assert_eq!(scroll_args(1, 2, -1), vec!["mousemove", "1", "2", "click", "--repeat", "3", "4"]);
    assert_eq!(scroll_args(1, 2, 0), vec!["mousemove", "1", "2", "click", "--repeat", "3", "5"]);
}

#[test]
fn xdotool_keyboard_commands() {
    assert_eq!(type_args("hi there"), vec!["type", "--delay", "0", "--", "hi there"]);
    assert_eq!(
        key_args(&["ctrl+s".to_string(), "Return".to_string()]).unwrap(),
        vec!["key", "--", "ctrl+s", "Return"]
    );
    match key_args(&[]) {
        Err(BackendError::Unsupported { reason }) => assert_eq!(reason, "empty chord"),
        _ => panic!("expected refusal"),
    }
    let down = modifier_commands(&[Modifier::Ctrl, Modifier::Shift], true);
    assert_eq!(down, vec![vec!["keydown", "ctrl"], vec!["keydown", "shift"]]);
    let up = modifier_commands(&[Modifier::Ctrl, Modifier::Shift], false);
    assert_eq!(up, vec![vec!["keyup", "shift"], vec!["keyup", "ctrl"]]);
}

#[test]
fn window_commands_take_the_bare_id() {
    assert_eq!(
        window_command_args(&Ref("x11:0x0400001".to_string()), false),
        vec!["windowactivate", "--sync", "0x0400001"]
    );
    assert_eq!(window_command_args(&Ref("12345".to_string()), true), vec!["windowclose", "--sync", "12345"]);
}

#[test]
fn screenshot_tool_preference_and_probes() {
    assert_eq!(choose_shot_tool(true, true), Some(ShotTool::Maim));
    assert_eq!(choose_shot_tool(false, true), Some(ShotTool::Import));
    assert_eq!(choose_shot_tool(false, false), None);
    assert_eq!(shot_args(ShotTool::Maim), vec!["--format=png", "/dev/stdout"]);
    assert_eq!(shot_args(ShotTool::Import), vec!["-window", "root", "png:-"]);
    let p = shot_probe(false, true, true);
    assert!(!p.ok);
    assert_eq!(p.detail, "x11: DISPLAY not set");
    let p = shot_probe(true, false, true);
    assert_eq!((p.id, p.ok, p.detail.as_str()), ("x11-import", true, "import (ImageMagick) on PATH"));
    let p = shot_probe(true, false, false);
    assert_eq!((p.id, p.ok, p.detail.as_str()), ("x11-maim", false, "neither maim nor import found"));
    let p = tool_probe("x11-xdotool", "xdotool", true, false);
    assert_eq!((p.id, p.ok, p.detail.as_str()), ("x11-xdotool", false, "xdotool not found"));
    let p = tool_probe("x11-wmctrl", "wmctrl", true, true);
    assert_eq!(p.detail, "wmctrl on PATH");
}

#[test]
fn failed_runs_name_the_command_and_exit() {
    match command_failed("click", "xdotool", "exit status: 1") {
        BackendError::ExternalCommandFailed { stderr } => assert_eq!(stderr, "click: xdotool exited exit status: 1"),
        _ => panic!("expected failure"),
    }
}

#[test]
fn xdotool_numbers_buttons_left_middle_right() {
    assert_eq!((btn_arg(Button::Left), btn_arg(Button::Middle), btn_arg(Button::Right)), ("1", "2", "3"));
}
