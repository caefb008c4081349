use agent_desktop::error::BackendError;
use agent_desktop::keymap::Modifier;
use agent_desktop::tools::{
    bad_ref, button_or_left, check_keys, click_count, drag_settings, hold_modifiers,
    kwin_window_id, requested_action, screenshot_edge, scroll_amounts, typing_route, wait_ms,
    window_request, TypingRoute,
};
use agent_desktop::types::{Bbox, Button};
use agent_desktop::x11::WindowAction;

fn unsupported(e: BackendError) -> String {
    match e {
        BackendError::Unsupported { reason } => reason,
        other => panic!("unexpected {other:?}"),
    }
}

#[test]
fn request_defaults_and_bounds() {
    assert_eq!(click_count(None), 1);
    assert_eq!(click_count(Some(0)), 1);
    assert_eq!(click_count(Some(9)), 3);
    assert_eq!(button_or_left(None), Button::Left);
    assert_eq!(button_or_left(Some(Button::Middle)), Button::Middle);
    assert_eq!(scroll_amounts(None, None), (0, 3));
    assert_eq!(scroll_amounts(Some(-2), Some(-5)), (-2, -5));
    assert_eq!(wait_ms(None), 2000);
    assert_eq!(wait_ms(Some(0)), 1);
    assert_eq!(wait_ms(Some(99_999)), 30_000);
    assert_eq!(screenshot_edge(None), 1280);
    assert_eq!(screenshot_edge(Some(10)), 256);
    assert_eq!(screenshot_edge(Some(4000)), 1568);
}

#[test]
fn held_keys_must_all_be_modifiers() {
    assert_eq!(hold_modifiers(None).unwrap(), vec![]);
    assert_eq!(
        hold_modifiers(Some(vec!["Control".to_string(), "win".to_string(), "SHIFT".to_string()])).unwrap(),
        vec![Modifier::Ctrl, Modifier::Super, Modifier::Shift]
    );
    assert_eq!(
        unsupported(hold_modifiers(Some(vec!["alt".to_string(), "Tab".to_string(), "x".to_string()])).unwrap_err()),
        "unknown modifier: tab"
    );
}

#[test]
fn drags_need_two_points_and_bounded_timing() {
    assert_eq!(unsupported(drag_settings(1, None, None).unwrap_err()), "drag needs a path with ≥2 points");
    assert_eq!(drag_settings(2, None, None).unwrap(), (300, 15));
    assert_eq!(drag_settings(5, Some(9000), Some(0)).unwrap(), (5000, 1));
    assert_eq!(drag_settings(5, Some(10), Some(900)).unwrap(), (10, 500));
}

#[test]
fn text_is_typed_as_keys_only_when_ascii() {
    assert!(matches!(typing_route("hello, world"), Ok(TypingRoute::Keys)));
    assert!(matches!(typing_route("naïve"), Ok(TypingRoute::Paste)));
    assert_eq!(unsupported(typing_route("").unwrap_err()), "empty text");
    assert_eq!(unsupported(check_keys(&[]).unwrap_err()), "empty chord");
    assert!(check_keys(&["ctrl+s".to_string()]).is_ok());
}

#[test]
fn window_requests_name_an_action() {
    assert_eq!(window_request("Focus", None).unwrap(), WindowAction::Focus);
    assert_eq!(
        window_request("resize", Some([1, 2, -3, 4])).unwrap(),
        WindowAction::MoveResize(Bbox { x: 1, y: 2, w: 0, h: 4 })
    );
    assert_eq!(unsupported(window_request("MOVE", None).unwrap_err()), "geometry [x,y,w,h] required for move");
    assert_eq!(unsupported(window_request("shade", None).unwrap_err()), "unknown window action: shade");
}

#[test]
fn requested_actions_are_found_or_listed() {
    let actions = vec!["Click".to_string(), "Expand".to_string()];
    assert_eq!(requested_action(&actions, "EXPAND").unwrap(), 1);
    assert_eq!(requested_action(&actions, "Fold").unwrap_err(), "no action \"fold\"; available: [\"Click\", \"Expand\"]");
}

#[test]
fn kwin_references_carry_the_internal_id() {
    assert_eq!(kwin_window_id("kwin:{abc}").unwrap(), "{abc}");
    match kwin_window_id("x11:0x1").unwrap_err() {
        BackendError::StaleHandle(m) => assert_eq!(m, "not a kwin ref: x11:0x1"),
        other => panic!("unexpected {other:?}"),
    }
    match bad_ref("zz") {
        BackendError::StaleHandle(m) => assert_eq!(m, "bad ref zz"),
        other => panic!("unexpected {other:?}"),
    }
}
