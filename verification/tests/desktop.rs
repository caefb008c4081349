use agent_desktop::a11y::FlatElement;
use agent_desktop::desktop::actions::{
    bbox_center, check_click_count, check_paste_format, check_typed_text, drag_path,
    unsupported_operation,
};
use agent_desktop::desktop::apps::{catalog_from, entry_id, find, Application, EntryFacts};
use agent_desktop::desktop::engine::{
    check_attempts, check_capture, choose_window, focus_wait, launch_wait, retry_capture,
    retry_first_observation, EngineState,
};
use agent_desktop::desktop::geometry::Frame;
use agent_desktop::desktop::target::{
    action_answer, action_index, check_current, check_text_size, choose_root, locate_text,
    not_a_number, root_score, selection_answer, selection_for, text_edit_answer, value_route,
    TextSelection, ValueRoute,
};
use agent_desktop::drivers::{Shot, ShotFormat, WindowInfo};
use agent_desktop::types::{Bbox, Ref, Trust, TrustedText};

fn app(id: &str, name: &str, class: &str, exe: &str) -> Application {
    Application {
        id: id.to_string(),
        name: name.to_string(),
        desktop_file: format!("/usr/share/applications/{id}"),
        startup_class: class.to_string(),
        executable: exe.to_string(),
    }
}

fn window(r: &str, class: &str, app_id: &str, geometry: Bbox, active: bool) -> WindowInfo {
    WindowInfo {
        window_ref: Ref(r.to_string()),
        title: "Title".to_string(),
        class: class.to_string(),
        app_id: app_id.to_string(),
        pid: None,
        minimized: false,
        client_protocol: None,
        geometry,
        screen: 0,
        is_active: active,
    }
}

fn element(id: &str) -> FlatElement {
    FlatElement {
        id: Ref(id.to_string()),
        bus_guid: "bus".to_string(),
        parent_id: None,
        child_count: 0,
        role: TrustedText { trust: Trust::Trusted, text: "button".to_string() },
        name: TrustedText { trust: Trust::External, text: "Apply".to_string() },
        value: None,
        states: vec!["showing".to_string()],
        bbox: Some([0, 0, 20, 20]),
        actions: vec!["Press".to_string()],
    }
}

const GEO: Bbox = Bbox { x: 20, y: 20, w: 800, h: 600 };

#[test]
fn observations_authorize_only_the_current_window_and_fresh_indices() {
    let mut state = EngineState::new();
    state.select_app(app("fake.desktop", "Fake", "fake", "fake"));
    let win = window("x11:0x0000000a", "fake", "", GEO, true);
    let record = state.record_observation("fake.desktop", &win, vec![element("element")], vec!["sig".to_string()], 1_000, true);
    assert_eq!(record.indices.len(), 1);
    let index = record.indices[0];
    assert!(state.element("fake.desktop", &win, index, 1_500).is_ok());
    assert!(state.element("fake.desktop", &win, index + 1, 1_500).is_err());
    state.record_frame("fake.desktop", win.window_ref.0.clone(), Frame { geometry: GEO, image_width: 800, image_height: 600 });
    assert!(state.point_frame("fake.desktop", &win).is_ok());
    state.invalidate("fake.desktop");
    assert_eq!(state.element("fake.desktop", &win, index, 1_500).unwrap_err().code, "stale_element");
    let other = window("another-window", "fake", "", GEO, true);
    assert_eq!(state.point_frame("fake.desktop", &other).unwrap_err().code, "stale_screenshot");
}

#[test]
fn element_indices_expire_after_a_minute_or_a_move() {
    let mut state = EngineState::new();
    let win = window("x11:0x1", "fake", "", GEO, true);
    let index = state.record_observation("a", &win, vec![element("e")], vec!["s".to_string()], 10_000, true).indices[0];
    assert!(state.element("a", &win, index, 70_000).is_ok());
    let e = state.element("a", &win, index, 70_001).unwrap_err();
    assert_eq!(e.message, "Observation expired or window bounds changed; get fresh state");
    let moved = window("x11:0x1", "fake", "", Bbox { x: 21, ..GEO }, true);
    assert!(state.element("a", &moved, index, 10_001).is_err());
    assert_eq!(state.element("b", &win, index, 10_001).unwrap_err().message, "Observe the application first");
}

#[test]
fn indices_keep_growing_and_diffs_report_changes() {
    let mut state = EngineState::new();
    let win = window("x11:0x1", "fake", "", GEO, true);
    let first = state.record_observation("a", &win, vec![element("e1"), element("e2")], vec!["s1".to_string(), "s2".to_string()], 1, true);
    assert_eq!(first.indices, vec![1, 2]);
    assert!(first.diff.is_none());
    let second = state.record_observation("a", &win, vec![element("e1")], vec!["s1b".to_string()], 2, false);
    assert_eq!(second.indices, vec![3]);
    let (changed, removed) = second.diff.unwrap();
    assert_eq!(changed, vec![3]);
    assert_eq!(removed, vec!["e2".to_string()]);
    assert_eq!(state.last_window("a"), Some("x11:0x1".to_string()));
}

#[test]
fn applications_are_found_by_id_or_unique_match() {
    let apps = vec![app("org.kde.kcalc.desktop", "KCalc", "kcalc", "kcalc"), app("firefox.desktop", "Firefox", "firefox", "firefox")];
    assert_eq!(find("org.kde.kcalc", &apps).unwrap().id, "org.kde.kcalc.desktop");
    assert_eq!(find("FIREFOX", &apps).unwrap().id, "firefox.desktop");
    let missing = find("gimp", &apps).unwrap_err();
    assert_eq!(missing.code, "app_not_found");
    assert_eq!(missing.message, "No installed application matches \"gimp\"; use agentdesktop.listApps()");
    let twins = vec![app("a.desktop", "Editor", "", ""), app("b.desktop", "editor", "", "")];
    let ambiguous = find("Editor", &twins).unwrap_err();
    assert_eq!(ambiguous.code, "ambiguous_app");
    assert_eq!(ambiguous.message, "Use an exact desktop ID: [\"a.desktop\", \"b.desktop\"]");
}

#[test]
fn windows_belong_to_the_application_that_matches_them() {
    let kcalc = app("org.kde.kcalc.desktop", "KCalc", "kcalc", "kcalc");
    assert!(kcalc.owns(&window("w", "", "org.kde.kcalc", GEO, false), None));
    assert!(kcalc.owns(&window("w", "kcalc.Kcalc", "", GEO, false), None));
    assert!(!kcalc.owns(&window("w", "other", "", GEO, false), Some("bash")));
    let tool = app("tool.desktop", "Tool", "", "sh");
    assert!(!tool.owns(&window("w", "x", "", GEO, false), Some("sh")));
    let real = app("real.desktop", "Real", "", "realbin");
    assert!(real.owns(&window("w", "x", "", GEO, false), Some("realbin")));
}

#[test]
fn the_catalog_lists_each_visible_application_once_sorted_by_id() {
    let entry = |path: &str, name: Option<&str>, hidden: bool| EntryFacts {
        path: path.to_string(),
        kind: Some("Application".to_string()),
        no_display: false,
        hidden,
        name: name.map(|s| s.to_string()),
        program: Some("/usr/bin/prog".to_string()),
        startup_class: None,
    };
    let entries = vec![
        entry("/usr/share/applications/zeta.desktop", Some("Zeta"), false),
        entry("/home/u/.local/share/applications/kde/alpha.desktop", Some("Alpha"), false),
        entry("/usr/share/applications/zeta.desktop", Some("Zeta again"), false),
        entry("/usr/share/applications/gone.desktop", Some("Gone"), true),
    ];
    let catalog = catalog_from(&entries);
    assert_eq!(catalog.iter().map(|a| a.id.as_str()).collect::<Vec<_>>(), vec!["kde-alpha.desktop", "zeta.desktop"]);
    assert_eq!(catalog[1].name, "Zeta");
    assert_eq!(catalog[1].executable, "prog");
    assert_eq!(entry_id("/opt/x/thing.desktop"), "thing.desktop");
}

#[test]
fn the_current_window_is_the_active_one_or_the_last_observed() {
    let kcalc = app("org.kde.kcalc.desktop", "KCalc", "kcalc", "kcalc");
    let a = window("w1", "kcalc", "", GEO, false);
    let b = window("w2", "kcalc", "", GEO, true);
    let c = window("w3", "other", "", GEO, true);
    assert_eq!(choose_window(&kcalc, &[a.clone(), b.clone(), c.clone()], &[None, None, None], None).unwrap(), 1);
    let a2 = window("w4", "kcalc", "", GEO, false);
    assert_eq!(choose_window(&kcalc, &[a.clone(), a2.clone()], &[None, None], Some("w4")).unwrap(), 1);
    assert_eq!(choose_window(&kcalc, &[a.clone(), a2], &[None, None], None).unwrap_err().code, "ambiguous_window");
    assert_eq!(choose_window(&kcalc, &[c], &[None], None).unwrap_err().code, "app_closed");
    assert_eq!(choose_window(&kcalc, &[a], &[None], None).unwrap(), 0);
}

#[test]
fn captures_must_match_the_window_they_were_asked_for() {
    let a = window("w1", "k", "", GEO, true);
    assert!(check_capture(&a, &a).is_ok());
    let moved = window("w1", "k", "", Bbox { w: 801, ..GEO }, true);
    assert_eq!(check_capture(&a, &moved).unwrap_err().code, "stale_screenshot");
    assert!(check_attempts(1).is_ok());
}

#[test]
fn frames_come_from_decoded_screenshots() {
    let img = image::DynamicImage::ImageRgba8(image::RgbaImage::new(3, 2));
    let mut bytes = Vec::new();
    img.write_to(&mut std::io::Cursor::new(&mut bytes), image::ImageFormat::Png).unwrap();
    let shot = Shot { bytes, format: ShotFormat::Png, coord_w: 3, coord_h: 2 };
    let frame = Frame::from_shot(&shot, GEO).unwrap();
    assert_eq!((frame.image_width, frame.image_height), (3, 2));
    assert_eq!(frame.geometry, GEO);
    let empty = Frame::from_shot(&shot, Bbox { w: 0, ..GEO }).unwrap_err();
    assert_eq!(empty.message, "Empty screenshot geometry");
    let junk = Shot { bytes: vec![1, 2, 3], format: ShotFormat::Png, coord_w: 1, coord_h: 1 };
    assert_eq!(Frame::from_shot(&junk, GEO).unwrap_err().code, "invalid_screenshot");
}

#[test]
fn accessibility_roots_are_chosen_by_title_and_extents() {
    assert_eq!(root_score("Calc", "Calc", Some((20, 20, 800, 600)), GEO), 6);
    assert_eq!(root_score("Calc", "Other", Some((60, 20, 800, 600)), GEO), 0);
    assert_eq!(root_score("Calc", "Other", None, GEO), 0);
    assert_eq!(choose_root(&[0, 6, 2]).unwrap(), 1);
    assert_eq!(choose_root(&[0]).unwrap(), 0);
    assert_eq!(choose_root(&[4, 4]).unwrap_err().code, "ambiguous_accessibility_root");
    assert_eq!(choose_root(&[0, 0]).unwrap_err().code, "ambiguous_accessibility_root");
    assert_eq!(choose_root(&[]).unwrap_err().code, "accessibility_unavailable");
}

#[test]
fn actions_are_matched_ignoring_ascii_case() {
    let actions = vec!["Focus".to_string(), "PRESS".to_string(), "click".to_string()];
    assert_eq!(action_index(&actions, None).unwrap(), 1);
    assert_eq!(action_index(&actions, Some("focus")).unwrap(), 0);
    let e = action_index(&actions, Some("expand")).unwrap_err();
    assert_eq!(e.message, "Requested action is not exposed by this element");
}

#[test]
fn elements_are_rechecked_before_use() {
    let e = element("x");
    assert!(check_current(&e, "bus", "Apply", "button", false).is_ok());
    assert_eq!(check_current(&e, "bus2", "Apply", "button", false).unwrap_err().message, "Accessibility bus restarted; observe the target again");
    assert_eq!(check_current(&e, "bus", "Cancel", "button", false).unwrap_err().message, "Element changed; get fresh accessibility state");
    assert_eq!(check_current(&e, "bus", "Apply", "button", true).unwrap_err().message, "Element is defunct; get fresh accessibility state");
}

#[test]
fn text_is_located_by_its_unique_anchored_occurrence() {
    assert_eq!(locate_text("one two one", "one", "", "").unwrap_err().code, "ambiguous_text");
    assert_eq!(locate_text("one two one", "one", "two ", "").unwrap(), (8, 11));
    assert_eq!(locate_text("one two one", "one", "", " two").unwrap(), (0, 3));
    assert_eq!(locate_text("aaaa", "aa", "", "").unwrap_err().code, "ambiguous_text");
    assert!(locate_text("abc", "", "", "").is_err());
    assert_eq!(locate_text("héllo wörld", "wörld", "", "").unwrap(), (6, 11));
    assert!(check_text_size(100_000).is_ok());
    assert!(check_text_size(100_001).is_err());
    assert_eq!(selection_for("cursor_after", 2, 5).unwrap(), TextSelection::Caret(5));
    assert_eq!(selection_for("text", 2, 5).unwrap(), TextSelection::Range(2, 5));
    assert_eq!(selection_for("word", 2, 5).unwrap_err().code, "invalid_argument");
}

#[test]
fn action_arguments_are_checked() {
    assert!(check_click_count(3).is_ok());
    assert_eq!(check_click_count(0).unwrap_err().message, "clickCount must be 1..3");
    assert_eq!(bbox_center(Some([10, 20, 30, 41]), "no bounds").unwrap(), (25, 40));
    assert_eq!(bbox_center(Some([10, 20, 0, 41]), "no bounds").unwrap_err().message, "no bounds");
    assert!(bbox_center(None, "x").is_err());
    assert_eq!(check_typed_text("").unwrap(), false);
    assert_eq!(check_typed_text("hi").unwrap(), true);
    assert!(check_typed_text(&"é".repeat(50_001)).is_err());
    assert!(check_typed_text(&"é".repeat(50_000)).is_ok());
    assert!(check_paste_format("text").is_ok());
    assert_eq!(check_paste_format("html").unwrap_err().code, "unsupported");
    assert_eq!(unsupported_operation().message, "Operation is not supported by a desktop application");
}

#[test]
fn drags_move_in_twenty_four_even_steps() {
    let path = drag_path((0, 0), (-48, 100));
    assert_eq!(path.len(), 25);
    assert_eq!(path[0], (0, 0));
    assert_eq!(path[1], (-2, 4));
    assert_eq!(path[12], (-24, 50));
    assert_eq!(path[24], (-48, 100));
}

#[test]
fn focus_waits_two_seconds_for_the_window_to_become_active() {
    assert!(matches!(focus_wait(true, 0, 10_000), Ok(true)));
    assert!(matches!(focus_wait(false, 1_000, 2_999), Ok(false)));
    match focus_wait(false, 1_000, 3_000) {
        Err(e) => {
            assert_eq!(e.code, "focus_failed");
            assert_eq!(e.message, "Target did not become active; input was not sent");
        }
        Ok(_) => panic!("expected a refusal"),
    }
}

#[test]
fn launched_applications_get_25_seconds_to_show_a_window() {
    assert!(matches!(launch_wait(true, 0, 99_999), Ok(true)));
    assert!(matches!(launch_wait(false, 500, 25_499), Ok(false)));
    match launch_wait(false, 500, 25_500) {
        Err(e) => {
            assert_eq!(e.code, "launch_timeout");
            assert_eq!(e.message, "Application did not expose a window");
        }
        Ok(_) => panic!("expected a timeout"),
    }
}

#[test]
fn only_a_settling_window_list_retries_the_first_observation() {
    assert!(retry_first_observation("app_closed", 1_000, 10_999));
    assert!(!retry_first_observation("app_closed", 1_000, 11_000));
    assert!(!retry_first_observation("ambiguous_window", 1_000, 1_001));
}

#[test]
fn stale_captures_are_tried_three_times() {
    assert!(retry_capture("stale_screenshot", 0));
    assert!(retry_capture("stale_screenshot", 1));
    assert!(!retry_capture("stale_screenshot", 2));
    assert!(!retry_capture("invalid_screenshot", 0));
}

#[test]
fn accessibility_actions_must_be_acknowledged() {
    assert!(action_answer(Some(true)).is_ok());
    let e = action_answer(Some(false)).unwrap_err();
    assert_eq!(e.code, "action_failed");
    assert_eq!(e.message, "Application rejected the accessibility action");
    let e = action_answer(None).unwrap_err();
    assert_eq!(e.code, "action_pending");
}

#[test]
fn values_go_to_text_before_numbers() {
    assert_eq!(value_route(true, true).unwrap(), ValueRoute::Text);
    assert_eq!(value_route(false, true).unwrap(), ValueRoute::Number);
    let e = value_route(false, false).unwrap_err();
    assert_eq!(e.code, "unsupported");
    assert_eq!(e.message, "Element exposes neither EditableText nor Value");
    assert!(text_edit_answer(true).is_ok());
    assert_eq!(text_edit_answer(false).unwrap_err().message, "Application rejected text editing");
    assert_eq!(not_a_number().message, "Numeric control requires a finite number");
    assert!(selection_answer(true).is_ok());
    assert_eq!(selection_answer(false).unwrap_err().message, "Application rejected text selection");
}
