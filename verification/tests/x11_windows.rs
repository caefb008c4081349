use agent_desktop::error::BackendError;
use agent_desktop::types::{Bbox, Ref};
use agent_desktop::x11::{
    check_ewmh, control_message, describe_window, window_of, window_ref, ClientProperties,
    ControlAtoms, ListingAtoms, WindowAction,
};

const ATOMS: ControlAtoms = ControlAtoms {
    net_active_window: 100,
    wm_change_state: 101,
    net_wm_state: 102,
    net_wm_state_maximized_vert: 103,
    net_wm_state_maximized_horz: 104,
    net_close_window: 105,
    net_moveresize_window: 106,
};

#[test]
fn window_control_sends_pager_client_messages() {
    assert_eq!(control_message(WindowAction::Focus, ATOMS).unwrap(), (100, [2, 0, 0, 0, 0]));
    assert_eq!(control_message(WindowAction::Minimize, ATOMS).unwrap(), (101, [3, 0, 0, 0, 0]));
    assert_eq!(control_message(WindowAction::Maximize, ATOMS).unwrap(), (102, [1, 103, 104, 2, 0]));
    assert_eq!(control_message(WindowAction::Restore, ATOMS).unwrap(), (102, [0, 103, 104, 2, 0]));
    assert_eq!(control_message(WindowAction::Close, ATOMS).unwrap(), (105, [0, 2, 0, 0, 0]));
    assert_eq!(
        control_message(WindowAction::MoveResize(Bbox { x: -10, y: 5, w: 640, h: 480 }), ATOMS).unwrap(),
        (106, [512, (-10i32) as u32, 5, 640, 480])
    );
    let e = control_message(WindowAction::MoveResize(Bbox { x: 0, y: 0, w: 0, h: 480 }), ATOMS).unwrap_err();
    assert_eq!((e.code.as_str(), e.message.as_str()), ("invalid_geometry", "Window size must be positive"));
}

fn props(types: Vec<u32>) -> ClientProperties {
    ClientProperties {
        window: 0x3e0000a,
        types,
        net_wm_name: Some(String::new()),
        wm_name: Some("Terminal".to_string()),
        wm_class: Some("konsole\0org.kde.konsole\0".to_string()),
        gtk_application_id: None,
        state: vec![7],
        pid: Some(0),
        x: -3,
        y: 40,
        width: 800,
        height: 600,
    }
}

#[test]
fn clients_are_listed_with_title_class_and_state() {
    let atoms = ListingAtoms { normal: 1, dialog: 2, hidden: 7 };
    let w = describe_window(&props(vec![]), atoms, Some(0x3e0000a)).unwrap();
    assert_eq!(w.window_ref, Ref("x11:0x03e0000a".to_string()));
    assert_eq!(w.title, "Terminal");
    assert_eq!(w.class, "org.kde.konsole");
    assert_eq!(w.app_id, "");
    assert_eq!(w.pid, None);
    assert!(w.minimized);
    assert!(w.is_active);
    assert_eq!(w.client_protocol.as_deref(), Some("x11"));
    assert_eq!(w.geometry, Bbox { x: -3, y: 40, w: 800, h: 600 });
    assert!(describe_window(&props(vec![9]), atoms, None).is_none());
    assert!(describe_window(&props(vec![9, 2]), atoms, None).is_some());
}

#[test]
fn window_refs_round_trip() {
    for w in [0u32, 1, 0x3e0000a, u32::MAX] {
        assert_eq!(window_of(&window_ref(w)).unwrap(), w);
    }
}

#[test]
fn ewmh_support_is_required() {
    assert!(check_ewmh(&[5, 6, 7], 6, 7).is_ok());
    match check_ewmh(&[5], 6, 7) {
        Err(BackendError::Unavailable { backend, detail }) => {
            assert_eq!(backend, "x11-ewmh");
            assert_eq!(detail, "window manager does not advertise EWMH support");
        }
        _ => panic!("expected refusal"),
    }
}
