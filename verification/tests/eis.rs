use agent_desktop::error::BackendError;
use agent_desktop::keymap::{BTN_LEFT, BTN_MIDDLE, BTN_RIGHT};
use agent_desktop::types::Button;
use agent_desktop::platform::eis::{
    button_code, check_link,
    handshake_capabilities, link_lost, requested_capabilities, setup_interrupted, Capabilities,
    DeviceSetup, DeviceWait, Emulation, HandshakeEvent, LinkEvent, SetupEvent, SetupOutcome,
};

fn pointer_device() -> Capabilities {
    Capabilities { pointer: true, pointer_absolute: true, button: true, scroll: true, keyboard: false }
}

fn keyboard_device() -> Capabilities {
    Capabilities { pointer: false, pointer_absolute: false, button: false, scroll: false, keyboard: true }
}

#[test]
fn seats_are_asked_for_what_the_session_needs() {
    let both = requested_capabilities(true, true);
    assert_eq!(both, Capabilities { pointer: true, pointer_absolute: true, button: true, scroll: true, keyboard: true });
    let typing = requested_capabilities(true, false);
    assert_eq!(typing, keyboard_device());
    let legacy = handshake_capabilities(false, true);
    assert!(legacy.scroll && legacy.pointer_absolute && legacy.button && !legacy.keyboard);
    let legacy_keys = handshake_capabilities(true, false);
    assert!(legacy_keys.scroll && legacy_keys.keyboard && !legacy_keys.pointer);
}

#[test]
fn setup_is_ready_once_pointer_and_keyboard_resumed() {
    let mut setup = DeviceSetup::new(true, true);
    let bind = setup.step(SetupEvent::SeatAdded);
    assert_eq!(bind.bind, Some(requested_capabilities(true, true)));
    assert!(matches!(bind.outcome, SetupOutcome::Pending));
    assert!(setup.step(SetupEvent::DeviceAdded { device: 7, offers: pointer_device() }).bind.is_none());
    setup.step(SetupEvent::DeviceAdded { device: 9, offers: keyboard_device() });
    assert_eq!(setup.chosen, Some(7));
    assert_eq!(setup.auxiliary, Some(9));
    assert!(matches!(setup.step(SetupEvent::DeviceResumed { device: 7 }).outcome, SetupOutcome::Pending));
    match setup.step(SetupEvent::DeviceResumed { device: 9 }).outcome {
        SetupOutcome::Ready { device, keyboard } => {
            assert_eq!(device, 7);
            assert_eq!(keyboard, Some(9));
        }
        _ => panic!("setup should be ready"),
    }
}

#[test]
fn a_paused_device_is_no_longer_counted_as_resumed() {
    let mut setup = DeviceSetup::new(false, true);
    setup.step(SetupEvent::DeviceAdded { device: 1, offers: pointer_device() });
    setup.step(SetupEvent::DeviceResumed { device: 2 });
    setup.step(SetupEvent::DevicePaused { device: 1 });
    assert!(matches!(setup.step(SetupEvent::Other).outcome, SetupOutcome::Pending));
    assert!(matches!(setup.step(SetupEvent::DeviceResumed { device: 1 }).outcome, SetupOutcome::Ready { device: 1, keyboard: None }));
}

#[test]
fn keyboard_only_sessions_take_the_keyboard_as_primary() {
    let mut setup = DeviceSetup::new(true, false);
    setup.step(SetupEvent::DeviceAdded { device: 3, offers: pointer_device() });
    assert_eq!(setup.chosen, None);
    setup.step(SetupEvent::DeviceAdded { device: 4, offers: keyboard_device() });
    assert_eq!(setup.chosen, Some(4));
    assert_eq!(setup.auxiliary, None);
}

#[test]
fn disconnect_during_setup_is_an_input_failure() {
    let mut setup = DeviceSetup::new(true, true);
    match setup.step(SetupEvent::Disconnected { explanation: "Some(\"bye\")".to_string() }).outcome {
        SetupOutcome::Failed(BackendError::InputDispatchFailed { detail }) => {
            assert_eq!(detail, "EIS disconnected: Some(\"bye\")");
        }
        _ => panic!("expected failure"),
    }
    match setup_interrupted() {
        BackendError::InputDispatchFailed { detail } => assert_eq!(detail, "EIS connection ended during setup"),
        _ => panic!("expected failure"),
    }
}

#[test]
fn handshake_waits_for_both_devices_when_combined() {
    let mut wait = DeviceWait::new(true, true);
    assert_eq!(wait.step(HandshakeEvent::SeatAdded), (Some(handshake_capabilities(true, true)), false));
    wait.step(HandshakeEvent::DeviceAdded { device: 5, offers: pointer_device() });
    assert_eq!(wait.step(HandshakeEvent::DeviceResumed { device: 5, serial: 11 }), (None, false));
    wait.step(HandshakeEvent::DeviceAdded { device: 6, offers: keyboard_device() });
    assert_eq!(wait.step(HandshakeEvent::DeviceResumed { device: 6, serial: 12 }), (None, true));
    assert_eq!(wait.finish().ok(), Some((5, Some(6), 12)));
}

#[test]
fn handshake_without_a_device_times_out_with_a_message() {
    let wait = DeviceWait::new(false, true);
    match wait.finish() {
        Err(BackendError::InputDispatchFailed { detail }) => {
            assert_eq!(detail, "no matching device materialised within 3s")
        }
        _ => panic!("expected failure"),
    }
}

#[test]
fn only_own_devices_end_a_link() {
    assert!(link_lost(&LinkEvent::DevicePaused(3), 3, None));
    assert!(link_lost(&LinkEvent::DeviceRemoved(8), 3, Some(8)));
    assert!(!link_lost(&LinkEvent::DevicePaused(9), 3, Some(8)));
    assert!(link_lost(&LinkEvent::Ended, 3, None));
    assert!(link_lost(&LinkEvent::StreamFailed, 3, None));
    assert!(link_lost(&LinkEvent::Disconnected, 3, None));
    assert!(!link_lost(&LinkEvent::Other, 3, None));
}

#[test]
fn devices_keep_emulating_while_input_is_held() {
    let mut e = Emulation::new();
    assert_eq!(e.start(1), Some(0));
    assert_eq!(e.start(1), None);
    assert_eq!(e.start(2), Some(1));
    e.key_event(42, true);
    assert!(!e.stop(1));
    e.key_event(42, false);
    assert!(e.stop(1));
    assert!(!e.stop(1));
}

#[test]
fn releasing_lets_go_of_every_held_key_and_button_once() {
    let mut e = Emulation::new();
    e.start(10);
    e.key_event(30, true);
    e.key_event(29, true);
    e.key_event(30, true);
    e.button_event(272, true);
    let plan = e.release_held(&[10, 20, 10]);
    assert_eq!(plan.len(), 1);
    assert_eq!(plan[0].device, 10);
    assert_eq!(plan[0].keys, vec![29, 30]);
    assert_eq!(plan[0].buttons, vec![272]);
    assert!(e.start(10).is_some());
    assert!(e.release_held(&[]).is_empty());
}

#[test]
fn emulated_buttons_use_evdev_codes() {
    assert_eq!(button_code(Button::Left), BTN_LEFT);
    assert_eq!(button_code(Button::Right), BTN_RIGHT);
    assert_eq!(button_code(Button::Middle), BTN_MIDDLE);
}

#[test]
fn input_is_refused_once_the_link_is_down() {
    assert!(check_link(true).is_ok());
    match check_link(false) {
        Err(BackendError::InputDispatchFailed { detail }) => {
            assert_eq!(detail, "EIS device paused or disconnected; observe before retrying")
        }
        other => panic!("unexpected {other:?}"),
    }
}
