use agent_desktop::error::BackendError;
use agent_desktop::platform::portal::{
    check_full_capture, check_handle, request_path, request_token, screenshot_answer, sender_token, PortalProgress,
    PortalRequest, PortalSetup, DEVICE_TYPES,
};

#[test]
fn request_handles_are_named_after_the_sender_and_token() {
    assert_eq!(sender_token(":1.42"), "1_42");
    assert_eq!(sender_token("::a.b.c"), "a_b_c");
    assert_eq!(request_token(3, 77), "ad3_77");
    assert_eq!(
        request_path(&sender_token(":1.42"), &request_token(12, 4051)),
        "/org/freedesktop/portal/desktop/request/1_42/ad12_4051"
    );
    assert_eq!(DEVICE_TYPES, 3);
}

#[test]
fn answers_on_another_handle_are_refused() {
    assert!(check_handle("/a/b", "/a/b").is_ok());
    match check_handle("/a/b", "/a/c") {
        Err(BackendError::Failed(m)) => assert_eq!(m, "Portal ignored the requested response handle"),
        _ => panic!("expected refusal"),
    }
}

#[test]
fn a_session_is_created_selected_and_started_in_order() {
    let mut setup = PortalSetup::new();
    assert_eq!(setup.waiting, PortalRequest::CreateSession);
    assert!(matches!(
        setup.answer(0, Some("/session/1".to_string())),
        Ok(PortalProgress::Ask(PortalRequest::SelectDevices))
    ));
    assert!(matches!(setup.answer(0, None), Ok(PortalProgress::Ask(PortalRequest::Start))));
    match setup.answer(0, None) {
        Ok(PortalProgress::Established(s)) => assert_eq!(s, "/session/1"),
        _ => panic!("expected an established session"),
    }
}

#[test]
fn each_refused_step_names_itself_and_the_code() {
    let mut setup = PortalSetup::new();
    match setup.answer(2, None) {
        Err(BackendError::ExternalCommandFailed { stderr }) => assert_eq!(stderr, "CreateSession denied (code 2)"),
        _ => panic!("expected refusal"),
    }
    match setup.answer(0, None) {
        Err(BackendError::ExternalCommandFailed { stderr }) => {
            assert_eq!(stderr, "CreateSession missing session_handle")
        }
        _ => panic!("expected refusal"),
    }
    assert_eq!(setup.waiting, PortalRequest::CreateSession);
    setup.answer(0, Some("/s".to_string())).ok();
    match setup.answer(1, None) {
        Err(BackendError::ExternalCommandFailed { stderr }) => assert_eq!(stderr, "SelectDevices denied (code 1)"),
        _ => panic!("expected refusal"),
    }
    setup.answer(0, None).ok();
    match setup.answer(1, None) {
        Err(BackendError::ExternalCommandFailed { stderr }) => {
            assert_eq!(stderr, "Start denied — approve the share dialog (code 1)")
        }
        _ => panic!("expected refusal"),
    }
}

#[test]
fn screenshots_need_a_granted_answer_with_a_uri() {
    assert_eq!(screenshot_answer(0, Some("file:///tmp/x.png".to_string())).ok(), Some("file:///tmp/x.png".to_string()));
    match screenshot_answer(1, Some("file:///tmp/x.png".to_string())) {
        Err(BackendError::ExternalCommandFailed { stderr }) => {
            assert_eq!(stderr, "screenshot denied/cancelled (code 1)")
        }
        _ => panic!("expected refusal"),
    }
    match screenshot_answer(0, None) {
        Err(BackendError::ExternalCommandFailed { stderr }) => assert_eq!(stderr, "screenshot response missing uri"),
        _ => panic!("expected refusal"),
    }
}

#[test]
fn the_screenshot_portal_captures_the_whole_desktop_only() {
    assert!(check_full_capture(true).is_ok());
    match check_full_capture(false) {
        Err(BackendError::Unsupported { reason }) => {
            assert_eq!(reason, "The screenshot portal only provides full-desktop capture")
        }
        other => panic!("unexpected {other:?}"),
    }
}
