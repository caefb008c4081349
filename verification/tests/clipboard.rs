use agent_desktop::desktop::clipboard::{
    copy_program, Clipboard, has_foreign_type, list_types_command, paste_program, read_text_command,
    restore_plan, saved_contents, write_text_command, Restore,
};
use agent_desktop::drivers::SessionType;

#[test]
fn text_clipboards_can_be_saved() {
    assert!(!has_foreign_type("TARGETS\nUTF8_STRING\ntext/plain;charset=utf-8\n  STRING  \n"));
    assert!(has_foreign_type("TARGETS\nimage/png\n"));
    assert!(!has_foreign_type(""));
    assert_eq!(saved_contents(true, "text/plain\n", Some("hello".to_string())).unwrap(), Some("hello".to_string()));
    assert_eq!(saved_contents(false, "", None).unwrap(), None);
}

#[test]
fn foreign_or_unreadable_clipboards_are_refused() {
    let e = saved_contents(true, "image/png\n", Some("x".to_string())).unwrap_err();
    assert_eq!(e.code, "unsupported");
    assert_eq!(e.message, "Clipboard contains formats this provider cannot restore; use a semantic text edit");
    let e = saved_contents(true, "TARGETS\n", None).unwrap_err();
    assert_eq!(e.message, "Clipboard contains non-text data; cannot safely replace it for paste");
    assert!(!e.retryable);
}

#[test]
fn restore_only_undoes_our_own_paste() {
    assert!(matches!(
        restore_plan(SessionType::X11, Some("other".to_string()), "pasted", Some("old".to_string())),
        Restore::Leave
    ));
    assert!(matches!(restore_plan(SessionType::Wayland, None, "pasted", None), Restore::Leave));
    match restore_plan(SessionType::Wayland, Some("pasted".to_string()), "pasted", Some("old".to_string())) {
        Restore::Write(t) => assert_eq!(t, "old"),
        _ => panic!("expected the old text back"),
    }
    assert!(matches!(restore_plan(SessionType::Wayland, Some("pasted".to_string()), "pasted", None), Restore::Clear));
    match restore_plan(SessionType::X11, Some("pasted".to_string()), "pasted", None) {
        Restore::Write(t) => assert_eq!(t, ""),
        _ => panic!("expected an empty write"),
    }
}

#[test]
fn clipboard_commands_per_session() {
    assert_eq!(list_types_command(SessionType::Wayland), vec!["wl-paste", "--list-types"]);
    assert_eq!(read_text_command(SessionType::X11), vec!["xclip", "-o", "-selection", "clipboard", "-target", "UTF8_STRING"]);
    assert_eq!(write_text_command(SessionType::Wayland), vec!["wl-copy", "--type", "text/plain;charset=utf-8"]);
    assert_eq!(paste_program(SessionType::X11), vec!["xclip", "-o", "-sel", "clip"]);
    assert_eq!(copy_program(SessionType::Wayland), vec!["wl-copy"]);
}

#[test]
fn a_paste_restores_the_clipboard_once() {
    let mut guard = Clipboard::replace(SessionType::X11, Some("before".to_string()), "pasted");
    assert!(guard.armed);
    match guard.restore(Some("pasted".to_string())) {
        Restore::Write(t) => assert_eq!(t, "before"),
        _ => panic!("expected the earlier text back"),
    }
    assert!(!guard.armed);
    assert!(matches!(guard.restore(Some("pasted".to_string())), Restore::Leave));
}
