use agent_desktop::keymap::{self, parse_chord};
use agent_desktop::types::Ref;
use agent_desktop::x11::{chord_keysym, named_keysym, window_of, window_ref, Keyboard};

#[test]
fn function_keys_map_to_contiguous_keysyms() {
    assert_eq!(named_keysym(keymap::KEY_F1), Some(0xffbe));
    assert_eq!(named_keysym(keymap::KEY_F10), Some(0xffc7));
    assert_eq!(named_keysym(keymap::KEY_F11), Some(0xffc8));
    assert_eq!(named_keysym(keymap::KEY_F12), Some(0xffc9));
}

#[test]
fn lookup_reports_shift_levels() {
    let keyboard = Keyboard {
        min_keycode: 8,
        per_keycode: 2,
        keysyms: vec![0, 0, 0x73, 0x53, 0xff1b, 0],
    };
    assert_eq!(keyboard.lookup(0x73), Some((9, false)));
    assert_eq!(keyboard.lookup(0x53), Some((9, true)));
    assert_eq!(keyboard.lookup(0xff1b), Some((10, false)));
    assert_eq!(keyboard.lookup(0xdead), None);
}

#[test]
fn chord_keysym_prefers_single_char_tokens() {
    let chord = parse_chord("ctrl+s").unwrap();
    assert_eq!(chord_keysym("ctrl+s", &chord), Some('s' as u32));
    let chord = parse_chord("shift+Insert").unwrap();
    assert_eq!(chord_keysym("shift+Insert", &chord), Some(0xff63));
    let chord = parse_chord("ctrl+Return").unwrap();
    assert_eq!(chord_keysym("ctrl+Return", &chord), Some(0xff0d));
}

#[test]
fn window_refs_parse_the_wmctrl_compatible_form() {
    assert_eq!(window_of(&Ref("x11:0x03e0000a".into())).unwrap(), 0x03e0_000a);
    assert_eq!(
        window_of(&Ref(format!("x11:0x{:08x}", 0x0120_0003))).unwrap(),
        0x0120_0003
    );
    assert!(window_of(&Ref("kwin:abc".into())).is_err());
    assert!(window_of(&Ref("x11:nothex".into())).is_err());
}

#[test]
fn window_refs_are_formatted_with_eight_hex_digits() {
    assert_eq!(window_ref(0x0120_0003).0, "x11:0x01200003");
    assert_eq!(window_ref(0xdead_beef).0, "x11:0xdeadbeef");
    assert_eq!(window_of(&window_ref(42)).unwrap(), 42);
}
