use agent_desktop::keymap::{
    keycode_for_char, keycode_for_named_key, parse_chord, shift_required, Modifier, KEY_INSERT,
};

#[test]
fn punctuation_maps_with_shift_flags() {
    for ch in "-_.:/?=+,@#%".chars() {
        assert!(keycode_for_char(ch).is_some(), "no mapping for {ch:?}");
    }
    assert!(shift_required('A'));
    assert!(shift_required('!'));
    assert!(shift_required('_'));
    assert!(!shift_required('a'));
    assert!(!shift_required('-'));
    assert!(!shift_required('5'));
    assert_eq!(keycode_for_char('!'), keycode_for_char('1'));
    assert_eq!(keycode_for_char('_'), keycode_for_char('-'));
}

#[test]
fn chords_parse() {
    let c = parse_chord("shift+Insert").unwrap();
    assert_eq!(c.modifiers, vec![Modifier::Shift]);
    assert_eq!(c.key, KEY_INSERT);
    let c = parse_chord("ctrl+s").unwrap();
    assert_eq!(c.modifiers, vec![Modifier::Ctrl]);
}

#[test]
fn named_keys_ignore_letter_case() {
    assert_eq!(keycode_for_named_key("Return"), Some(28));
    assert_eq!(keycode_for_named_key("enter"), Some(28));
    assert_eq!(keycode_for_named_key("RETURN"), keycode_for_named_key("return"));
    assert_eq!(keycode_for_named_key("Insert"), Some(110));
    assert_eq!(keycode_for_named_key("F11"), Some(87));
    assert_eq!(keycode_for_named_key("PageUp"), Some(104));
    assert_eq!(keycode_for_named_key("A"), Some(30));
    assert_eq!(keycode_for_named_key("A"), keycode_for_char('a'));
    assert_eq!(keycode_for_named_key(""), None);
    assert_eq!(keycode_for_named_key("hyper"), None);
}

#[test]
fn chord_modifiers_keep_their_order_and_never_repeat() {
    let c = parse_chord(" alt + ctrl + Delete ").unwrap();
    assert!(matches!(c.modifiers.as_slice(), [Modifier::Alt, Modifier::Ctrl]));
    assert_eq!(c.key, 111);
    assert!(parse_chord("ctrl+ctrl+s").is_err());
    assert!(parse_chord("ctrl++s").is_err());
}
