use agent_desktop::error::BackendError;
use agent_desktop::input::{evdev_char_events, evdev_chord_events, segment_steps, walk_path, KeyAction};
use agent_desktop::keymap::{keycode_for_char, Modifier, KEY_LEFTCTRL, KEY_LEFTSHIFT};
use agent_desktop::table::TextTable;
use agent_desktop::text::join_path_string;

#[test]
fn typed_capitals_are_wrapped_in_shift() {
    let a = keycode_for_char('a').unwrap();
    assert_eq!(
        evdev_char_events('A').unwrap(),
        vec![KeyAction::Press(KEY_LEFTSHIFT), KeyAction::Press(a), KeyAction::Release(a), KeyAction::Release(KEY_LEFTSHIFT)]
    );
    assert_eq!(evdev_char_events('a').unwrap(), vec![KeyAction::Press(a), KeyAction::Release(a)]);
    match evdev_char_events('é') {
        Err(BackendError::Unsupported { reason }) => assert_eq!(reason, "no evdev mapping for 'é'"),
        _ => panic!("expected refusal"),
    }
}

#[test]
fn chords_release_modifiers_in_reverse_order() {
    let s = keycode_for_char('s').unwrap();
    assert_eq!(
        evdev_chord_events(&[Modifier::Ctrl, Modifier::Shift], s),
        vec![
            KeyAction::Press(KEY_LEFTCTRL),
            KeyAction::Press(KEY_LEFTSHIFT),
            KeyAction::Press(s),
            KeyAction::Release(s),
            KeyAction::Release(KEY_LEFTSHIFT),
            KeyAction::Release(KEY_LEFTCTRL)
        ]
    );
    assert_eq!(evdev_chord_events(&[], s), vec![KeyAction::Press(s), KeyAction::Release(s)]);
}

#[test]
fn paths_are_walked_in_even_integer_steps() {
    assert_eq!(
        segment_steps((0, 0), (10, -5), 5),
        vec![(2, -1), (4, -2), (6, -3), (8, -4), (10, -5)]
    );
    let walked = walk_path(&[(0, 0), (10, 0), (10, 10)], 10);
    assert_eq!(walked.len(), 20);
    assert_eq!(walked[9], (10, 0));
    assert_eq!(walked[14], (10, 5));
    assert_eq!(walked[19], (10, 10));
    assert!(walk_path(&[(3, 3)], 10).is_empty());
}

#[test]
fn tables_keep_one_value_per_key_in_key_order() {
    let mut t = TextTable::new();
    t.insert("b".to_string(), "2".to_string());
    t.insert("a".to_string(), "1".to_string());
    t.insert("b".to_string(), "3".to_string());
    assert_eq!(t.len(), 2);
    assert_eq!(t.get("b"), Some("3".to_string()));
    assert!(!t.contains_key("c"));
    assert_eq!(t.render(), "a=1\nb=3\n");
    let mut other = TextTable::new();
    other.insert("a".to_string(), String::new());
    other.insert("c".to_string(), "9".to_string());
    t.merge_nonempty(&other);
    assert_eq!(t.pairs(), vec![("a".to_string(), "1".to_string()), ("b".to_string(), "3".to_string()), ("c".to_string(), "9".to_string())]);
}

#[test]
fn paths_join_like_path_join() {
    assert_eq!(join_path_string("/run/seat", "ready"), "/run/seat/ready");
    assert_eq!(join_path_string("/run/seat/", "ready"), "/run/seat/ready");
    assert_eq!(join_path_string("/run/seat", "/abs"), "/abs");
    assert_eq!(join_path_string("", "rel"), "rel");
}
