use agent_desktop::a11y::{
    child_count_of, decode_element_ref, element_target, encode_element_ref, eq_ignore_ascii_case,
    text_value, window_pid, FlatElement, Walk, WalkOpts,
};
use agent_desktop::types::{Ref, Trust};

#[test]
fn element_refs_round_trip_through_base64() {
    let r = encode_element_ref(":1.23", "/org/a11y/atspi/accessible/42");
    assert_eq!(r, "OjEuMjN8L29yZy9hMTF5L2F0c3BpL2FjY2Vzc2libGUvNDI=");
    assert_eq!(
        decode_element_ref(&r),
        Some((":1.23".to_string(), "/org/a11y/atspi/accessible/42".to_string()))
    );
    let with_bar_in_path = encode_element_ref("bus", "/a|b");
    assert_eq!(decode_element_ref(&with_bar_in_path), Some(("bus".to_string(), "/a|b".to_string())));
}

#[test]
fn malformed_refs_do_not_decode() {
    assert_eq!(decode_element_ref("not base64!"), None);
    assert_eq!(decode_element_ref("bm9iYXI="), None);
    assert_eq!(decode_element_ref("//8="), None);
}

#[test]
fn ascii_case_is_ignored_in_names() {
    assert!(eq_ignore_ascii_case("Press", "PRESS"));
    assert!(!eq_ignore_ascii_case("Press", "Presse"));
    assert_eq!(child_count_of(-1), 0);
    assert_eq!(child_count_of(7), 7);
    assert!(text_value(0, Some("x".to_string())).is_none());
    assert!(text_value(3, Some(String::new())).is_none());
    let v = text_value(3, Some("abc".to_string())).unwrap();
    assert_eq!(v.trust, Trust::External);
    assert_eq!(v.text, "abc");
}

fn flat(id: &str, role: &str, name: &str) -> FlatElement {
    FlatElement::observed(
        Ref(id.to_string()),
        "bus".to_string(),
        None,
        0,
        role.to_string(),
        name.to_string(),
        None,
        vec![],
        None,
        vec![],
    )
}

#[test]
fn walks_visit_breadth_first_and_stop_at_the_limit() {
    let opts = WalkOpts { max_depth: 1, max_elements: 2, role_filter: None, name_contains: None };
    let mut walk: Walk<u32> = Walk::new(0, opts);
    let (root, depth, parent) = walk.next().unwrap();
    assert_eq!((root, depth, parent), (0, 0, None));
    assert!(walk.descends(0));
    assert!(!walk.descends(1));
    walk.record(flat("r", "frame", "Root"));
    walk.enqueue(1, 1, Ref("r".to_string()));
    walk.enqueue(2, 1, Ref("r".to_string()));
    assert_eq!(walk.next().unwrap().0, 1);
    walk.record(flat("a", "button", "A"));
    assert!(walk.next().is_none());
    let (found, truncated, warnings) = walk.finish();
    assert_eq!(found.len(), 2);
    assert!(truncated);
    assert!(warnings.is_empty());
}

#[test]
fn walks_filter_by_role_and_name_and_report_gaps() {
    let opts = WalkOpts {
        max_depth: 4,
        max_elements: 10,
        role_filter: Some(vec!["Push Button".to_string()]),
        name_contains: Some("SAVE".to_string()),
    };
    let mut walk: Walk<u32> = Walk::new(0, opts);
    assert!(walk.keeps("push button", "Save as…"));
    assert!(!walk.keeps("label", "Save"));
    assert!(!walk.keeps("push button", "Open"));
    walk.skip_unreadable(":1.5", "/obj/9", "timeout");
    walk.next();
    assert!(walk.next().is_none());
    let (found, truncated, warnings) = walk.finish();
    assert!(found.is_empty());
    assert!(!truncated);
    assert_eq!(warnings, vec!["get_role failed at :1.5/obj/9: timeout".to_string()]);
    let empty: Walk<u32> = Walk::new(0, WalkOpts { max_depth: 1, max_elements: 1, role_filter: None, name_contains: None });
    let (_, _, warnings) = empty.finish();
    assert!(warnings[0].starts_with("AT-SPI tree empty"));
}

#[test]
fn element_targets_come_from_valid_references_only() {
    let r = encode_element_ref(":1.5", "/a/b");
    let (bus, path) = element_target(&r).unwrap();
    assert_eq!((bus.as_str(), path.as_str()), (":1.5", "/a/b"));
    let e = element_target("not base64!").unwrap_err();
    assert_eq!(e.code, "stale_element");
    assert_eq!(e.message, "Invalid accessibility reference");
    assert_eq!(window_pid(Some(42)).unwrap(), 42);
    assert_eq!(window_pid(None).unwrap_err().message, "Window has no process identity");
}
