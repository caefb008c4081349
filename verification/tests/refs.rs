use agent_desktop::refs::RefStore;
use agent_desktop::types::Ref;

#[test]
fn references_live_for_five_minutes_from_last_use() {
    let mut store = RefStore::new();
    let refs = store.mint_elements(vec!["e1".to_string(), "e2".to_string()], 1_000);
    assert_eq!(refs, vec![Ref("e1".to_string()), Ref("e2".to_string())]);
    assert!(store.check(&refs[0], 301_000));
    assert!(store.check(&refs[0], 601_000));
    assert!(!store.check(&refs[1], 601_000));
    assert!(!store.check(&Ref("never".to_string()), 0));
}

#[test]
fn window_references_are_remembered_as_windows() {
    let mut store = RefStore::new();
    let w = store.mint_windows(vec!["x11:0x1".to_string()], 5);
    store.mint_elements(vec!["el".to_string()], 5);
    assert!(store.is_window(&w[0]));
    assert!(!store.is_window(&Ref("el".to_string())));
    assert!(store.check(&w[0], 10));
}
