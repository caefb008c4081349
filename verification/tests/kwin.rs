use agent_desktop::error::BackendError;
use agent_desktop::platform::kwin::{
    entry_window, escape_single_quoted, invocation_names, parse_entries, render_script,
    script_outcome, window_operation, window_script, ScriptEntry, ScriptReply,
};
use agent_desktop::types::{Bbox, Ref};

fn original_template(caller: &str, sink: &str, body: &str) -> String {
    format!(
        r#"
(function() {{
    function _send(method, payload) {{
        callDBus({caller:?}, {sink:?},
                 "org.agentdesktop.ScriptSink1", method, payload);
    }}
    try {{
        var _r = (function() {{
            {body}
        }})();
        _send("result", typeof _r === "string" ? _r : JSON.stringify(_r));
    }} catch (e) {{
        _send("error", String(e));
    }}
}})();
"#
    )
}

#[test]
fn scripts_call_back_to_the_invocations_sink() {
    let (path, plugin) = invocation_names("abc123");
    assert_eq!(path, "/org/agentdesktop/Sink/abc123");
    assert_eq!(plugin, "agent-desktop-abc123");
    let script = render_script(":1.7", &path, "return 1;");
    assert_eq!(script, original_template(":1.7", &path, "return 1;"));
    assert!(script.contains("callDBus(\":1.7\", \"/org/agentdesktop/Sink/abc123\","));
    let quoted = render_script("a\"b", "p\\q", "x");
    assert!(quoted.contains("callDBus(\"a\\\"b\", \"p\\\\q\","));
}

#[test]
fn ids_are_escaped_for_single_quoted_script_strings() {
    assert_eq!(escape_single_quoted("{a-b}"), "{a-b}");
    assert_eq!(escape_single_quoted("it's"), "it\\'s");
    assert_eq!(escape_single_quoted("a\\b"), "a\\\\b");
    assert_eq!(escape_single_quoted("\\'"), "\\\\\\'");
}

#[test]
fn window_actions_become_script_statements() {
    assert_eq!(window_operation("focus", None).ok().as_deref(), Some("ws.activeWindow = list[i];"));
    assert_eq!(window_operation("close", None).ok().as_deref(), Some("list[i].closeWindow();"));
    let geo = Bbox { x: -5, y: 10, w: 640, h: 480 };
    assert_eq!(
        window_operation("move_resize", Some(geo)).ok().as_deref(),
        Some("list[i].frameGeometry = Qt.rect(-5, 10, 640, 480);")
    );
    match window_operation("shade", None) {
        Err(BackendError::Unsupported { reason }) => assert_eq!(reason, "unknown window action: shade"),
        _ => panic!("expected refusal"),
    }
}

#[test]
fn window_scripts_find_the_window_by_internal_id() {
    let body = window_script(&Ref("kwin:{1'2}".to_string()), "minimize", None).unwrap();
    let expected = format!(
        "var ws = workspace; var list = ws.windowList(); var found = false; \
         for (var i=0;i<list.length;i++) {{ \
           if (list[i].internalId && list[i].internalId.toString() === '{uuid}') \
             {{ {op} found = true; break; }} }} \
         if (!found) {{ throw 'window not found'; }} return {{ok: true}};",
        uuid = "{1\\'2}",
        op = "list[i].minimized = true;"
    );
    assert_eq!(body, expected);
    let stale = window_script(&Ref("x11:0x1".to_string()), "focus", None).unwrap_err();
    assert_eq!(stale.code, "stale_handle");
    assert_eq!(stale.message, "not a kwin ref: x11:0x1");
    assert!(!stale.retryable);
    let unknown = window_script(&Ref("kwin:{a}".to_string()), "shade", None).unwrap_err();
    assert_eq!(unknown.code, "unsupported");
}

#[test]
fn script_replies_become_results() {
    assert_eq!(script_outcome(ScriptReply::Delivered("{}".to_string())).ok().as_deref(), Some("{}"));
    match script_outcome(ScriptReply::Raised("boom".to_string())) {
        Err(BackendError::ExternalCommandFailed { stderr }) => assert_eq!(stderr, "boom"),
        _ => panic!("expected failure"),
    }
    match script_outcome(ScriptReply::Closed) {
        Err(BackendError::ExternalCommandFailed { stderr }) => {
            assert_eq!(stderr, "script channel closed without delivering a result")
        }
        _ => panic!("expected failure"),
    }
    match script_outcome(ScriptReply::TimedOut) {
        Err(BackendError::Timeout { detail }) => assert_eq!(detail, "kwin script timed out"),
        _ => panic!("expected failure"),
    }
}

fn text(v: &str) -> Option<Option<String>> {
    Some(Some(v.to_string()))
}

/// The geometry of a reply entry: its numbers, rounded.
fn rounded(numbers: &[f64]) -> Option<Vec<i32>> {
    Some(numbers.iter().map(|n| n.round() as i32).collect())
}

#[test]
fn fractional_geometry_rounds_instead_of_dropping() {
    let items = vec![
        ScriptEntry {
            uuid: text("{a}"),
            caption: text("KCalc"),
            resource_class: text("org.kde.kcalc"),
            geometry: rounded(&[580.0, 280.0, 640.0, 520.625]),
            active: Some(Some(true)),
        },
        ScriptEntry {
            uuid: text("{b}"),
            caption: text(""),
            resource_class: text("plasmashell"),
            geometry: rounded(&[0.0, 0.0, 1800.0, 1125.0]),
            active: Some(Some(false)),
        },
    ];
    let wins = parse_entries(&items);
    assert_eq!(wins.len(), 2);
    assert_eq!(wins[0].geometry.h, 521);
    assert!(wins[0].is_active);
}

#[test]
fn entries_missing_a_field_or_a_number_are_skipped() {
    let entry = |geometry: Option<Vec<i32>>, active| ScriptEntry {
        uuid: Some(None),
        caption: Some(None),
        resource_class: text("x"),
        geometry,
        active,
    };
    let w = entry_window(&entry(Some(vec![1, 2, -3, 4]), Some(None))).unwrap();
    assert_eq!(w.window_ref.0, "kwin:?");
    assert_eq!(w.title, "");
    assert_eq!((w.geometry.x, w.geometry.y, w.geometry.w, w.geometry.h), (1, 2, 0, 4));
    assert!(!w.is_active);
    assert!(entry_window(&entry(Some(vec![1, 2, 3]), Some(None))).is_none());
    assert!(entry_window(&entry(Some(vec![1, 2, 3, 4]), None)).is_none());
    assert!(entry_window(&entry(None, Some(Some(true)))).is_none());
    let wins = parse_entries(&[entry(None, None), entry(Some(vec![0, 0, 5, 5]), Some(Some(true)))]);
    assert_eq!(wins.len(), 1);
    assert!(wins[0].is_active);
}
