//! KWin scripting: the script text that runs a body inside KWin and calls
//! the result back over the bus, the window operations written as script,
//! and how a reply (or its absence) becomes a result.
use crate::drivers::WindowInfo;
use crate::error::BackendError;
use crate::session::health::{signed_decimal, signed_decimal_string};
use crate::text::{chars_of, debug_quoted, debug_text, decimal, decimal_string, eq_lit, push_char};
use crate::tools::kwin_window_id;
use crate::types::{Bbox, Ref, ToolError};
use vstd::prelude::*;

verus! {

/// The bus object path and the script plugin name of one invocation.
pub open spec fn sink_path_of(invocation: Seq<char>) -> Seq<char> {
    "/org/agentdesktop/Sink/"@ + invocation
}

pub open spec fn plugin_name_of(invocation: Seq<char>) -> Seq<char> {
    "agent-desktop-"@ + invocation
}

pub fn invocation_names(invocation: &str) -> (r: (String, String))
    ensures
        r.0@ == sink_path_of(invocation@),
        r.1@ == plugin_name_of(invocation@),
{
    let mut path = String::from_str("/org/agentdesktop/Sink/");
    path.append(invocation);
    let mut plugin = String::from_str("agent-desktop-");
    plugin.append(invocation);
    (path, plugin)
}

/// The loaded script: `body` runs as a function; what it returns (as a
/// string, or JSON otherwise) goes to the caller's sink as `result`, what it
/// throws as `error`. Bus name and path are quoted as Rust's `Debug` does.
pub open spec fn script_text(caller: Seq<char>, sink: Seq<char>, body: Seq<char>) -> Seq<char> {
    "\n(function() {\n    function _send(method, payload) {\n        callDBus("@ + debug_text(caller)
        + ", "@ + debug_text(sink)
        + ",\n                 \"org.agentdesktop.ScriptSink1\", method, payload);\n    }\n    try {\n        var _r = (function() {\n            "@
        + body
        + "\n        })();\n        _send(\"result\", typeof _r === \"string\" ? _r : JSON.stringify(_r));\n    } catch (e) {\n        _send(\"error\", String(e));\n    }\n})();\n"@
}

pub fn render_script(caller: &str, sink: &str, body: &str) -> (s: String)
    ensures
        s@ == script_text(caller@, sink@, body@),
{
    let mut s = String::from_str("\n(function() {\n    function _send(method, payload) {\n        callDBus(");
    let c = debug_quoted(caller);
    s.append(c.as_str());
    s.append(", ");
    let p = debug_quoted(sink);
    s.append(p.as_str());
    s.append(",\n                 \"org.agentdesktop.ScriptSink1\", method, payload);\n    }\n    try {\n        var _r = (function() {\n            ");
    s.append(body);
    s.append("\n        })();\n        _send(\"result\", typeof _r === \"string\" ? _r : JSON.stringify(_r));\n    } catch (e) {\n        _send(\"error\", String(e));\n    }\n})();\n");
    s
}

/// `s` made safe inside a single-quoted script string: each backslash
/// doubled, each single quote escaped.
pub open spec fn js_escaped(s: Seq<char>) -> Seq<char>
    decreases s.len(),
{
    if s.len() == 0 {
        Seq::empty()
    } else {
        let c = s.last();
        let rest = js_escaped(s.drop_last());
        if c == '\\' {
            rest + seq!['\\', '\\']
        } else if c == '\'' {
            rest + seq!['\\', '\'']
        } else {
            rest.push(c)
        }
    }
}

pub fn escape_single_quoted(s: &str) -> (r: String)
    ensures
        r@ == js_escaped(s@),
{
    let c = chars_of(s);
    let mut r = String::new();
    let mut i: usize = 0;
    while i < c.len()
        invariant
            i <= c@.len(),
            c@ == s@,
            r@ == js_escaped(c@.take(i as int)),
        decreases c@.len() - i,
    {
        let ch = c[i];
        proof {
            assert(c@.take(i as int + 1).drop_last() == c@.take(i as int));
        }
        if ch == '\\' {
            push_char(&mut r, '\\');
            push_char(&mut r, '\\');
        } else if ch == '\'' {
            push_char(&mut r, '\\');
            push_char(&mut r, '\'');
        } else {
            push_char(&mut r, ch);
        }
        i += 1;
        proof {
            assert(r@ =~= js_escaped(c@.take(i as int)));
        }
    }
    proof {
        assert(c@.take(c@.len() as int) == c@);
    }
    r
}

/// The script statement that performs a window action on `list[i]`, or
/// `None` for an action KWin scripting has no statement for.
pub open spec fn operation_text(action: Seq<char>, geometry: Option<Bbox>) -> Option<Seq<char>> {
    if action == "focus"@ {
        Some("ws.activeWindow = list[i];"@)
    } else if action == "minimize"@ {
        Some("list[i].minimized = true;"@)
    } else if action == "maximize"@ {
        Some("list[i].setMaximize(true, true);"@)
    } else if action == "restore"@ {
        Some("list[i].minimized = false; list[i].setMaximize(false, false);"@)
    } else if action == "close"@ {
        Some("list[i].closeWindow();"@)
    } else if action == "move_resize"@ {
        match geometry {
            Some(g) => Some("list[i].frameGeometry = Qt.rect("@ + signed_decimal(g.x as int) + ", "@
                + signed_decimal(g.y as int) + ", "@ + decimal(g.w as nat) + ", "@ + decimal(g.h as nat)
                + ");"@),
            None => None,
        }
    } else {
        None
    }
}

/// A move-resize needs its geometry.
pub open spec fn operation_defined(action: Seq<char>, geometry: Option<Bbox>) -> bool {
    action == "move_resize"@ ==> geometry is Some
}

pub fn window_operation(action: &str, geometry: Option<Bbox>) -> (r: Result<String, BackendError>)
    requires
        operation_defined(action@, geometry),
    ensures
        operation_text(action@, geometry) matches Some(t) ==> (r matches Ok(s) && s@ == t),
        operation_text(action@, geometry) is None ==> (r matches Err(BackendError::Unsupported { reason })
            && reason@ == "unknown window action: "@ + action@),
{
    let a = chars_of(action);
    if eq_lit(a.as_slice(), "focus") {
        Ok(String::from_str("ws.activeWindow = list[i];"))
    } else if eq_lit(a.as_slice(), "minimize") {
        Ok(String::from_str("list[i].minimized = true;"))
    } else if eq_lit(a.as_slice(), "maximize") {
        Ok(String::from_str("list[i].setMaximize(true, true);"))
    } else if eq_lit(a.as_slice(), "restore") {
        Ok(String::from_str("list[i].minimized = false; list[i].setMaximize(false, false);"))
    } else if eq_lit(a.as_slice(), "close") {
        Ok(String::from_str("list[i].closeWindow();"))
    } else if eq_lit(a.as_slice(), "move_resize") {
        match geometry {
            Some(g) => {
                let mut s = String::from_str("list[i].frameGeometry = Qt.rect(");
                let x = signed_decimal_string(g.x);
                s.append(x.as_str());
                s.append(", ");
                let y = signed_decimal_string(g.y);
                s.append(y.as_str());
                s.append(", ");
                let w = decimal_string(g.w as u64);
                s.append(w.as_str());
                s.append(", ");
                let h = decimal_string(g.h as u64);
                s.append(h.as_str());
                s.append(");");
                Ok(s)
            },
            None => {
                let mut reason = String::from_str("unknown window action: ");
                reason.append(action);
                Err(BackendError::Unsupported { reason })
            },
        }
    } else {
        let mut reason = String::from_str("unknown window action: ");
        reason.append(action);
        Err(BackendError::Unsupported { reason })
    }
}

/// The script body that finds the window by its internal id and runs
/// `operation` on it, throwing when no window has that id.
pub open spec fn mutation_text(uuid: Seq<char>, operation: Seq<char>) -> Seq<char> {
    "var ws = workspace; var list = ws.windowList(); var found = false; for (var i=0;i<list.length;i++) { if (list[i].internalId && list[i].internalId.toString() === '"@
        + uuid + "') { "@ + operation
        + " found = true; break; } } if (!found) { throw 'window not found'; } return {ok: true};"@
}

/// The window's internal id carried by a `kwin:` reference.
pub open spec fn kwin_id_of(r: Seq<char>) -> Option<Seq<char>> {
    if "kwin:"@.len() <= r.len() && r.take("kwin:"@.len() as int) == "kwin:"@ {
        Some(r.skip("kwin:"@.len() as int))
    } else {
        None
    }
}

/// The script that performs `action` on the window `id` refers to.
pub fn window_script(id: &Ref, action: &str, geometry: Option<Bbox>) -> (r: Result<String, ToolError>)
    requires
        operation_defined(action@, geometry),
    ensures
        kwin_id_of(id.0@) is None ==> (r matches Err(e) && e.code@ == "stale_handle"@
            && e.message@ == "not a kwin ref: "@ + id.0@ && !e.retryable),
        kwin_id_of(id.0@) is Some && operation_text(action@, geometry) is None ==> (r matches Err(e)
            && e.code@ == "unsupported"@ && e.message@ == "unknown window action: "@ + action@
            && !e.retryable),
        kwin_id_of(id.0@) matches Some(u) ==> (operation_text(action@, geometry) matches Some(op) ==> (
            r matches Ok(s) && s@ == mutation_text(js_escaped(u), op))),
{
    let uuid = match kwin_window_id(id.0.as_str()) {
        Ok(u) => u,
        Err(e) => {
            let t = e.tool(false);
            proof {
                reveal_strlit("stale_handle");
            }
            return Err(t);
        },
    };
    let escaped = escape_single_quoted(uuid.as_str());
    let op = match window_operation(action, geometry) {
        Ok(op) => op,
        Err(e) => {
            return Err(e.tool(false));
        },
    };
    let mut s = String::from_str(
        "var ws = workspace; var list = ws.windowList(); var found = false; for (var i=0;i<list.length;i++) { if (list[i].internalId && list[i].internalId.toString() === '",
    );
    s.append(escaped.as_str());
    s.append("') { ");
    s.append(op.as_str());
    s.append(" found = true; break; } } if (!found) { throw 'window not found'; } return {ok: true};");
    Ok(s)
}

/// How a script invocation ended.
pub enum ScriptReply {
    /// The script called back with a result payload.
    Delivered(String),
    /// The script called back with an error message.
    Raised(String),
    /// The sink went away without a call.
    Closed,
    /// No call came within the time allowed.
    TimedOut,
}

pub fn script_outcome(reply: ScriptReply) -> (r: Result<String, BackendError>)
    ensures
        match reply {
            ScriptReply::Delivered(p) => r == Ok::<String, BackendError>(p),
            ScriptReply::Raised(m) => r matches Err(BackendError::ExternalCommandFailed { stderr })
                && stderr == m,
            ScriptReply::Closed => r matches Err(BackendError::ExternalCommandFailed { stderr })
                && stderr@ == "script channel closed without delivering a result"@,
            ScriptReply::TimedOut => r matches Err(BackendError::Timeout { detail })
                && detail@ == "kwin script timed out"@,
        },
{
    match reply {
        ScriptReply::Delivered(p) => Ok(p),
        ScriptReply::Raised(m) => Err(BackendError::ExternalCommandFailed { stderr: m }),
        ScriptReply::Closed => Err(BackendError::ExternalCommandFailed {
            stderr: String::from_str("script channel closed without delivering a result"),
        }),
        ScriptReply::TimedOut => Err(BackendError::Timeout { detail: String::from_str("kwin script timed out") }),
    }
}

/// One window entry of a query script's reply, as its JSON reads: a field
/// that is absent is `None`; one that is present holds its value when it is
/// of the field's kind (`Some(None)` otherwise). The geometry holds the
/// entry's numbers, rounded, when it is an array.
pub struct ScriptEntry {
    pub uuid: Option<Option<String>>,
    pub caption: Option<Option<String>>,
    pub resource_class: Option<Option<String>>,
    pub geometry: Option<Vec<i32>>,
    pub active: Option<Option<bool>>,
}

/// A present text field's value, or `default` when it is of another kind.
pub open spec fn text_or(v: Option<String>, default: Seq<char>) -> Seq<char> {
    match v {
        Some(t) => t@,
        None => default,
    }
}

/// Whether an entry describes a window: every field present and four
/// geometry numbers.
pub open spec fn entry_fits(e: ScriptEntry) -> bool {
    &&& e.uuid is Some
    &&& e.caption is Some
    &&& e.resource_class is Some
    &&& e.active is Some
    &&& e.geometry matches Some(g) && g@.len() == 4
}

/// The window an entry that fits describes: its reference is `kwin:` and
/// its UUID (`?` when that is not text), its sizes are clamped at zero, and
/// it is active only when `active` is `true`.
pub open spec fn describes(w: WindowInfo, e: ScriptEntry) -> bool {
    let g = e.geometry->0@;
    &&& w.window_ref.0@ == "kwin:"@ + text_or(e.uuid->0, "?"@)
    &&& w.title@ == text_or(e.caption->0, Seq::empty())
    &&& w.class@ == text_or(e.resource_class->0, Seq::empty())
    &&& w.geometry == Bbox {
        x: g[0],
        y: g[1],
        w: if g[2] < 0 { 0u32 } else { g[2] as u32 },
        h: if g[3] < 0 { 0u32 } else { g[3] as u32 },
    }
    &&& w.screen == 0
    &&& w.is_active == (e.active->0 == Some(true))
    &&& w.app_id@.len() == 0
    &&& w.pid is None
    &&& !w.minimized
    &&& w.client_protocol is None
}

/// The entries that describe windows, in order.
pub open spec fn fitting(es: Seq<ScriptEntry>) -> Seq<ScriptEntry>
    decreases es.len(),
{
    if es.len() == 0 {
        Seq::empty()
    } else if entry_fits(es.last()) {
        fitting(es.drop_last()).push(es.last())
    } else {
        fitting(es.drop_last())
    }
}

fn field_text(v: &Option<String>, default: &str) -> (r: String)
    ensures
        r@ == text_or(*v, default@),
{
    match v {
        Some(t) => t.clone(),
        None => String::from_str(default),
    }
}

/// The window one entry describes, if it fits.
pub fn entry_window(e: &ScriptEntry) -> (r: Option<WindowInfo>)
    ensures
        entry_fits(*e) ==> (r matches Some(w) && describes(w, *e)),
        !entry_fits(*e) ==> r is None,
{
    let g = match &e.geometry {
        Some(g) => g,
        None => return None,
    };
    if g.len() != 4 {
        return None;
    }
    let (uuid, caption, class, active) = match (&e.uuid, &e.caption, &e.resource_class, &e.active) {
        (Some(u), Some(c), Some(k), Some(a)) => (u, c, k, a),
        _ => return None,
    };
    proof {
        reveal_strlit("");
    }
    let mut r = String::from_str("kwin:");
    let u = field_text(uuid, "?");
    r.append(u.as_str());
    let w = if g[2] < 0 { 0u32 } else { g[2] as u32 };
    let h = if g[3] < 0 { 0u32 } else { g[3] as u32 };
    let title = field_text(caption, "");
    let class_name = field_text(class, "");
    let is_active = match active {
        Some(b) => *b,
        None => false,
    };
    let win = WindowInfo {
        window_ref: Ref(r),
        title,
        class: class_name,
        app_id: String::new(),
        pid: None,
        minimized: false,
        client_protocol: None,
        geometry: Bbox { x: g[0], y: g[1], w, h },
        screen: 0,
        is_active,
    };
    assert(win.window_ref.0@ == "kwin:"@ + text_or(e.uuid->0, "?"@));
    assert(win.title@ == text_or(e.caption->0, Seq::empty()));
    assert(win.geometry.x == g@[0]);
    assert(win.is_active == (e.active->0 == Some(true)));
    assert(win.class@ == text_or(e.resource_class->0, Seq::empty()));
    assert(win.app_id@.len() == 0);
    assert(win.geometry.w == (if g@[2] < 0 { 0u32 } else { g@[2] as u32 }));
    assert(win.geometry.h == (if g@[3] < 0 { 0u32 } else { g@[3] as u32 }));
    assert(win.geometry.y == g@[1]);
    assert(describes(win, *e));
    Some(win)
}

/// The windows a query script's reply lists: one per entry that fits, in
/// order; the other entries are skipped.
pub fn parse_entries(entries: &[ScriptEntry]) -> (r: Vec<WindowInfo>)
    ensures
        r@.len() == fitting(entries@).len(),
        forall|i: int| 0 <= i < r@.len() ==> describes(#[trigger] r@[i], fitting(entries@)[i]),
{
    let mut r: Vec<WindowInfo> = Vec::new();
    let mut i: usize = 0;
    while i < entries.len()
        invariant
            i <= entries@.len(),
            r@.len() == fitting(entries@.take(i as int)).len(),
            forall|j: int| 0 <= j < r@.len() ==> describes(#[trigger] r@[j], fitting(entries@.take(i as int))[j]),
        decreases entries@.len() - i,
    {
        let ghost before = fitting(entries@.take(i as int));
        assert(entries@.take(i + 1).drop_last() =~= entries@.take(i as int));
        assert(entries@.take(i + 1).last() == entries@[i as int]);
        match entry_window(&entries[i]) {
            Some(w) => {
                r.push(w);
            },
            None => {},
        }
        i += 1;
    }
    assert(entries@.take(i as int) =~= entries@);
    r
}

} // verus!
