//! The command-line X11 tools (`maim`/`import`, `xdotool`, `wmctrl`): the
//! argument lists each operation runs, and the window list read back from
//! `wmctrl -l -p -G`.
use crate::drivers::{Probe, WindowInfo};
use crate::error::BackendError;
use crate::keymap::Modifier;
use crate::session::health::{signed_decimal, signed_decimal_string};
use crate::text::{
    chars_of, join, join_strings, lines, lines_vec, parse_i32, parse_i32_vec, starts_with_lit,
    string_of, string_views, views, words, words_vec, slice_from,
};
use crate::types::{Bbox, Button, Ref};
use vstd::prelude::*;

verus! {

pub open spec fn button_arg(b: Button) -> Seq<char> {
    match b {
        Button::Left => "1"@,
        Button::Middle => "2"@,
        Button::Right => "3"@,
    }
}

/// `xdotool`'s number for a mouse button.
pub fn btn_arg(b: Button) -> (s: &'static str)
    ensures
        s@ == button_arg(b),
{
    match b {
        Button::Left => "1",
        Button::Middle => "2",
        Button::Right => "3",
    }
}

fn button_number(b: Button) -> (s: String)
    ensures
        s@ == button_arg(b),
{
    String::from_str(btn_arg(b))
}

pub open spec fn modifier_arg(m: Modifier) -> Seq<char> {
    match m {
        Modifier::Ctrl => "ctrl"@,
        Modifier::Shift => "shift"@,
        Modifier::Alt => "alt"@,
        Modifier::Super => "super"@,
    }
}

/// `xdotool`'s name for a held modifier.
pub fn modifier_name(m: Modifier) -> (s: String)
    ensures
        s@ == modifier_arg(m),
{
    match m {
        Modifier::Ctrl => String::from_str("ctrl"),
        Modifier::Shift => String::from_str("shift"),
        Modifier::Alt => String::from_str("alt"),
        Modifier::Super => String::from_str("super"),
    }
}

fn text(s: &str) -> (r: String)
    ensures
        r@ == s@,
{
    String::from_str(s)
}

/// `mousemove X Y click B`.
pub fn click_args(x: i32, y: i32, button: Button) -> (r: Vec<String>)
    ensures
        string_views(r@) == seq!["mousemove"@, signed_decimal(x as int), signed_decimal(y as int), "click"@, button_arg(button)],
{
    let r = vec![text("mousemove"), signed_decimal_string(x), signed_decimal_string(y), text("click"), button_number(button)];
    proof {
        assert(string_views(r@) =~= seq!["mousemove"@, signed_decimal(x as int), signed_decimal(y as int), "click"@, button_arg(button)]);
    }
    r
}

/// `mousemove X Y`.
pub fn move_args(x: i32, y: i32) -> (r: Vec<String>)
    ensures
        string_views(r@) == seq!["mousemove"@, signed_decimal(x as int), signed_decimal(y as int)],
{
    let r = vec![text("mousemove"), signed_decimal_string(x), signed_decimal_string(y)];
    proof {
        assert(string_views(r@) =~= seq!["mousemove"@, signed_decimal(x as int), signed_decimal(y as int)]);
    }
    r
}

/// `keydown M` for each held modifier in order (`down`), or `keyup M` in
/// reverse order.
pub fn modifier_commands(hold: &[Modifier], down: bool) -> (r: Vec<Vec<String>>)
    ensures
        r@.len() == hold@.len(),
        forall|i: int| 0 <= i < r@.len() ==> string_views((#[trigger] r@[i])@) == if down {
            seq!["keydown"@, modifier_arg(hold@[i])]
        } else {
            seq!["keyup"@, modifier_arg(hold@[hold@.len() - 1 - i])]
        },
{
    let mut r: Vec<Vec<String>> = Vec::new();
    let mut i: usize = 0;
    while i < hold.len()
        invariant
            i <= hold@.len(),
            r@.len() == i,
            forall|k: int| 0 <= k < i ==> string_views((#[trigger] r@[k])@) == if down {
                seq!["keydown"@, modifier_arg(hold@[k])]
            } else {
                seq!["keyup"@, modifier_arg(hold@[hold@.len() - 1 - k])]
            },
        decreases hold@.len() - i,
    {
        let m = if down { hold[i] } else { hold[hold.len() - 1 - i] };
        let cmd = vec![if down { text("keydown") } else { text("keyup") }, modifier_name(m)];
        proof {
            assert(string_views(cmd@) =~= if down {
                seq!["keydown"@, modifier_arg(hold@[i as int])]
            } else {
                seq!["keyup"@, modifier_arg(hold@[hold@.len() - 1 - i])]
            });
        }
        r.push(cmd);
        i += 1;
    }
    r
}

/// Press at the first point, release at the last:
/// `mousemove X0 Y0 mousedown B mousemove Xn Yn mouseup B`.
pub fn drag_args(path: &[(i32, i32)], button: Button) -> (r: Result<Vec<String>, BackendError>)
    ensures
        path@.len() == 0 ==> (r matches Err(BackendError::Unsupported { reason }) && reason@ == "drag needs ≥1 point"@),
        path@.len() > 0 ==> (r matches Ok(v) && string_views(v@) == seq![
            "mousemove"@,
            signed_decimal(path@[0].0 as int),
            signed_decimal(path@[0].1 as int),
            "mousedown"@,
            button_arg(button),
            "mousemove"@,
            signed_decimal(path@.last().0 as int),
            signed_decimal(path@.last().1 as int),
            "mouseup"@,
            button_arg(button),
        ]),
{
    if path.len() == 0 {
        return Err(BackendError::Unsupported { reason: text("drag needs ≥1 point") });
    }
    let start = path[0];
    let end = path[path.len() - 1];
    let r = vec![
        text("mousemove"),
        signed_decimal_string(start.0),
        signed_decimal_string(start.1),
        text("mousedown"),
        button_number(button),
        text("mousemove"),
        signed_decimal_string(end.0),
        signed_decimal_string(end.1),
        text("mouseup"),
        button_number(button),
    ];
    proof {
        assert(string_views(r@) =~= seq![
            "mousemove"@,
            signed_decimal(path@[0].0 as int),
            signed_decimal(path@[0].1 as int),
            "mousedown"@,
            button_arg(button),
            "mousemove"@,
            signed_decimal(path@.last().0 as int),
            signed_decimal(path@.last().1 as int),
            "mouseup"@,
            button_arg(button),
        ]);
    }
    Ok(r)
}

/// Three notches at (X, Y): button 4 (up) for a negative vertical delta,
/// button 5 (down) otherwise.
pub fn scroll_args(x: i32, y: i32, dy: i32) -> (r: Vec<String>)
    ensures
        string_views(r@) == seq![
            "mousemove"@,
            signed_decimal(x as int),
            signed_decimal(y as int),
            "click"@,
            "--repeat"@,
            "3"@,
            if dy < 0 { "4"@ } else { "5"@ },
        ],
{
    let r = vec![
        text("mousemove"),
        signed_decimal_string(x),
        signed_decimal_string(y),
        text("click"),
        text("--repeat"),
        text("3"),
        if dy < 0 { text("4") } else { text("5") },
    ];
    proof {
        assert(string_views(r@) =~= seq![
            "mousemove"@,
            signed_decimal(x as int),
            signed_decimal(y as int),
            "click"@,
            "--repeat"@,
            "3"@,
            if dy < 0 { "4"@ } else { "5"@ },
        ]);
    }
    r
}

/// `type --delay 0 -- TEXT`.
pub fn type_args(t: &str) -> (r: Vec<String>)
    ensures
        string_views(r@) == seq!["type"@, "--delay"@, "0"@, "--"@, t@],
{
    let r = vec![text("type"), text("--delay"), text("0"), text("--"), text(t)];
    proof {
        assert(string_views(r@) =~= seq!["type"@, "--delay"@, "0"@, "--"@, t@]);
    }
    r
}

/// `key -- CHORD...`: the chord syntax is `xdotool`'s own.
pub fn key_args(keys: &[String]) -> (r: Result<Vec<String>, BackendError>)
    ensures
        keys@.len() == 0 ==> (r matches Err(BackendError::Unsupported { reason }) && reason@ == "empty chord"@),
        keys@.len() > 0 ==> (r matches Ok(v) && string_views(v@) == seq!["key"@, "--"@] + string_views(keys@)),
{
    if keys.len() == 0 {
        return Err(BackendError::Unsupported { reason: text("empty chord") });
    }
    let mut r = vec![text("key"), text("--")];
    let mut i: usize = 0;
    while i < keys.len()
        invariant
            i <= keys@.len(),
            string_views(r@) == seq!["key"@, "--"@] + string_views(keys@.take(i as int)),
        decreases keys@.len() - i,
    {
        let ghost before = r@;
        let k = keys[i].clone();
        r.push(k);
        proof {
            assert(keys@.take(i as int + 1) == keys@.take(i as int).push(keys@[i as int]));
            assert(string_views(r@) =~= string_views(before).push(keys@[i as int]@));
            assert(string_views(keys@.take(i as int + 1)) =~= string_views(keys@.take(i as int)).push(keys@[i as int]@));
        }
        i += 1;
    }
    proof {
        assert(keys@.take(keys@.len() as int) == keys@);
    }
    Ok(r)
}

/// The window id `xdotool` is given: the reference without its `x11:`
/// prefix, or the whole reference when it has none.
pub open spec fn xdotool_window(r: Seq<char>) -> Seq<char> {
    if "x11:"@.len() <= r.len() && r.take("x11:"@.len() as int) == "x11:"@ {
        r.skip("x11:"@.len() as int)
    } else {
        r
    }
}

/// `windowactivate --sync ID` (`close`: `windowclose --sync ID`).
pub fn window_command_args(id: &Ref, close: bool) -> (r: Vec<String>)
    ensures
        string_views(r@) == seq![if close { "windowclose"@ } else { "windowactivate"@ }, "--sync"@, xdotool_window(id.0@)],
{
    let c = chars_of(id.0.as_str());
    proof {
        reveal_strlit("x11:");
    }
    let wid = if starts_with_lit(c.as_slice(), "x11:") {
        let rest = slice_from(c.as_slice(), 4);
        string_of(rest.as_slice())
    } else {
        id.0.clone()
    };
    let r = vec![if close { text("windowclose") } else { text("windowactivate") }, text("--sync"), wid];
    proof {
        assert(string_views(r@) =~= seq![if close { "windowclose"@ } else { "windowactivate"@ }, "--sync"@, xdotool_window(id.0@)]);
    }
    r
}

/// The screenshot tool on `PATH`, in order of preference.
#[derive(Clone, Copy, Debug, PartialEq, Eq, Structural)]
pub enum ShotTool {
    Maim,
    Import,
}

pub open spec fn shot_tool_of(maim: bool, import: bool) -> Option<ShotTool> {
    if maim {
        Some(ShotTool::Maim)
    } else if import {
        Some(ShotTool::Import)
    } else {
        None
    }
}

pub fn choose_shot_tool(maim: bool, import: bool) -> (r: Option<ShotTool>)
    ensures
        r == shot_tool_of(maim, import),
{
    if maim {
        Some(ShotTool::Maim)
    } else if import {
        Some(ShotTool::Import)
    } else {
        None
    }
}

/// The screenshot command's arguments: PNG on standard output.
pub fn shot_args(tool: ShotTool) -> (r: Vec<String>)
    ensures
        string_views(r@) == match tool {
            ShotTool::Maim => seq!["--format=png"@, "/dev/stdout"@],
            ShotTool::Import => seq!["-window"@, "root"@, "png:-"@],
        },
{
    let r = match tool {
        ShotTool::Maim => vec![text("--format=png"), text("/dev/stdout")],
        ShotTool::Import => vec![text("-window"), text("root"), text("png:-")],
    };
    proof {
        assert(string_views(r@) =~= match tool {
            ShotTool::Maim => seq!["--format=png"@, "/dev/stdout"@],
            ShotTool::Import => seq!["-window"@, "root"@, "png:-"@],
        });
    }
    r
}

/// The screenshot probe: `DISPLAY` first, then the tools on `PATH`.
pub fn shot_probe(display_set: bool, maim: bool, import: bool) -> (p: Probe)
    ensures
        !display_set ==> p.id@ == "x11-maim"@ && !p.ok && p.detail@ == "x11: DISPLAY not set"@,
        display_set && maim ==> p.id@ == "x11-maim"@ && p.ok && p.detail@ == "maim on PATH"@,
        display_set && !maim && import ==> p.id@ == "x11-import"@ && p.ok
            && p.detail@ == "import (ImageMagick) on PATH"@,
        display_set && !maim && !import ==> p.id@ == "x11-maim"@ && !p.ok
            && p.detail@ == "neither maim nor import found"@,
{
    if !display_set {
        Probe { id: "x11-maim", ok: false, detail: text("x11: DISPLAY not set") }
    } else if maim {
        Probe { id: "x11-maim", ok: true, detail: text("maim on PATH") }
    } else if import {
        Probe { id: "x11-import", ok: true, detail: text("import (ImageMagick) on PATH") }
    } else {
        Probe { id: "x11-maim", ok: false, detail: text("neither maim nor import found") }
    }
}

/// A probe of one command-line tool (`xdotool`, `wmctrl`): `DISPLAY` first,
/// then the tool on `PATH`.
pub fn tool_probe(id: &'static str, tool: &str, display_set: bool, found: bool) -> (p: Probe)
    ensures
        p.id@ == id@,
        p.ok == (display_set && found),
        !display_set ==> p.detail@ == "x11: DISPLAY not set"@,
        display_set && found ==> p.detail@ == tool@ + " on PATH"@,
        display_set && !found ==> p.detail@ == tool@ + " not found"@,
{
    if !display_set {
        Probe { id, ok: false, detail: text("x11: DISPLAY not set") }
    } else if found {
        let mut d = text(tool);
        d.append(" on PATH");
        Probe { id, ok: true, detail: d }
    } else {
        let mut d = text(tool);
        d.append(" not found");
        Probe { id, ok: false, detail: d }
    }
}

/// A failed tool run: what was being done, the command, and how it exited.
pub fn command_failed(what: &str, command: &str, status: &str) -> (e: BackendError)
    ensures
        e matches BackendError::ExternalCommandFailed { stderr } && stderr@ == what@ + ": "@ + command@
            + " exited "@ + status@,
{
    let mut s = text(what);
    s.append(": ");
    s.append(command);
    s.append(" exited ");
    s.append(status);
    BackendError::ExternalCommandFailed { stderr: s }
}

/// A number field of the listing; anything unparsable counts as 0.
pub open spec fn field_number(s: Seq<char>) -> i32 {
    match parse_i32(s) {
        Some(v) => v,
        None => 0,
    }
}

pub open spec fn size_of_field(s: Seq<char>) -> u32 {
    if field_number(s) < 0 {
        0
    } else {
        field_number(s) as u32
    }
}

/// The title: the words after the host column, joined by single spaces.
pub open spec fn listing_title(ws: Seq<Seq<char>>) -> Seq<char> {
    if ws.len() > 8 {
        join(ws.skip(8), " "@)
    } else {
        Seq::empty()
    }
}

/// The lines of a listing that describe a window (at least seven columns).
pub open spec fn listed_lines(ls: Seq<Seq<char>>) -> Seq<Seq<char>>
    decreases ls.len(),
{
    if ls.len() == 0 {
        Seq::empty()
    } else if words(ls.last()).len() >= 7 {
        listed_lines(ls.drop_last()).push(ls.last())
    } else {
        listed_lines(ls.drop_last())
    }
}

/// The window a listing line (`id desktop pid x y w h host title...`) describes.
pub open spec fn listed_window(line: Seq<char>, w: WindowInfo) -> bool {
    let ws = words(line);
    &&& w.window_ref.0@ == "x11:"@ + ws[0]
    &&& w.title@ == listing_title(ws)
    &&& w.class@.len() == 0
    &&& w.app_id@.len() == 0
    &&& w.pid is None
    &&& !w.minimized
    &&& w.client_protocol is None
    &&& w.geometry == (Bbox {
        x: field_number(ws[3]),
        y: field_number(ws[4]),
        w: size_of_field(ws[5]),
        h: size_of_field(ws[6]),
    })
    &&& w.screen == 0
    &&& !w.is_active
}

fn number_field(s: &Vec<char>) -> (n: i32)
    ensures
        n == field_number(s@),
{
    match parse_i32_vec(s.as_slice()) {
        Some(v) => v,
        None => 0,
    }
}

fn size_field(s: &Vec<char>) -> (n: u32)
    ensures
        n == size_of_field(s@),
{
    let v = number_field(s);
    if v < 0 {
        0
    } else {
        v as u32
    }
}

fn title_of(ws: &Vec<Vec<char>>) -> (t: String)
    ensures
        t@ == listing_title(views(ws@)),
{
    if ws.len() <= 8 {
        return String::new();
    }
    let mut parts: Vec<String> = Vec::new();
    let mut i: usize = 8;
    while i < ws.len()
        invariant
            8 <= i <= ws@.len(),
            string_views(parts@) == views(ws@).subrange(8, i as int),
        decreases ws@.len() - i,
    {
        let ghost before = parts@;
        let part = string_of(ws[i].as_slice());
        parts.push(part);
        proof {
            assert(views(ws@)[i as int] == ws@[i as int]@);
            assert(string_views(parts@) =~= string_views(before).push(ws@[i as int]@));
            assert(views(ws@).subrange(8, i as int + 1) =~= views(ws@).subrange(8, i as int).push(ws@[i as int]@));
        }
        i += 1;
    }
    proof {
        assert(views(ws@).subrange(8, ws@.len() as int) =~= views(ws@).skip(8));
    }
    join_strings(parts.as_slice(), " ")
}

/// The windows `wmctrl -l -p -G` lists, in its order; lines with fewer
/// than seven columns are skipped.
pub fn wmctrl_windows(listing: &str) -> (r: Vec<WindowInfo>)
    ensures
        r@.len() == listed_lines(lines(listing@)).len(),
        forall|i: int| 0 <= i < r@.len() ==> listed_window(listed_lines(lines(listing@))[i], #[trigger] r@[i]),
{
    let c = chars_of(listing);
    let ls = lines_vec(c.as_slice());
    let ghost all = lines(listing@);
    let mut out: Vec<WindowInfo> = Vec::new();
    let mut i: usize = 0;
    while i < ls.len()
        invariant
            i <= ls@.len(),
            views(ls@) == all,
            out@.len() == listed_lines(all.take(i as int)).len(),
            forall|k: int| 0 <= k < out@.len() ==> listed_window(listed_lines(all.take(i as int))[k], #[trigger] out@[k]),
        decreases ls@.len() - i,
    {
        let line = &ls[i];
        let ws = words_vec(line.as_slice());
        proof {
            assert(all.take(i as int + 1).drop_last() == all.take(i as int));
            assert(all.take(i as int + 1).last() == all[i as int]);
            assert(all[i as int] == line@);
        }
        if ws.len() >= 7 {
            let mut id = String::from_str("x11:");
            let first = string_of(ws[0].as_slice());
            id.append(first.as_str());
            let x = number_field(&ws[3]);
            let y = number_field(&ws[4]);
            let w = size_field(&ws[5]);
            let h = size_field(&ws[6]);
            let title = title_of(&ws);
            let info = WindowInfo {
                window_ref: Ref(id),
                title,
                class: String::new(),
                app_id: String::new(),
                pid: None,
                minimized: false,
                client_protocol: None,
                geometry: Bbox { x, y, w, h },
                screen: 0,
                is_active: false,
            };
            proof {
                assert(views(ws@)[0] == ws@[0]@);
                assert(views(ws@)[3] == ws@[3]@);
                assert(views(ws@)[4] == ws@[4]@);
                assert(views(ws@)[5] == ws@[5]@);
                assert(views(ws@)[6] == ws@[6]@);
                assert(listed_window(all[i as int], info));
            }
            out.push(info);
        }
        i += 1;
    }
    proof {
        assert(all.take(ls@.len() as int) == all);
    }
    out
}

} // verus!
