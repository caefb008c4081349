//! The argument rules of the desktop tools: defaults and limits, which
//! modifiers a request holds, and how window and element requests are read.
use crate::a11y::{eq_ignore_ascii_case, same_ascii_case};
use crate::error::BackendError;
use crate::keymap::{modifier_verdict, Modifier};
use crate::text::{chars_of, debug_quoted, debug_text, eq_lit, join, join_strings, lower, lower_vec, starts_with_lit, string_of, string_views};
use crate::types::{Bbox, Button};
use crate::x11::WindowAction;
use vstd::prelude::*;

verus! {

/// `value` limited to `lo..=hi`.
pub open spec fn clamped(value: int, lo: int, hi: int) -> int {
    if value < lo { lo } else if value > hi { hi } else { value }
}

/// Clicks per request: 1 by default, at most 3.
pub fn click_count(count: Option<u32>) -> (n: u32)
    ensures
        n == clamped(match count { Some(c) => c as int, None => 1 }, 1, 3),
{
    let c = match count {
        Some(c) => c,
        None => 1,
    };
    if c < 1 { 1 } else if c > 3 { 3 } else { c }
}

/// The button of a pointer request: the left one by default.
pub fn button_or_left(button: Option<Button>) -> (b: Button)
    ensures
        b == match button { Some(x) => x, None => Button::Left },
{
    match button {
        Some(b) => b,
        None => Button::Left,
    }
}

/// The modifiers a request holds while it clicks or scrolls: every key named
/// must be a modifier; the first that is not refuses the request.
pub open spec fn held_modifiers(keys: Seq<Seq<char>>) -> Result<Seq<Modifier>, Seq<char>>
    decreases keys.len(),
{
    if keys.len() == 0 {
        Ok(Seq::empty())
    } else {
        match held_modifiers(keys.drop_last()) {
            Err(m) => Err(m),
            Ok(ms) => match modifier_verdict(keys.last()) {
                Ok(m) => Ok(ms.push(m)),
                Err(m) => Err(m),
            },
        }
    }
}

proof fn lemma_held_err_extends(keys: Seq<Seq<char>>, n: int)
    requires
        0 <= n <= keys.len(),
        held_modifiers(keys.take(n)) is Err,
    ensures
        held_modifiers(keys) == held_modifiers(keys.take(n)),
    decreases keys.len(),
{
    if n < keys.len() {
        assert(keys.drop_last().take(n) =~= keys.take(n));
        lemma_held_err_extends(keys.drop_last(), n);
    } else {
        assert(keys.take(n) =~= keys);
    }
}

pub fn hold_modifiers(keys: Option<Vec<String>>) -> (r: Result<Vec<Modifier>, BackendError>)
    ensures
        match held_modifiers(match keys { Some(k) => string_views(k@), None => Seq::empty() }) {
            Ok(ms) => r matches Ok(v) && v@ == ms,
            Err(m) => r matches Err(BackendError::Unsupported { reason }) && reason@ == m,
        },
{
    let list = match keys {
        Some(k) => k,
        None => {
            proof {
                assert(held_modifiers(Seq::<Seq<char>>::empty()) == Ok::<Seq<Modifier>, Seq<char>>(Seq::empty()));
            }
            return Ok(Vec::new());
        },
    };
    let ghost all = string_views(list@);
    let mut out: Vec<Modifier> = Vec::new();
    let mut i: usize = 0;
    while i < list.len()
        invariant
            i <= list@.len(),
            all == string_views(list@),
            keys == Some(list),
            held_modifiers(all.take(i as int)) == Ok::<Seq<Modifier>, Seq<char>>(out@),
        decreases list@.len() - i,
    {
        proof {
            assert(all.take(i + 1).drop_last() =~= all.take(i as int));
            assert(all.take(i + 1).last() == list@[i as int]@);
        }
        match Modifier::parse(list[i].as_str()) {
            Ok(m) => out.push(m),
            Err(e) => {
                proof {
                    lemma_held_err_extends(all, i + 1);
                }
                return Err(e);
            },
        }
        i += 1;
    }
    assert(all.take(i as int) =~= all);
    Ok(out)
}

/// A drag needs at least two points; it dwells 300 ms by default (at most
/// 5 s) and steps every 15 ms by default (1 to 500 ms).
pub fn drag_settings(points: usize, dwell_ms: Option<u64>, step_ms: Option<u64>) -> (r: Result<(u64, u64), BackendError>)
    ensures
        points < 2 ==> (r matches Err(BackendError::Unsupported { reason }) && reason@
            == "drag needs a path with ≥2 points"@),
        points >= 2 ==> r == Ok::<(u64, u64), BackendError>((
            match dwell_ms { Some(d) => if d > 5000 { 5000 } else { d }, None => 300 },
            clamped(match step_ms { Some(s) => s as int, None => 15 }, 1, 500) as u64,
        )),
{
    if points < 2 {
        return Err(BackendError::Unsupported { reason: String::from_str("drag needs a path with ≥2 points") });
    }
    let dwell = match dwell_ms {
        Some(d) => if d > 5000 { 5000 } else { d },
        None => 300,
    };
    let step = match step_ms {
        Some(s) => if s < 1 { 1 } else if s > 500 { 500 } else { s },
        None => 15,
    };
    Ok((dwell, step))
}

/// How far a scroll goes: no sideways scroll and three notches down by
/// default.
pub fn scroll_amounts(scroll_x: Option<i32>, scroll_y: Option<i32>) -> (r: (i32, i32))
    ensures
        r == (match scroll_x { Some(x) => x, None => 0 }, match scroll_y { Some(y) => y, None => 3 }),
{
    (match scroll_x {
        Some(x) => x,
        None => 0,
    }, match scroll_y {
        Some(y) => y,
        None => 3,
    })
}

/// How a text is entered.
#[derive(Debug, Clone, Copy, PartialEq, Eq, Structural)]
pub enum TypingRoute {
    /// Typed key by key.
    Keys,
    /// Pasted through the clipboard (text outside ASCII).
    Paste,
}

/// Empty text is refused; ASCII text is typed, any other text pasted.
pub fn typing_route(text: &str) -> (r: Result<TypingRoute, BackendError>)
    ensures
        text@.len() == 0 ==> (r matches Err(BackendError::Unsupported { reason }) && reason@ == "empty text"@),
        text@.len() > 0 && (forall|i: int| 0 <= i < text@.len() ==> (text@[i] as u32) < 128) ==> r
            == Ok::<TypingRoute, BackendError>(TypingRoute::Keys),
        text@.len() > 0 && !(forall|i: int| 0 <= i < text@.len() ==> (text@[i] as u32) < 128) ==> r
            == Ok::<TypingRoute, BackendError>(TypingRoute::Paste),
{
    let c = chars_of(text);
    if c.len() == 0 {
        return Err(BackendError::Unsupported { reason: String::from_str("empty text") });
    }
    let mut i: usize = 0;
    while i < c.len()
        invariant
            i <= c@.len(),
            c@ == text@,
            forall|j: int| 0 <= j < i ==> (c@[j] as u32) < 128,
        decreases c@.len() - i,
    {
        if (c[i] as u32) >= 128 {
            return Ok(TypingRoute::Paste);
        }
        i += 1;
    }
    Ok(TypingRoute::Keys)
}

/// A key press needs at least one key.
pub fn check_keys(keys: &[String]) -> (r: Result<(), BackendError>)
    ensures
        keys@.len() == 0 ==> (r matches Err(BackendError::Unsupported { reason }) && reason@ == "empty chord"@),
        keys@.len() > 0 ==> r is Ok,
{
    if keys.len() == 0 {
        return Err(BackendError::Unsupported { reason: String::from_str("empty chord") });
    }
    Ok(())
}

/// A pause: 2 s by default, 1 ms to 30 s.
pub fn wait_ms(ms: Option<u64>) -> (r: u64)
    ensures
        r == clamped(match ms { Some(m) => m as int, None => 2000 }, 1, 30000),
{
    let m = match ms {
        Some(m) => m,
        None => 2000,
    };
    if m < 1 { 1 } else if m > 30000 { 30000 } else { m }
}

/// The longest screenshot edge: 1280 by default, 256 to 1568.
pub fn screenshot_edge(max_long_edge: Option<u32>) -> (r: u32)
    ensures
        r == clamped(match max_long_edge { Some(m) => m as int, None => 1280 }, 256, 1568),
{
    let m = match max_long_edge {
        Some(m) => m,
        None => 1280,
    };
    if m < 256 { 256 } else if m > 1568 { 1568 } else { m }
}

/// The window action a request names (in any case): move and resize need a
/// geometry `[x, y, w, h]` (negative sizes count as zero).
pub open spec fn window_request_of(action: Seq<char>, geometry: Option<[i32; 4]>) -> Result<WindowAction, Seq<char>> {
    let a = lower(action);
    if a == "focus"@ {
        Ok(WindowAction::Focus)
    } else if a == "minimize"@ {
        Ok(WindowAction::Minimize)
    } else if a == "maximize"@ {
        Ok(WindowAction::Maximize)
    } else if a == "restore"@ {
        Ok(WindowAction::Restore)
    } else if a == "close"@ {
        Ok(WindowAction::Close)
    } else if a == "move"@ || a == "resize"@ {
        match geometry {
            Some(g) => Ok(WindowAction::MoveResize(Bbox {
                x: g@[0],
                y: g@[1],
                w: if g@[2] < 0 { 0 } else { g@[2] as u32 },
                h: if g@[3] < 0 { 0 } else { g@[3] as u32 },
            })),
            None => Err("geometry [x,y,w,h] required for "@ + a),
        }
    } else {
        Err("unknown window action: "@ + a)
    }
}

pub fn window_request(action: &str, geometry: Option<[i32; 4]>) -> (r: Result<WindowAction, BackendError>)
    ensures
        match window_request_of(action@, geometry) {
            Ok(w) => r == Ok::<WindowAction, BackendError>(w),
            Err(m) => r matches Err(BackendError::Unsupported { reason }) && reason@ == m,
        },
{
    let c = chars_of(action);
    let l = lower_vec(c.as_slice());
    let a = l.as_slice();
    if eq_lit(a, "focus") {
        Ok(WindowAction::Focus)
    } else if eq_lit(a, "minimize") {
        Ok(WindowAction::Minimize)
    } else if eq_lit(a, "maximize") {
        Ok(WindowAction::Maximize)
    } else if eq_lit(a, "restore") {
        Ok(WindowAction::Restore)
    } else if eq_lit(a, "close") {
        Ok(WindowAction::Close)
    } else if eq_lit(a, "move") || eq_lit(a, "resize") {
        match geometry {
            Some(g) => Ok(WindowAction::MoveResize(Bbox {
                x: g[0],
                y: g[1],
                w: if g[2] < 0 { 0 } else { g[2] as u32 },
                h: if g[3] < 0 { 0 } else { g[3] as u32 },
            })),
            None => {
                let mut m = String::from_str("geometry [x,y,w,h] required for ");
                let s = string_of(a);
                m.append(s.as_str());
                Err(BackendError::Unsupported { reason: m })
            },
        }
    } else {
        let mut m = String::from_str("unknown window action: ");
        let s = string_of(a);
        m.append(s.as_str());
        Err(BackendError::Unsupported { reason: m })
    }
}

/// The position of the exposed action a request names (up to ASCII case);
/// otherwise the message listing what is exposed.
pub fn requested_action(available: &[String], requested: &str) -> (r: Result<usize, String>)
    ensures
        match r {
            Ok(i) => i < available@.len() && same_ascii_case(available@[i as int]@, lower(requested@))
                && forall|j: int| 0 <= j < i ==> !same_ascii_case(#[trigger] available@[j]@, lower(requested@)),
            Err(m) => (forall|j: int| 0 <= j < available@.len() ==> !same_ascii_case(#[trigger] available@[j]@, lower(requested@)))
                && m@ == "no action "@ + debug_text(lower(requested@)) + "; available: ["@
                    + join(available@.map_values(|a: String| debug_text(a@)), ", "@) + "]"@,
        },
{
    let c = chars_of(requested);
    let l = lower_vec(c.as_slice());
    let req = string_of(l.as_slice());
    let mut i: usize = 0;
    while i < available.len()
        invariant
            i <= available@.len(),
            req@ == lower(requested@),
            forall|j: int| 0 <= j < i ==> !same_ascii_case(#[trigger] available@[j]@, lower(requested@)),
        decreases available@.len() - i,
    {
        if eq_ignore_ascii_case(available[i].as_str(), req.as_str()) {
            return Ok(i);
        }
        i += 1;
    }
    let mut names: Vec<String> = Vec::new();
    let mut k: usize = 0;
    while k < available.len()
        invariant
            k <= available@.len(),
            string_views(names@) == available@.map_values(|a: String| debug_text(a@)).take(k as int),
        decreases available@.len() - k,
    {
        let ghost before = names@;
        names.push(debug_quoted(available[k].as_str()));
        k += 1;
        assert(string_views(names@) =~= available@.map_values(|a: String| debug_text(a@)).take(k as int)) by {
            assert(string_views(names@) =~= string_views(before).push(names@.last()@));
        }
    }
    assert(available@.map_values(|a: String| debug_text(a@)).take(k as int) =~= available@.map_values(|a: String| debug_text(a@)));
    let mut m = String::from_str("no action ");
    let q = debug_quoted(req.as_str());
    m.append(q.as_str());
    m.append("; available: ");
    m.append("[");
    let inner = join_strings(names.as_slice(), ", ");
    m.append(inner.as_str());
    m.append("]");
    proof {
        reveal_strlit("; available: ");
        reveal_strlit("[");
        reveal_strlit("; available: [");
        assert("; available: "@ + "["@ =~= "; available: ["@);
    }
    Err(m)
}

/// The KWin window a `kwin:` reference names.
pub fn kwin_window_id(r: &str) -> (out: Result<String, BackendError>)
    ensures
        "kwin:"@.len() <= r@.len() && r@.take("kwin:"@.len() as int) == "kwin:"@ ==> (out matches Ok(s)
            && s@ == r@.skip("kwin:"@.len() as int)),
        !("kwin:"@.len() <= r@.len() && r@.take("kwin:"@.len() as int) == "kwin:"@) ==> (out matches Err(BackendError::StaleHandle(m))
            && m@ == "not a kwin ref: "@ + r@),
{
    let c = chars_of(r);
    if !starts_with_lit(c.as_slice(), "kwin:") {
        let mut m = String::from_str("not a kwin ref: ");
        m.append(r);
        return Err(BackendError::StaleHandle(m));
    }
    let rest = crate::text::slice_from(c.as_slice(), "kwin:".unicode_len());
    Ok(string_of(rest.as_slice()))
}

/// A reference that does not decode to an accessibility object.
pub fn bad_ref(r: &str) -> (e: BackendError)
    ensures
        e matches BackendError::StaleHandle(m) && m@ == "bad ref "@ + r@,
{
    let mut m = String::from_str("bad ref ");
    m.append(r);
    BackendError::StaleHandle(m)
}

} // verus!
