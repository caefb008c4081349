//! evdev keycodes and xdotool-style chord parsing.
//!
//! Direct typing is ASCII on a US layout; anything else goes through the
//! clipboard instead of through these tables.
use crate::error::BackendError;
use crate::text::{
    chars_of, debug_quoted, debug_text, eq_lit, lit_then, lower, lower_vec, split, split_vec, string_of,
    trim, trim_vec, views,
};
use vstd::prelude::*;
use vstd::string::*;

verus! {

pub const KEY_LEFTCTRL: u32 = 29;
pub const KEY_LEFTSHIFT: u32 = 42;
pub const KEY_LEFTALT: u32 = 56;
pub const KEY_LEFTMETA: u32 = 125;
pub const KEY_TAB: u32 = 15;
pub const KEY_ENTER: u32 = 28;
pub const KEY_ESC: u32 = 1;
pub const KEY_BACKSPACE: u32 = 14;
pub const KEY_SPACE: u32 = 57;
pub const KEY_UP: u32 = 103;
pub const KEY_LEFT: u32 = 105;
pub const KEY_RIGHT: u32 = 106;
pub const KEY_DOWN: u32 = 108;
pub const KEY_PAGEUP: u32 = 104;
pub const KEY_PAGEDOWN: u32 = 109;
pub const KEY_HOME: u32 = 102;
pub const KEY_END: u32 = 107;
pub const KEY_INSERT: u32 = 110;
pub const KEY_DELETE: u32 = 111;
pub const KEY_F1: u32 = 59;
pub const KEY_F2: u32 = 60;
pub const KEY_F3: u32 = 61;
pub const KEY_F4: u32 = 62;
pub const KEY_F5: u32 = 63;
pub const KEY_F6: u32 = 64;
pub const KEY_F7: u32 = 65;
pub const KEY_F8: u32 = 66;
pub const KEY_F9: u32 = 67;
pub const KEY_F10: u32 = 68;
pub const KEY_F11: u32 = 87;
pub const KEY_F12: u32 = 88;

pub const BTN_LEFT: u32 = 0x110;
pub const BTN_RIGHT: u32 = 0x111;
pub const BTN_MIDDLE: u32 = 0x112;

#[derive(Debug, Clone, Copy, PartialEq, Eq, Structural)]
pub enum Modifier {
    Ctrl,
    Shift,
    Alt,
    Super,
}

pub open spec fn modifier_code(m: Modifier) -> u32 {
    match m {
        Modifier::Ctrl => KEY_LEFTCTRL,
        Modifier::Shift => KEY_LEFTSHIFT,
        Modifier::Alt => KEY_LEFTALT,
        Modifier::Super => KEY_LEFTMETA,
    }
}

/// The modifier a (lower-cased) name stands for.
pub open spec fn modifier_named(n: Seq<char>) -> Option<Modifier> {
    if n == "ctrl"@ || n == "control"@ {
        Some(Modifier::Ctrl)
    } else if n == "shift"@ {
        Some(Modifier::Shift)
    } else if n == "alt"@ {
        Some(Modifier::Alt)
    } else if n == "super"@ || n == "meta"@ || n == "win"@ {
        Some(Modifier::Super)
    } else {
        None
    }
}

/// The outcome of `Modifier::parse`: the modifier, or the reason it is refused.
pub open spec fn modifier_verdict(s: Seq<char>) -> Result<Modifier, Seq<char>> {
    match modifier_named(lower(s)) {
        Some(m) => Ok(m),
        None => Err("unknown modifier: "@ + lower(s)),
    }
}

fn modifier_named_exec(n: &[char]) -> (r: Option<Modifier>)
    ensures
        r == modifier_named(n@),
{
    if eq_lit(n, "ctrl") || eq_lit(n, "control") {
        Some(Modifier::Ctrl)
    } else if eq_lit(n, "shift") {
        Some(Modifier::Shift)
    } else if eq_lit(n, "alt") {
        Some(Modifier::Alt)
    } else if eq_lit(n, "super") || eq_lit(n, "meta") || eq_lit(n, "win") {
        Some(Modifier::Super)
    } else {
        None
    }
}

fn parse_modifier_chars(s: &[char]) -> (r: Result<Modifier, BackendError>)
    ensures
        match modifier_verdict(s@) {
            Ok(m) => r == Ok::<Modifier, BackendError>(m),
            Err(msg) => r matches Err(BackendError::Unsupported { reason }) && reason@ == msg,
        },
{
    let n = lower_vec(s);
    match modifier_named_exec(n.as_slice()) {
        Some(m) => Ok(m),
        None => Err(BackendError::Unsupported { reason: lit_then("unknown modifier: ", n.as_slice()) }),
    }
}

impl Modifier {
    pub fn keycode(self) -> (k: u32)
        ensures
            k == modifier_code(self),
    {
        match self {
            Modifier::Ctrl => KEY_LEFTCTRL,
            Modifier::Shift => KEY_LEFTSHIFT,
            Modifier::Alt => KEY_LEFTALT,
            Modifier::Super => KEY_LEFTMETA,
        }
    }

    /// Case-insensitive modifier name.
    pub fn parse(s: &str) -> (r: Result<Modifier, BackendError>)
        ensures
            match modifier_verdict(s@) {
                Ok(m) => r == Ok::<Modifier, BackendError>(m),
                Err(msg) => r matches Err(BackendError::Unsupported { reason }) && reason@ == msg,
            },
    {
        let v = chars_of(s);
        parse_modifier_chars(v.as_slice())
    }
}

/// US-layout evdev keycode of a printable ASCII character (capitals share
/// the lower-case code; Shift is reported separately by `needs_shift`).
pub open spec fn char_keycode(c: char) -> Option<u32> {
    if c == '1' || c == '!' { Some(2) }
    else if c == '2' || c == '@' { Some(3) }
    else if c == '3' || c == '#' { Some(4) }
    else if c == '4' || c == '$' { Some(5) }
    else if c == '5' || c == '%' { Some(6) }
    else if c == '6' || c == '^' { Some(7) }
    else if c == '7' || c == '&' { Some(8) }
    else if c == '8' || c == '*' { Some(9) }
    else if c == '9' || c == '(' { Some(10) }
    else if c == '0' || c == ')' { Some(11) }
    else if c == '-' || c == '_' { Some(12) }
    else if c == '=' || c == '+' { Some(13) }
    else if c == 'q' || c == 'Q' { Some(16) }
    else if c == 'w' || c == 'W' { Some(17) }
    else if c == 'e' || c == 'E' { Some(18) }
    else if c == 'r' || c == 'R' { Some(19) }
    else if c == 't' || c == 'T' { Some(20) }
    else if c == 'y' || c == 'Y' { Some(21) }
    else if c == 'u' || c == 'U' { Some(22) }
    else if c == 'i' || c == 'I' { Some(23) }
    else if c == 'o' || c == 'O' { Some(24) }
    else if c == 'p' || c == 'P' { Some(25) }
    else if c == '[' || c == '{' { Some(26) }
    else if c == ']' || c == '}' { Some(27) }
    else if c == 'a' || c == 'A' { Some(30) }
    else if c == 's' || c == 'S' { Some(31) }
    else if c == 'd' || c == 'D' { Some(32) }
    else if c == 'f' || c == 'F' { Some(33) }
    else if c == 'g' || c == 'G' { Some(34) }
    else if c == 'h' || c == 'H' { Some(35) }
    else if c == 'j' || c == 'J' { Some(36) }
    else if c == 'k' || c == 'K' { Some(37) }
    else if c == 'l' || c == 'L' { Some(38) }
    else if c == ';' || c == ':' { Some(39) }
    else if c == '\'' || c == '"' { Some(40) }
    else if c == '`' || c == '~' { Some(41) }
    else if c == 'z' || c == 'Z' { Some(44) }
    else if c == 'x' || c == 'X' { Some(45) }
    else if c == 'c' || c == 'C' { Some(46) }
    else if c == 'v' || c == 'V' { Some(47) }
    else if c == 'b' || c == 'B' { Some(48) }
    else if c == 'n' || c == 'N' { Some(49) }
    else if c == 'm' || c == 'M' { Some(50) }
    else if c == ',' || c == '<' { Some(51) }
    else if c == '.' || c == '>' { Some(52) }
    else if c == '/' || c == '?' { Some(53) }
    else if c == '\\' || c == '|' { Some(43) }
    else if c == ' ' { Some(KEY_SPACE) }
    else if c == '\n' { Some(KEY_ENTER) }
    else if c == '\t' { Some(KEY_TAB) }
    else { None }
}

/// Whether a character needs Shift held on a US keymap.
pub open spec fn needs_shift(c: char) -> bool {
    ('A' <= c && c <= 'Z') || c == '!' || c == '@' || c == '#' || c == '$' || c == '%' || c == '^'
        || c == '&' || c == '*' || c == '(' || c == ')' || c == '_' || c == '+' || c == '{' || c
        == '}' || c == '|' || c == ':' || c == '"' || c == '<' || c == '>' || c == '?' || c == '~'
}

/// Printable ASCII to evdev keycode.
pub fn keycode_for_char(ch: char) -> (r: Option<u32>)
    ensures
        r == char_keycode(ch),
{
    if ch == '1' || ch == '!' { Some(2) }
    else if ch == '2' || ch == '@' { Some(3) }
    else if ch == '3' || ch == '#' { Some(4) }
    else if ch == '4' || ch == '$' { Some(5) }
    else if ch == '5' || ch == '%' { Some(6) }
    else if ch == '6' || ch == '^' { Some(7) }
    else if ch == '7' || ch == '&' { Some(8) }
    else if ch == '8' || ch == '*' { Some(9) }
    else if ch == '9' || ch == '(' { Some(10) }
    else if ch == '0' || ch == ')' { Some(11) }
    else if ch == '-' || ch == '_' { Some(12) }
    else if ch == '=' || ch == '+' { Some(13) }
    else if ch == 'q' || ch == 'Q' { Some(16) }
    else if ch == 'w' || ch == 'W' { Some(17) }
    else if ch == 'e' || ch == 'E' { Some(18) }
    else if ch == 'r' || ch == 'R' { Some(19) }
    else if ch == 't' || ch == 'T' { Some(20) }
    else if ch == 'y' || ch == 'Y' { Some(21) }
    else if ch == 'u' || ch == 'U' { Some(22) }
    else if ch == 'i' || ch == 'I' { Some(23) }
    else if ch == 'o' || ch == 'O' { Some(24) }
    else if ch == 'p' || ch == 'P' { Some(25) }
    else if ch == '[' || ch == '{' { Some(26) }
    else if ch == ']' || ch == '}' { Some(27) }
    else if ch == 'a' || ch == 'A' { Some(30) }
    else if ch == 's' || ch == 'S' { Some(31) }
    else if ch == 'd' || ch == 'D' { Some(32) }
    else if ch == 'f' || ch == 'F' { Some(33) }
    else if ch == 'g' || ch == 'G' { Some(34) }
    else if ch == 'h' || ch == 'H' { Some(35) }
    else if ch == 'j' || ch == 'J' { Some(36) }
    else if ch == 'k' || ch == 'K' { Some(37) }
    else if ch == 'l' || ch == 'L' { Some(38) }
    else if ch == ';' || ch == ':' { Some(39) }
    else if ch == '\'' || ch == '"' { Some(40) }
    else if ch == '`' || ch == '~' { Some(41) }
    else if ch == 'z' || ch == 'Z' { Some(44) }
    else if ch == 'x' || ch == 'X' { Some(45) }
    else if ch == 'c' || ch == 'C' { Some(46) }
    else if ch == 'v' || ch == 'V' { Some(47) }
    else if ch == 'b' || ch == 'B' { Some(48) }
    else if ch == 'n' || ch == 'N' { Some(49) }
    else if ch == 'm' || ch == 'M' { Some(50) }
    else if ch == ',' || ch == '<' { Some(51) }
    else if ch == '.' || ch == '>' { Some(52) }
    else if ch == '/' || ch == '?' { Some(53) }
    else if ch == '\\' || ch == '|' { Some(43) }
    else if ch == ' ' { Some(KEY_SPACE) }
    else if ch == '\n' { Some(KEY_ENTER) }
    else if ch == '\t' { Some(KEY_TAB) }
    else { None }
}

/// True when the character needs Shift held on a US keymap.
pub fn shift_required(ch: char) -> (b: bool)
    ensures
        b == needs_shift(ch),
{
    ('A' <= ch && ch <= 'Z') || ch == '!' || ch == '@' || ch == '#' || ch == '$' || ch == '%' || ch
        == '^' || ch == '&' || ch == '*' || ch == '(' || ch == ')' || ch == '_' || ch == '+' || ch
        == '{' || ch == '}' || ch == '|' || ch == ':' || ch == '"' || ch == '<' || ch == '>' || ch
        == '?' || ch == '~'
}

/// The keycode a named key (already lower-cased) stands for.
pub open spec fn named_lower(n: Seq<char>) -> Option<u32> {
    if n == "return"@ || n == "enter"@ { Some(KEY_ENTER) }
    else if n == "tab"@ { Some(KEY_TAB) }
    else if n == "escape"@ || n == "esc"@ { Some(KEY_ESC) }
    else if n == "backspace"@ { Some(KEY_BACKSPACE) }
    else if n == "space"@ { Some(KEY_SPACE) }
    else if n == "up"@ { Some(KEY_UP) }
    else if n == "down"@ { Some(KEY_DOWN) }
    else if n == "left"@ { Some(KEY_LEFT) }
    else if n == "right"@ { Some(KEY_RIGHT) }
    else if n == "page_up"@ || n == "pageup"@ { Some(KEY_PAGEUP) }
    else if n == "page_down"@ || n == "pagedown"@ { Some(KEY_PAGEDOWN) }
    else if n == "home"@ { Some(KEY_HOME) }
    else if n == "end"@ { Some(KEY_END) }
    else if n == "insert"@ { Some(KEY_INSERT) }
    else if n == "delete"@ { Some(KEY_DELETE) }
    else if n == "f1"@ { Some(KEY_F1) }
    else if n == "f2"@ { Some(KEY_F2) }
    else if n == "f3"@ { Some(KEY_F3) }
    else if n == "f4"@ { Some(KEY_F4) }
    else if n == "f5"@ { Some(KEY_F5) }
    else if n == "f6"@ { Some(KEY_F6) }
    else if n == "f7"@ { Some(KEY_F7) }
    else if n == "f8"@ { Some(KEY_F8) }
    else if n == "f9"@ { Some(KEY_F9) }
    else if n == "f10"@ { Some(KEY_F10) }
    else if n == "f11"@ { Some(KEY_F11) }
    else if n == "f12"@ { Some(KEY_F12) }
    else if n.len() == 1 { char_keycode(n[0]) }
    else { None }
}

/// The keycode a key name stands for, case-insensitively; a single character
/// names its own key.
pub open spec fn named_key(name: Seq<char>) -> Option<u32> {
    named_lower(lower(name))
}

fn named_lower_exec(n: &[char]) -> (r: Option<u32>)
    ensures
        r == named_lower(n@),
{
    if eq_lit(n, "return") || eq_lit(n, "enter") { Some(KEY_ENTER) }
    else if eq_lit(n, "tab") { Some(KEY_TAB) }
    else if eq_lit(n, "escape") || eq_lit(n, "esc") { Some(KEY_ESC) }
    else if eq_lit(n, "backspace") { Some(KEY_BACKSPACE) }
    else if eq_lit(n, "space") { Some(KEY_SPACE) }
    else if eq_lit(n, "up") { Some(KEY_UP) }
    else if eq_lit(n, "down") { Some(KEY_DOWN) }
    else if eq_lit(n, "left") { Some(KEY_LEFT) }
    else if eq_lit(n, "right") { Some(KEY_RIGHT) }
    else if eq_lit(n, "page_up") || eq_lit(n, "pageup") { Some(KEY_PAGEUP) }
    else if eq_lit(n, "page_down") || eq_lit(n, "pagedown") { Some(KEY_PAGEDOWN) }
    else if eq_lit(n, "home") { Some(KEY_HOME) }
    else if eq_lit(n, "end") { Some(KEY_END) }
    else if eq_lit(n, "insert") { Some(KEY_INSERT) }
    else if eq_lit(n, "delete") { Some(KEY_DELETE) }
    else if eq_lit(n, "f1") { Some(KEY_F1) }
    else if eq_lit(n, "f2") { Some(KEY_F2) }
    else if eq_lit(n, "f3") { Some(KEY_F3) }
    else if eq_lit(n, "f4") { Some(KEY_F4) }
    else if eq_lit(n, "f5") { Some(KEY_F5) }
    else if eq_lit(n, "f6") { Some(KEY_F6) }
    else if eq_lit(n, "f7") { Some(KEY_F7) }
    else if eq_lit(n, "f8") { Some(KEY_F8) }
    else if eq_lit(n, "f9") { Some(KEY_F9) }
    else if eq_lit(n, "f10") { Some(KEY_F10) }
    else if eq_lit(n, "f11") { Some(KEY_F11) }
    else if eq_lit(n, "f12") { Some(KEY_F12) }
    else if n.len() == 1 { keycode_for_char(n[0]) }
    else { None }
}

fn named_key_chars(name: &[char]) -> (r: Option<u32>)
    ensures
        r == named_key(name@),
{
    let n = lower_vec(name);
    named_lower_exec(n.as_slice())
}

/// Named keys and single printable characters, case-insensitively.
pub fn keycode_for_named_key(name: &str) -> (r: Option<u32>)
    ensures
        r == named_key(name@),
{
    let v = chars_of(name);
    named_key_chars(v.as_slice())
}

/// The outcome of `parse_button`.
pub open spec fn button_verdict(name: Seq<char>) -> Result<u32, Seq<char>> {
    let n = lower(name);
    if n == "left"@ {
        Ok(BTN_LEFT)
    } else if n == "right"@ {
        Ok(BTN_RIGHT)
    } else if n == "middle"@ {
        Ok(BTN_MIDDLE)
    } else {
        Err("unknown button: "@ + n)
    }
}

pub fn parse_button(name: &str) -> (r: Result<u32, BackendError>)
    ensures
        match button_verdict(name@) {
            Ok(b) => r == Ok::<u32, BackendError>(b),
            Err(msg) => r matches Err(BackendError::Unsupported { reason }) && reason@ == msg,
        },
{
    let v = chars_of(name);
    let n = lower_vec(v.as_slice());
    if eq_lit(n.as_slice(), "left") {
        Ok(BTN_LEFT)
    } else if eq_lit(n.as_slice(), "right") {
        Ok(BTN_RIGHT)
    } else if eq_lit(n.as_slice(), "middle") {
        Ok(BTN_MIDDLE)
    } else {
        Err(BackendError::Unsupported { reason: lit_then("unknown button: ", n.as_slice()) })
    }
}


#[derive(Debug, Clone)]
pub struct Chord {
    pub modifiers: Vec<Modifier>,
    pub key: u32,
}

/// The trimmed `+`-separated pieces of a (trimmed) chord.
pub open spec fn chord_parts(t: Seq<char>) -> Seq<Seq<char>> {
    split(t, '+').map_values(|p: Seq<char>| trim(p))
}

/// Modifier names parsed left to right; the first unknown or repeated one
/// decides the failure.
pub open spec fn mods_verdict(names: Seq<Seq<char>>) -> Result<Seq<Modifier>, Seq<char>>
    decreases names.len(),
{
    if names.len() == 0 {
        Ok(Seq::empty())
    } else {
        match mods_verdict(names.drop_last()) {
            Err(e) => Err(e),
            Ok(ms) => match modifier_verdict(names.last()) {
                Err(e) => Err(e),
                Ok(m) => if ms.contains(m) {
                    Err("modifier "@ + debug_text(names.last()) + " appears twice"@)
                } else {
                    Ok(ms.push(m))
                },
            },
        }
    }
}

/// xdotool-style chord: the last `+` piece is the key, the earlier ones are
/// distinct modifiers; on failure, the reason reported.
pub open spec fn chord_verdict(s: Seq<char>) -> Result<(Seq<Modifier>, u32), Seq<char>> {
    let t = trim(s);
    if t.len() == 0 {
        Err("empty chord"@)
    } else {
        let parts = chord_parts(t);
        if exists|i: int| 0 <= i < parts.len() && parts[i].len() == 0 {
            Err("empty chord segment in "@ + debug_text(t))
        } else {
            match mods_verdict(parts.drop_last()) {
                Err(e) => Err(e),
                Ok(ms) => match named_key(parts.last()) {
                    None => Err("unknown key name: "@ + debug_text(parts.last())),
                    Some(k) => Ok((ms, k)),
                },
            }
        }
    }
}

fn debug_chars(v: &[char]) -> (r: String)
    ensures
        r@ == debug_text(v@),
{
    let s = string_of(v);
    debug_quoted(s.as_str())
}

fn contains_modifier(ms: &Vec<Modifier>, m: Modifier) -> (b: bool)
    ensures
        b == ms@.contains(m),
{
    let mut i: usize = 0;
    while i < ms.len()
        invariant
            i <= ms@.len(),
            forall|j: int| 0 <= j < i ==> ms@[j] != m,
        decreases ms@.len() - i,
    {
        if ms[i] == m {
            assert(ms@[i as int] == m);
            return true;
        }
        i += 1;
    }
    false
}

/// Parse an xdotool-style chord such as `ctrl+shift+s`.
pub fn parse_chord(s: &str) -> (r: Result<Chord, BackendError>)
    ensures
        match chord_verdict(s@) {
            Ok((ms, k)) => r matches Ok(c) && c.modifiers@ == ms && c.key == k,
            Err(msg) => r matches Err(BackendError::Unsupported { reason }) && reason@ == msg,
        },
{
    let v = chars_of(s);
    let t = trim_vec(v.as_slice());
    if t.len() == 0 {
        return Err(BackendError::Unsupported { reason: String::from_str("empty chord") });
    }
    let raw = split_vec(t.as_slice(), '+');
    let ghost parts_spec = chord_parts(t@);
    let mut parts: Vec<Vec<char>> = Vec::new();
    let mut i: usize = 0;
    while i < raw.len()
        invariant
            i <= raw@.len(),
            views(raw@) == split(t@, '+'),
            parts_spec == chord_parts(t@),
            parts@.len() == i,
            forall|j: int| 0 <= j < i ==> #[trigger] parts@[j]@ == parts_spec[j],
            t@ == trim(s@),
            t@.len() > 0,
        decreases raw@.len() - i,
    {
        assert(raw@[i as int]@ == split(t@, '+')[i as int]);
        let p = trim_vec(raw[i].as_slice());
        parts.push(p);
        i += 1;
    }
    assert(views(parts@) =~= parts_spec);
    proof {
        crate::text::lemma_split_nonempty(t@, '+');
    }
    let n = parts.len();
    let mut k: usize = 0;
    while k < n
        invariant
            n == parts@.len(),
            k <= n,
            views(parts@) == parts_spec,
            forall|j: int| 0 <= j < k ==> parts_spec[j].len() > 0,
            t@ == trim(s@),
            t@.len() > 0,
            parts_spec == chord_parts(t@),
        decreases n - k,
    {
        if parts[k].len() == 0 {
            assert(parts_spec[k as int].len() == 0);
            assert(t@ == trim(s@));
            let d = debug_chars(t.as_slice());
            return Err(BackendError::Unsupported { reason: lit_then_string("empty chord segment in ", d) });
        }
        assert(parts_spec[k as int] == parts@[k as int]@);
        k += 1;
    }
    let mut modifiers: Vec<Modifier> = Vec::new();
    let mut m: usize = 0;
    assert(parts_spec.drop_last().take(0) =~= Seq::<Seq<char>>::empty());
    while m + 1 < n
        invariant
            n == parts@.len(),
            n >= 1,
            m + 1 <= n,
            views(parts@) == parts_spec,
            mods_verdict(parts_spec.drop_last().take(m as int)) == Ok::<Seq<Modifier>, Seq<char>>(modifiers@),
            forall|j: int| 0 <= j < n ==> parts_spec[j].len() > 0,
            t@ == trim(s@),
            t@.len() > 0,
            parts_spec == chord_parts(t@),
        decreases n - m,
    {
        let ghost names = parts_spec.drop_last().take(m as int + 1);
        assert(names.drop_last() =~= parts_spec.drop_last().take(m as int));
        assert(names.last() == parts@[m as int]@);
        let parsed = parse_modifier_chars(parts[m].as_slice());
        match parsed {
            Err(e) => {
                proof {
                    lemma_mods_verdict_err_extends(parts_spec.drop_last(), m as int + 1);
                }
                return Err(e);
            },
            Ok(md) => {
                if contains_modifier(&modifiers, md) {
                    let d = debug_chars(parts[m].as_slice());
                    let mut reason = String::from_str("modifier ");
                    reason.append(d.as_str());
                    reason.append(" appears twice");
                    proof {
                        lemma_mods_verdict_err_extends(parts_spec.drop_last(), m as int + 1);
                    }
                    return Err(BackendError::Unsupported { reason });
                }
                modifiers.push(md);
            },
        }
        m += 1;
    }
    assert(parts_spec.drop_last().take(m as int) =~= parts_spec.drop_last());
    assert(parts_spec.last() == parts@[n - 1]@);
    match named_key_chars(parts[n - 1].as_slice()) {
        None => {
            let d = debug_chars(parts[n - 1].as_slice());
            Err(BackendError::Unsupported { reason: lit_then_string("unknown key name: ", d) })
        },
        Some(key) => Ok(Chord { modifiers, key }),
    }
}

fn lit_then_string(lit: &str, tail: String) -> (s: String)
    ensures
        s@ == lit@ + tail@,
{
    let mut s = String::from_str(lit);
    s.append(tail.as_str());
    s
}

/// A failure on a prefix of the modifier names stays the failure of any
/// longer list.
proof fn lemma_mods_verdict_err_extends(names: Seq<Seq<char>>, i: int)
    requires
        0 <= i <= names.len(),
        mods_verdict(names.take(i)) is Err,
    ensures
        mods_verdict(names) == mods_verdict(names.take(i)),
    decreases names.len() - i,
{
    if i < names.len() {
        assert(names.take(i + 1).drop_last() =~= names.take(i));
        lemma_mods_verdict_err_extends(names, i + 1);
    } else {
        assert(names.take(i) =~= names);
    }
}

/// Modifiers read from names: one per name, in the names' order, each the
/// modifier its name stands for, none twice.
pub proof fn lemma_mods_verdict(names: Seq<Seq<char>>)
    requires
        mods_verdict(names) is Ok,
    ensures
        ({
            let ms = mods_verdict(names)->Ok_0;
            &&& ms.len() == names.len()
            &&& forall|i: int| 0 <= i < names.len() ==> #[trigger] modifier_verdict(names[i]) == Ok::<Modifier, Seq<char>>(ms[i])
            &&& forall|i: int, j: int| 0 <= i < j < ms.len() ==> ms[i] != ms[j]
        }),
    decreases names.len(),
{
    if names.len() > 0 {
        let rest = names.drop_last();
        lemma_mods_verdict(rest);
        let prev = mods_verdict(rest)->Ok_0;
        let m = modifier_verdict(names.last())->Ok_0;
        let ms = mods_verdict(names)->Ok_0;
        assert(ms == prev.push(m));
        assert forall|i: int| 0 <= i < names.len() implies #[trigger] modifier_verdict(names[i])
            == Ok::<Modifier, Seq<char>>(ms[i]) by {
            if i < names.len() - 1 {
                assert(names[i] == rest[i]);
            }
        }
        assert forall|i: int, j: int| 0 <= i < j < ms.len() implies ms[i] != ms[j] by {
            if j == ms.len() - 1 {
                assert(prev.contains(prev[i]));
            }
        }
    }
}

/// Law: a chord that parses is its trimmed `+`-separated pieces: the last
/// names the key, and each earlier one, in order, a modifier, none twice.
pub proof fn law_chord_pieces(s: Seq<char>)
    requires
        chord_verdict(s) is Ok,
    ensures
        ({
            let parts = chord_parts(trim(s));
            let (ms, k) = chord_verdict(s)->Ok_0;
            &&& parts.len() >= 1
            &&& named_key(parts[parts.len() - 1]) == Some(k)
            &&& ms.len() == parts.len() - 1
            &&& forall|i: int| 0 <= i < ms.len() ==> #[trigger] modifier_verdict(parts[i]) == Ok::<Modifier, Seq<char>>(ms[i])
            &&& forall|i: int, j: int| 0 <= i < j < ms.len() ==> ms[i] != ms[j]
        }),
{
    let t = trim(s);
    let parts = chord_parts(t);
    crate::text::lemma_split_nonempty(t, '+');
    lemma_mods_verdict(parts.drop_last());
    let ms = chord_verdict(s)->Ok_0.0;
    assert forall|i: int| 0 <= i < ms.len() implies #[trigger] modifier_verdict(parts[i]) == Ok::<Modifier, Seq<char>>(ms[i]) by {
        assert(parts.drop_last()[i] == parts[i]);
    }
}

/// ASCII lower-casing twice is lower-casing once.
pub proof fn lemma_lower_idempotent(s: Seq<char>)
    ensures
        lower(lower(s)) == lower(s),
{
    assert(lower(lower(s)) =~= lower(s));
}

/// Law: a key name means the same key in any letter case; a one-character
/// name is the key of that character, lower-cased.
pub proof fn law_named_keys_ignore_case(name: Seq<char>)
    ensures
        named_key(lower(name)) == named_key(name),
        name.len() == 1 ==> named_key(name) == char_keycode(crate::text::lower_char(name[0])),
{
    lemma_lower_idempotent(name);
    if name.len() == 1 {
        let n = lower(name);
        assert(n.len() == 1);
        reveal_strlit("return");
        reveal_strlit("enter");
        reveal_strlit("tab");
        reveal_strlit("escape");
        reveal_strlit("esc");
        reveal_strlit("backspace");
        reveal_strlit("space");
        reveal_strlit("up");
        reveal_strlit("down");
        reveal_strlit("left");
        reveal_strlit("right");
        reveal_strlit("page_up");
        reveal_strlit("pageup");
        reveal_strlit("page_down");
        reveal_strlit("pagedown");
        reveal_strlit("home");
        reveal_strlit("end");
        reveal_strlit("insert");
        reveal_strlit("delete");
        reveal_strlit("f1");
        reveal_strlit("f2");
        reveal_strlit("f3");
        reveal_strlit("f4");
        reveal_strlit("f5");
        reveal_strlit("f6");
        reveal_strlit("f7");
        reveal_strlit("f8");
        reveal_strlit("f9");
        reveal_strlit("f10");
        reveal_strlit("f11");
        reveal_strlit("f12");
        assert(n[0] == crate::text::lower_char(name[0]));
    }
}

/// Law: two characters that share a key on a US keyboard differ in Shift:
/// one is typed with Shift held, the other without (`/` and `?`, `1` and
/// `!`, `a` and `A`, and so on).
pub proof fn law_one_key_one_shifted_character(c1: char, c2: char)
    requires
        c1 != c2,
        char_keycode(c1) is Some,
        char_keycode(c1) == char_keycode(c2),
    ensures
        needs_shift(c1) != needs_shift(c2),
{
}

/// Law: the shifted characters are exactly the capitals and
/// `!@#$%^&*()_+{}|:"<>?~`.
pub proof fn law_shifted_characters(c: char)
    ensures
        needs_shift(c) <==> (('A' <= c && c <= 'Z') || seq!['!', '@', '#', '$', '%', '^', '&', '*', '(', ')', '_', '+', '{', '}', '|', ':', '"', '<', '>', '?', '~'].contains(c)),
{
    let l = seq!['!', '@', '#', '$', '%', '^', '&', '*', '(', ')', '_', '+', '{', '}', '|', ':', '"', '<', '>', '?', '~'];
    if l.contains(c) {
        let i = choose|i: int| 0 <= i < l.len() && l[i] == c;
        assert(l[i] == c);
    }
    if needs_shift(c) && !('A' <= c && c <= 'Z') {
        if c == '!' { assert(l[0] == c); }
        else if c == '@' { assert(l[1] == c); }
        else if c == '#' { assert(l[2] == c); }
        else if c == '$' { assert(l[3] == c); }
        else if c == '%' { assert(l[4] == c); }
        else if c == '^' { assert(l[5] == c); }
        else if c == '&' { assert(l[6] == c); }
        else if c == '*' { assert(l[7] == c); }
        else if c == '(' { assert(l[8] == c); }
        else if c == ')' { assert(l[9] == c); }
        else if c == '_' { assert(l[10] == c); }
        else if c == '+' { assert(l[11] == c); }
        else if c == '{' { assert(l[12] == c); }
        else if c == '}' { assert(l[13] == c); }
        else if c == '|' { assert(l[14] == c); }
        else if c == ':' { assert(l[15] == c); }
        else if c == '"' { assert(l[16] == c); }
        else if c == '<' { assert(l[17] == c); }
        else if c == '>' { assert(l[18] == c); }
        else if c == '?' { assert(l[19] == c); }
        else { assert(l[20] == c); }
    }
}

} // verus!
