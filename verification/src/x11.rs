//! X11 keyboard-mapping lookups and the XTEST event plans built on them.
//!
//! The server's keyboard mapping is read by the caller; everything decided
//! from it (which keycode, whether Shift is needed, which keys go down and in
//! what order) is computed here.
use crate::error::BackendError;
use crate::keymap::{
    self, chord_verdict, parse_chord, Chord, Modifier, KEY_BACKSPACE, KEY_DELETE, KEY_DOWN,
    KEY_END, KEY_ENTER, KEY_ESC, KEY_F1, KEY_F10, KEY_F11, KEY_F12, KEY_F2, KEY_F3, KEY_F4, KEY_F5,
    KEY_F6, KEY_F7, KEY_F8, KEY_F9, KEY_HOME, KEY_INSERT, KEY_LEFT, KEY_PAGEDOWN, KEY_PAGEUP,
    KEY_RIGHT, KEY_SPACE, KEY_TAB, KEY_UP,
};
use crate::input::{chord_plan, debug_char, debug_char_text, wrap, KeyAction};
use crate::text::{chars_of, split, split_vec, trim, trim_vec, views};
use crate::types::{Bbox, Button, Ref, ToolError};
use crate::drivers::WindowInfo;
use vstd::string::*;
use vstd::prelude::*;

verus! {

pub const XK_SHIFT_L: u32 = 0xffe1;
pub const XK_CONTROL_L: u32 = 0xffe3;
pub const XK_ALT_L: u32 = 0xffe9;
pub const XK_SUPER_L: u32 = 0xffeb;

/// The keysyms of the server's keycodes, `per_keycode` levels per keycode,
/// starting at `min_keycode`.
pub struct Keyboard {
    pub min_keycode: u8,
    pub per_keycode: usize,
    pub keysyms: Vec<u32>,
}

/// The first position of `x` in `s`.
pub open spec fn first_position(s: Seq<u32>, x: u32) -> Option<int>
    decreases s.len(),
{
    if s.len() == 0 {
        None
    } else {
        match first_position(s.drop_last(), x) {
            Some(p) => Some(p),
            None => if s.last() == x {
                Some(s.len() - 1)
            } else {
                None
            },
        }
    }
}

pub open spec fn levels(per_keycode: usize) -> int {
    if per_keycode == 0 {
        1
    } else {
        per_keycode as int
    }
}

/// The keycode of the first key position carrying `keysym`, and whether that
/// position is a shifted level.
pub open spec fn lookup_spec(kb: Keyboard, keysym: u32) -> Option<(u8, bool)> {
    match first_position(kb.keysyms@, keysym) {
        None => None,
        Some(p) => Some(
            (
                ((kb.min_keycode + p / levels(kb.per_keycode)) % 256) as u8,
                (p % levels(kb.per_keycode)) % 2 == 1,
            ),
        ),
    }
}

impl Keyboard {
    /// First key position carrying `keysym`, with whether that level needs
    /// Shift held.
    pub fn lookup(&self, keysym: u32) -> (r: Option<(u8, bool)>)
        ensures
            r == lookup_spec(*self, keysym),
    {
        let w: usize = if self.per_keycode == 0 { 1 } else { self.per_keycode };
        let mut p: usize = 0;
        while p < self.keysyms.len()
            invariant
                p <= self.keysyms@.len(),
                first_position(self.keysyms@.take(p as int), keysym) is None,
                w as int == levels(self.per_keycode),
                w >= 1,
            decreases self.keysyms@.len() - p,
        {
            assert(self.keysyms@.take(p + 1).drop_last() =~= self.keysyms@.take(p as int));
            if self.keysyms[p] == keysym {
                let index = p / w;
                let code = ((self.min_keycode as usize) + index % 256) % 256;
                proof {
                    vstd::arithmetic::div_mod::lemma_add_mod_noop_right(
                        self.min_keycode as int,
                        index as int,
                        256,
                    );
                    lemma_first_position_prefix(self.keysyms@, keysym, p as int + 1);
                    assert(first_position(self.keysyms@.take(p + 1), keysym) == Some(p as int));
                }
                return Some((code as u8, (p % w) % 2 == 1));
            }
            p += 1;
        }
        assert(self.keysyms@.take(p as int) =~= self.keysyms@);
        None
    }
}

/// A position found in a prefix is the position in the whole sequence.
pub proof fn lemma_first_position_prefix(s: Seq<u32>, x: u32, n: int)
    requires
        0 <= n <= s.len(),
        first_position(s.take(n), x) is Some,
    ensures
        first_position(s, x) == first_position(s.take(n), x),
    decreases s.len() - n,
{
    if n < s.len() {
        assert(s.take(n + 1).drop_last() =~= s.take(n));
        lemma_first_position_prefix(s, x, n + 1);
    } else {
        assert(s.take(n) =~= s);
    }
}

pub open spec fn modifier_keysym_spec(m: Modifier) -> u32 {
    match m {
        Modifier::Ctrl => XK_CONTROL_L,
        Modifier::Shift => XK_SHIFT_L,
        Modifier::Alt => XK_ALT_L,
        Modifier::Super => XK_SUPER_L,
    }
}

pub fn modifier_keysym(m: Modifier) -> (k: u32)
    ensures
        k == modifier_keysym_spec(m),
{
    match m {
        Modifier::Ctrl => XK_CONTROL_L,
        Modifier::Shift => XK_SHIFT_L,
        Modifier::Alt => XK_ALT_L,
        Modifier::Super => XK_SUPER_L,
    }
}

/// Named evdev keys as X11 keysyms. F-keys are not contiguous in evdev
/// (F11/F12 sit at 87/88), so each maps on its own.
pub open spec fn named_keysym_spec(code: u32) -> Option<u32> {
    if code == KEY_ESC { Some(0xff1b) }
    else if code == KEY_BACKSPACE { Some(0xff08) }
    else if code == KEY_TAB { Some(0xff09) }
    else if code == KEY_ENTER { Some(0xff0d) }
    else if code == KEY_SPACE { Some(0x0020) }
    else if code == KEY_HOME { Some(0xff50) }
    else if code == KEY_UP { Some(0xff52) }
    else if code == KEY_PAGEUP { Some(0xff55) }
    else if code == KEY_LEFT { Some(0xff51) }
    else if code == KEY_RIGHT { Some(0xff53) }
    else if code == KEY_END { Some(0xff57) }
    else if code == KEY_DOWN { Some(0xff54) }
    else if code == KEY_PAGEDOWN { Some(0xff56) }
    else if code == KEY_INSERT { Some(0xff63) }
    else if code == KEY_DELETE { Some(0xffff) }
    else if code == KEY_F1 { Some(0xffbe) }
    else if code == KEY_F2 { Some(0xffbf) }
    else if code == KEY_F3 { Some(0xffc0) }
    else if code == KEY_F4 { Some(0xffc1) }
    else if code == KEY_F5 { Some(0xffc2) }
    else if code == KEY_F6 { Some(0xffc3) }
    else if code == KEY_F7 { Some(0xffc4) }
    else if code == KEY_F8 { Some(0xffc5) }
    else if code == KEY_F9 { Some(0xffc6) }
    else if code == KEY_F10 { Some(0xffc7) }
    else if code == KEY_F11 { Some(0xffc8) }
    else if code == KEY_F12 { Some(0xffc9) }
    else { None }
}

pub fn named_keysym(code: u32) -> (r: Option<u32>)
    ensures
        r == named_keysym_spec(code),
{
    if code == KEY_ESC { Some(0xff1b) }
    else if code == KEY_BACKSPACE { Some(0xff08) }
    else if code == KEY_TAB { Some(0xff09) }
    else if code == KEY_ENTER { Some(0xff0d) }
    else if code == KEY_SPACE { Some(0x0020) }
    else if code == KEY_HOME { Some(0xff50) }
    else if code == KEY_UP { Some(0xff52) }
    else if code == KEY_PAGEUP { Some(0xff55) }
    else if code == KEY_LEFT { Some(0xff51) }
    else if code == KEY_RIGHT { Some(0xff53) }
    else if code == KEY_END { Some(0xff57) }
    else if code == KEY_DOWN { Some(0xff54) }
    else if code == KEY_PAGEDOWN { Some(0xff56) }
    else if code == KEY_INSERT { Some(0xff63) }
    else if code == KEY_DELETE { Some(0xffff) }
    else if code == KEY_F1 { Some(0xffbe) }
    else if code == KEY_F2 { Some(0xffbf) }
    else if code == KEY_F3 { Some(0xffc0) }
    else if code == KEY_F4 { Some(0xffc1) }
    else if code == KEY_F5 { Some(0xffc2) }
    else if code == KEY_F6 { Some(0xffc3) }
    else if code == KEY_F7 { Some(0xffc4) }
    else if code == KEY_F8 { Some(0xffc5) }
    else if code == KEY_F9 { Some(0xffc6) }
    else if code == KEY_F10 { Some(0xffc7) }
    else if code == KEY_F11 { Some(0xffc8) }
    else if code == KEY_F12 { Some(0xffc9) }
    else { None }
}

/// The keysym a chord presses: a single ASCII character names itself, a
/// longer token goes through the chord's evdev key.
pub open spec fn chord_keysym_spec(text: Seq<char>, key: u32) -> Option<u32> {
    let token = trim(split(text, '+').last());
    if token.len() == 1 {
        if (token[0] as u32) < 128 {
            Some(token[0] as u32)
        } else {
            None
        }
    } else {
        named_keysym_spec(key)
    }
}

pub fn chord_keysym(text: &str, chord: &Chord) -> (r: Option<u32>)
    ensures
        r == chord_keysym_spec(text@, chord.key),
{
    let v = chars_of(text);
    let pieces = split_vec(v.as_slice(), '+');
    proof {
        crate::text::lemma_split_nonempty(v@, '+');
    }
    let last = &pieces[pieces.len() - 1];
    assert(last@ == split(text@, '+').last());
    let token = trim_vec(last.as_slice());
    if token.len() == 1 {
        let ch = token[0];
        if (ch as u32) < 128 {
            Some(ch as u32)
        } else {
            None
        }
    } else {
        named_keysym(chord.key)
    }
}

pub open spec fn button_number(b: Button) -> u8 {
    match b {
        Button::Left => 1,
        Button::Middle => 2,
        Button::Right => 3,
    }
}

/// The X11 pointer button number.
pub fn button_code(b: Button) -> (n: u8)
    ensures
        n == button_number(b),
{
    match b {
        Button::Left => 1,
        Button::Middle => 2,
        Button::Right => 3,
    }
}


/// The message for a key the server's keymap cannot produce.
pub open spec fn no_keycode(detail: Seq<char>) -> Seq<char> {
    "no X11 keycode for "@ + detail
}

/// A refusal the caller has to fix (code `unsupported`, not retryable).
pub open spec fn is_refusal(e: ToolError, message: Seq<char>) -> bool {
    e.code@ == "unsupported"@ && e.message@ == message && !e.retryable
}

/// A key the server's keymap cannot produce.
pub fn unknown_key(detail: &str) -> (e: ToolError)
    ensures
        is_refusal(e, no_keycode(detail@)),
{
    let mut reason = String::from_str("no X11 keycode for ");
    reason.append(detail);
    BackendError::Unsupported { reason }.tool(false)
}

/// The keycode Shift is on.
pub fn shift_keycode(kb: &Keyboard) -> (r: Result<u8, ToolError>)
    ensures
        match lookup_spec(*kb, XK_SHIFT_L) {
            Some((code, _)) => r == Ok::<u8, ToolError>(code),
            None => r matches Err(e) && is_refusal(e, no_keycode("Shift"@)),
        },
{
    match kb.lookup(XK_SHIFT_L) {
        Some((code, _)) => Ok(code),
        None => Err(unknown_key("Shift")),
    }
}

/// Typing one character through the server's keymap: its keycode, with the
/// Shift keycode held when the character sits on a shifted level.
pub open spec fn x11_char_plan(kb: Keyboard, shift: u8, c: char) -> Option<Seq<KeyAction>> {
    if (c as u32) >= 128 {
        None
    } else {
        match lookup_spec(kb, c as u32) {
            None => None,
            Some((code, shifted)) => Some(
                if shifted {
                    wrap(shift as u32, wrap(code as u32, Seq::empty()))
                } else {
                    wrap(code as u32, Seq::empty())
                },
            ),
        }
    }
}

/// The XTEST key events that type one character.
pub fn x11_char_events(kb: &Keyboard, shift: u8, ch: char) -> (r: Result<Vec<KeyAction>, ToolError>)
    ensures
        match x11_char_plan(*kb, shift, ch) {
            Some(plan) => r matches Ok(v) && v@ == plan,
            None => r matches Err(e) && e.code@ == "unsupported"@ && (if (ch as u32) >= 128 {
                e.message@ == "no direct X11 typing for "@ + debug_char_text(ch) && e.retryable
            } else {
                e.message@ == no_keycode(debug_char_text(ch)) && !e.retryable
            }),
        },
{
    if (ch as u32) >= 128 {
        let mut reason = String::from_str("no direct X11 typing for ");
        let d = debug_char(ch);
        reason.append(d.as_str());
        return Err(BackendError::Unsupported { reason }.tool(true));
    }
    match kb.lookup(ch as u32) {
        None => {
            let d = debug_char(ch);
            Err(unknown_key(d.as_str()))
        },
        Some((code, shifted)) => {
            let mut v: Vec<KeyAction> = Vec::new();
            if shifted {
                v.push(KeyAction::Press(shift as u32));
            }
            v.push(KeyAction::Press(code as u32));
            v.push(KeyAction::Release(code as u32));
            if shifted {
                v.push(KeyAction::Release(shift as u32));
            }
            proof {
                if shifted {
                    assert(v@ =~= wrap(shift as u32, wrap(code as u32, Seq::empty())));
                } else {
                    assert(v@ =~= wrap(code as u32, Seq::empty()));
                }
            }
            Ok(v)
        },
    }
}

/// The `Debug` name of a modifier.
pub open spec fn modifier_name(m: Modifier) -> Seq<char> {
    match m {
        Modifier::Ctrl => "Ctrl"@,
        Modifier::Shift => "Shift"@,
        Modifier::Alt => "Alt"@,
        Modifier::Super => "Super"@,
    }
}

/// Keycodes of held modifiers, in order; the first one the keymap lacks
/// decides the failure.
pub open spec fn x11_modifier_codes(kb: Keyboard, ms: Seq<Modifier>) -> Result<Seq<u32>, Seq<char>>
    decreases ms.len(),
{
    if ms.len() == 0 {
        Ok(Seq::empty())
    } else {
        match x11_modifier_codes(kb, ms.drop_last()) {
            Err(e) => Err(e),
            Ok(cs) => match lookup_spec(kb, modifier_keysym_spec(ms.last())) {
                None => Err(no_keycode(modifier_name(ms.last()))),
                Some((c, _)) => Ok(cs.push(c as u32)),
            },
        }
    }
}

fn modifier_name_str(m: Modifier) -> (s: &'static str)
    ensures
        s@ == modifier_name(m),
{
    match m {
        Modifier::Ctrl => "Ctrl",
        Modifier::Shift => "Shift",
        Modifier::Alt => "Alt",
        Modifier::Super => "Super",
    }
}

/// The keycodes of modifiers to hold around a click or scroll.
pub fn modifier_keycodes(kb: &Keyboard, hold: &[Modifier]) -> (r: Result<Vec<u32>, ToolError>)
    ensures
        match x11_modifier_codes(*kb, hold@) {
            Ok(cs) => r matches Ok(v) && v@ == cs,
            Err(msg) => r matches Err(e) && is_refusal(e, msg),
        },
{
    let mut codes: Vec<u32> = Vec::new();
    let mut i: usize = 0;
    assert(hold@.take(0) =~= Seq::<Modifier>::empty());
    while i < hold.len()
        invariant
            i <= hold@.len(),
            x11_modifier_codes(*kb, hold@.take(i as int)) == Ok::<Seq<u32>, Seq<char>>(codes@),
        decreases hold@.len() - i,
    {
        assert(hold@.take(i + 1).drop_last() =~= hold@.take(i as int));
        match kb.lookup(modifier_keysym(hold[i])) {
            None => {
                proof {
                    lemma_modifier_codes_err_extends(*kb, hold@, i as int + 1);
                }
                return Err(unknown_key(modifier_name_str(hold[i])));
            },
            Some((c, _)) => {
                codes.push(c as u32);
            },
        }
        i += 1;
    }
    assert(hold@.take(i as int) =~= hold@);
    Ok(codes)
}

proof fn lemma_modifier_codes_err_extends(kb: Keyboard, ms: Seq<Modifier>, i: int)
    requires
        0 <= i <= ms.len(),
        x11_modifier_codes(kb, ms.take(i)) is Err,
    ensures
        x11_modifier_codes(kb, ms) == x11_modifier_codes(kb, ms.take(i)),
    decreases ms.len() - i,
{
    if i < ms.len() {
        assert(ms.take(i + 1).drop_last() =~= ms.take(i));
        lemma_modifier_codes_err_extends(kb, ms, i + 1);
    } else {
        assert(ms.take(i) =~= ms);
    }
}

/// A chord through the server's keymap: the modifiers' keycodes (plus Shift
/// when the key sits on a shifted level and the chord does not already hold
/// Shift) and the key's keycode; on failure, the message reported.
pub open spec fn x11_chord_outcome(kb: Keyboard, text: Seq<char>) -> Result<(Seq<u32>, u32), Seq<char>> {
    match chord_verdict(text) {
        Err(m) => Err(m),
        Ok((ms, key)) => match chord_keysym_spec(text, key) {
            None => Err(no_keycode(text)),
            Some(ks) => match lookup_spec(kb, ks) {
                None => Err(no_keycode(text)),
                Some((code, shifted)) => match x11_modifier_codes(kb, ms) {
                    Err(e) => Err(e),
                    Ok(cs) => if shifted && !ms.contains(Modifier::Shift) {
                        match lookup_spec(kb, XK_SHIFT_L) {
                            None => Err(no_keycode("Shift"@)),
                            Some((sc, _)) => Ok((cs.push(sc as u32), code as u32)),
                        }
                    } else {
                        Ok((cs, code as u32))
                    },
                },
            },
        },
    }
}

fn contains_shift(ms: &Vec<Modifier>) -> (b: bool)
    ensures
        b == ms@.contains(Modifier::Shift),
{
    let mut i: usize = 0;
    while i < ms.len()
        invariant
            i <= ms@.len(),
            forall|j: int| 0 <= j < i ==> ms@[j] != Modifier::Shift,
        decreases ms@.len() - i,
    {
        if ms[i] == Modifier::Shift {
            assert(ms@[i as int] == Modifier::Shift);
            return true;
        }
        i += 1;
    }
    false
}

/// The XTEST key events of one chord such as `ctrl+s`.
pub fn x11_chord_events(kb: &Keyboard, text: &str) -> (r: Result<Vec<KeyAction>, ToolError>)
    ensures
        match x11_chord_outcome(*kb, text@) {
            Ok((mods, key)) => r matches Ok(v) && v@ == chord_plan(mods, key),
            Err(msg) => r matches Err(e) && is_refusal(e, msg),
        },
{
    let chord = match parse_chord(text) {
        Ok(c) => c,
        Err(e) => {
            return Err(e.tool(false));
        },
    };
    let keysym = match chord_keysym(text, &chord) {
        Some(k) => k,
        None => {
            return Err(unknown_key(text));
        },
    };
    let (keycode, shifted) = match kb.lookup(keysym) {
        Some(found) => found,
        None => {
            return Err(unknown_key(text));
        },
    };
    let mut mods = match modifier_keycodes(kb, chord.modifiers.as_slice()) {
        Ok(m) => m,
        Err(e) => {
            return Err(e);
        },
    };
    if shifted && !contains_shift(&chord.modifiers) {
        match kb.lookup(XK_SHIFT_L) {
            Some((sc, _)) => {
                mods.push(sc as u32);
            },
            None => {
                return Err(unknown_key("Shift"));
            },
        }
    }
    Ok(plain_chord_events(mods.as_slice(), keycode as u32))
}

/// Modifiers down in order, the key tapped, modifiers up in reverse.
pub fn plain_chord_events(mods: &[u32], key: u32) -> (r: Vec<KeyAction>)
    ensures
        r@ == chord_plan(mods@, key),
{
    let mut v: Vec<KeyAction> = Vec::new();
    let mut i: usize = 0;
    while i < mods.len()
        invariant
            i <= mods@.len(),
            v@ == crate::input::presses(mods@.take(i as int)),
        decreases mods@.len() - i,
    {
        v.push(KeyAction::Press(mods[i]));
        i += 1;
        assert(v@ =~= crate::input::presses(mods@.take(i as int)));
    }
    assert(mods@.take(i as int) =~= mods@);
    v.push(KeyAction::Press(key));
    v.push(KeyAction::Release(key));
    let ghost prefix = v@;
    let mut j: usize = mods.len();
    while j > 0
        invariant
            j <= mods@.len(),
            v@ == prefix + crate::input::releases_reversed(mods@).take(mods@.len() - j),
        decreases j,
    {
        proof {
            crate::input::lemma_releases_reversed_index(mods@, mods@.len() - j);
        }
        v.push(KeyAction::Release(mods[j - 1]));
        j -= 1;
        assert(v@ =~= prefix + crate::input::releases_reversed(mods@).take(mods@.len() - j));
    }
    proof {
        crate::input::lemma_releases_reversed_len(mods@);
        assert(crate::input::releases_reversed(mods@).take(mods@.len() as int)
            =~= crate::input::releases_reversed(mods@));
        assert(prefix =~= crate::input::presses(mods@) + wrap(key, Seq::empty()));
    }
    v
}

/// Wheel notches for a scroll distance: one per started 120 units, at least one.
pub open spec fn notches(delta: int) -> int {
    let a = if delta < 0 { -delta } else { delta };
    let n = if a % 120 == 0 { a / 120 } else { a / 120 + 1 };
    if n < 1 { 1 } else { n }
}

/// Scroll buttons 6/7 (left/right) for `dx` then 4/5 (up/down) for `dy`, each
/// with its click count; a zero axis clicks nothing.
pub open spec fn scroll_plan(dx: i32, dy: i32) -> Seq<(u8, u32)> {
    let h: Seq<(u8, u32)> = if dx == 0 {
        Seq::empty()
    } else {
        seq![(if dx < 0 { 6u8 } else { 7u8 }, notches(dx as int) as u32)]
    };
    let v: Seq<(u8, u32)> = if dy == 0 {
        Seq::empty()
    } else {
        seq![(if dy < 0 { 4u8 } else { 5u8 }, notches(dy as int) as u32)]
    };
    h + v
}

fn axis_clicks(delta: i32, negative: u8, positive: u8) -> (r: (u8, u32))
    requires
        delta != 0,
    ensures
        r == (if delta < 0 { negative } else { positive }, notches(delta as int) as u32),
{
    let a: u32 = if delta < 0 { (0i64 - delta as i64) as u32 } else { delta as u32 };
    let mut n: u32 = if a % 120 == 0 { a / 120 } else { a / 120 + 1 };
    if n < 1 {
        n = 1;
    }
    (if delta < 0 { negative } else { positive }, n)
}

/// XTEST wheel clicks for a scroll of `dx`, `dy` units.
pub fn scroll_clicks(dx: i32, dy: i32) -> (r: Vec<(u8, u32)>)
    ensures
        r@ == scroll_plan(dx, dy),
{
    let mut v: Vec<(u8, u32)> = Vec::new();
    if dx != 0 {
        v.push(axis_clicks(dx, 6, 7));
    }
    if dy != 0 {
        v.push(axis_clicks(dy, 4, 5));
    }
    assert(v@ =~= scroll_plan(dx, dy));
    v
}


/// Law: typing a character through the server's keymap leaves no key held.
pub proof fn law_x11_character_releases_every_key(kb: Keyboard, shift: u8, c: char)
    requires
        x11_char_plan(kb, shift, c) is Some,
    ensures
        crate::input::balanced(x11_char_plan(kb, shift, c)->0),
{
    let (code8, shifted) = lookup_spec(kb, c as u32)->0;
    let code = code8 as u32;
    let e = Seq::<KeyAction>::empty();
    if shifted {
        let s = Seq::<u32>::empty().push(shift as u32);
        crate::input::lemma_held_wrap(s, code, e);
        crate::input::lemma_held_wrap(Seq::empty(), shift as u32, wrap(code, e));
    } else {
        crate::input::lemma_held_wrap(Seq::empty(), code, e);
    }
}


/// The value of a hexadecimal digit (either case).
pub open spec fn hex_digit(c: char) -> Option<int> {
    if '0' <= c && c <= '9' {
        Some(c as int - '0' as int)
    } else if 'a' <= c && c <= 'f' {
        Some(c as int - 'a' as int + 10)
    } else if 'A' <= c && c <= 'F' {
        Some(c as int - 'A' as int + 10)
    } else {
        None
    }
}

pub open spec fn all_hex(s: Seq<char>) -> bool {
    forall|i: int| 0 <= i < s.len() ==> (#[trigger] hex_digit(s[i])) is Some
}

/// The number a string of hexadecimal digits spells.
pub open spec fn hex_number(s: Seq<char>) -> int
    decreases s.len(),
{
    if s.len() == 0 {
        0
    } else {
        hex_number(s.drop_last()) * 16 + hex_digit(s.last())->0
    }
}

/// `u32::from_str_radix(s, 16)`: an optional `+`, then at least one
/// hexadecimal digit, and a value that fits in `u32`.
pub open spec fn parse_hex_u32(s: Seq<char>) -> Option<u32> {
    let d = if s.len() > 0 && s[0] == '+' { s.drop_first() } else { s };
    if d.len() > 0 && all_hex(d) && hex_number(d) <= u32::MAX {
        Some(hex_number(d) as u32)
    } else {
        None
    }
}

/// `s` with every leading `0x` removed (`trim_start_matches("0x")`).
pub open spec fn strip_hex_prefixes(s: Seq<char>) -> Seq<char>
    decreases s.len(),
{
    if s.len() >= 2 && s[0] == '0' && s[1] == 'x' {
        strip_hex_prefixes(s.skip(2))
    } else {
        s
    }
}

/// The X11 window a `x11:0x...` reference names.
pub open spec fn window_id(r: Seq<char>) -> Option<u32> {
    if "x11:"@.len() <= r.len() && r.take("x11:"@.len() as int) == "x11:"@ {
        parse_hex_u32(strip_hex_prefixes(r.skip("x11:"@.len() as int)))
    } else {
        None
    }
}

fn hex_digit_exec(c: char) -> (r: Option<u32>)
    ensures
        match hex_digit(c) {
            Some(v) => r matches Some(x) && x as int == v,
            None => r is None,
        },
{
    if '0' <= c && c <= '9' {
        Some((c as u32) - ('0' as u32))
    } else if 'a' <= c && c <= 'f' {
        Some((c as u32) - ('a' as u32) + 10)
    } else if 'A' <= c && c <= 'F' {
        Some((c as u32) - ('A' as u32) + 10)
    } else {
        None
    }
}

fn parse_hex_u32_exec(s: &[char]) -> (r: Option<u32>)
    ensures
        r == parse_hex_u32(s@),
{
    let start: usize = if s.len() > 0 && s[0] == '+' { 1 } else { 0 };
    let d = crate::text::slice_from(s, start);
    assert(d@ =~= (if s@.len() > 0 && s@[0] == '+' { s@.drop_first() } else { s@ }));
    if d.len() == 0 {
        return None;
    }
    let mut acc: u64 = 0;
    let mut over = false;
    let mut i: usize = 0;
    while i < d.len()
        invariant
            i <= d@.len(),
            d@.len() > 0,
            d@ == (if s@.len() > 0 && s@[0] == '+' { s@.drop_first() } else { s@ }),
            all_hex(d@.take(i as int)),
            over ==> hex_number(d@.take(i as int)) > u32::MAX,
            !over ==> acc as int == hex_number(d@.take(i as int)) && acc <= u32::MAX,
        decreases d@.len() - i,
    {
        assert(d@.take(i + 1).drop_last() =~= d@.take(i as int));
        match hex_digit_exec(d[i]) {
            None => {
                assert(hex_digit(d@[i as int]) is None);
                assert(!all_hex(d@));
                return None;
            },
            Some(v) => {
                assert(hex_number(d@.take(i as int)) >= 0) by {
                    lemma_hex_number_nonneg(d@.take(i as int));
                }
                if !over {
                    acc = acc * 16 + v as u64;
                    if acc > 0xffff_ffff {
                        over = true;
                    }
                }
            },
        }
        i += 1;
        assert forall|j: int| 0 <= j < i implies (#[trigger] hex_digit(d@.take(i as int)[j])) is Some by {
            if j < i - 1 {
                assert(d@.take(i as int)[j] == d@.take(i - 1)[j]);
            }
        }
    }
    assert(d@.take(i as int) =~= d@);
    if over {
        None
    } else {
        Some(acc as u32)
    }
}

proof fn lemma_hex_number_nonneg(s: Seq<char>)
    requires
        all_hex(s),
    ensures
        hex_number(s) >= 0,
    decreases s.len(),
{
    if s.len() > 0 {
        assert(hex_digit(s[s.len() - 1]) is Some);
        assert(all_hex(s.drop_last())) by {
            assert forall|j: int| 0 <= j < s.drop_last().len() implies (#[trigger] hex_digit(s.drop_last()[j])) is Some by {
                assert(s.drop_last()[j] == s[j]);
            }
        }
        lemma_hex_number_nonneg(s.drop_last());
    }
}

fn strip_hex_prefixes_exec(s: &[char]) -> (r: Vec<char>)
    ensures
        r@ == strip_hex_prefixes(s@),
{
    let mut i: usize = 0;
    assert(s@.skip(0) =~= s@);
    while s.len() - i >= 2 && s[i] == '0' && s[i + 1] == 'x'
        invariant
            i <= s@.len(),
            strip_hex_prefixes(s@) == strip_hex_prefixes(s@.skip(i as int)),
        decreases s@.len() - i,
    {
        assert(s@.skip(i as int).skip(2) =~= s@.skip(i + 2));
        i += 2;
    }
    crate::text::slice_from(s, i)
}

/// The X11 window a `x11:0x...` reference names; anything else is a stale
/// handle.
pub fn window_of(window_ref: &Ref) -> (r: Result<u32, ToolError>)
    ensures
        match window_id(window_ref.0@) {
            Some(w) => r == Ok::<u32, ToolError>(w),
            None => r matches Err(e) && e.code@ == "stale_window"@ && e.message@
                == "Invalid X11 window identity"@ && !e.retryable,
        },
{
    let v = chars_of(window_ref.0.as_str());
    if !crate::text::starts_with_lit(v.as_slice(), "x11:") {
        return Err(crate::error::fail("stale_window", "Invalid X11 window identity"));
    }
    let rest = crate::text::slice_from(v.as_slice(), "x11:".unicode_len());
    let digits = strip_hex_prefixes_exec(rest.as_slice());
    match parse_hex_u32_exec(digits.as_slice()) {
        Some(w) => Ok(w),
        None => Err(crate::error::fail("stale_window", "Invalid X11 window identity")),
    }
}

/// The hexadecimal digit for `d` (0..=15), lower case.
pub open spec fn hex_char(d: u32) -> char {
    if d < 10 {
        ((d + 48) as u32) as char
    } else {
        ((d + 87) as u32) as char
    }
}

/// `format!("{:08x}", w)`: the eight hexadecimal digits of `w`.
pub open spec fn hex8(w: u32) -> Seq<char> {
    seq![
        hex_char((w >> 28u32) & 15u32),
        hex_char((w >> 24u32) & 15u32),
        hex_char((w >> 20u32) & 15u32),
        hex_char((w >> 16u32) & 15u32),
        hex_char((w >> 12u32) & 15u32),
        hex_char((w >> 8u32) & 15u32),
        hex_char((w >> 4u32) & 15u32),
        hex_char(w & 15u32),
    ]
}

/// The reference of X11 window `w`.
pub open spec fn x11_ref_text(w: u32) -> Seq<char> {
    "x11:0x"@ + hex8(w)
}

fn hex_char_exec(d: u32) -> (c: char)
    requires
        d < 16,
    ensures
        c == hex_char(d),
{
    if d < 10 {
        ((d + 48) as u8) as char
    } else {
        ((d + 87) as u8) as char
    }
}

/// The reference that names X11 window `w` (`x11:0x` and eight hex digits).
pub fn window_ref(w: u32) -> (r: Ref)
    ensures
        r.0@ == x11_ref_text(w),
        window_id(r.0@) == Some(w),
{
    let mut v: Vec<char> = Vec::new();
    v.push('x');
    v.push('1');
    v.push('1');
    v.push(':');
    v.push('0');
    v.push('x');
    proof {
        reveal_strlit("x11:0x");
    }
    let mut shift: u32 = 28;
    let mut k: u32 = 0;
    while k < 8
        invariant
            k <= 8,
            k < 8 ==> shift == 28 - 4 * k,
            v@.len() == 6 + k,
            forall|i: int| 0 <= i < 6 ==> v@[i] == "x11:0x"@[i],
            forall|i: int| 0 <= i < k ==> v@[6 + i] == hex8(w)[i],
        decreases 8 - k,
    {
        proof {
            reveal_strlit("x11:0x");
        }
        let d = (w >> shift) & 15;
        assert(d < 16) by (bit_vector)
            requires d == (w >> shift) & 15u32;
        v.push(hex_char_exec(d));
        proof {
            assert(hex8(w)[k as int] == hex_char((w >> shift) & 15u32)) by {
                if k == 7 {
                    assert((w >> 0u32) & 15u32 == w & 15u32) by (bit_vector);
                }
            }
        }
        if k < 7 {
            shift = shift - 4;
        }
        k += 1;
    }
    proof {
        reveal_strlit("x11:0x");
        assert(v@ =~= x11_ref_text(w));
        lemma_ref_roundtrip(w);
    }
    Ref(crate::text::string_of(v.as_slice()))
}

proof fn lemma_hex_char(d: u32)
    requires
        d < 16,
    ensures
        hex_digit(hex_char(d)) == Some(d as int),
        hex_char(d) != 'x',
{
}

/// Reading back the reference of a window gives the window.
pub proof fn lemma_ref_roundtrip(w: u32)
    ensures
        window_id(x11_ref_text(w)) == Some(w),
{
    reveal_strlit("x11:");
    reveal_strlit("x11:0x");
    let t = x11_ref_text(w);
    let h = hex8(w);
    assert(t.take(4) =~= "x11:"@);
    assert(t.skip(4) =~= seq!['0', 'x'] + h);
    let d0 = (w >> 28u32) & 15u32;
    let d1 = (w >> 24u32) & 15u32;
    let d2 = (w >> 20u32) & 15u32;
    let d3 = (w >> 16u32) & 15u32;
    let d4 = (w >> 12u32) & 15u32;
    let d5 = (w >> 8u32) & 15u32;
    let d6 = (w >> 4u32) & 15u32;
    let d7 = w & 15u32;
    assert(d0 < 16 && d1 < 16 && d2 < 16 && d3 < 16 && d4 < 16 && d5 < 16 && d6 < 16 && d7 < 16) by (bit_vector)
        requires
            d0 == (w >> 28u32) & 15u32,
            d1 == (w >> 24u32) & 15u32,
            d2 == (w >> 20u32) & 15u32,
            d3 == (w >> 16u32) & 15u32,
            d4 == (w >> 12u32) & 15u32,
            d5 == (w >> 8u32) & 15u32,
            d6 == (w >> 4u32) & 15u32,
            d7 == w & 15u32;
    lemma_hex_char(d0);
    lemma_hex_char(d1);
    lemma_hex_char(d2);
    lemma_hex_char(d3);
    lemma_hex_char(d4);
    lemma_hex_char(d5);
    lemma_hex_char(d6);
    lemma_hex_char(d7);
    let s = seq!['0', 'x'] + h;
    assert(s.skip(2) =~= h);
    assert(strip_hex_prefixes(s) == strip_hex_prefixes(h));
    assert(!(h.len() >= 2 && h[0] == '0' && h[1] == 'x'));
    assert(strip_hex_prefixes(h) == h);
    assert(all_hex(h));
    assert(h[0] != '+');
    reveal_with_fuel(hex_number, 9);
    assert(h.drop_last() =~= seq![hex_char(d0), hex_char(d1), hex_char(d2), hex_char(d3), hex_char(d4), hex_char(d5), hex_char(d6)]);
    assert(h.drop_last().drop_last() =~= seq![hex_char(d0), hex_char(d1), hex_char(d2), hex_char(d3), hex_char(d4), hex_char(d5)]);
    assert(h.drop_last().drop_last().drop_last() =~= seq![hex_char(d0), hex_char(d1), hex_char(d2), hex_char(d3), hex_char(d4)]);
    assert(h.drop_last().drop_last().drop_last().drop_last() =~= seq![hex_char(d0), hex_char(d1), hex_char(d2), hex_char(d3)]);
    assert(h.drop_last().drop_last().drop_last().drop_last().drop_last() =~= seq![hex_char(d0), hex_char(d1), hex_char(d2)]);
    assert(h.drop_last().drop_last().drop_last().drop_last().drop_last().drop_last() =~= seq![hex_char(d0), hex_char(d1)]);
    assert(h.drop_last().drop_last().drop_last().drop_last().drop_last().drop_last().drop_last() =~= seq![hex_char(d0)]);
    assert(seq![hex_char(d0)].drop_last() =~= Seq::<char>::empty());
    assert(hex_number(h) == ((((((d0 as int * 16 + d1) * 16 + d2) * 16 + d3) * 16 + d4) * 16 + d5) * 16 + d6) * 16 + d7);
    assert(((((((d0 as int * 16 + d1) * 16 + d2) * 16 + d3) * 16 + d4) * 16 + d5) * 16 + d6) * 16 + d7 == w) by (bit_vector)
        requires
            d0 == (w >> 28u32) & 15u32,
            d1 == (w >> 24u32) & 15u32,
            d2 == (w >> 20u32) & 15u32,
            d3 == (w >> 16u32) & 15u32,
            d4 == (w >> 12u32) & 15u32,
            d5 == (w >> 8u32) & 15u32,
            d6 == (w >> 4u32) & 15u32,
            d7 == w & 15u32;
}

/// The atoms window control uses.
#[derive(Debug, Clone, Copy)]
pub struct ControlAtoms {
    pub net_active_window: u32,
    pub wm_change_state: u32,
    pub net_wm_state: u32,
    pub net_wm_state_maximized_vert: u32,
    pub net_wm_state_maximized_horz: u32,
    pub net_close_window: u32,
    pub net_moveresize_window: u32,
}

/// What a window-control request does.
#[derive(Debug, Clone, Copy, PartialEq, Eq, Structural)]
pub enum WindowAction {
    Focus,
    Minimize,
    Maximize,
    Restore,
    Close,
    MoveResize(Bbox),
}

/// The EWMH (or ICCCM) client message a request sends to the root window:
/// its type and its five data words, as the window manager expects them
/// from a pager. A move or resize to an empty size is refused.
pub open spec fn control_message_of(action: WindowAction, a: ControlAtoms) -> Option<(u32, Seq<u32>)> {
    match action {
        WindowAction::Focus => Some((a.net_active_window, seq![2u32, 0, 0, 0, 0])),
        WindowAction::Minimize => Some((a.wm_change_state, seq![3u32, 0, 0, 0, 0])),
        WindowAction::Maximize => Some(
            (a.net_wm_state, seq![1u32, a.net_wm_state_maximized_vert, a.net_wm_state_maximized_horz, 2, 0]),
        ),
        WindowAction::Restore => Some(
            (a.net_wm_state, seq![0u32, a.net_wm_state_maximized_vert, a.net_wm_state_maximized_horz, 2, 0]),
        ),
        WindowAction::Close => Some((a.net_close_window, seq![0u32, 2, 0, 0, 0])),
        WindowAction::MoveResize(g) => if g.w == 0 || g.h == 0 {
            None
        } else {
            Some((a.net_moveresize_window, seq![512u32, g.x as u32, g.y as u32, g.w, g.h]))
        },
    }
}

pub fn control_message(action: WindowAction, a: ControlAtoms) -> (r: Result<(u32, [u32; 5]), ToolError>)
    ensures
        match control_message_of(action, a) {
            Some((m, d)) => r matches Ok((mm, dd)) && mm == m && dd@ == d,
            None => r matches Err(e) && e.code@ == "invalid_geometry"@ && e.message@
                == "Window size must be positive"@,
        },
{
    let (m, d): (u32, [u32; 5]) = match action {
        WindowAction::Focus => (a.net_active_window, [2, 0, 0, 0, 0]),
        WindowAction::Minimize => (a.wm_change_state, [3, 0, 0, 0, 0]),
        WindowAction::Maximize => (a.net_wm_state, [1, a.net_wm_state_maximized_vert, a.net_wm_state_maximized_horz, 2, 0]),
        WindowAction::Restore => (a.net_wm_state, [0, a.net_wm_state_maximized_vert, a.net_wm_state_maximized_horz, 2, 0]),
        WindowAction::Close => (a.net_close_window, [0, 2, 0, 0, 0]),
        WindowAction::MoveResize(g) => {
            if g.w == 0 || g.h == 0 {
                return Err(crate::error::fail("invalid_geometry", "Window size must be positive"));
            }
            assert(2u32 << 8u32 == 512u32) by (bit_vector);
            (a.net_moveresize_window, [2 << 8, g.x as u32, g.y as u32, g.w, g.h])
        },
    };
    proof {
        broadcast use vstd::array::group_array_axioms;
        let (mm, dd) = control_message_of(action, a)->0;
        assert(d@[0] == dd[0] && d@[1] == dd[1] && d@[2] == dd[2] && d@[3] == dd[3] && d@[4] == dd[4]);
        assert(d@ =~= dd);
    }
    Ok((m, d))
}

/// A window the listing shows: one without a window type, or a normal
/// window or dialog.
pub open spec fn listed_type(types: Seq<u32>, normal: u32, dialog: u32) -> bool {
    types.len() == 0 || types.contains(normal) || types.contains(dialog)
}

/// A text property as read: present and not empty.
pub open spec fn present(p: Option<String>) -> Option<Seq<char>> {
    match p {
        Some(s) => if s@.len() > 0 { Some(s@) } else { None },
        None => None,
    }
}

/// The class part of a `WM_CLASS` value (`instance\0class\0`).
pub open spec fn wm_class_name(raw: Option<Seq<char>>) -> Seq<char> {
    match raw {
        Some(r) => if split(r, '\0').len() > 1 { split(r, '\0')[1] } else { Seq::empty() },
        None => Seq::empty(),
    }
}

/// What the X server says of a client window.
#[derive(Debug)]
pub struct ClientProperties {
    pub window: u32,
    pub types: Vec<u32>,
    pub net_wm_name: Option<String>,
    pub wm_name: Option<String>,
    pub wm_class: Option<String>,
    pub gtk_application_id: Option<String>,
    pub state: Vec<u32>,
    pub pid: Option<u32>,
    /// Position in root coordinates and size.
    pub x: i16,
    pub y: i16,
    pub width: u16,
    pub height: u16,
}

/// The atoms that classify windows.
#[derive(Debug, Clone, Copy)]
pub struct ListingAtoms {
    pub normal: u32,
    pub dialog: u32,
    pub hidden: u32,
}

fn contains_u32(s: &[u32], x: u32) -> (b: bool)
    ensures
        b == s@.contains(x),
{
    let mut i: usize = 0;
    while i < s.len()
        invariant
            i <= s@.len(),
            forall|j: int| 0 <= j < i ==> s@[j] != x,
        decreases s@.len() - i,
    {
        if s[i] == x {
            assert(s@[i as int] == x);
            return true;
        }
        i += 1;
    }
    false
}

fn present_exec(p: &Option<String>) -> (r: Option<String>)
    ensures
        match present(*p) {
            Some(v) => r matches Some(s) && s@ == v,
            None => r is None,
        },
{
    match p {
        Some(s) => if s.as_str().is_empty() { None } else { Some(s.clone()) },
        None => None,
    }
}

/// The window a client is listed as, or none for other window types: its
/// title (`_NET_WM_NAME`, else `WM_NAME`), class, GTK application ID, pid
/// (when positive), whether it is hidden, its geometry, and whether it is the
/// active window.
pub fn describe_window(p: &ClientProperties, atoms: ListingAtoms, active: Option<u32>) -> (r: Option<WindowInfo>)
    ensures
        !listed_type(p.types@, atoms.normal, atoms.dialog) ==> r is None,
        listed_type(p.types@, atoms.normal, atoms.dialog) ==> (r matches Some(w)
            && w.window_ref.0@ == x11_ref_text(p.window)
            && w.title@ == match present(p.net_wm_name) {
                Some(t) => t,
                None => match present(p.wm_name) {
                    Some(t) => t,
                    None => Seq::empty(),
                },
            }
            && w.class@ == wm_class_name(present(p.wm_class))
            && w.app_id@ == match present(p.gtk_application_id) {
                Some(t) => t,
                None => Seq::empty(),
            }
            && w.pid == (match p.pid {
                Some(n) => if n > 0 { Some(n) } else { None },
                None => None,
            })
            && w.minimized == p.state@.contains(atoms.hidden)
            && (w.client_protocol matches Some(c) && c@ == "x11"@)
            && w.geometry == (Bbox { x: p.x as i32, y: p.y as i32, w: p.width as u32, h: p.height as u32 })
            && w.screen == 0
            && w.is_active == (active == Some(p.window))),
{
    if p.types.len() > 0 && !contains_u32(p.types.as_slice(), atoms.normal) && !contains_u32(p.types.as_slice(), atoms.dialog) {
        return None;
    }
    let title = match present_exec(&p.net_wm_name) {
        Some(t) => t,
        None => match present_exec(&p.wm_name) {
            Some(t) => t,
            None => String::new(),
        },
    };
    let class = match present_exec(&p.wm_class) {
        Some(raw) => {
            let rc = chars_of(raw.as_str());
            let parts = split_vec(rc.as_slice(), '\0');
            if parts.len() > 1 {
                assert(parts@[1]@ == split(raw@, '\0')[1]);
                crate::text::string_of(parts[1].as_slice())
            } else {
                String::new()
            }
        },
        None => String::new(),
    };
    let app_id = match present_exec(&p.gtk_application_id) {
        Some(t) => t,
        None => String::new(),
    };
    let pid = match p.pid {
        Some(n) => if n > 0 { Some(n) } else { None },
        None => None,
    };
    let is_active = match active {
        Some(a) => a == p.window,
        None => false,
    };
    Some(WindowInfo {
        window_ref: window_ref(p.window),
        title,
        class,
        app_id,
        pid,
        minimized: contains_u32(p.state.as_slice(), atoms.hidden),
        client_protocol: Some(String::from_str("x11")),
        geometry: Bbox { x: p.x as i32, y: p.y as i32, w: p.width as u32, h: p.height as u32 },
        screen: 0,
        is_active,
    })
}

/// An EWMH window manager advertises both the active window and the client
/// list.
pub fn check_ewmh(supported: &[u32], net_active_window: u32, net_client_list: u32) -> (r: Result<(), BackendError>)
    ensures
        supported@.contains(net_active_window) && supported@.contains(net_client_list) ==> r is Ok,
        !(supported@.contains(net_active_window) && supported@.contains(net_client_list)) ==> (r matches Err(BackendError::Unavailable { backend, detail })
            && backend@ == "x11-ewmh"@ && detail@ == "window manager does not advertise EWMH support"@),
{
    if contains_u32(supported, net_active_window) && contains_u32(supported, net_client_list) {
        Ok(())
    } else {
        Err(BackendError::Unavailable {
            backend: "x11-ewmh",
            detail: String::from_str("window manager does not advertise EWMH support"),
        })
    }
}

/// A screenshot taken with the core `GetImage` request.
#[derive(Debug)]
pub struct X11Shot;

/// Pointer and keyboard through the XTEST extension.
#[derive(Debug)]
pub struct X11Input;

/// Window listing and control through EWMH.
#[derive(Debug)]
pub struct X11Windows;

impl X11Shot {
    pub fn id(&self) -> (s: &'static str)
        ensures
            s@ == "x11-getimage"@,
    {
        "x11-getimage"
    }
}

impl X11Input {
    pub fn id(&self) -> (s: &'static str)
        ensures
            s@ == "x11-xtest"@,
    {
        "x11-xtest"
    }
}

impl X11Windows {
    pub fn id(&self) -> (s: &'static str)
        ensures
            s@ == "x11-ewmh"@,
    {
        "x11-ewmh"
    }
}

/// Law: each named key is sent as the X11 keysym of the same key: Escape
/// 0xff1b, BackSpace 0xff08, Tab 0xff09, Return 0xff0d, space 0x20, Home
/// 0xff50, Left 0xff51, Up 0xff52, Right 0xff53, Down 0xff54, Prior
/// 0xff55, Next 0xff56, End 0xff57, Insert 0xff63, Delete 0xffff and F1 to
/// F12 at 0xffbe to 0xffc9, in order.
pub proof fn law_named_keysyms()
    ensures
        named_keysym_spec(KEY_ESC) == Some(0xff1bu32),
        named_keysym_spec(KEY_BACKSPACE) == Some(0xff08u32),
        named_keysym_spec(KEY_TAB) == Some(0xff09u32),
        named_keysym_spec(KEY_ENTER) == Some(0xff0du32),
        named_keysym_spec(KEY_SPACE) == Some(0x20u32),
        named_keysym_spec(KEY_HOME) == Some(0xff50u32),
        named_keysym_spec(KEY_LEFT) == Some(0xff51u32),
        named_keysym_spec(KEY_UP) == Some(0xff52u32),
        named_keysym_spec(KEY_RIGHT) == Some(0xff53u32),
        named_keysym_spec(KEY_DOWN) == Some(0xff54u32),
        named_keysym_spec(KEY_PAGEUP) == Some(0xff55u32),
        named_keysym_spec(KEY_PAGEDOWN) == Some(0xff56u32),
        named_keysym_spec(KEY_END) == Some(0xff57u32),
        named_keysym_spec(KEY_INSERT) == Some(0xff63u32),
        named_keysym_spec(KEY_DELETE) == Some(0xffffu32),
        named_keysym_spec(KEY_F1) == Some(0xffbeu32),
        named_keysym_spec(KEY_F2) == Some(0xffbfu32),
        named_keysym_spec(KEY_F3) == Some(0xffc0u32),
        named_keysym_spec(KEY_F4) == Some(0xffc1u32),
        named_keysym_spec(KEY_F5) == Some(0xffc2u32),
        named_keysym_spec(KEY_F6) == Some(0xffc3u32),
        named_keysym_spec(KEY_F7) == Some(0xffc4u32),
        named_keysym_spec(KEY_F8) == Some(0xffc5u32),
        named_keysym_spec(KEY_F9) == Some(0xffc6u32),
        named_keysym_spec(KEY_F10) == Some(0xffc7u32),
        named_keysym_spec(KEY_F11) == Some(0xffc8u32),
        named_keysym_spec(KEY_F12) == Some(0xffc9u32),
{
}

/// Law: distinct named keys are sent as distinct keysyms.
pub proof fn law_named_keysyms_distinct(a: u32, b: u32)
    requires
        a != b,
        named_keysym_spec(a) is Some,
    ensures
        named_keysym_spec(a) != named_keysym_spec(b),
{
}

/// Law: a scroll follows X's wheel buttons: up is button 4, down 5, left 6
/// and right 7. A vertical delta `dy < 0` scrolls up and `dy > 0` down; a
/// horizontal `dx < 0` left and `dx > 0` right. Each axis clicks as many
/// notches of 120 as its delta spans, rounded up and at least one, the
/// horizontal axis first; an axis with no delta clicks nothing.
pub proof fn law_scroll_buttons(dx: i32, dy: i32)
    ensures
        scroll_plan(dx, dy).len() == (if dx != 0 { 1int } else { 0int }) + (if dy != 0 { 1int } else { 0int }),
        dy != 0 ==> ({
            let v = scroll_plan(dx, dy).last();
            &&& dy < 0 ==> v.0 == 4
            &&& dy > 0 ==> v.0 == 5
            &&& v.1 >= 1
            &&& (v.1 - 1) * 120 < (if dy < 0 { -dy } else { dy as int }) <= v.1 * 120
        }),
        dx != 0 ==> ({
            let h = scroll_plan(dx, dy)[0];
            &&& dx < 0 ==> h.0 == 6
            &&& dx > 0 ==> h.0 == 7
            &&& h.1 >= 1
            &&& (h.1 - 1) * 120 < (if dx < 0 { -dx } else { dx as int }) <= h.1 * 120
        }),
{
    let ay = if dy < 0 { -dy } else { dy as int };
    let ax = if dx < 0 { -dx } else { dx as int };
    assert(ay % 120 == 0 ==> (ay / 120) * 120 == ay);
    assert(ay % 120 != 0 ==> (ay / 120) * 120 < ay < (ay / 120 + 1) * 120);
    assert(ax % 120 == 0 ==> (ax / 120) * 120 == ax);
    assert(ax % 120 != 0 ==> (ax / 120) * 120 < ax < (ax / 120 + 1) * 120);
}

} // verus!
