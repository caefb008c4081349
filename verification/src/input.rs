//! Input plans: which keys and buttons go down and up, and in what order, for
//! typing, chords, scrolling and dragging. Drivers execute a plan step by
//! step; a plan never leaves a key held.
use crate::error::{tool_code, tool_message, BackendError};
use crate::keymap::{char_keycode, modifier_code, needs_shift, keycode_for_char, shift_required, Modifier, KEY_LEFTSHIFT};
use crate::text::string_of;
use crate::types::ToolError;
use vstd::prelude::*;
use vstd::string::*;

verus! {

#[derive(Debug, Clone, Copy, PartialEq, Eq, Structural)]
pub enum KeyAction {
    Press(u32),
    Release(u32),
}

/// Keys still down after `events`, most recent last; `None` when a release
/// does not match the most recent key still down.
pub open spec fn held_after(events: Seq<KeyAction>) -> Option<Seq<u32>> {
    held_from(Seq::empty(), events)
}

/// Keys down after `events`, starting with `start` down.
pub open spec fn held_from(start: Seq<u32>, events: Seq<KeyAction>) -> Option<Seq<u32>>
    decreases events.len(),
{
    if events.len() == 0 {
        Some(start)
    } else {
        match held_from(start, events.drop_last()) {
            None => None,
            Some(down) => match events.last() {
                KeyAction::Press(k) => Some(down.push(k)),
                KeyAction::Release(k) => if down.len() > 0 && down.last() == k {
                    Some(down.drop_last())
                } else {
                    None
                },
            },
        }
    }
}

/// Every press is released, innermost first, and nothing stays down.
pub open spec fn balanced(events: Seq<KeyAction>) -> bool {
    held_after(events) == Some(Seq::<u32>::empty())
}

/// `inner` wrapped by a press and a release of `k`.
pub open spec fn wrap(k: u32, inner: Seq<KeyAction>) -> Seq<KeyAction> {
    seq![KeyAction::Press(k)] + inner + seq![KeyAction::Release(k)]
}

/// Holding `keys` in order around `inner`, releasing them in reverse.
pub open spec fn hold_around(keys: Seq<u32>, inner: Seq<KeyAction>) -> Seq<KeyAction>
    decreases keys.len(),
{
    if keys.len() == 0 {
        inner
    } else {
        wrap(keys[0], hold_around(keys.drop_first(), inner))
    }
}

/// The presses of `keys` in order.
pub open spec fn presses(keys: Seq<u32>) -> Seq<KeyAction> {
    keys.map_values(|k: u32| KeyAction::Press(k))
}

/// The releases of `keys` in reverse order.
pub open spec fn releases_reversed(keys: Seq<u32>) -> Seq<KeyAction>
    decreases keys.len(),
{
    if keys.len() == 0 {
        Seq::empty()
    } else {
        seq![KeyAction::Release(keys.last())] + releases_reversed(keys.drop_last())
    }
}

/// Typing one character on an evdev keyboard: its key, with Shift held
/// around it when the character needs Shift.
pub open spec fn evdev_char_plan(c: char) -> Option<Seq<KeyAction>> {
    match char_keycode(c) {
        None => None,
        Some(code) => Some(
            if needs_shift(c) {
                wrap(KEY_LEFTSHIFT, wrap(code, Seq::empty()))
            } else {
                wrap(code, Seq::empty())
            },
        ),
    }
}

/// Rust's `{:?}` rendering of a character: single-quoted, with escapes.
pub uninterp spec fn debug_char_text(c: char) -> Seq<char>;

/// `format!("{:?}", c)` (std's `Debug` for `char`).
#[verifier::external_body]
pub(crate) fn debug_char(c: char) -> (r: String)
    ensures
        r@ == debug_char_text(c),
{
    format!("{:?}", c)
}

/// The press/release sequence that types one ASCII character on an evdev
/// keyboard (libei keycodes, US layout).
pub fn evdev_char_events(ch: char) -> (r: Result<Vec<KeyAction>, BackendError>)
    ensures
        match evdev_char_plan(ch) {
            Some(plan) => r matches Ok(v) && v@ == plan,
            None => r matches Err(BackendError::Unsupported { reason }) && reason@
                == "no evdev mapping for "@ + debug_char_text(ch),
        },
{
    match keycode_for_char(ch) {
        None => {
            let mut reason = String::from_str("no evdev mapping for ");
            let d = debug_char(ch);
            reason.append(d.as_str());
            Err(BackendError::Unsupported { reason })
        },
        Some(code) => {
            let mut v: Vec<KeyAction> = Vec::new();
            let shift = shift_required(ch);
            if shift {
                v.push(KeyAction::Press(KEY_LEFTSHIFT));
            }
            v.push(KeyAction::Press(code));
            v.push(KeyAction::Release(code));
            if shift {
                v.push(KeyAction::Release(KEY_LEFTSHIFT));
            }
            proof {
                if needs_shift(ch) {
                    assert(v@ =~= wrap(KEY_LEFTSHIFT, wrap(code, Seq::empty())));
                } else {
                    assert(v@ =~= wrap(code, Seq::empty()));
                }
            }
            Ok(v)
        },
    }
}

/// A chord on an evdev keyboard: modifiers down in order, the key pressed and
/// released, modifiers up in reverse order.
pub open spec fn chord_plan(mods: Seq<u32>, key: u32) -> Seq<KeyAction> {
    presses(mods) + wrap(key, Seq::empty()) + releases_reversed(mods)
}

pub open spec fn modifier_codes(ms: Seq<Modifier>) -> Seq<u32> {
    ms.map_values(|m: Modifier| modifier_code(m))
}

pub fn evdev_chord_events(modifiers: &[Modifier], key: u32) -> (r: Vec<KeyAction>)
    ensures
        r@ == chord_plan(modifier_codes(modifiers@), key),
{
    let ghost codes = modifier_codes(modifiers@);
    let mut v: Vec<KeyAction> = Vec::new();
    let mut i: usize = 0;
    while i < modifiers.len()
        invariant
            i <= modifiers@.len(),
            codes == modifier_codes(modifiers@),
            v@ == presses(codes.take(i as int)),
        decreases modifiers@.len() - i,
    {
        v.push(KeyAction::Press(modifiers[i].keycode()));
        i += 1;
        assert(v@ =~= presses(codes.take(i as int)));
    }
    assert(codes.take(i as int) =~= codes);
    v.push(KeyAction::Press(key));
    v.push(KeyAction::Release(key));
    let ghost prefix = v@;
    let mut j: usize = modifiers.len();
    assert(releases_reversed(codes.take(j as int).skip(j as int)) =~= Seq::<KeyAction>::empty());
    while j > 0
        invariant
            j <= modifiers@.len(),
            codes == modifier_codes(modifiers@),
            v@ == prefix + releases_reversed(codes).take(codes.len() - j),
            codes.len() == modifiers@.len(),
        decreases j,
    {
        proof {
            lemma_releases_reversed_index(codes, codes.len() - j);
        }
        v.push(KeyAction::Release(modifiers[j - 1].keycode()));
        j -= 1;
        assert(v@ =~= prefix + releases_reversed(codes).take(codes.len() - j));
    }
    proof {
        lemma_releases_reversed_len(codes);
        assert(releases_reversed(codes).take(codes.len() as int) =~= releases_reversed(codes));
        assert(prefix =~= presses(codes) + wrap(key, Seq::empty()));
    }
    v
}

pub proof fn lemma_releases_reversed_len(keys: Seq<u32>)
    ensures
        releases_reversed(keys).len() == keys.len(),
    decreases keys.len(),
{
    if keys.len() > 0 {
        lemma_releases_reversed_len(keys.drop_last());
    }
}

/// Element `i` of the reversed releases releases `keys[len - 1 - i]`.
pub proof fn lemma_releases_reversed_index(keys: Seq<u32>, i: int)
    requires
        0 <= i < keys.len(),
    ensures
        releases_reversed(keys).len() == keys.len(),
        releases_reversed(keys)[i] == KeyAction::Release(keys[keys.len() - 1 - i]),
    decreases keys.len(),
{
    lemma_releases_reversed_len(keys);
    if i > 0 {
        lemma_releases_reversed_index(keys.drop_last(), i - 1);
        lemma_releases_reversed_len(keys.drop_last());
    }
}


/// Running `a` then `b` is running `b` from where `a` left the keys.
pub proof fn lemma_held_concat(start: Seq<u32>, a: Seq<KeyAction>, b: Seq<KeyAction>)
    ensures
        held_from(start, a + b) == (match held_from(start, a) {
            None => None,
            Some(mid) => held_from(mid, b),
        }),
    decreases b.len(),
{
    if b.len() == 0 {
        assert(a + b =~= a);
    } else {
        assert((a + b).drop_last() =~= a + b.drop_last());
        lemma_held_concat(start, a, b.drop_last());
    }
}

proof fn lemma_held_presses(start: Seq<u32>, keys: Seq<u32>)
    ensures
        held_from(start, presses(keys)) == Some(start + keys),
    decreases keys.len(),
{
    if keys.len() == 0 {
        assert(start + keys =~= start);
        assert(presses(keys) =~= Seq::<KeyAction>::empty());
    } else {
        assert(presses(keys).drop_last() =~= presses(keys.drop_last()));
        lemma_held_presses(start, keys.drop_last());
        assert((start + keys.drop_last()).push(keys.last()) =~= start + keys);
    }
}

proof fn lemma_held_releases(start: Seq<u32>, keys: Seq<u32>)
    ensures
        held_from(start + keys, releases_reversed(keys)) == Some(start),
    decreases keys.len(),
{
    if keys.len() == 0 {
        assert(start + keys =~= start);
        assert(releases_reversed(keys) =~= Seq::<KeyAction>::empty());
    } else {
        let first = seq![KeyAction::Release(keys.last())];
        lemma_held_concat(start + keys, first, releases_reversed(keys.drop_last()));
        assert(first.drop_last() =~= Seq::<KeyAction>::empty());
        assert(held_from(start + keys, first.drop_last()) == Some(start + keys));
        assert((start + keys).drop_last() =~= start + keys.drop_last());
        assert(held_from(start + keys, first) == Some(start + keys.drop_last()));
        lemma_held_releases(start, keys.drop_last());
    }
}

pub proof fn lemma_held_wrap(start: Seq<u32>, k: u32, inner: Seq<KeyAction>)
    requires
        held_from(start.push(k), inner) == Some(start.push(k)),
    ensures
        held_from(start, wrap(k, inner)) == Some(start),
{
    let p = seq![KeyAction::Press(k)];
    let r = seq![KeyAction::Release(k)];
    lemma_held_concat(start, p + inner, r);
    lemma_held_concat(start, p, inner);
    assert(p.drop_last() =~= Seq::<KeyAction>::empty());
    assert(r.drop_last() =~= Seq::<KeyAction>::empty());
    assert(held_from(start, p.drop_last()) == Some(start));
    assert(held_from(start, p) == Some(start.push(k)));
    assert(held_from(start.push(k), r.drop_last()) == Some(start.push(k)));
    assert(start.push(k).drop_last() =~= start);
    assert(held_from(start.push(k), r) == Some(start));
}

/// Law: typing any character leaves no key held, and every press is released
/// innermost first.
pub proof fn law_typed_character_releases_every_key(c: char)
    requires
        evdev_char_plan(c) is Some,
    ensures
        balanced(evdev_char_plan(c)->0),
{
    let code = char_keycode(c)->0;
    let e = Seq::<KeyAction>::empty();
    if needs_shift(c) {
        let s = Seq::<u32>::empty().push(KEY_LEFTSHIFT);
        lemma_held_wrap(s, code, e);
        lemma_held_wrap(Seq::empty(), KEY_LEFTSHIFT, wrap(code, e));
    } else {
        lemma_held_wrap(Seq::empty(), code, e);
    }
}

/// Law: a chord presses its modifiers in order, taps the key, and releases
/// the modifiers in reverse, leaving nothing held.
pub proof fn law_chord_releases_every_key(mods: Seq<u32>, key: u32)
    ensures
        balanced(chord_plan(mods, key)),
{
    let e = Seq::<u32>::empty();
    lemma_held_concat(e, presses(mods) + wrap(key, Seq::empty()), releases_reversed(mods));
    lemma_held_concat(e, presses(mods), wrap(key, Seq::empty()));
    lemma_held_presses(e, mods);
    assert(e + mods =~= mods);
    lemma_held_wrap(mods, key, Seq::empty());
    lemma_held_releases(e, mods);
}


/// Rust's integer division for a positive divisor: rounds toward zero.
pub open spec fn trunc_div(a: int, d: int) -> int {
    if a >= 0 {
        a / d
    } else {
        -((-a) / d)
    }
}

/// Point `step` of `n` on the way from `a` to `b`, in integer arithmetic.
pub open spec fn lerp(a: int, b: int, step: int, n: int) -> int {
    a + trunc_div((b - a) * step, n)
}

/// Whether `(b - a) * n` stays within `i32`.
pub open spec fn span_fits(a: i32, b: i32, n: int) -> bool {
    i32::MIN <= (b - a) * n <= i32::MAX
}

/// The `n` intermediate pointer positions from `p` to `q` (excluding `p`,
/// ending at `q`).
pub open spec fn segment(p: (i32, i32), q: (i32, i32), n: int) -> Seq<(i32, i32)> {
    Seq::new(
        n as nat,
        |i: int| (lerp(p.0 as int, q.0 as int, i + 1, n) as i32, lerp(p.1 as int, q.1 as int, i + 1, n) as i32),
    )
}

/// Every consecutive pair of `points` can be interpolated in `n` steps
/// without leaving `i32`.
pub open spec fn path_fits(points: Seq<(i32, i32)>, n: int) -> bool {
    forall|i: int|
        0 <= i < points.len() - 1 ==> span_fits(#[trigger] points[i].0, points[i + 1].0, n)
            && span_fits(points[i].1, points[i + 1].1, n)
}

/// Pointer positions visiting each point of `points` in turn, `n` steps per leg.
pub open spec fn path_steps(points: Seq<(i32, i32)>, n: int) -> Seq<(i32, i32)>
    decreases points.len(),
{
    if points.len() <= 1 {
        Seq::empty()
    } else {
        path_steps(points.drop_last(), n) + segment(points[points.len() - 2], points.last(), n)
    }
}

fn lerp_exec(a: i32, b: i32, step: i32, n: i32) -> (r: i32)
    requires
        1 <= step <= n,
        n > 0,
        span_fits(a, b, n as int),
    ensures
        r as int == lerp(a as int, b as int, step as int, n as int),
{
    assert(i32::MIN <= (b - a) * step <= i32::MAX) by (nonlinear_arith)
        requires
            1 <= step <= n,
            i32::MIN <= (b - a) * n <= i32::MAX,
    ;
    assert(i32::MIN <= b - a <= i32::MAX) by (nonlinear_arith)
        requires
            1 <= n,
            i32::MIN <= (b - a) * n <= i32::MAX,
    ;
    let d = b - a;
    let num = d * step;
    let q = num / n;
    assert(q == trunc_div(num as int, n as int));
    assert(i32::MIN <= a + q <= i32::MAX) by (nonlinear_arith)
        requires
            q == trunc_div(num as int, n as int),
            num == (b - a) * step,
            1 <= step <= n,
            i32::MIN <= a <= i32::MAX,
            i32::MIN <= b <= i32::MAX,
    {
        lemma_lerp_between(a as int, b as int, step as int, n as int);
    }
    a + q
}

/// An interpolated point lies between its two ends.
pub proof fn lemma_lerp_between(a: int, b: int, step: int, n: int)
    requires
        1 <= step <= n,
    ensures
        a <= b ==> a <= a + trunc_div((b - a) * step, n) <= b,
        b <= a ==> b <= a + trunc_div((b - a) * step, n) <= a,
{
    if a <= b {
        assert(0 <= (b - a) * step <= (b - a) * n) by (nonlinear_arith)
            requires
                a <= b,
                1 <= step <= n,
        ;
        assert(((b - a) * n) / n == b - a) by (nonlinear_arith)
            requires
                n >= 1,
        ;
        assert(((b - a) * step) / n <= ((b - a) * n) / n) by (nonlinear_arith)
            requires
                0 <= (b - a) * step <= (b - a) * n,
                n >= 1,
        ;
        assert(0 <= ((b - a) * step) / n) by (nonlinear_arith)
            requires
                0 <= (b - a) * step,
                n >= 1,
        ;
    } else {
        assert(0 < (a - b) * step <= (a - b) * n) by (nonlinear_arith)
            requires
                b < a,
                1 <= step <= n,
        ;
        assert((b - a) * step == -((a - b) * step)) by (nonlinear_arith);
        assert(((a - b) * n) / n == a - b) by (nonlinear_arith)
            requires
                n >= 1,
        ;
        assert(((a - b) * step) / n <= ((a - b) * n) / n) by (nonlinear_arith)
            requires
                0 <= (a - b) * step <= (a - b) * n,
                n >= 1,
        ;
        assert(0 <= ((a - b) * step) / n) by (nonlinear_arith)
            requires
                0 <= (a - b) * step,
                n >= 1,
        ;
    }
}

/// The `n` pointer positions from `p` to `q`.
pub fn segment_steps(p: (i32, i32), q: (i32, i32), n: i32) -> (r: Vec<(i32, i32)>)
    requires
        1 <= n <= 1000,
        span_fits(p.0, q.0, n as int),
        span_fits(p.1, q.1, n as int),
    ensures
        r@ == segment(p, q, n as int),
{
    let mut v: Vec<(i32, i32)> = Vec::new();
    let mut step: i32 = 1;
    while step <= n
        invariant
            1 <= step <= n + 1,
            1 <= n <= 1000,
            span_fits(p.0, q.0, n as int),
            span_fits(p.1, q.1, n as int),
            v@ == segment(p, q, n as int).take(step - 1),
        decreases n + 1 - step,
    {
        let x = lerp_exec(p.0, q.0, step, n);
        let y = lerp_exec(p.1, q.1, step, n);
        v.push((x, y));
        step += 1;
        assert(v@ =~= segment(p, q, n as int).take(step - 1));
    }
    assert(segment(p, q, n as int).take(n as int) =~= segment(p, q, n as int));
    v
}

/// Pointer positions that walk `points` in order, `n` interpolation steps
/// per leg (the first point itself is where the walk starts).
pub fn walk_path(points: &[(i32, i32)], n: i32) -> (r: Vec<(i32, i32)>)
    requires
        1 <= n <= 1000,
        path_fits(points@, n as int),
    ensures
        r@ == path_steps(points@, n as int),
{
    let mut v: Vec<(i32, i32)> = Vec::new();
    if points.len() == 0 {
        return v;
    }
    let mut i: usize = 1;
    assert(points@.take(1).len() == 1);
    while i < points.len()
        invariant
            1 <= i <= points@.len(),
            1 <= n <= 1000,
            path_fits(points@, n as int),
            v@ == path_steps(points@.take(i as int), n as int),
        decreases points@.len() - i,
    {
        assert(span_fits(points@[i - 1].0, points@[i as int].0, n as int));
        let seg = segment_steps(points[i - 1], points[i], n);
        let ghost before = v@;
        let mut k: usize = 0;
        while k < seg.len()
            invariant
                k <= seg@.len(),
                v@ == before + seg@.take(k as int),
            decreases seg@.len() - k,
        {
            v.push(seg[k]);
            k += 1;
            assert(v@ =~= before + seg@.take(k as int));
        }
        assert(seg@.take(k as int) =~= seg@);
        let ghost pre = points@.take(i as int + 1);
        assert(pre.drop_last() =~= points@.take(i as int));
        assert(pre[pre.len() - 2] == points@[i - 1]);
        i += 1;
    }
    assert(points@.take(i as int) =~= points@);
    v
}

} // verus!
