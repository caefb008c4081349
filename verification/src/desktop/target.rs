//! Acting on accessibility targets: which root belongs to a window, which
//! action a request names, whether an element is still the one observed,
//! and where a quoted text lies.
use crate::a11y::{eq_ignore_ascii_case, same_ascii_case, FlatElement};
use crate::error::fail;
use crate::text::{chars_of, ends_with, eq_chars, eq_lit, lower, slice_range};
use crate::types::{Bbox, ToolError};
use vstd::prelude::*;

verus! {

/// How well a candidate accessibility root fits a window: 4 when its name is
/// the window title, plus 2 when its screen extents are within 32/64 pixels
/// of the window's position and 64/96 of its size.
pub open spec fn root_score_of(
    name: Seq<char>,
    title: Seq<char>,
    extents: Option<(i32, i32, i32, i32)>,
    geometry: Bbox,
) -> u32 {
    let base: u32 = if name == title { 4 } else { 0 };
    let near = match extents {
        Some((x, y, w, h)) => {
            &&& -32 <= x - geometry.x <= 32
            &&& -64 <= y - geometry.y <= 64
            &&& -64 <= w - geometry.w <= 64
            &&& -96 <= h - geometry.h <= 96
        },
        None => false,
    };
    if near { (base + 2) as u32 } else { base }
}

pub fn root_score(name: &str, title: &str, extents: Option<(i32, i32, i32, i32)>, geometry: Bbox) -> (s: u32)
    ensures
        s == root_score_of(name@, title@, extents, geometry),
{
    let n = chars_of(name);
    let t = chars_of(title);
    let base: u32 = if eq_chars(n.as_slice(), t.as_slice()) { 4 } else { 0 };
    let near = match extents {
        Some((x, y, w, h)) => {
            let dx = (x as i64) - (geometry.x as i64);
            let dy = (y as i64) - (geometry.y as i64);
            let dw = (w as i64) - (geometry.w as i64);
            let dh = (h as i64) - (geometry.h as i64);
            -32 <= dx && dx <= 32 && -64 <= dy && dy <= 64 && -64 <= dw && dw <= 64 && -96 <= dh && dh <= 96
        },
        None => false,
    };
    if near { base + 2 } else { base }
}

/// The highest score.
pub open spec fn max_score(s: Seq<u32>) -> u32
    decreases s.len(),
{
    if s.len() == 0 {
        0
    } else {
        let m = max_score(s.drop_last());
        if s.last() > m { s.last() } else { m }
    }
}

/// The first position holding the highest score.
pub open spec fn first_best(s: Seq<u32>) -> int
    decreases s.len(),
{
    if s.len() <= 1 {
        0
    } else if s.last() > max_score(s.drop_last()) {
        s.len() - 1
    } else {
        first_best(s.drop_last())
    }
}

/// Whether two positions share the highest score.
pub open spec fn best_is_shared(s: Seq<u32>) -> bool {
    exists|i: int, j: int| 0 <= i < j < s.len() && s[i] == max_score(s) && s[j] == max_score(s)
}

proof fn lemma_max_score(s: Seq<u32>)
    ensures
        forall|i: int| 0 <= i < s.len() ==> s[i] <= max_score(s),
        s.len() > 0 ==> 0 <= first_best(s) < s.len() && s[first_best(s)] == max_score(s),
        s.len() > 0 ==> forall|i: int| 0 <= i < first_best(s) ==> s[i] < max_score(s),
    decreases s.len(),
{
    if s.len() > 0 {
        lemma_max_score(s.drop_last());
        assert forall|i: int| 0 <= i < s.len() - 1 implies s[i] == s.drop_last()[i] by {}
    }
}

/// The window's accessibility root among candidates with these scores: the
/// best-scoring one (the first of them); refused when there is none, or when
/// nothing scored or the best score is shared.
pub fn choose_root(scores: &[u32]) -> (r: Result<usize, ToolError>)
    ensures
        scores@.len() == 0 ==> (r matches Err(e) && e.code@ == "accessibility_unavailable"@
            && e.message@ == "Application exposes no window roots"@ && !e.retryable),
        scores@.len() > 1 && (max_score(scores@) == 0 || best_is_shared(scores@)) ==> (r matches Err(e)
            && e.code@ == "ambiguous_accessibility_root"@ && e.message@
            == "Cannot associate this window with one accessibility root"@ && !e.retryable),
        scores@.len() == 1 || (scores@.len() > 1 && max_score(scores@) > 0 && !best_is_shared(scores@))
            ==> r == Ok::<usize, ToolError>(first_best(scores@) as usize),
{
    if scores.len() == 0 {
        return Err(fail("accessibility_unavailable", "Application exposes no window roots"));
    }
    proof {
        lemma_max_score(scores@);
    }
    let mut best: usize = 0;
    let mut shared = false;
    let mut i: usize = 1;
    assert(scores@.take(1).drop_last() =~= Seq::<u32>::empty());
    assert(scores@.take(1).last() == scores@[0]);
    assert(max_score(Seq::<u32>::empty()) == 0);
    assert(max_score(scores@.take(1)) == scores@[0]);
    while i < scores.len()
        invariant
            1 <= i <= scores@.len(),
            best < i,
            best == first_best(scores@.take(i as int)),
            scores@[best as int] == max_score(scores@.take(i as int)),
            shared == best_is_shared(scores@.take(i as int)),
        decreases scores@.len() - i,
    {
        let ghost pre = scores@.take(i as int);
        let ghost next = scores@.take(i + 1);
        proof {
            assert(next.drop_last() =~= pre);
            lemma_max_score(pre);
            lemma_max_score(next);
        }
        if scores[i] > scores[best] {
            best = i;
            shared = false;
            proof {
                assert(max_score(next) == scores@[i as int]);
                assert(!best_is_shared(next)) by {
                    if best_is_shared(next) {
                        let (a, b) = choose|a: int, b: int| 0 <= a < b < next.len() && next[a] == max_score(next) && next[b] == max_score(next);
                        assert(pre[a] == next[a]);
                    }
                }
            }
        } else if scores[i] == scores[best] {
            shared = true;
            proof {
                assert(next[best as int] == max_score(next));
                assert(next[i as int] == max_score(next));
            }
        } else {
            proof {
                assert(best_is_shared(next) == best_is_shared(pre)) by {
                    if best_is_shared(next) {
                        let (a, b) = choose|a: int, b: int| 0 <= a < b < next.len() && next[a] == max_score(next) && next[b] == max_score(next);
                        assert(b < i);
                        assert(pre[a] == next[a] && pre[b] == next[b]);
                    }
                    if best_is_shared(pre) {
                        let (a, b) = choose|a: int, b: int| 0 <= a < b < pre.len() && pre[a] == max_score(pre) && pre[b] == max_score(pre);
                        assert(pre[a] == next[a] && pre[b] == next[b]);
                    }
                }
            }
        }
        i += 1;
    }
    assert(scores@.take(i as int) =~= scores@);
    if scores.len() > 1 && (scores[best] == 0 || shared) {
        return Err(fail("ambiguous_accessibility_root", "Cannot associate this window with one accessibility root"));
    }
    Ok(best)
}

/// The actions a plain click may use.
pub open spec fn default_action(a: Seq<char>) -> bool {
    same_ascii_case(a, "click"@) || same_ascii_case(a, "press"@) || same_ascii_case(a, "activate"@)
}

/// Whether an exposed action answers the request: the named action up to
/// ASCII case, or a click, press or activate action when none is named.
pub open spec fn answers(a: Seq<char>, requested: Option<Seq<char>>) -> bool {
    match requested {
        Some(n) => same_ascii_case(a, n),
        None => default_action(a),
    }
}

/// The position of the first exposed action that answers the request.
pub fn action_index(available: &[String], requested: Option<&str>) -> (r: Result<usize, ToolError>)
    ensures
        match r {
            Ok(i) => i < available@.len() && answers(
                available@[i as int]@,
                match requested {
                    Some(n) => Some(n@),
                    None => None,
                },
            ) && forall|j: int| 0 <= j < i ==> !answers(
                #[trigger] available@[j]@,
                match requested {
                    Some(n) => Some(n@),
                    None => None,
                },
            ),
            Err(e) => e.code@ == "unsupported"@ && e.message@
                == "Requested action is not exposed by this element"@ && !e.retryable
                && forall|j: int| 0 <= j < available@.len() ==> !answers(
                #[trigger] available@[j]@,
                match requested {
                    Some(n) => Some(n@),
                    None => None,
                },
            ),
        },
        requested is None && (exists|j: int| 0 <= j < available@.len() && (same_ascii_case(
            #[trigger] available@[j]@,
            "click"@,
        ) || same_ascii_case(available@[j]@, "press"@) || same_ascii_case(available@[j]@, "activate"@)))
            ==> r is Ok,
{
    let ghost req = match requested {
        Some(n) => Some(n@),
        None => None::<Seq<char>>,
    };
    let mut i: usize = 0;
    while i < available.len()
        invariant
            i <= available@.len(),
            req == match requested {
                Some(n) => Some(n@),
                None => None::<Seq<char>>,
            },
            forall|j: int| 0 <= j < i ==> !answers(#[trigger] available@[j]@, req),
        decreases available@.len() - i,
    {
        let a = available[i].as_str();
        let hit = match requested {
            Some(n) => eq_ignore_ascii_case(a, n),
            None => eq_ignore_ascii_case(a, "click") || eq_ignore_ascii_case(a, "press")
                || eq_ignore_ascii_case(a, "activate"),
        };
        if hit {
            return Ok(i);
        }
        i += 1;
    }
    Err(fail("unsupported", "Requested action is not exposed by this element"))
}

/// Whether the node an element reference resolves to now is still the
/// observed element: same bus instance, same name and role, not defunct.
pub fn check_current(
    element: &FlatElement,
    server_guid: &str,
    name: &str,
    role: &str,
    defunct: bool,
) -> (r: Result<(), ToolError>)
    ensures
        server_guid@ != element.bus_guid@ ==> (r matches Err(e) && e.code@ == "stale_element"@
            && e.message@ == "Accessibility bus restarted; observe the target again"@),
        server_guid@ == element.bus_guid@ && (name@ != element.name.text@ || role@
            != element.role.text@) ==> (r matches Err(e) && e.code@ == "stale_element"@ && e.message@
            == "Element changed; get fresh accessibility state"@),
        server_guid@ == element.bus_guid@ && name@ == element.name.text@ && role@
            == element.role.text@ && defunct ==> (r matches Err(e) && e.code@ == "stale_element"@
            && e.message@ == "Element is defunct; get fresh accessibility state"@),
        server_guid@ == element.bus_guid@ && name@ == element.name.text@ && role@
            == element.role.text@ && !defunct ==> r is Ok,
{
    let g = chars_of(server_guid);
    let eg = chars_of(element.bus_guid.as_str());
    if !eq_chars(g.as_slice(), eg.as_slice()) {
        return Err(fail("stale_element", "Accessibility bus restarted; observe the target again"));
    }
    let n = chars_of(name);
    let en = chars_of(element.name.text.as_str());
    let ro = chars_of(role);
    let er = chars_of(element.role.text.as_str());
    if !eq_chars(n.as_slice(), en.as_slice()) || !eq_chars(ro.as_slice(), er.as_slice()) {
        return Err(fail("stale_element", "Element changed; get fresh accessibility state"));
    }
    if defunct {
        return Err(fail("stale_element", "Element is defunct; get fresh accessibility state"));
    }
    Ok(())
}

/// The starts of the non-overlapping occurrences of a non-empty `pat` in `s`
/// at or after `from`, leftmost first (`str::match_indices`).
pub open spec fn occurrences(s: Seq<char>, pat: Seq<char>, from: int) -> Seq<int>
    decreases s.len() - from,
    when 0 <= from <= s.len()
{
    if pat.len() == 0 || from + pat.len() > s.len() {
        Seq::empty()
    } else if s.subrange(from, from + pat.len()) == pat {
        seq![from] + occurrences(s, pat, from + pat.len())
    } else {
        occurrences(s, pat, from + 1)
    }
}

/// Whether an occurrence at `start` has `prefix` right before it and
/// `suffix` right after it.
pub open spec fn anchored(s: Seq<char>, pat: Seq<char>, prefix: Seq<char>, suffix: Seq<char>, start: int) -> bool {
    ends_with(s.take(start), prefix) && suffix.len() <= s.len() - (start + pat.len())
        && s.skip(start + pat.len()).take(suffix.len() as int) == suffix
}

/// The anchored occurrences among `starts`, in order.
pub open spec fn anchored_only(
    s: Seq<char>,
    pat: Seq<char>,
    prefix: Seq<char>,
    suffix: Seq<char>,
    starts: Seq<int>,
) -> Seq<int>
    decreases starts.len(),
{
    if starts.len() == 0 {
        Seq::empty()
    } else if anchored(s, pat, prefix, suffix, starts.last()) {
        anchored_only(s, pat, prefix, suffix, starts.drop_last()).push(starts.last())
    } else {
        anchored_only(s, pat, prefix, suffix, starts.drop_last())
    }
}

/// A reported text length beyond what an observation holds is refused.
pub fn check_text_size(count: i32) -> (r: Result<(), ToolError>)
    ensures
        count > 100_000 ==> (r matches Err(e) && e.code@ == "unsupported"@ && e.message@
            == "Text selection exceeds the observation limit"@),
        count <= 100_000 ==> r is Ok,
{
    if count > 100_000 {
        return Err(fail("unsupported", "Text selection exceeds the observation limit"));
    }
    Ok(())
}

/// The character range of the one occurrence of `text` in `contents` that
/// `prefix` and `suffix` single out; refused unless exactly one does, and for
/// an empty `text`.
pub fn locate_text(contents: &str, text: &str, prefix: &str, suffix: &str) -> (r: Result<(usize, usize), ToolError>)
    ensures
        ({
            let hits = anchored_only(contents@, text@, prefix@, suffix@, occurrences(contents@, text@, 0));
            if text@.len() > 0 && hits.len() == 1 {
                r == Ok::<(usize, usize), ToolError>((hits[0] as usize, (hits[0] + text@.len()) as usize))
            } else {
                r matches Err(e) && e.code@ == "ambiguous_text"@ && e.message@
                    == "Text must identify exactly one occurrence; supply prefix/suffix"@
            }
        }),
{
    let s = chars_of(contents);
    let p = chars_of(text);
    let pre = chars_of(prefix);
    let suf = chars_of(suffix);
    let m = p.len();
    if m == 0 {
        return Err(fail("ambiguous_text", "Text must identify exactly one occurrence; supply prefix/suffix"));
    }
    let n = s.len();
    let mut raw: Vec<usize> = Vec::new();
    let mut i: usize = 0;
    assert(raw@.map_values(|x: usize| x as int) + occurrences(s@, p@, 0) =~= occurrences(s@, p@, 0));
    while n - i >= m
        invariant
            n == s@.len(),
            m == p@.len(),
            m > 0,
            i <= n,
            s@.len() <= usize::MAX,
            raw@.map_values(|x: usize| x as int) + occurrences(s@, p@, i as int) == occurrences(s@, p@, 0),
            forall|k: int| 0 <= k < raw@.len() ==> #[trigger] raw@[k] + m <= i,
        decreases n - i,
    {
        let cand = slice_range(s.as_slice(), i, i + m);
        let ghost before = raw@;
        if eq_chars(cand.as_slice(), p.as_slice()) {
            raw.push(i);
            proof {
                assert(raw@.map_values(|x: usize| x as int) =~= before.map_values(|x: usize| x as int).push(i as int));
                assert(occurrences(s@, p@, i as int) == seq![i as int] + occurrences(s@, p@, i + m));
                assert(raw@.map_values(|x: usize| x as int) + occurrences(s@, p@, i + m) =~= before.map_values(|x: usize| x as int) + occurrences(s@, p@, i as int));
            }
            i = i + m;
        } else {
            i = i + 1;
        }
    }
    assert(occurrences(s@, p@, i as int) == Seq::<int>::empty());
    assert(raw@.map_values(|x: usize| x as int) =~= occurrences(s@, p@, 0));
    let ghost all = occurrences(s@, p@, 0);
    let mut hits: Vec<usize> = Vec::new();
    let mut k: usize = 0;
    while k < raw.len()
        invariant
            k <= raw@.len(),
            raw@.map_values(|x: usize| x as int) == all,
            all == occurrences(s@, p@, 0),
            n == s@.len(),
            m == p@.len(),
            forall|j: int| 0 <= j < raw@.len() ==> #[trigger] raw@[j] + m <= n,
            hits@.map_values(|x: usize| x as int) == anchored_only(s@, p@, pre@, suf@, all.take(k as int)),
        decreases raw@.len() - k,
    {
        let st = raw[k];
        proof {
            assert(all.take(k + 1).drop_last() =~= all.take(k as int));
            assert(all.take(k + 1).last() == st as int);
        }
        let head = slice_range(s.as_slice(), 0, st);
        let ends = ends_with_chars(head.as_slice(), pre.as_slice());
        let starts = starts_with_chars(s.as_slice(), st + m, suf.as_slice());
        if ends && starts {
            let ghost before = hits@;
            hits.push(st);
            assert(hits@.map_values(|x: usize| x as int) =~= before.map_values(|x: usize| x as int).push(st as int));
        }
        k += 1;
    }
    assert(all.take(k as int) =~= all);
    if hits.len() != 1 {
        return Err(fail("ambiguous_text", "Text must identify exactly one occurrence; supply prefix/suffix"));
    }
    let st = hits[0];
    proof {
        assert(hits@.map_values(|x: usize| x as int)[0] == st as int);
        let h = anchored_only(s@, p@, pre@, suf@, all);
        assert(all.contains(h[0])) by {
            lemma_anchored_subset(s@, p@, pre@, suf@, all);
        }
    }
    Ok((st, st + m))
}

proof fn lemma_anchored_subset(s: Seq<char>, pat: Seq<char>, prefix: Seq<char>, suffix: Seq<char>, starts: Seq<int>)
    ensures
        forall|i: int| 0 <= i < anchored_only(s, pat, prefix, suffix, starts).len()
            ==> starts.contains(#[trigger] anchored_only(s, pat, prefix, suffix, starts)[i]),
    decreases starts.len(),
{
    if starts.len() > 0 {
        lemma_anchored_subset(s, pat, prefix, suffix, starts.drop_last());
        let a = anchored_only(s, pat, prefix, suffix, starts);
        let b = anchored_only(s, pat, prefix, suffix, starts.drop_last());
        assert forall|i: int| 0 <= i < a.len() implies starts.contains(#[trigger] a[i]) by {
            if i < b.len() {
                assert(a[i] == b[i]);
                let w = choose|w: int| 0 <= w < starts.drop_last().len() && starts.drop_last()[w] == b[i];
                assert(starts[w] == b[i]);
            } else {
                assert(a[i] == starts.last());
                assert(starts[starts.len() - 1] == a[i]);
            }
        }
    }
}

/// Whether `s` ends with `pat`.
fn ends_with_chars(s: &[char], pat: &[char]) -> (b: bool)
    ensures
        b == ends_with(s@, pat@),
{
    if pat.len() > s.len() {
        return false;
    }
    let tail = slice_range(s, s.len() - pat.len(), s.len());
    assert(tail@ =~= s@.skip(s@.len() - pat@.len()));
    eq_chars(tail.as_slice(), pat)
}

/// Whether `s[from..]` starts with `pat`.
fn starts_with_chars(s: &[char], from: usize, pat: &[char]) -> (b: bool)
    requires
        from <= s@.len(),
    ensures
        b == (pat@.len() <= s@.len() - from && s@.skip(from as int).take(pat@.len() as int) == pat@),
{
    if pat.len() > s.len() - from {
        return false;
    }
    let part = slice_range(s, from, from + pat.len());
    assert(part@ =~= s@.skip(from as int).take(pat@.len() as int));
    eq_chars(part.as_slice(), pat)
}

/// What a text selection does with the located range.
#[derive(Debug, Clone, Copy, PartialEq, Eq, Structural)]
pub enum TextSelection {
    /// Put the caret at this character offset.
    Caret(usize),
    /// Select this character range, after clearing other selections.
    Range(usize, usize),
}

/// The selection a `selectionType` asks for on the range `start..end`.
pub fn selection_for(kind: &str, start: usize, end: usize) -> (r: Result<TextSelection, ToolError>)
    ensures
        kind@ == "cursor_before"@ ==> r == Ok::<TextSelection, ToolError>(TextSelection::Caret(start)),
        kind@ == "cursor_after"@ ==> r == Ok::<TextSelection, ToolError>(TextSelection::Caret(end)),
        kind@ == "text"@ ==> r == Ok::<TextSelection, ToolError>(TextSelection::Range(start, end)),
        kind@ != "cursor_before"@ && kind@ != "cursor_after"@ && kind@ != "text"@ ==> (r matches Err(e)
            && e.code@ == "invalid_argument"@ && e.message@ == "Unknown selectionType"@),
{
    proof {
        reveal_strlit("cursor_before");
        reveal_strlit("cursor_after");
        reveal_strlit("text");
        assert("cursor_before"@[7] != "cursor_after"@[7]);
        assert("text"@.len() != "cursor_before"@.len());
        assert("text"@.len() != "cursor_after"@.len());
    }
    let k = chars_of(kind);
    if eq_lit(k.as_slice(), "cursor_before") {
        Ok(TextSelection::Caret(start))
    } else if eq_lit(k.as_slice(), "cursor_after") {
        Ok(TextSelection::Caret(end))
    } else if eq_lit(k.as_slice(), "text") {
        Ok(TextSelection::Range(start, end))
    } else {
        Err(fail("invalid_argument", "Unknown selectionType"))
    }
}

/// What an element's accessibility action answered: not acknowledged within
/// its two seconds (`None`), rejected (`Some(false)`) or carried out.
pub fn action_answer(acknowledged: Option<bool>) -> (r: Result<(), ToolError>)
    ensures
        acknowledged is None ==> (r matches Err(e) && e.code@ == "action_pending"@ && e.message@
            == "Application has not acknowledged the action; observe its state before acting again"@
            && !e.retryable),
        acknowledged == Some(false) ==> (r matches Err(e) && e.code@ == "action_failed"@ && e.message@
            == "Application rejected the accessibility action"@ && !e.retryable),
        acknowledged == Some(true) ==> r is Ok,
{
    match acknowledged {
        None => Err(
            fail(
                "action_pending",
                "Application has not acknowledged the action; observe its state before acting again",
            ),
        ),
        Some(false) => Err(fail("action_failed", "Application rejected the accessibility action")),
        Some(true) => Ok(()),
    }
}

/// How an element takes a value.
#[derive(Debug, Clone, Copy, PartialEq, Eq, Structural)]
pub enum ValueRoute {
    /// Replace its text contents.
    Text,
    /// Set its current numeric value.
    Number,
}

/// How to set an element's value: as text where it is editable, else as a
/// number where it holds one; an element with neither is refused.
pub fn value_route(editable: bool, numeric: bool) -> (r: Result<ValueRoute, ToolError>)
    ensures
        editable ==> r == Ok::<ValueRoute, ToolError>(ValueRoute::Text),
        !editable && numeric ==> r == Ok::<ValueRoute, ToolError>(ValueRoute::Number),
        !editable && !numeric ==> (r matches Err(e) && e.code@ == "unsupported"@ && e.message@
            == "Element exposes neither EditableText nor Value"@ && !e.retryable),
{
    if editable {
        Ok(ValueRoute::Text)
    } else if numeric {
        Ok(ValueRoute::Number)
    } else {
        Err(fail("unsupported", "Element exposes neither EditableText nor Value"))
    }
}

/// What replacing an element's text answered: accepted or rejected.
pub fn text_edit_answer(accepted: bool) -> (r: Result<(), ToolError>)
    ensures
        accepted ==> r is Ok,
        !accepted ==> (r matches Err(e) && e.code@ == "action_failed"@ && e.message@
            == "Application rejected text editing"@ && !e.retryable),
{
    if accepted {
        Ok(())
    } else {
        Err(fail("action_failed", "Application rejected text editing"))
    }
}

/// The refusal of a value that is not a finite number for a numeric
/// element.
pub fn not_a_number() -> (e: ToolError)
    ensures
        e.code@ == "invalid_argument"@,
        e.message@ == "Numeric control requires a finite number"@,
        !e.retryable,
{
    fail("invalid_argument", "Numeric control requires a finite number")
}

/// What making a selection answered: accepted or rejected.
pub fn selection_answer(accepted: bool) -> (r: Result<(), ToolError>)
    ensures
        accepted ==> r is Ok,
        !accepted ==> (r matches Err(e) && e.code@ == "action_failed"@ && e.message@
            == "Application rejected text selection"@ && !e.retryable),
{
    if accepted {
        Ok(())
    } else {
        Err(fail("action_failed", "Application rejected text selection"))
    }
}

/// Law: with no action named, an element's click, press or activate action,
/// in any ASCII case, is the one run, and no other action is.
pub proof fn law_default_actions(a: Seq<char>)
    ensures
        answers(a, None) <==> (lower(a) == lower("click"@) || lower(a) == lower("press"@) || lower(a) == lower(
            "activate"@,
        )),
{
}

/// Law: a requested action is found up to ASCII case, whatever the case of
/// the request.
pub proof fn law_named_actions_ignore_case(a: Seq<char>, n: Seq<char>)
    ensures
        answers(a, Some(n)) <==> lower(a) == lower(n),
        answers(a, Some(n)) <==> answers(a, Some(lower(n))),
{
    crate::keymap::lemma_lower_idempotent(n);
}

/// Law: a root's score adds two independent bonuses: 4 when its name is the
/// window title, and 2 when its extents lie within 32 pixels of the window's
/// x, 64 of its y, 64 of its width and 96 of its height; nothing else
/// counts.
pub proof fn law_root_score_bonuses(
    name: Seq<char>,
    title: Seq<char>,
    extents: Option<(i32, i32, i32, i32)>,
    geometry: Bbox,
)
    ensures
        root_score_of(name, title, extents, geometry) == (if name == title { 4int } else { 0int }) + match extents {
            Some((x, y, w, h)) => if -32 <= x - geometry.x <= 32 && -64 <= y - geometry.y <= 64 && -64 <= w
                - geometry.w <= 64 && -96 <= h - geometry.h <= 96 {
                2int
            } else {
                0int
            },
            None => 0int,
        },
        root_score_of(name, title, extents, geometry) - root_score_of(name, title, None, geometry)
            == root_score_of(title.push('x'), title, extents, geometry) - root_score_of(title.push('x'), title, None, geometry),
{
    assert(title.push('x') != title) by {
        assert(title.push('x').len() != title.len());
    }
}

} // verus!
