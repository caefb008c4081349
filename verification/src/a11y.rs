//! Accessibility trees: element references that name a node on a bus, the
//! flat element records an observation yields, and the breadth-first walk
//! that produces them within depth and size limits.
use crate::text::{
    chars_of, contains_text, eq_chars, find_char, lemma_utf8_injective, lower, lower_vec,
    split_once_char, string_of, utf8, utf8_of,
};
use crate::error::fail;
use crate::types::{Ref, ToolError, Trust, TrustedText};
use base64::Engine;
use std::collections::VecDeque;
use vstd::prelude::*;

verus! {

/// One accessible node as an observation reports it. The role comes from the
/// accessibility API and is trusted; the name and value are application text.
#[derive(Debug)]
pub struct FlatElement {
    pub id: Ref,
    pub bus_guid: String,
    pub parent_id: Option<Ref>,
    pub child_count: u32,
    pub role: TrustedText,
    pub name: TrustedText,
    pub value: Option<TrustedText>,
    pub states: Vec<String>,
    pub bbox: Option<[i32; 4]>,
    pub actions: Vec<String>,
}

/// Limits and filters of a walk.
#[derive(Debug)]
pub struct WalkOpts {
    pub max_depth: u32,
    pub max_elements: usize,
    pub role_filter: Option<Vec<String>>,
    pub name_contains: Option<String>,
}

/// The base64 text of some bytes (standard alphabet, padded).
pub uninterp spec fn base64_text(bytes: Seq<u8>) -> Seq<char>;

/// The bytes a base64 text decodes to, if it is valid.
pub uninterp spec fn base64_bytes(text: Seq<char>) -> Option<Seq<u8>>;

/// `base64::engine::general_purpose::STANDARD.encode`. Decoding what it
/// produced gives the input back.
#[verifier::external_body]
fn base64_encode(bytes: &[u8]) -> (r: String)
    ensures
        r@ == base64_text(bytes@),
        base64_bytes(r@) == Some(bytes@),
{
    base64::engine::general_purpose::STANDARD.encode(bytes)
}

/// `base64::engine::general_purpose::STANDARD.decode`, its error dropped.
#[verifier::external_body]
fn base64_decode(text: &str) -> (r: Option<Vec<u8>>)
    ensures
        match base64_bytes(text@) {
            Some(b) => r matches Some(v) && v@ == b,
            None => r is None,
        },
{
    base64::engine::general_purpose::STANDARD.decode(text).ok()
}

/// `String::from_utf8`, its error dropped: the text whose UTF-8 encoding the
/// bytes are, when there is one.
#[verifier::external_body]
fn utf8_string(bytes: Vec<u8>) -> (r: Option<String>)
    ensures
        r is Some ==> utf8(r->0@) == bytes@,
        forall|t: Seq<char>| utf8(t) == bytes@ ==> (r is Some && r->0@ == t),
{
    String::from_utf8(bytes).ok()
}

/// The text of an element reference: bus name and object path.
pub open spec fn ref_text(bus: Seq<char>, path: Seq<char>) -> Seq<char> {
    bus + "|"@ + path
}

/// The reference that names the object `path` on the bus `bus`.
pub open spec fn element_ref(bus: Seq<char>, path: Seq<char>) -> Seq<char> {
    base64_text(utf8(ref_text(bus, path)))
}

/// The bus and path a reference names: the base64 payload decoded as UTF-8
/// and split at the first `|`.
pub open spec fn ref_parts(payload: Seq<char>) -> Option<(Seq<char>, Seq<char>)> {
    match base64_bytes(payload) {
        None => None,
        Some(b) => if exists|t: Seq<char>| utf8(t) == b {
            let t = choose|t: Seq<char>| utf8(t) == b;
            match find_char(t, '|') {
                Some(i) => Some((t.take(i), t.skip(i + 1))),
                None => None,
            }
        } else {
            None
        },
    }
}

/// The reference of the object `path` on the bus `bus`. A bus name without
/// `|` comes back unchanged from `decode_element_ref`, with the path.
pub fn encode_element_ref(bus: &str, path: &str) -> (r: String)
    ensures
        r@ == element_ref(bus@, path@),
        !bus@.contains('|') ==> ref_parts(r@) == Some((bus@, path@)),
{
    let mut text = chars_of(bus);
    text.push('|');
    let mut p = chars_of(path);
    text.append(&mut p);
    proof {
        reveal_strlit("|");
        assert(text@ =~= ref_text(bus@, path@));
    }
    let bytes = utf8_of(text.as_slice());
    let r = base64_encode(bytes.as_slice());
    proof {
        let t = ref_text(bus@, path@);
        if !bus@.contains('|') {
            let c = choose|c: Seq<char>| utf8(c) == utf8(t);
            lemma_utf8_injective(c, t);
            crate::text::lemma_find_char(t, '|');
            assert(t[bus@.len() as int] == '|');
            match find_char(t, '|') {
                Some(i) => {
                    if i < bus@.len() {
                        assert(t[i] == bus@[i]);
                    }
                    assert(i == bus@.len());
                    assert(t.take(i) =~= bus@);
                    assert(t.skip(i + 1) =~= path@);
                },
                None => {},
            }
        }
    }
    r
}

/// The bus and path a reference names, if it is one.
pub fn decode_element_ref(payload: &str) -> (r: Option<(String, String)>)
    ensures
        match ref_parts(payload@) {
            Some((bus, path)) => r matches Some((b, p)) && b@ == bus && p@ == path,
            None => r is None,
        },
{
    let raw = match base64_decode(payload) {
        Some(raw) => raw,
        None => return None,
    };
    let ghost b = raw@;
    let s = match utf8_string(raw) {
        Some(s) => s,
        None => {
            return None;
        },
    };
    proof {
        let t = choose|t: Seq<char>| utf8(t) == b;
        lemma_utf8_injective(t, s@);
    }
    let c = chars_of(s.as_str());
    match split_once_char(c.as_slice(), '|') {
        Some((bus, path)) => Some((string_of(bus.as_slice()), string_of(path.as_slice()))),
        None => None,
    }
}

/// The bus and path an element reference names; a reference that names
/// none is refused as stale.
pub fn element_target(reference: &str) -> (r: Result<(String, String), ToolError>)
    ensures
        match ref_parts(reference@) {
            Some((bus, path)) => r matches Ok((b, p)) && b@ == bus && p@ == path,
            None => r matches Err(e) && e.code@ == "stale_element"@ && e.message@
                == "Invalid accessibility reference"@ && !e.retryable,
        },
{
    match decode_element_ref(reference) {
        Some(parts) => Ok(parts),
        None => Err(fail("stale_element", "Invalid accessibility reference")),
    }
}

/// The process whose accessibility tree belongs to a window; a window
/// without one cannot be observed.
pub fn window_pid(pid: Option<u32>) -> (r: Result<u32, ToolError>)
    ensures
        match pid {
            Some(p) => r == Ok::<u32, ToolError>(p),
            None => r matches Err(e) && e.code@ == "accessibility_unavailable"@ && e.message@
                == "Window has no process identity"@ && !e.retryable,
        },
{
    match pid {
        Some(p) => Ok(p),
        None => Err(fail("accessibility_unavailable", "Window has no process identity")),
    }
}

/// `str::to_lowercase` (full Unicode lower-casing).
pub uninterp spec fn unicode_lower(s: Seq<char>) -> Seq<char>;

#[verifier::external_body]
pub(crate) fn to_lowercase(s: &str) -> (r: String)
    ensures
        r@ == unicode_lower(s@),
{
    s.to_lowercase()
}

/// Whether two texts are equal up to ASCII case (`eq_ignore_ascii_case`).
pub open spec fn same_ascii_case(a: Seq<char>, b: Seq<char>) -> bool {
    lower(a) == lower(b)
}

pub fn eq_ignore_ascii_case(a: &str, b: &str) -> (r: bool)
    ensures
        r == same_ascii_case(a@, b@),
{
    let x = chars_of(a);
    let y = chars_of(b);
    let lx = lower_vec(x.as_slice());
    let ly = lower_vec(y.as_slice());
    eq_chars(lx.as_slice(), ly.as_slice())
}

pub open spec fn string_texts(v: Seq<String>) -> Seq<Seq<char>> {
    v.map_values(|s: String| s@)
}

/// Whether an element with this role and name passes a walk's filters: its
/// role is one of the allowed roles (up to ASCII case), and its name contains
/// the wanted text (up to Unicode case).
pub open spec fn passes_filters(
    role_filter: Option<Seq<Seq<char>>>,
    name_contains: Option<Seq<char>>,
    role: Seq<char>,
    name: Seq<char>,
) -> bool {
    &&& match role_filter {
        Some(allow) => exists|i: int| 0 <= i < allow.len() && same_ascii_case(#[trigger] allow[i], role),
        None => true,
    }
    &&& match name_contains {
        Some(sub) => contains_text(unicode_lower(name), unicode_lower(sub)),
        None => true,
    }
}

/// The text a walk reports when it found nothing and nothing went wrong.
pub open spec fn empty_tree_warning() -> Seq<char> {
    "AT-SPI tree empty — the target app may have accessibility disabled; enable its accessibility support or use vision fallback"@
}

/// A breadth-first walk over an accessibility tree whose nodes are reached
/// through handles of type `N`. The walk decides; the caller reads nodes.
pub struct Walk<N> {
    queue: VecDeque<(N, u32, Option<Ref>)>,
    found: Vec<FlatElement>,
    warnings: Vec<String>,
    truncated: bool,
    stopped: bool,
    max_depth: u32,
    max_elements: usize,
    role_filter: Option<Vec<String>>,
    name_contains: Option<String>,
}

impl<N> Walk<N> {
    #[verifier::type_invariant]
    spec fn bounded(self) -> bool {
        &&& self.found@.len() <= self.max_elements
        &&& self.truncated ==> self.stopped
    }

    /// Nodes waiting to be visited, in visiting order.
    pub closed spec fn pending(&self) -> Seq<(N, u32, Option<Ref>)> {
        self.queue@
    }

    /// Elements kept so far.
    pub closed spec fn kept(&self) -> Seq<FlatElement> {
        self.found@
    }

    /// Warnings so far.
    pub closed spec fn notes(&self) -> Seq<Seq<char>> {
        string_texts(self.warnings@)
    }

    pub closed spec fn is_truncated(&self) -> bool {
        self.truncated
    }

    pub closed spec fn is_stopped(&self) -> bool {
        self.stopped
    }

    pub closed spec fn depth_limit(&self) -> u32 {
        self.max_depth
    }

    pub closed spec fn size_limit(&self) -> usize {
        self.max_elements
    }

    pub closed spec fn role_allow(&self) -> Option<Seq<Seq<char>>> {
        match self.role_filter {
            Some(v) => Some(string_texts(v@)),
            None => None,
        }
    }

    pub closed spec fn name_filter(&self) -> Option<Seq<char>> {
        match self.name_contains {
            Some(s) => Some(s@),
            None => None,
        }
    }

    /// A walk from `root`, at depth 0 and without a parent.
    pub fn new(root: N, opts: WalkOpts) -> (w: Walk<N>)
        ensures
            w.pending() == seq![(root, 0u32, None::<Ref>)],
            w.kept().len() == 0,
            w.notes().len() == 0,
            !w.is_truncated(),
            !w.is_stopped(),
            w.depth_limit() == opts.max_depth,
            w.size_limit() == opts.max_elements,
            w.role_allow() == match opts.role_filter {
                Some(v) => Some(string_texts(v@)),
                None => None::<Seq<Seq<char>>>,
            },
            w.name_filter() == match opts.name_contains {
                Some(s) => Some(s@),
                None => None::<Seq<char>>,
            },
    {
        let mut queue = VecDeque::new();
        queue.push_back((root, 0u32, None));
        let w = Walk {
            queue,
            found: Vec::new(),
            warnings: Vec::new(),
            truncated: false,
            stopped: false,
            max_depth: opts.max_depth,
            max_elements: opts.max_elements,
            role_filter: opts.role_filter,
            name_contains: opts.name_contains,
        };
        assert(w.queue@ =~= seq![(root, 0u32, None::<Ref>)]);
        w
    }

    /// The next node to visit, in breadth-first order. The walk ends when no
    /// node is left, and stops as truncated when it already holds as many
    /// elements as allowed while nodes remain.
    pub fn next(&mut self) -> (r: Option<(N, u32, Option<Ref>)>)
        ensures
            final(self).kept() == old(self).kept(),
            final(self).notes() == old(self).notes(),
            final(self).depth_limit() == old(self).depth_limit(),
            final(self).size_limit() == old(self).size_limit(),
            final(self).role_allow() == old(self).role_allow(),
            final(self).name_filter() == old(self).name_filter(),
            old(self).is_stopped() || old(self).pending().len() == 0 ==> r is None
                && final(self).pending() == old(self).pending()
                && final(self).is_truncated() == old(self).is_truncated()
                && final(self).is_stopped() == old(self).is_stopped(),
            !old(self).is_stopped() && old(self).pending().len() > 0 && old(self).kept().len()
                >= old(self).size_limit() ==> r is None && final(self).is_truncated()
                && final(self).is_stopped(),
            !old(self).is_stopped() && old(self).pending().len() > 0 && old(self).kept().len()
                < old(self).size_limit() ==> r == Some(old(self).pending()[0])
                && final(self).pending() == old(self).pending().drop_first()
                && final(self).is_truncated() == old(self).is_truncated()
                && final(self).is_stopped() == old(self).is_stopped(),
    {
        proof {
            use_type_invariant(&*self);
        }
        if self.stopped {
            return None;
        }
        let mut queue = VecDeque::new();
        std::mem::swap(&mut queue, &mut self.queue);
        let item = queue.pop_front();
        match item {
            None => {
                self.queue = queue;
                None
            },
            Some(node) => {
                if self.found.len() >= self.max_elements {
                    self.queue = queue;
                    self.stopped = true;
                    self.truncated = true;
                    return None;
                }
                assert(queue@ =~= old(self).queue@.drop_first());
                self.queue = queue;
                Some(node)
            },
        }
    }

    /// Notes a node whose role could not be read; it is skipped with its
    /// subtree.
    pub fn skip_unreadable(&mut self, bus: &str, path: &str, error: &str)
        ensures
            final(self).notes() == old(self).notes().push("get_role failed at "@ + bus@ + path@ + ": "@ + error@),
            final(self).kept() == old(self).kept(),
            final(self).pending() == old(self).pending(),
            final(self).is_truncated() == old(self).is_truncated(),
            final(self).is_stopped() == old(self).is_stopped(),
            final(self).depth_limit() == old(self).depth_limit(),
            final(self).size_limit() == old(self).size_limit(),
            final(self).role_allow() == old(self).role_allow(),
            final(self).name_filter() == old(self).name_filter(),
    {
        proof {
            use_type_invariant(&*self);
        }
        let mut m = String::from_str("get_role failed at ");
        m.append(bus);
        m.append(path);
        m.append(": ");
        m.append(error);
        let ghost before = self.warnings@;
        let mut warnings = Vec::new();
        std::mem::swap(&mut warnings, &mut self.warnings);
        warnings.push(m);
        self.warnings = warnings;
        assert(string_texts(self.warnings@) =~= string_texts(before).push(self.warnings@.last()@));
    }

    /// Whether an element with this role and name is kept.
    pub fn keeps(&self, role: &str, name: &str) -> (b: bool)
        ensures
            b == passes_filters(self.role_allow(), self.name_filter(), role@, name@),
    {
        let passes_role = match &self.role_filter {
            None => true,
            Some(allow) => {
                let mut found = false;
                let mut i: usize = 0;
                while i < allow.len()
                    invariant
                        i <= allow@.len(),
                        found == exists|j: int| 0 <= j < i && same_ascii_case(#[trigger] string_texts(allow@)[j], role@),
                    decreases allow@.len() - i,
                {
                    let hit = eq_ignore_ascii_case(allow[i].as_str(), role);
                    assert(string_texts(allow@)[i as int] == allow@[i as int]@);
                    found = found || hit;
                    i += 1;
                }
                found
            },
        };
        let passes_name = match &self.name_contains {
            None => true,
            Some(sub) => {
                let n = to_lowercase(name);
                let s = to_lowercase(sub.as_str());
                let nc = chars_of(n.as_str());
                let sc = chars_of(s.as_str());
                contains_chars(nc.as_slice(), sc.as_slice())
            },
        };
        passes_role && passes_name
    }

    /// Keeps an element; a walk never holds more than its limit.
    pub fn record(&mut self, element: FlatElement)
        ensures
            final(self).kept() == if old(self).kept().len() < old(self).size_limit() {
                old(self).kept().push(element)
            } else {
                old(self).kept()
            },
            final(self).notes() == old(self).notes(),
            final(self).pending() == old(self).pending(),
            final(self).is_truncated() == old(self).is_truncated(),
            final(self).is_stopped() == old(self).is_stopped(),
            final(self).depth_limit() == old(self).depth_limit(),
            final(self).size_limit() == old(self).size_limit(),
            final(self).role_allow() == old(self).role_allow(),
            final(self).name_filter() == old(self).name_filter(),
    {
        proof {
            use_type_invariant(&*self);
        }
        if self.found.len() < self.max_elements {
            let mut found = Vec::new();
            std::mem::swap(&mut found, &mut self.found);
            found.push(element);
            self.found = found;
        }
    }

    /// Whether the children of a node at `depth` are visited.
    pub fn descends(&self, depth: u32) -> (b: bool)
        ensures
            b == (depth + 1 <= self.depth_limit()),
    {
        (depth as u64) + 1 <= self.max_depth as u64
    }

    /// Queues a child of `parent`, at `depth`, after every node already queued.
    pub fn enqueue(&mut self, child: N, depth: u32, parent: Ref)
        ensures
            final(self).pending() == old(self).pending().push((child, depth, Some(parent))),
            final(self).kept() == old(self).kept(),
            final(self).notes() == old(self).notes(),
            final(self).is_truncated() == old(self).is_truncated(),
            final(self).is_stopped() == old(self).is_stopped(),
            final(self).depth_limit() == old(self).depth_limit(),
            final(self).size_limit() == old(self).size_limit(),
            final(self).role_allow() == old(self).role_allow(),
            final(self).name_filter() == old(self).name_filter(),
    {
        proof {
            use_type_invariant(&*self);
        }
        let mut queue = VecDeque::new();
        std::mem::swap(&mut queue, &mut self.queue);
        queue.push_back((child, depth, Some(parent)));
        self.queue = queue;
    }

    /// The walk's result: the kept elements, whether it was truncated, and
    /// its warnings (a note on an empty tree when nothing else was said).
    pub fn finish(self) -> (r: (Vec<FlatElement>, bool, Vec<String>))
        ensures
            r.0@ == self.kept(),
            r.0@.len() <= self.size_limit(),
            r.1 == self.is_truncated(),
            string_texts(r.2@) == if self.kept().len() == 0 && self.notes().len() == 0 {
                seq![empty_tree_warning()]
            } else {
                self.notes()
            },
    {
        proof {
            use_type_invariant(&self);
        }
        let mut warnings = self.warnings;
        if self.found.len() == 0 && warnings.len() == 0 {
            warnings.push(String::from_str("AT-SPI tree empty — the target app may have accessibility disabled; enable its accessibility support or use vision fallback"));
            assert(string_texts(warnings@) =~= seq![empty_tree_warning()]);
        }
        (self.found, self.truncated, warnings)
    }
}

/// Whether `pat` occurs in `s`.
pub fn contains_chars(s: &[char], pat: &[char]) -> (b: bool)
    ensures
        b == contains_text(s@, pat@),
{
    let m = pat.len();
    if m > s.len() {
        return false;
    }
    let last = s.len() - m;
    let mut i: usize = 0;
    while i <= last
        invariant
            m == pat@.len(),
            m <= s@.len(),
            last == s@.len() - m,
            s@.len() <= usize::MAX,
            i <= last + 1,
            forall|j: int| 0 <= j < i ==> #[trigger] s@.subrange(j, j + m) != pat@,
        decreases s@.len() + 1 - i,
    {
        let cand = crate::text::slice_range(s, i, i + m);
        if eq_chars(cand.as_slice(), pat) {
            return true;
        }
        if i == last {
            assert forall|j: int| 0 <= j && j + pat@.len() <= s@.len() implies #[trigger] s@.subrange(j, j + pat@.len()) != pat@ by {
                assert(j <= i);
            }
            return false;
        }
        i += 1;
    }
    false
}

/// The number of children a node reports, negative counts read as none.
pub fn child_count_of(n: i32) -> (r: u32)
    ensures
        r == if n < 0 { 0 } else { n as u32 },
{
    if n < 0 {
        0
    } else {
        n as u32
    }
}

/// An element's text value: the node's text when it has characters and the
/// text is not empty, as application text.
pub fn text_value(character_count: i32, text: Option<String>) -> (r: Option<TrustedText>)
    ensures
        match text {
            Some(s) => if character_count > 0 && s@.len() > 0 {
                r matches Some(v) && v.trust == Trust::External && v.text@ == s@
            } else {
                r is None
            },
            None => r is None,
        },
{
    if character_count <= 0 {
        return None;
    }
    match text {
        Some(s) => if s.as_str().is_empty() {
            None
        } else {
            Some(TrustedText { trust: Trust::External, text: s })
        },
        None => None,
    }
}

impl FlatElement {
    /// An element as observed: its role trusted, its name application text.
    pub fn observed(
        id: Ref,
        bus_guid: String,
        parent_id: Option<Ref>,
        child_count: u32,
        role: String,
        name: String,
        value: Option<TrustedText>,
        states: Vec<String>,
        bbox: Option<[i32; 4]>,
        actions: Vec<String>,
    ) -> (e: FlatElement)
        ensures
            e.id == id,
            e.bus_guid == bus_guid,
            e.parent_id == parent_id,
            e.child_count == child_count,
            e.role.trust == Trust::Trusted,
            e.role.text == role,
            e.name.trust == Trust::External,
            e.name.text == name,
            e.value == value,
            e.states == states,
            e.bbox == bbox,
            e.actions == actions,
    {
        FlatElement {
            id,
            bus_guid,
            parent_id,
            child_count,
            role: TrustedText { trust: Trust::Trusted, text: role },
            name: TrustedText { trust: Trust::External, text: name },
            value,
            states,
            bbox,
            actions,
        }
    }
}

} // verus!
