//! What the engine remembers between requests: the applications selected,
//! and per application the latest observation (its element indices, the
//! signatures used for diffs, the window and frame it was taken of). Every
//! action is checked against this memory before it reaches the desktop.
use crate::a11y::FlatElement;
use crate::desktop::apps::{app_owns, app_view, Application};
use crate::desktop::geometry::Frame;
use crate::drivers::WindowInfo;
use crate::error::fail;
use crate::table::{last_assigned, lookup, pair_views, sorted_keys, TextTable};
use crate::text::{chars_of, eq_chars, eq_lit};
use crate::types::{Bbox, ToolError};
use vstd::prelude::*;

verus! {

/// How long an observation's element indices stay valid, in milliseconds.
pub const OBSERVATION_TTL_MS: u64 = 60_000;

/// The latest observation of one application.
#[derive(Debug)]
pub struct Observation {
    /// Elements by the index handed out for them.
    pub elements: Vec<(u64, FlatElement)>,
    /// The signature of each element reference, for the next diff.
    pub previous: TextTable,
    /// The latest screenshot frame of the observed window.
    pub frame: Option<Frame>,
    /// The window observed.
    pub window: Option<String>,
    /// When the elements were observed, in milliseconds of a monotonic clock.
    pub observed_at: Option<u64>,
    /// The window's geometry when observed.
    pub observed_geometry: Option<Bbox>,
}

impl Observation {
    /// An observation of nothing.
    pub fn empty() -> (o: Observation)
        ensures
            o.elements@.len() == 0,
            o.previous@.len() == 0,
            o.frame is None,
            o.window is None,
            o.observed_at is None,
            o.observed_geometry is None,
    {
        Observation {
            elements: Vec::new(),
            previous: TextTable::new(),
            frame: None,
            window: None,
            observed_at: None,
            observed_geometry: None,
        }
    }
}

/// The engine's memory.
#[derive(Debug)]
pub struct EngineState {
    /// Selected applications; the first with an ID is the one used.
    pub apps: Vec<Application>,
    /// Observations by application ID; the first with an ID is the one used.
    pub observations: Vec<(String, Observation)>,
    /// The last element index handed out.
    pub next_index: u64,
}

/// The position of the first selected application with ID `id`.
pub open spec fn app_slot(apps: Seq<Application>, id: Seq<char>) -> Option<int>
    decreases apps.len(),
{
    if apps.len() == 0 {
        None
    } else if apps[0].id@ == id {
        Some(0)
    } else {
        match app_slot(apps.drop_first(), id) {
            Some(i) => Some(i + 1),
            None => None,
        }
    }
}

/// The position of the observation of application `id`.
pub open spec fn obs_slot(obs: Seq<(String, Observation)>, id: Seq<char>) -> Option<int>
    decreases obs.len(),
{
    if obs.len() == 0 {
        None
    } else if obs[0].0@ == id {
        Some(0)
    } else {
        match obs_slot(obs.drop_first(), id) {
            Some(i) => Some(i + 1),
            None => None,
        }
    }
}

/// The observation of application `id`, if any.
pub open spec fn observation_of(obs: Seq<(String, Observation)>, id: Seq<char>) -> Option<Observation> {
    match obs_slot(obs, id) {
        Some(i) => Some(obs[i].1),
        None => None,
    }
}

pub proof fn lemma_app_slot(apps: Seq<Application>, id: Seq<char>)
    ensures
        match app_slot(apps, id) {
            Some(i) => 0 <= i < apps.len() && apps[i].id@ == id && forall|j: int| 0 <= j < i ==> #[trigger] apps[j].id@ != id,
            None => forall|j: int| 0 <= j < apps.len() ==> #[trigger] apps[j].id@ != id,
        },
    decreases apps.len(),
{
    if apps.len() > 0 {
        lemma_app_slot(apps.drop_first(), id);
        assert forall|j: int| 0 < j < apps.len() implies apps[j] == apps.drop_first()[j - 1] by {}
    }
}

pub proof fn lemma_obs_slot(obs: Seq<(String, Observation)>, id: Seq<char>)
    ensures
        match obs_slot(obs, id) {
            Some(i) => 0 <= i < obs.len() && obs[i].0@ == id && forall|j: int| 0 <= j < i ==> #[trigger] obs[j].0@ != id,
            None => forall|j: int| 0 <= j < obs.len() ==> #[trigger] obs[j].0@ != id,
        },
    decreases obs.len(),
{
    if obs.len() > 0 {
        lemma_obs_slot(obs.drop_first(), id);
        assert forall|j: int| 0 < j < obs.len() implies obs[j] == obs.drop_first()[j - 1] by {}
    }
}

/// The first element with index `index`.
pub open spec fn element_at(elements: Seq<(u64, FlatElement)>, index: u64) -> Option<FlatElement>
    decreases elements.len(),
{
    if elements.len() == 0 {
        None
    } else if elements[0].0 == index {
        Some(elements[0].1)
    } else {
        element_at(elements.drop_first(), index)
    }
}

/// Whether an observation still describes this window: taken less than a
/// minute ago, of this window, at its current geometry.
pub open spec fn observation_fresh(o: Observation, window_ref: Seq<char>, geometry: Bbox, now: u64) -> bool {
    &&& o.observed_at matches Some(at) && !(now > at && now - at > OBSERVATION_TTL_MS)
    &&& o.window matches Some(w) && w@ == window_ref
    &&& o.observed_geometry == Some(geometry)
}

fn same_text(a: &String, b: &String) -> (r: bool)
    ensures
        r == (a@ == b@),
{
    let x = chars_of(a.as_str());
    let y = chars_of(b.as_str());
    eq_chars(x.as_slice(), y.as_slice())
}

impl EngineState {
    /// Nothing selected or observed.
    pub fn new() -> (s: EngineState)
        ensures
            s.apps@.len() == 0,
            s.observations@.len() == 0,
            s.next_index == 0,
    {
        EngineState { apps: Vec::new(), observations: Vec::new(), next_index: 0 }
    }

    fn find_app(&self, id: &str) -> (r: Option<usize>)
        ensures
            match r {
                Some(i) => app_slot(self.apps@, id@) == Some(i as int) && i < self.apps@.len()
                    && self.apps@[i as int].id@ == id@,
                None => app_slot(self.apps@, id@) is None,
            },
    {
        proof {
            lemma_app_slot(self.apps@, id@);
        }
        let target = chars_of(id);
        let mut i: usize = 0;
        while i < self.apps.len()
            invariant
                i <= self.apps@.len(),
                target@ == id@,
                forall|j: int| 0 <= j < i ==> #[trigger] self.apps@[j].id@ != id@,
                match app_slot(self.apps@, id@) {
                    Some(k) => 0 <= k < self.apps@.len() && self.apps@[k].id@ == id@ && forall|j: int| 0 <= j < k ==> #[trigger] self.apps@[j].id@ != id@,
                    None => forall|j: int| 0 <= j < self.apps@.len() ==> #[trigger] self.apps@[j].id@ != id@,
                },
            decreases self.apps@.len() - i,
        {
            let c = chars_of(self.apps[i].id.as_str());
            if eq_chars(c.as_slice(), target.as_slice()) {
                return Some(i);
            }
            i += 1;
        }
        None
    }

    fn find_observation(&self, id: &str) -> (r: Option<usize>)
        ensures
            match r {
                Some(i) => obs_slot(self.observations@, id@) == Some(i as int) && i
                    < self.observations@.len(),
                None => obs_slot(self.observations@, id@) is None,
            },
    {
        proof {
            lemma_obs_slot(self.observations@, id@);
        }
        let target = chars_of(id);
        let mut i: usize = 0;
        while i < self.observations.len()
            invariant
                i <= self.observations@.len(),
                target@ == id@,
                forall|j: int| 0 <= j < i ==> #[trigger] self.observations@[j].0@ != id@,
                match obs_slot(self.observations@, id@) {
                    Some(k) => 0 <= k < self.observations@.len() && self.observations@[k].0@ == id@ && forall|j: int| 0 <= j < k ==> #[trigger] self.observations@[j].0@ != id@,
                    None => forall|j: int| 0 <= j < self.observations@.len() ==> #[trigger] self.observations@[j].0@ != id@,
                },
            decreases self.observations@.len() - i,
        {
            let c = chars_of(self.observations[i].0.as_str());
            if eq_chars(c.as_slice(), target.as_slice()) {
                return Some(i);
            }
            i += 1;
        }
        None
    }

    /// Selects `app`, replacing an earlier selection with the same ID.
    pub fn select_app(&mut self, app: Application)
        ensures
            match app_slot(final(self).apps@, app.id@) {
                Some(i) => app_view(final(self).apps@[i]) == app_view(app),
                None => false,
            },
            forall|k: Seq<char>| k != app.id@ ==> #[trigger] app_slot(final(self).apps@, k) == app_slot(old(self).apps@, k),
            final(self).observations == old(self).observations,
            final(self).next_index == old(self).next_index,
    {
        let ghost before = self.apps@;
        let ghost id = app.id@;
        match self.find_app(app.id.as_str()) {
            Some(i) => {
                let mut apps = Vec::new();
                std::mem::swap(&mut apps, &mut self.apps);
                apps.set(i, app);
                self.apps = apps;
                proof {
                    lemma_app_slot(before, id);
                    assert forall|k: Seq<char>| k != id implies #[trigger] app_slot(self.apps@, k) == app_slot(before, k) by {
                        lemma_same_ids(before, self.apps@, k);
                    }
                    lemma_same_ids(before, self.apps@, id);
                }
            },
            None => {
                let ghost v = app_view(app);
                self.apps.push(app);
                proof {
                    lemma_app_slot(before, id);
                    assert forall|k: Seq<char>| k != id implies #[trigger] app_slot(self.apps@, k) == app_slot(before, k) by {
                        lemma_app_slot_push(before, self.apps@.last(), k);
                    }
                    lemma_app_slot_push(before, self.apps@.last(), id);
                    lemma_app_slot(self.apps@, id);
                }
            },
        }
    }

    /// The selected application `id`.
    pub fn app(&self, id: &str) -> (r: Result<&Application, ToolError>)
        ensures
            match app_slot(self.apps@, id@) {
                Some(i) => r == Ok::<&Application, ToolError>(&self.apps@[i]),
                None => r matches Err(e) && e.code@ == "stale_target"@ && e.message@
                    == "Select the application with agentdesktop.getApp()"@ && !e.retryable,
            },
    {
        match self.find_app(id) {
            Some(i) => Ok(&self.apps[i]),
            None => Err(fail("stale_target", "Select the application with agentdesktop.getApp()")),
        }
    }

    /// The window application `id` was last observed in.
    pub fn last_window(&self, id: &str) -> (r: Option<String>)
        ensures
            match observation_of(self.observations@, id@) {
                Some(o) => match o.window {
                    Some(w) => r matches Some(s) && s@ == w@,
                    None => r is None,
                },
                None => r is None,
            },
    {
        match self.find_observation(id) {
            Some(i) => match &self.observations[i].1.window {
                Some(w) => Some(w.clone()),
                None => None,
            },
            None => None,
        }
    }

    /// The element `index` of application `id`, if the latest observation
    /// still holds for `window` at time `now` (milliseconds).
    pub fn element(&self, id: &str, window: &WindowInfo, index: u64, now: u64) -> (r: Result<&FlatElement, ToolError>)
        ensures
            match observation_of(self.observations@, id@) {
                None => r matches Err(e) && e.code@ == "stale_element"@ && e.message@
                    == "Observe the application first"@,
                Some(o) => if !observation_fresh(o, window.window_ref.0@, window.geometry, now) {
                    r matches Err(e) && e.code@ == "stale_element"@ && e.message@
                        == "Observation expired or window bounds changed; get fresh state"@
                } else {
                    match element_at(o.elements@, index) {
                        Some(el) => r matches Ok(x) && *x == el,
                        None => r matches Err(e) && e.code@ == "stale_element"@ && e.message@
                            == "Index is not from this target's latest observation"@,
                    }
                },
            },
    {
        let slot = match self.find_observation(id) {
            Some(i) => i,
            None => return Err(fail("stale_element", "Observe the application first")),
        };
        let o = &self.observations[slot].1;
        let expired = match o.observed_at {
            None => true,
            Some(at) => now > at && now - at > OBSERVATION_TTL_MS,
        };
        let same_window = match &o.window {
            Some(w) => same_text(w, &window.window_ref.0),
            None => false,
        };
        let same_geometry = match o.observed_geometry {
            Some(g) => g == window.geometry,
            None => false,
        };
        if expired || !same_window || !same_geometry {
            return Err(fail("stale_element", "Observation expired or window bounds changed; get fresh state"));
        }
        let mut k: usize = 0;
        assert(o.elements@.skip(0) =~= o.elements@);
        while k < o.elements.len()
            invariant
                k <= o.elements@.len(),
                element_at(o.elements@, index) == element_at(o.elements@.skip(k as int), index),
                observation_of(self.observations@, id@) == Some(*o),
                observation_fresh(*o, window.window_ref.0@, window.geometry, now),
            decreases o.elements@.len() - k,
        {
            proof {
                assert(o.elements@.skip(k as int).drop_first() =~= o.elements@.skip(k + 1));
                assert(o.elements@.skip(k as int)[0] == o.elements@[k as int]);
            }
            if o.elements[k].0 == index {
                return Ok(&o.elements[k].1);
            }
            k += 1;
        }
        Err(fail("stale_element", "Index is not from this target's latest observation"))
    }

    /// The frame coordinate actions on application `id` are mapped through:
    /// the latest screenshot of this very window, at its current geometry.
    pub fn point_frame(&self, id: &str, window: &WindowInfo) -> (r: Result<Frame, ToolError>)
        ensures
            match observation_of(self.observations@, id@) {
                Some(o) => if o.window matches Some(w) && w@ == window.window_ref.0@ {
                    match o.frame {
                        Some(f) => if f.geometry == window.geometry {
                            r == Ok::<Frame, ToolError>(f)
                        } else {
                            r matches Err(e) && e.code@ == "stale_screenshot"@ && e.message@
                                == "Window geometry changed; take a fresh screenshot"@
                        },
                        None => r matches Err(e) && e.code@ == "stale_screenshot"@ && e.message@
                            == "Take a target screenshot before coordinate actions"@,
                    }
                } else {
                    r matches Err(e) && e.code@ == "stale_screenshot"@ && e.message@
                        == "Take a target screenshot before coordinate actions"@
                },
                None => r matches Err(e) && e.code@ == "stale_screenshot"@ && e.message@
                    == "Take a target screenshot before coordinate actions"@,
            },
    {
        let missing = "Take a target screenshot before coordinate actions";
        let slot = match self.find_observation(id) {
            Some(i) => i,
            None => return Err(fail("stale_screenshot", missing)),
        };
        let o = &self.observations[slot].1;
        let same_window = match &o.window {
            Some(w) => same_text(w, &window.window_ref.0),
            None => false,
        };
        if !same_window {
            return Err(fail("stale_screenshot", missing));
        }
        match o.frame {
            None => Err(fail("stale_screenshot", missing)),
            Some(f) => if f.geometry == window.geometry {
                Ok(f)
            } else {
                Err(fail("stale_screenshot", "Window geometry changed; take a fresh screenshot"))
            },
        }
    }
}

proof fn lemma_same_ids(a: Seq<Application>, b: Seq<Application>, k: Seq<char>)
    requires
        a.len() == b.len(),
        forall|j: int| 0 <= j < a.len() ==> #[trigger] a[j].id@ == b[j].id@,
    ensures
        app_slot(a, k) == app_slot(b, k),
    decreases a.len(),
{
    if a.len() > 0 {
        assert forall|j: int| 0 <= j < a.len() - 1 implies #[trigger] a.drop_first()[j].id@ == b.drop_first()[j].id@ by {
            assert(a.drop_first()[j] == a[j + 1]);
            assert(b.drop_first()[j] == b[j + 1]);
        }
        lemma_same_ids(a.drop_first(), b.drop_first(), k);
    }
}

proof fn lemma_app_slot_push(a: Seq<Application>, x: Application, k: Seq<char>)
    ensures
        app_slot(a.push(x), k) == match app_slot(a, k) {
            Some(i) => Some(i),
            None => if x.id@ == k { Some(a.len() as int) } else { None },
        },
    decreases a.len(),
{
    if a.len() > 0 {
        assert(a.push(x)[0] == a[0]);
        assert(a.push(x).drop_first() =~= a.drop_first().push(x));
        lemma_app_slot_push(a.drop_first(), x, k);
        if a[0].id@ != k {
            assert(app_slot(a.push(x), k) == match app_slot(a.drop_first().push(x), k) {
                Some(i) => Some(i + 1),
                None => None::<int>,
            });
            assert(app_slot(a, k) == match app_slot(a.drop_first(), k) {
                Some(i) => Some(i + 1),
                None => None::<int>,
            });
        }
    } else {
        assert(a.push(x)[0] == x);
        assert(a.push(x).drop_first() =~= Seq::<Application>::empty());
        assert(app_slot(Seq::<Application>::empty(), k) is None);
        assert(app_slot(a, k) is None);
        if x.id@ == k {
            assert(app_slot(a.push(x), k) == Some(0int));
        } else {
            assert(app_slot(a.push(x), k) is None);
        }
    }
}

/// What recording an observation hands back: the index given to each
/// element, and the diff against the previous observation (none for a full
/// observation or when there was nothing before).
#[derive(Debug)]
pub struct ObservationRecord {
    pub indices: Vec<u64>,
    pub diff: Option<(Vec<u64>, Vec<String>)>,
}

/// The references of a list of elements.
pub open spec fn element_refs(es: Seq<FlatElement>) -> Seq<Seq<char>> {
    es.map_values(|e: FlatElement| e.id.0@)
}

/// The texts of a list of strings.
pub open spec fn texts(v: Seq<String>) -> Seq<Seq<char>> {
    v.map_values(|s: String| s@)
}

/// The indices (counted from `base + 1`) of the elements whose signature
/// differs from the one recorded for their reference before.
pub open spec fn changed_indices(
    before: Seq<(Seq<char>, Seq<char>)>,
    refs: Seq<Seq<char>>,
    sigs: Seq<Seq<char>>,
    base: int,
) -> Seq<u64>
    decreases refs.len(),
{
    if refs.len() == 0 {
        Seq::empty()
    } else {
        let n = refs.len() - 1;
        let rest = changed_indices(before, refs.drop_last(), sigs.take(n), base);
        if lookup(before, refs[n]) != Some(sigs[n]) {
            rest.push((base + n + 1) as u64)
        } else {
            rest
        }
    }
}

/// The references recorded before that the new observation no longer has,
/// in table order.
pub open spec fn removed_refs(before: Seq<(Seq<char>, Seq<char>)>, refs: Seq<Seq<char>>) -> Seq<Seq<char>>
    decreases before.len(),
{
    if before.len() == 0 {
        Seq::empty()
    } else {
        let rest = removed_refs(before.drop_last(), refs);
        if refs.contains(before.last().0) {
            rest
        } else {
            rest.push(before.last().0)
        }
    }
}

/// The reference/signature assignments of an observation, in order.
pub open spec fn signature_pairs(refs: Seq<Seq<char>>, sigs: Seq<Seq<char>>) -> Seq<(Seq<char>, Seq<char>)> {
    Seq::new(refs.len(), |i: int| (refs[i], sigs[i]))
}

/// The frame an observation keeps: the old one, if it is of the same window
/// at the same geometry.
pub open spec fn kept_frame(old: Observation, window_ref: Seq<char>, geometry: Bbox) -> Option<Frame> {
    if old.window matches Some(w) && w@ == window_ref {
        match old.frame {
            Some(f) => if f.geometry == geometry { Some(f) } else { None },
            None => None,
        }
    } else {
        None
    }
}

proof fn lemma_obs_slot_update(obs: Seq<(String, Observation)>, i: int, entry: (String, Observation), k: Seq<char>)
    requires
        obs_slot(obs, entry.0@) == Some(i),
    ensures
        obs_slot(obs.update(i, entry), k) == obs_slot(obs, k),
    decreases obs.len(),
{
    lemma_obs_slot(obs, entry.0@);
    if obs.len() > 0 {
        assert(obs[i].0@ == entry.0@);
        if i == 0 {
            assert(obs.update(i, entry).drop_first() =~= obs.drop_first());
        } else {
            assert(obs.update(i, entry).drop_first() =~= obs.drop_first().update(i - 1, entry));
            assert(obs[0].0@ != entry.0@);
            assert(obs_slot(obs.drop_first(), entry.0@) == Some(i - 1));
            lemma_obs_slot_update(obs.drop_first(), i - 1, entry, k);
        }
    }
}

proof fn lemma_obs_slot_push(obs: Seq<(String, Observation)>, entry: (String, Observation), k: Seq<char>)
    ensures
        obs_slot(obs.push(entry), k) == match obs_slot(obs, k) {
            Some(i) => Some(i),
            None => if entry.0@ == k { Some(obs.len() as int) } else { None },
        },
    decreases obs.len(),
{
    if obs.len() > 0 {
        assert(obs.push(entry)[0] == obs[0]);
        assert(obs.push(entry).drop_first() =~= obs.drop_first().push(entry));
        lemma_obs_slot_push(obs.drop_first(), entry, k);
        if obs[0].0@ != k {
            assert(obs_slot(obs.push(entry), k) == match obs_slot(obs.drop_first().push(entry), k) {
                Some(i) => Some(i + 1),
                None => None::<int>,
            });
        }
    } else {
        assert(obs.push(entry)[0] == entry);
        assert(obs.push(entry).drop_first() =~= Seq::<(String, Observation)>::empty());
        assert(obs_slot(Seq::<(String, Observation)>::empty(), k) is None);
        if entry.0@ == k {
            assert(obs_slot(obs.push(entry), k) == Some(0int));
        } else {
            assert(obs_slot(obs.push(entry), k) is None);
        }
    }
}

impl EngineState {
    /// Stores the observation of application `id`, replacing the earlier one.
    fn set_observation(&mut self, id: &str, o: Observation)
        ensures
            observation_of(final(self).observations@, id@) == Some(o),
            forall|k: Seq<char>| k != id@ ==> #[trigger] observation_of(final(self).observations@, k)
                == observation_of(old(self).observations@, k),
            final(self).apps == old(self).apps,
            final(self).next_index == old(self).next_index,
    {
        let ghost before = self.observations@;
        let key = String::from_str(id);
        match self.find_observation(id) {
            Some(i) => {
                let mut obs = Vec::new();
                std::mem::swap(&mut obs, &mut self.observations);
                let ghost entry = (key, o);
                obs.set(i, (key, o));
                self.observations = obs;
                proof {
                    lemma_obs_slot(before, id@);
                    assert(self.observations@ == before.update(i as int, entry));
                    assert forall|k: Seq<char>| k != id@ implies #[trigger] observation_of(self.observations@, k)
                        == observation_of(before, k) by {
                        lemma_obs_slot_update(before, i as int, entry, k);
                        lemma_obs_slot(before, k);
                        match obs_slot(before, k) {
                            Some(j) => {
                                assert(j != i);
                                assert(self.observations@[j] == before[j]);
                            },
                            None => {},
                        }
                    }
                    lemma_obs_slot_update(before, i as int, entry, id@);
                }
            },
            None => {
                self.observations.push((key, o));
                proof {
                    assert forall|k: Seq<char>| k != id@ implies #[trigger] observation_of(self.observations@, k)
                        == observation_of(before, k) by {
                        lemma_obs_slot_push(before, self.observations@.last(), k);
                        lemma_obs_slot(before, k);
                        match obs_slot(before, k) {
                            Some(j) => {
                                assert(self.observations@[j] == before[j]);
                            },
                            None => {},
                        }
                    }
                    lemma_obs_slot_push(before, self.observations@.last(), id@);
                }
            },
        }
    }

    /// Forgets the element indices of application `id`: they must be
    /// observed again before use.
    pub fn invalidate(&mut self, id: &str)
        ensures
            match observation_of(old(self).observations@, id@) {
                Some(o) => observation_of(final(self).observations@, id@) matches Some(n) && n.elements@.len() == 0
                    && n.previous == o.previous && n.frame == o.frame && n.window == o.window
                    && n.observed_at == o.observed_at && n.observed_geometry == o.observed_geometry,
                None => final(self).observations == old(self).observations,
            },
            forall|k: Seq<char>| k != id@ ==> #[trigger] observation_of(final(self).observations@, k)
                == observation_of(old(self).observations@, k),
            invalidated(old(self).observations@, final(self).observations@, id@),
            final(self).apps == old(self).apps,
            final(self).next_index == old(self).next_index,
    {
        let ghost before = self.observations@;
        match self.find_observation(id) {
            None => {},
            Some(i) => {
                let mut obs = Vec::new();
                std::mem::swap(&mut obs, &mut self.observations);
                let (key, mut o) = obs.remove(i);
                o.elements = Vec::new();
                let ghost entry = (key, o);
                obs.insert(i, (key, o));
                self.observations = obs;
                proof {
                    lemma_obs_slot(before, id@);
                    assert(self.observations@ =~= before.update(i as int, entry));
                    assert(entry.0 == before[i as int].0);
                    assert forall|k: Seq<char>| k != id@ implies #[trigger] observation_of(self.observations@, k)
                        == observation_of(before, k) by {
                        lemma_obs_slot_update(before, i as int, entry, k);
                        lemma_obs_slot(before, k);
                        match obs_slot(before, k) {
                            Some(j) => {
                                assert(j != i);
                                assert(self.observations@[j] == before[j]);
                            },
                            None => {},
                        }
                    }
                    lemma_obs_slot_update(before, i as int, entry, id@);
                }
            },
        }
    }
}

/// What forgetting application `id`'s element indices leaves of the
/// observations: its observation keeps all but its elements, which are
/// gone; every other observation stays.
pub open spec fn invalidated(before: Seq<(String, Observation)>, after: Seq<(String, Observation)>, id: Seq<char>) -> bool {
    &&& match observation_of(before, id) {
        Some(o) => observation_of(after, id) matches Some(n) && n.elements@.len() == 0 && n.previous == o.previous
            && n.frame == o.frame && n.window == o.window && n.observed_at == o.observed_at
            && n.observed_geometry == o.observed_geometry,
        None => observation_of(after, id) is None,
    }
    &&& forall|k: Seq<char>| k != id ==> #[trigger] observation_of(after, k) == observation_of(before, k)
}

/// Once an application's indices are forgotten, none of them is honoured:
/// `EngineState::element` answers `stale_element` for every index until the
/// next observation.
pub proof fn law_no_index_survives_invalidation(
    before: Seq<(String, Observation)>,
    after: Seq<(String, Observation)>,
    id: Seq<char>,
    index: u64,
)
    requires
        invalidated(before, after, id),
    ensures
        match observation_of(after, id) {
            None => true,
            Some(n) => element_at(n.elements@, index) is None,
        },
{
    match observation_of(after, id) {
        None => {},
        Some(n) => law_invalidated_observations_refuse_every_index(n, index),
    }
}

impl EngineState {
    /// Takes the observation of application `id` out of the table (leaving
    /// an empty one in its place), or an empty one if there is none.
    fn take_observation(&mut self, id: &str) -> (o: Observation)
        ensures
            match observation_of(old(self).observations@, id@) {
                Some(p) => o == p,
                None => o.elements@.len() == 0 && o.previous@.len() == 0 && o.frame is None
                    && o.window is None && o.observed_at is None && o.observed_geometry is None,
            },
            forall|k: Seq<char>| k != id@ ==> #[trigger] observation_of(final(self).observations@, k)
                == observation_of(old(self).observations@, k),
            final(self).apps == old(self).apps,
            final(self).next_index == old(self).next_index,
    {
        let ghost before = self.observations@;
        match self.find_observation(id) {
            None => Observation::empty(),
            Some(i) => {
                let mut obs = Vec::new();
                std::mem::swap(&mut obs, &mut self.observations);
                let mut slot = (String::from_str(id), Observation::empty());
                let ghost entry = slot;
                obs.set_and_swap(i, &mut slot);
                self.observations = obs;
                proof {
                    lemma_obs_slot(before, id@);
                    assert forall|k: Seq<char>| k != id@ implies #[trigger] observation_of(self.observations@, k)
                        == observation_of(before, k) by {
                        lemma_obs_slot_update(before, i as int, entry, k);
                        lemma_obs_slot(before, k);
                        match obs_slot(before, k) {
                            Some(j) => {
                                assert(j != i);
                                assert(self.observations@[j] == before[j]);
                            },
                            None => {},
                        }
                    }
                }
                slot.1
            },
        }
    }

    /// Records a screenshot frame of `window_ref` for application `id`. A
    /// different window than the one observed drops the element indices.
    pub fn record_frame(&mut self, id: &str, window_ref: String, frame: Frame)
        ensures
            observation_of(final(self).observations@, id@) matches Some(n) && n.window matches Some(w)
                && w@ == window_ref@ && n.frame == Some(frame) && match observation_of(old(self).observations@, id@) {
                Some(o) => n.previous == o.previous && n.observed_geometry == o.observed_geometry && if o.window matches Some(ow) && ow@ == window_ref@ {
                    n.elements == o.elements && n.observed_at == o.observed_at
                } else {
                    n.elements@.len() == 0 && n.observed_at is None
                },
                None => n.elements@.len() == 0 && n.observed_at is None && n.previous@.len() == 0
                    && n.observed_geometry is None,
            },
            forall|k: Seq<char>| k != id@ ==> #[trigger] observation_of(final(self).observations@, k)
                == observation_of(old(self).observations@, k),
            final(self).apps == old(self).apps,
            final(self).next_index == old(self).next_index,
    {
        let mut o = self.take_observation(id);
        let same = match &o.window {
            Some(w) => same_text(w, &window_ref),
            None => false,
        };
        if !same {
            o.elements = Vec::new();
            o.observed_at = None;
        }
        o.window = Some(window_ref);
        o.frame = Some(frame);
        self.set_observation(id, o);
    }

    /// Records a fresh observation of application `id` in `window` at time
    /// `now`: each element gets the next index, each signature is remembered
    /// for the next diff, the frame survives only for the same window at the
    /// same geometry, and the diff lists the changed indices and the vanished
    /// references (none for a full observation, or without a previous one).
    pub fn record_observation(
        &mut self,
        id: &str,
        window: &WindowInfo,
        elements: Vec<FlatElement>,
        signatures: Vec<String>,
        now: u64,
        full: bool,
    ) -> (r: ObservationRecord)
        requires
            elements@.len() == signatures@.len(),
            old(self).next_index + elements@.len() <= u64::MAX,
        ensures
            ({
                let before = match observation_of(old(self).observations@, id@) {
                    Some(o) => o.previous@,
                    None => Seq::empty(),
                };
                let refs = element_refs(elements@);
                let sigs = texts(signatures@);
                let base = old(self).next_index as int;
                &&& final(self).next_index == base + elements@.len()
                &&& r.indices@ == Seq::new(elements@.len(), |i: int| (base + i + 1) as u64)
                &&& observation_of(final(self).observations@, id@) matches Some(n)
                &&& n.elements@ == numbered(elements@, base)
                &&& sorted_keys(n.previous@)
                &&& forall|k: Seq<char>| #[trigger] lookup(n.previous@, k) == last_assigned(signature_pairs(refs, sigs), k)
                &&& n.window matches Some(w) && w@ == window.window_ref.0@
                &&& n.observed_at == Some(now)
                &&& n.observed_geometry == Some(window.geometry)
                &&& n.frame == match observation_of(old(self).observations@, id@) {
                    Some(o) => kept_frame(o, window.window_ref.0@, window.geometry),
                    None => None,
                }
                &&& if full || before.len() == 0 {
                    r.diff is None
                } else {
                    r.diff matches Some((changed, removed)) && changed@ == changed_indices(before, refs, sigs, base)
                        && texts(removed@) == removed_refs(before, refs)
                }
            }),
            forall|k: Seq<char>| k != id@ ==> #[trigger] observation_of(final(self).observations@, k)
                == observation_of(old(self).observations@, k),
            final(self).apps == old(self).apps,
    {
        let ghost had = observation_of(self.observations@, id@);
        let old = self.take_observation(id);
        old.previous.ordered_view();
        let ghost before = old.previous@;
        let ghost refs = element_refs(elements@);
        let ghost sigs = texts(signatures@);
        let ghost all_elements = elements@;
        let base = self.next_index;
        let frame = match &old.window {
            Some(w) => if same_text(w, &window.window_ref.0) {
                match old.frame {
                    Some(f) => if f.geometry == window.geometry { Some(f) } else { None },
                    None => None,
                }
            } else {
                None
            },
            None => None,
        };
        let n = elements.len();
        let mut rest = elements;
        let mut rest_sigs = signatures;
        let mut kept: Vec<(u64, FlatElement)> = Vec::new();
        let mut indices: Vec<u64> = Vec::new();
        let mut changed: Vec<u64> = Vec::new();
        let mut previous = TextTable::new();
        let mut k: usize = 0;
        assert(all_elements.skip(0) =~= all_elements);
        assert(signatures@.skip(0) =~= signatures@);
        while k < n
            invariant
                n == all_elements.len(),
                n == sigs.len(),
                k <= n,
                base + n <= u64::MAX,
                rest@ == all_elements.skip(k as int),
                texts(rest_sigs@) == sigs.skip(k as int),
                rest_sigs@.len() == n - k,
                indices@ == Seq::new(k as nat, |i: int| (base + i + 1) as u64),
                kept@ == Seq::new(k as nat, |i: int| ((base + i + 1) as u64, all_elements[i])),
                changed@ == changed_indices(before, refs.take(k as int), sigs.take(k as int), base as int),
                sorted_keys(previous@),
                forall|key: Seq<char>| #[trigger] lookup(previous@, key) == last_assigned(signature_pairs(refs.take(k as int), sigs.take(k as int)), key),
                refs == element_refs(all_elements),
                before == old.previous@,
            decreases n - k,
        {
            let element = rest.remove(0);
            let ghost old_rs = rest_sigs@;
            let sig = rest_sigs.remove(0);
            proof {
                assert(element == all_elements[k as int]);
                assert(texts(old_rs)[0] == sig@);
                assert(sig@ == sigs[k as int]) by {
                    assert(sigs.skip(k as int)[0] == sigs[k as int]);
                }
                assert(texts(rest_sigs@) =~= texts(old_rs).drop_first());
                assert(rest@ =~= all_elements.skip(k + 1));
                assert(texts(rest_sigs@) =~= sigs.skip(k + 1));
                assert(refs.take(k + 1).drop_last() =~= refs.take(k as int));
                assert(sigs.take(k + 1).take(k as int) =~= sigs.take(k as int));
                assert(refs.take(k + 1)[k as int] == element.id.0@);
                assert(sigs.take(k + 1)[k as int] == sig@);
            }
            let index = base + (k as u64) + 1;
            let recorded = old.previous.get(element.id.0.as_str());
            let differs = match &recorded {
                Some(s) => !same_text(s, &sig),
                None => true,
            };
            if differs {
                changed.push(index);
            }
            let ghost pairs_before = signature_pairs(refs.take(k as int), sigs.take(k as int));
            let key = element.id.0.clone();
            previous.insert(key, sig);
            proof {
                let pairs_after = signature_pairs(refs.take(k + 1), sigs.take(k + 1));
                assert(pairs_after.drop_last() =~= pairs_before);
                assert(pairs_after.last() == (element.id.0@, sigs[k as int]));
            }
            indices.push(index);
            kept.push((index, element));
            k += 1;
            proof {
                assert(indices@ =~= Seq::new(k as nat, |i: int| (base + i + 1) as u64));
                assert(kept@ =~= Seq::new(k as nat, |i: int| ((base + i + 1) as u64, all_elements[i])));
            }
        }
        proof {
            assert(refs.take(n as int) =~= refs);
            assert(sigs.take(n as int) =~= sigs);
        }
        let diff = if full || old.previous.len() == 0 {
            None
        } else {
            let pairs = old.previous.pairs();
            let mut removed: Vec<String> = Vec::new();
            let mut j: usize = 0;
            while j < pairs.len()
                invariant
                    j <= pairs@.len(),
                    pair_views(pairs@) == before,
                    texts(removed@) == removed_refs(before.take(j as int), refs),
                    forall|key: Seq<char>| #[trigger] lookup(previous@, key) == last_assigned(signature_pairs(refs, sigs), key),
                    refs.len() == sigs.len(),
                decreases pairs@.len() - j,
            {
                let ghost pre = before.take(j as int);
                proof {
                    assert(before.take(j + 1).drop_last() =~= pre);
                    assert(before.take(j + 1).last() == before[j as int]);
                    assert(before[j as int].0 == pairs@[j as int].0@);
                    lemma_last_assigned_some(refs, sigs, pairs@[j as int].0@);
                }
                if !previous.contains_key(pairs[j].0.as_str()) {
                    let ghost old_removed = removed@;
                    removed.push(pairs[j].0.clone());
                    assert(texts(removed@) =~= texts(old_removed).push(before[j as int].0));
                }
                j += 1;
            }
            proof {
                assert(before.take(j as int) =~= before);
            }
            Some((changed, removed))
        };
        let o = Observation {
            elements: kept,
            previous,
            frame,
            window: Some(window.window_ref.0.clone()),
            observed_at: Some(now),
            observed_geometry: Some(window.geometry),
        };
        self.set_observation(id, o);
        self.next_index = base + (n as u64);
        ObservationRecord { indices, diff }
    }
}

/// A reference is recorded in an observation exactly when some element has it.
proof fn lemma_last_assigned_some(refs: Seq<Seq<char>>, sigs: Seq<Seq<char>>, k: Seq<char>)
    requires
        refs.len() == sigs.len(),
    ensures
        last_assigned(signature_pairs(refs, sigs), k) is Some <==> refs.contains(k),
    decreases refs.len(),
{
    if refs.len() > 0 {
        let n = refs.len() - 1;
        assert(signature_pairs(refs, sigs).drop_last() =~= signature_pairs(refs.drop_last(), sigs.take(n)));
        lemma_last_assigned_some(refs.drop_last(), sigs.take(n), k);
        if refs.contains(k) && refs[n] != k {
            let w = choose|w: int| 0 <= w < refs.len() && refs[w] == k;
            assert(refs.drop_last()[w] == k);
        }
        if refs.drop_last().contains(k) {
            let w = choose|w: int| 0 <= w < refs.drop_last().len() && refs.drop_last()[w] == k;
            assert(refs[w] == k);
        }
    } else {
        assert(signature_pairs(refs, sigs) =~= Seq::<(Seq<char>, Seq<char>)>::empty());
    }
}

/// Whether window `i` belongs to the application, given the executable
/// names of the windows' processes.
pub open spec fn owned(app: Application, windows: Seq<WindowInfo>, exes: Seq<Option<String>>, i: int) -> bool {
    app_owns(
        app,
        windows[i].app_id@,
        windows[i].class@,
        match exes[i] {
            Some(e) => Some(e@),
            None => None,
        },
    )
}

/// No owned window is active.
pub open spec fn none_active(app: Application, windows: Seq<WindowInfo>, exes: Seq<Option<String>>) -> bool {
    forall|j: int| 0 <= j < windows.len() ==> !(owned(app, windows, exes, j) && #[trigger] windows[j].is_active)
}

/// Window `i` is the first owned active window.
pub open spec fn first_active(app: Application, windows: Seq<WindowInfo>, exes: Seq<Option<String>>, i: int) -> bool {
    owned(app, windows, exes, i) && windows[i].is_active
        && forall|j: int| 0 <= j < i ==> !(owned(app, windows, exes, j) && #[trigger] windows[j].is_active)
}

/// No owned window is the one last observed.
pub open spec fn none_last(app: Application, windows: Seq<WindowInfo>, exes: Seq<Option<String>>, last: Option<Seq<char>>) -> bool {
    match last {
        Some(l) => forall|j: int| 0 <= j < windows.len() ==> !(owned(app, windows, exes, j) && #[trigger] windows[j].window_ref.0@ == l),
        None => true,
    }
}

/// Window `i` is the first owned window that was last observed.
pub open spec fn first_last(app: Application, windows: Seq<WindowInfo>, exes: Seq<Option<String>>, last: Option<Seq<char>>, i: int) -> bool {
    match last {
        Some(l) => owned(app, windows, exes, i) && windows[i].window_ref.0@ == l
            && forall|j: int| 0 <= j < i ==> !(owned(app, windows, exes, j) && #[trigger] windows[j].window_ref.0@ == l),
        None => false,
    }
}

/// The number of owned windows among the first `n`.
pub open spec fn owned_count(app: Application, windows: Seq<WindowInfo>, exes: Seq<Option<String>>, n: int) -> nat
    decreases n,
{
    if n <= 0 {
        0
    } else if owned(app, windows, exes, n - 1) {
        owned_count(app, windows, exes, n - 1) + 1
    } else {
        owned_count(app, windows, exes, n - 1)
    }
}

/// The window an application is acted on in, among the current windows
/// (with their processes' executable names): its active window, else the
/// window it was last observed in, else its only window. Without one, the
/// application is closed (no window) or ambiguous (several).
pub fn choose_window(
    app: &Application,
    windows: &[WindowInfo],
    exes: &[Option<String>],
    last: Option<&str>,
) -> (r: Result<usize, ToolError>)
    requires
        exes@.len() == windows@.len(),
    ensures
        ({
            let l = match last {
                Some(s) => Some(s@),
                None => None,
            };
            let count = owned_count(*app, windows@, exes@, windows@.len() as int);
            match r {
                Ok(i) => i < windows@.len() && owned(*app, windows@, exes@, i as int) && {
                    ||| first_active(*app, windows@, exes@, i as int)
                    ||| none_active(*app, windows@, exes@) && first_last(*app, windows@, exes@, l, i as int)
                    ||| none_active(*app, windows@, exes@) && none_last(*app, windows@, exes@, l) && count == 1
                },
                Err(e) => none_active(*app, windows@, exes@) && none_last(*app, windows@, exes@, l) && count != 1
                    && e.code@ == (if count == 0 { "app_closed"@ } else { "ambiguous_window"@ })
                    && e.message@ == "Application has no unambiguous current window; inspect agentdesktop.getState()"@
                    && !e.retryable,
            }
        }),
{
    let n = windows.len();
    let mut mine: Vec<bool> = Vec::new();
    let mut i: usize = 0;
    while i < n
        invariant
            n == windows@.len(),
            n == exes@.len(),
            i <= n,
            mine@.len() == i,
            forall|j: int| 0 <= j < i ==> #[trigger] mine@[j] == owned(*app, windows@, exes@, j),
        decreases n - i,
    {
        let exe = match &exes[i] {
            Some(e) => Some(e.as_str()),
            None => None,
        };
        mine.push(app.owns(&windows[i], exe));
        i += 1;
    }
    let mut k: usize = 0;
    while k < n
        invariant
            n == windows@.len(),
            mine@.len() == n,
            k <= n,
            forall|j: int| 0 <= j < n ==> #[trigger] mine@[j] == owned(*app, windows@, exes@, j),
            forall|j: int| 0 <= j < k ==> !(owned(*app, windows@, exes@, j) && #[trigger] windows@[j].is_active),
        decreases n - k,
    {
        if mine[k] && windows[k].is_active {
            return Ok(k);
        }
        k += 1;
    }
    match last {
        Some(l) => {
            let lc = chars_of(l);
            let mut k: usize = 0;
            while k < n
                invariant
                    n == windows@.len(),
                    mine@.len() == n,
                    k <= n,
                    lc@ == l@,
                    last == Some(l),
                    none_active(*app, windows@, exes@),
                    forall|j: int| 0 <= j < n ==> #[trigger] mine@[j] == owned(*app, windows@, exes@, j),
                    forall|j: int| 0 <= j < k ==> !(owned(*app, windows@, exes@, j) && #[trigger] windows@[j].window_ref.0@ == l@),
                decreases n - k,
            {
                let w = chars_of(windows[k].window_ref.0.as_str());
                if mine[k] && eq_chars(w.as_slice(), lc.as_slice()) {
                    return Ok(k);
                }
                k += 1;
            }
        },
        None => {},
    }
    let mut count: usize = 0;
    let mut only: usize = 0;
    let mut k: usize = 0;
    while k < n
        invariant
            n == windows@.len(),
            mine@.len() == n,
            k <= n,
            count <= k,
            forall|j: int| 0 <= j < n ==> #[trigger] mine@[j] == owned(*app, windows@, exes@, j),
            count == owned_count(*app, windows@, exes@, k as int),
            count > 0 ==> only < k && owned(*app, windows@, exes@, only as int),
        decreases n - k,
    {
        if mine[k] {
            count += 1;
            only = k;
        }
        k += 1;
    }
    if count == 1 {
        return Ok(only);
    }
    let code = if count == 0 { "app_closed" } else { "ambiguous_window" };
    Err(fail(code, "Application has no unambiguous current window; inspect agentdesktop.getState()"))
}

/// A window that changed (another window, or new bounds) while a screenshot
/// was taken makes the screenshot stale.
pub fn check_capture(captured: &WindowInfo, current: &WindowInfo) -> (r: Result<(), ToolError>)
    ensures
        captured.window_ref.0@ == current.window_ref.0@ && captured.geometry == current.geometry ==> r is Ok,
        !(captured.window_ref.0@ == current.window_ref.0@ && captured.geometry == current.geometry) ==> (r matches Err(e)
            && e.code@ == "stale_screenshot"@ && e.message@ == "Window changed during capture; take a fresh screenshot"@),
{
    if !same_text(&captured.window_ref.0, &current.window_ref.0) || captured.geometry != current.geometry {
        return Err(fail("stale_screenshot", "Window changed during capture; take a fresh screenshot"));
    }
    Ok(())
}

/// Whether an observation was taken of a window that stayed put.
pub fn window_unchanged(observed: &WindowInfo, current: &WindowInfo) -> (b: bool)
    ensures
        b == (observed.window_ref.0@ == current.window_ref.0@ && observed.geometry == current.geometry),
{
    same_text(&observed.window_ref.0, &current.window_ref.0) && observed.geometry == current.geometry
}

/// Whether `wait` milliseconds have passed from `start` to `now` (times in
/// milliseconds of one clock).
fn waited(start: u64, now: u64, wait: u64) -> (b: bool)
    ensures
        b == (now >= start + wait),
{
    now >= start && now - start >= wait
}

/// How long a launched application may take to show a window, in
/// milliseconds.
pub const LAUNCH_WAIT_MS: u64 = 25000;

/// One turn of the wait for a launched application: done once one of its
/// windows is listed (`Ok(true)`), look again after 100 ms (`Ok(false)`), or
/// give up once `LAUNCH_WAIT_MS` have passed since `launched_at`.
pub fn launch_wait(has_window: bool, launched_at: u64, now: u64) -> (r: Result<bool, ToolError>)
    ensures
        has_window ==> r == Ok::<bool, ToolError>(true),
        !has_window && now >= launched_at + LAUNCH_WAIT_MS ==> (r matches Err(e) && e.code@
            == "launch_timeout"@ && e.message@ == "Application did not expose a window"@ && !e.retryable),
        !has_window && now < launched_at + LAUNCH_WAIT_MS ==> r == Ok::<bool, ToolError>(false),
{
    if has_window {
        Ok(true)
    } else if waited(launched_at, now, LAUNCH_WAIT_MS) {
        Err(fail("launch_timeout", "Application did not expose a window"))
    } else {
        Ok(false)
    }
}

/// How long a newly selected application may show no window before its
/// first observation gives up, in milliseconds.
pub const SETTLE_WAIT_MS: u64 = 10000;

/// Whether the first observation of a newly selected application is tried
/// again after failing with `code`: only while its window list may still be
/// settling (`app_closed`), within `SETTLE_WAIT_MS` of `selected_at`.
pub fn retry_first_observation(code: &str, selected_at: u64, now: u64) -> (b: bool)
    ensures
        b == (code@ == "app_closed"@ && now < selected_at + SETTLE_WAIT_MS),
{
    let c = chars_of(code);
    eq_lit(c.as_slice(), "app_closed") && !waited(selected_at, now, SETTLE_WAIT_MS)
}

/// Whether a window capture that failed with `code` on attempt `attempt`
/// (counted from 0) is made again: a capture the window changed under
/// (`stale_screenshot`) is tried three times in all.
pub fn retry_capture(code: &str, attempt: u32) -> (b: bool)
    ensures
        b == (code@ == "stale_screenshot"@ && attempt < 2),
{
    let c = chars_of(code);
    eq_lit(c.as_slice(), "stale_screenshot") && attempt < 2
}

/// How long a target's window may take to become active after being
/// focused, in milliseconds.
pub const FOCUS_WAIT_MS: u64 = 2000;

/// How often an inactive window is looked at again, in milliseconds.
pub const FOCUS_POLL_MS: u64 = 30;

/// While waiting for a focused window to become active: done once it is
/// (`Ok(true)`), look again after `FOCUS_POLL_MS` (`Ok(false)`), or give up
/// once `FOCUS_WAIT_MS` have passed since `focused_at` (times in
/// milliseconds of one clock).
pub fn focus_wait(active: bool, focused_at: u64, now: u64) -> (r: Result<bool, ToolError>)
    ensures
        active ==> r == Ok::<bool, ToolError>(true),
        !active && now >= focused_at + FOCUS_WAIT_MS ==> (r matches Err(e) && e.code@ == "focus_failed"@
            && e.message@ == "Target did not become active; input was not sent"@ && !e.retryable),
        !active && now < focused_at + FOCUS_WAIT_MS ==> r == Ok::<bool, ToolError>(false),
{
    if active {
        Ok(true)
    } else if waited(focused_at, now, FOCUS_WAIT_MS) {
        Err(fail("focus_failed", "Target did not become active; input was not sent"))
    } else {
        Ok(false)
    }
}

/// After `attempts` observations of a window that kept changing, the third
/// gives up.
pub fn check_attempts(attempts: u32) -> (r: Result<(), ToolError>)
    ensures
        attempts >= 3 ==> (r matches Err(e) && e.code@ == "unstable_window"@ && e.message@
            == "Application is still changing windows; observe again"@),
        attempts < 3 ==> r is Ok,
{
    if attempts >= 3 {
        return Err(fail("unstable_window", "Application is still changing windows; observe again"));
    }
    Ok(())
}

/// The elements, truncation and warnings of an observation attempt: its
/// result, a failure as a warning (`code: message`), or a timeout (`None`)
/// as a truncated empty observation.
pub fn observation_outcome(
    result: Option<Result<(Vec<FlatElement>, bool, Vec<String>), ToolError>>,
) -> (r: (Vec<FlatElement>, bool, Vec<String>))
    ensures
        match result {
            Some(Ok(x)) => r == x,
            Some(Err(e)) => r.0@.len() == 0 && !r.1 && texts(r.2@) == seq![e.code@ + ": "@ + e.message@],
            None => r.0@.len() == 0 && r.1 && texts(r.2@) == seq!["Accessibility observation timed out"@],
        },
{
    match result {
        Some(Ok(x)) => x,
        Some(Err(e)) => {
            let mut m = e.code;
            m.append(": ");
            m.append(e.message.as_str());
            let mut w: Vec<String> = Vec::new();
            w.push(m);
            assert(texts(w@) =~= seq![e.code@ + ": "@ + e.message@]);
            (Vec::new(), false, w)
        },
        None => {
            let mut w: Vec<String> = Vec::new();
            w.push(String::from_str("Accessibility observation timed out"));
            assert(texts(w@) =~= seq!["Accessibility observation timed out"@]);
            (Vec::new(), true, w)
        },
    }
}


proof fn lemma_element_at_first(elements: Seq<(u64, FlatElement)>, index: u64, k: int)
    requires
        0 <= k < elements.len(),
        elements[k].0 == index,
        forall|j: int| 0 <= j < k ==> #[trigger] elements[j].0 != index,
    ensures
        element_at(elements, index) == Some(elements[k].1),
    decreases k,
{
    if k > 0 {
        let rest = elements.drop_first();
        assert forall|j: int| 0 <= j < k - 1 implies #[trigger] rest[j].0 != index by {
            assert(rest[j] == elements[j + 1]);
        }
        lemma_element_at_first(rest, index, k - 1);
    }
}

/// The elements an observation records, with the indices handed out for
/// them: counted on from `base`.
pub open spec fn numbered(elements: Seq<FlatElement>, base: int) -> Seq<(u64, FlatElement)> {
    Seq::new(elements.len(), |i: int| ((base + i + 1) as u64, elements[i]))
}

/// Every element an observation records is found again by the index handed
/// out for it.
pub proof fn law_recorded_elements_resolve(elements: Seq<FlatElement>, base: int, k: int)
    requires
        0 <= base,
        base + elements.len() <= u64::MAX,
        0 <= k < elements.len(),
    ensures
        element_at(numbered(elements, base), (base + k + 1) as u64) == Some(elements[k]),
{
    let s = numbered(elements, base);
    assert forall|j: int| 0 <= j < k implies #[trigger] s[j].0 != (base + k + 1) as u64 by {}
    lemma_element_at_first(s, (base + k + 1) as u64, k);
}

/// An index never handed out by an observation is not honoured by it.
pub proof fn law_foreign_indices_are_refused(elements: Seq<FlatElement>, base: int, index: u64)
    requires
        0 <= base,
        base + elements.len() <= u64::MAX,
        !(base < index <= base + elements.len()),
    ensures
        element_at(numbered(elements, base), index) is None,
    decreases elements.len(),
{
    let s = numbered(elements, base);
    if elements.len() > 0 {
        let rest = elements.drop_first();
        assert(s.drop_first() =~= numbered(rest, base + 1));
        law_foreign_indices_are_refused(rest, base + 1, index);
    }
}

/// An observation holds for its window, at its geometry, until a minute has
/// passed; never for another window or after the window moved or resized.
pub proof fn law_observations_hold_for_a_minute(o: Observation, window_ref: Seq<char>, geometry: Bbox, at: u64, now: u64)
    requires
        o.observed_at == Some(at),
        o.window matches Some(w) && w@ == window_ref,
        o.observed_geometry == Some(geometry),
    ensures
        (now <= at || now - at <= OBSERVATION_TTL_MS) ==> observation_fresh(o, window_ref, geometry, now),
        now > at && now - at > OBSERVATION_TTL_MS ==> !observation_fresh(o, window_ref, geometry, now),
        forall|other: Seq<char>| other != window_ref ==> !observation_fresh(o, other, geometry, now),
        forall|g: Bbox| g != geometry ==> !observation_fresh(o, window_ref, g, now),
{
}

/// After invalidation no index is honoured until the next observation.
pub proof fn law_invalidated_observations_refuse_every_index(o: Observation, index: u64)
    requires
        o.elements@.len() == 0,
    ensures
        element_at(o.elements@, index) is None,
{
}

} // verus!
