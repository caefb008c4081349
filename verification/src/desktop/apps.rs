//! Installed applications, matched by desktop ID, name, window class or
//! executable, and the windows they own.
use crate::drivers::WindowInfo;
use crate::error::fail;
use crate::text::{
    after_last, chars_of, debug_quoted, debug_text, eq_chars, eq_lit, join, join_strings,
    last_match, lex_lt, lower, lower_vec, replace_char, replace_char_vec, split, split_vec,
    str_less, strip_suffix_all, strip_suffix_all_vec, string_of, string_views, views,
};
use crate::types::ToolError;
use vstd::prelude::*;

verus! {

/// An installed application, from its desktop entry.
#[derive(Debug)]
pub struct Application {
    pub id: String,
    pub name: String,
    pub desktop_file: String,
    pub startup_class: String,
    pub executable: String,
}

/// The text form of an application.
pub open spec fn app_view(a: Application) -> (Seq<char>, Seq<char>, Seq<char>, Seq<char>, Seq<char>) {
    (a.id@, a.name@, a.desktop_file@, a.startup_class@, a.executable@)
}

/// What a desktop entry says that the catalog reads.
#[derive(Debug)]
pub struct EntryFacts {
    /// The entry's file.
    pub path: String,
    /// Its `Type`.
    pub kind: Option<String>,
    pub no_display: bool,
    pub hidden: bool,
    /// Its localized `Name`.
    pub name: Option<String>,
    /// The program its `Exec` line runs, when that line parses.
    pub program: Option<String>,
    /// Its `StartupWMClass`.
    pub startup_class: Option<String>,
}

/// A value compared case-insensitively and without `.desktop` suffixes.
pub open spec fn normalized(v: Seq<char>) -> Seq<char> {
    lower(strip_suffix_all(v, ".desktop"@))
}

fn normalized_vec(v: &str) -> (r: Vec<char>)
    ensures
        r@ == normalized(v@),
{
    proof {
        reveal_strlit(".desktop");
    }
    let c = chars_of(v);
    let s = strip_suffix_all_vec(c.as_slice(), ".desktop");
    lower_vec(s.as_slice())
}

/// A non-empty field that names the same application as the query.
pub open spec fn field_matches(v: Seq<char>, q: Seq<char>) -> bool {
    v.len() > 0 && normalized(v) == normalized(q)
}

/// Whether `q` names `a`: its desktop file path exactly, or its ID, name,
/// window class or executable up to case and `.desktop` suffixes.
pub open spec fn app_matches(a: Application, q: Seq<char>) -> bool {
    ||| a.desktop_file@ == q
    ||| field_matches(a.id@, q)
    ||| field_matches(a.name@, q)
    ||| field_matches(a.startup_class@, q)
    ||| field_matches(a.executable@, q)
}

/// Program names that say nothing about which application runs.
pub open spec fn generic_launcher(n: Seq<char>) -> bool {
    n == "env"@ || n == "sh"@ || n == "bash"@ || n == "flatpak"@
}

/// Whether `a` owns a window with this app ID and class, whose process runs
/// the executable named `exe`: a window's app ID decides alone; otherwise
/// its class (or a dot-separated piece of it) or its executable must name
/// the application.
pub open spec fn app_owns(a: Application, app_id: Seq<char>, class: Seq<char>, exe: Option<Seq<char>>) -> bool {
    if app_id.len() > 0 {
        app_matches(a, app_id)
    } else {
        ||| exists|i: int| 0 <= i < split(class, '.').len() && app_matches(a, #[trigger] split(class, '.')[i])
        ||| app_matches(a, class)
        ||| (exe matches Some(n) && n == a.executable@ && !generic_launcher(n))
    }
}

fn field_matches_exec(v: &String, q: &[char]) -> (b: bool)
    ensures
        b == (v@.len() > 0 && normalized(v@) == q@),
{
    if v.as_str().is_empty() {
        return false;
    }
    let n = normalized_vec(v.as_str());
    eq_chars(n.as_slice(), q)
}

impl Application {
    /// Whether `query` names this application.
    pub fn matches(&self, query: &str) -> (b: bool)
        ensures
            b == app_matches(*self, query@),
    {
        let q = chars_of(query);
        let f = chars_of(self.desktop_file.as_str());
        if eq_chars(f.as_slice(), q.as_slice()) {
            return true;
        }
        let nq = normalized_vec(query);
        field_matches_exec(&self.id, nq.as_slice()) || field_matches_exec(&self.name, nq.as_slice())
            || field_matches_exec(&self.startup_class, nq.as_slice()) || field_matches_exec(
            &self.executable,
            nq.as_slice(),
        )
    }

    /// Whether this application owns `window`; `exe` is the file name of the
    /// window process's executable, when the window has a pid and it could be
    /// read.
    pub fn owns(&self, window: &WindowInfo, exe: Option<&str>) -> (b: bool)
        ensures
            b == app_owns(
                *self,
                window.app_id@,
                window.class@,
                match exe {
                    Some(e) => Some(e@),
                    None => None,
                },
            ),
    {
        if !window.app_id.as_str().is_empty() {
            return self.matches(window.app_id.as_str());
        }
        let class = chars_of(window.class.as_str());
        let pieces = split_vec(class.as_slice(), '.');
        let ghost parts = split(window.class@, '.');
        let mut i: usize = 0;
        while i < pieces.len()
            invariant
                i <= pieces@.len(),
                views(pieces@) == parts,
                parts == split(window.class@, '.'),
                window.app_id@.len() == 0,
                forall|j: int| 0 <= j < i ==> !app_matches(*self, #[trigger] parts[j]),
            decreases pieces@.len() - i,
        {
            let piece = string_of(pieces[i].as_slice());
            assert(piece@ == parts[i as int]);
            if self.matches(piece.as_str()) {
                assert(app_matches(*self, parts[i as int]));
                return true;
            }
            i += 1;
        }
        if self.matches(window.class.as_str()) {
            return true;
        }
        match exe {
            None => false,
            Some(name) => {
                let n = chars_of(name);
                let e = chars_of(self.executable.as_str());
                eq_chars(n.as_slice(), e.as_slice()) && !(eq_lit(n.as_slice(), "env") || eq_lit(
                    n.as_slice(),
                    "sh",
                ) || eq_lit(n.as_slice(), "bash") || eq_lit(n.as_slice(), "flatpak"))
            },
        }
    }

    /// A copy of this application.
    pub fn duplicate(&self) -> (r: Application)
        ensures
            app_view(r) == app_view(*self),
    {
        Application {
            id: self.id.clone(),
            name: self.name.clone(),
            desktop_file: self.desktop_file.clone(),
            startup_class: self.startup_class.clone(),
            executable: self.executable.clone(),
        }
    }
}

/// `Path::file_name` of a path, as text.
pub uninterp spec fn path_file_name(p: Seq<char>) -> Option<Seq<char>>;

/// The last component of `path` (`Path::file_name`).
#[verifier::external_body]
fn file_name_of(path: &str) -> (r: Option<String>)
    ensures
        match path_file_name(path@) {
            Some(n) => r matches Some(s) && s@ == n,
            None => r is None,
        },
{
    std::path::Path::new(path).file_name().map(|name| name.to_string_lossy().into_owned())
}

/// The desktop ID shown for an entry: the path below an `applications`
/// directory with `/` turned into `-` (keeping `.desktop`), else the file
/// name.
pub open spec fn entry_id_of(path: Seq<char>) -> Seq<char> {
    match last_match(path, "/applications/"@) {
        Some(i) => replace_char(path.skip(i + "/applications/"@.len()), '/', '-'),
        None => match path_file_name(path) {
            Some(n) => n,
            None => Seq::empty(),
        },
    }
}

pub fn entry_id(path: &str) -> (r: String)
    ensures
        r@ == entry_id_of(path@),
{
    let p = chars_of(path);
    let marker = chars_of("/applications/");
    match after_last(p.as_slice(), marker.as_slice()) {
        Some(rel) => {
            let r = replace_char_vec(rel.as_slice(), '/', '-');
            string_of(r.as_slice())
        },
        None => match file_name_of(path) {
            Some(n) => n,
            None => String::new(),
        },
    }
}

/// The executable an `Exec` program names: its file name, or nothing.
pub open spec fn executable_of(program: Option<Seq<char>>) -> Seq<char> {
    match program {
        Some(p) => match path_file_name(p) {
            Some(n) => n,
            None => Seq::empty(),
        },
        None => Seq::empty(),
    }
}

pub open spec fn opt_view(o: Option<String>) -> Option<Seq<char>> {
    match o {
        Some(s) => Some(s@),
        None => None,
    }
}

/// Whether an entry is a visible application.
pub open spec fn listed(e: EntryFacts) -> bool {
    opt_view(e.kind) == Some("Application"@) && !e.no_display && !e.hidden
}

/// The catalog of a list of entries before sorting: the IDs seen so far (an
/// entry's ID counts as seen even when it has no name), and the applications
/// of the first entry of each ID that has a name, in entry order.
pub open spec fn gathered(es: Seq<EntryFacts>) -> (Seq<Seq<char>>, Seq<(Seq<char>, Seq<char>, Seq<char>, Seq<char>, Seq<char>)>)
    decreases es.len(),
{
    if es.len() == 0 {
        (Seq::empty(), Seq::empty())
    } else {
        let (seen, apps) = gathered(es.drop_last());
        let e = es.last();
        let id = entry_id_of(e.path@);
        if !listed(e) || seen.contains(id) {
            (seen, apps)
        } else {
            match opt_view(e.name) {
                None => (seen.push(id), apps),
                Some(n) => (
                    seen.push(id),
                    apps.push(
                        (
                            id,
                            n,
                            e.path@,
                            match opt_view(e.startup_class) {
                                Some(c) => c,
                                None => Seq::empty(),
                            },
                            executable_of(opt_view(e.program)),
                        ),
                    ),
                ),
            }
        }
    }
}

/// Applications in strictly increasing ID order.
pub open spec fn sorted_by_id(s: Seq<(Seq<char>, Seq<char>, Seq<char>, Seq<char>, Seq<char>)>) -> bool {
    forall|i: int, j: int| 0 <= i < j < s.len() ==> lex_lt(#[trigger] s[i].0, #[trigger] s[j].0)
}

pub open spec fn app_views(s: Seq<Application>) -> Seq<(Seq<char>, Seq<char>, Seq<char>, Seq<char>, Seq<char>)> {
    s.map_values(|a: Application| app_view(a))
}

fn insert_by_id(apps: &mut Vec<Application>, app: Application)
    requires
        sorted_by_id(app_views(old(apps)@)),
        forall|j: int| 0 <= j < old(apps)@.len() ==> #[trigger] old(apps)@[j].id@ != app.id@,
    ensures
        sorted_by_id(app_views(final(apps)@)),
        final(apps)@.len() == old(apps)@.len() + 1,
        forall|x| #[trigger] app_views(final(apps)@).contains(x) <==> (app_views(old(apps)@).contains(x) || x == app_view(app)),
{
    let ghost before = app_views(apps@);
    let ghost v = app_view(app);
    let n = apps.len();
    let mut i: usize = 0;
    while i < n && str_less(apps[i].id.as_str(), app.id.as_str())
        invariant
            n == apps@.len(),
            i <= n,
            before == app_views(apps@),
            sorted_by_id(before),
            forall|j: int| 0 <= j < i ==> lex_lt(#[trigger] before[j].0, v.0),
            v == app_view(app),
        decreases n - i,
    {
        assert(before[i as int] == app_view(apps@[i as int]));
        i += 1;
    }
    let ghost after = before.insert(i as int, v);
    proof {
        if i < n {
            assert(before[i as int] == app_view(apps@[i as int]));
            crate::text::lemma_lex_total(before[i as int].0, v.0);
        }
        assert forall|a: int, b: int| 0 <= a < b < after.len() implies lex_lt(
            #[trigger] after[a].0,
            #[trigger] after[b].0,
        ) by {
            if b < i {
                assert(after[a] == before[a] && after[b] == before[b]);
            } else if b == i {
                assert(after[a] == before[a]);
            } else if a == i {
                assert(after[b] == before[b - 1]);
                if b - 1 > i {
                    crate::text::lemma_lex_transitive(v.0, before[i as int].0, before[b - 1].0);
                }
            } else if a < i {
                assert(after[a] == before[a] && after[b] == before[b - 1]);
            } else {
                assert(after[a] == before[a - 1] && after[b] == before[b - 1]);
            }
        }
    }
    apps.insert(i, app);
    proof {
        assert(app_views(apps@) =~= after);
        assert forall|x| #[trigger] after.contains(x) <==> (before.contains(x) || x == v) by {
            if after.contains(x) {
                let k = choose|k: int| 0 <= k < after.len() && after[k] == x;
                if k < i {
                    assert(before[k] == x);
                } else if k > i {
                    assert(before[k - 1] == x);
                }
            }
            if before.contains(x) {
                let k = choose|k: int| 0 <= k < before.len() && before[k] == x;
                if k < i {
                    assert(after[k] == x);
                } else {
                    assert(after[k + 1] == x);
                }
            }
            if x == v {
                assert(after[i as int] == x);
            }
        }
    }
}

proof fn lemma_push_contains<A>(s: Seq<A>, v: A)
    ensures
        forall|x: A| #[trigger] s.push(v).contains(x) <==> (s.contains(x) || x == v),
{
    assert forall|x: A| #[trigger] s.push(v).contains(x) <==> (s.contains(x) || x == v) by {
        if s.contains(x) {
            let k = choose|k: int| 0 <= k < s.len() && s[k] == x;
            assert(s.push(v)[k] == x);
        }
        if x == v {
            assert(s.push(v)[s.len() as int] == x);
        }
        if s.push(v).contains(x) {
            let k = choose|k: int| 0 <= k < s.push(v).len() && s.push(v)[k] == x;
            if k < s.len() {
                assert(s[k] == x);
            }
        }
    }
}

proof fn lemma_gathered_ids(es: Seq<EntryFacts>)
    ensures
        forall|k: int| 0 <= k < gathered(es).1.len() ==> gathered(es).0.contains(#[trigger] gathered(es).1[k].0),
    decreases es.len(),
{
    if es.len() > 0 {
        lemma_gathered_ids(es.drop_last());
        let (seen, apps) = gathered(es.drop_last());
        let (seen2, apps2) = gathered(es);
        assert forall|k: int| 0 <= k < apps2.len() implies seen2.contains(#[trigger] apps2[k].0) by {
            if k < apps.len() {
                assert(apps2[k] == apps[k]);
                assert(seen.contains(apps[k].0));
                let w = choose|w: int| 0 <= w < seen.len() && seen[w] == apps[k].0;
                assert(seen2[w] == seen[w]);
            } else {
                assert(seen2.last() == apps2[k].0);
            }
        }
    }
}

/// The catalog of installed applications: visible application entries, the
/// first entry of each desktop ID (when it has a name), sorted by ID.
pub fn catalog_from(entries: &[EntryFacts]) -> (r: Vec<Application>)
    ensures
        sorted_by_id(app_views(r@)),
        r@.len() == gathered(entries@).1.len(),
        forall|x| #[trigger] app_views(r@).contains(x) <==> gathered(entries@).1.contains(x),
{
    let mut seen: Vec<String> = Vec::new();
    let mut apps: Vec<Application> = Vec::new();
    let mut i: usize = 0;
    while i < entries.len()
        invariant
            i <= entries@.len(),
            string_views(seen@) == gathered(entries@.take(i as int)).0,
            sorted_by_id(app_views(apps@)),
            apps@.len() == gathered(entries@.take(i as int)).1.len(),
            forall|x| #[trigger] app_views(apps@).contains(x) <==> gathered(entries@.take(i as int)).1.contains(x),
        decreases entries@.len() - i,
    {
        let e = &entries[i];
        let ghost pre = entries@.take(i as int);
        let ghost g = gathered(pre);
        proof {
            assert(entries@.take(i + 1).drop_last() =~= pre);
            assert(entries@.take(i + 1).last() == *e);
            lemma_gathered_ids(pre);
        }
        let listed_now = match &e.kind {
            Some(k) => {
                let kc = chars_of(k.as_str());
                eq_lit(kc.as_slice(), "Application")
            },
            None => false,
        } && !e.no_display && !e.hidden;
        if listed_now {
            let id = entry_id(e.path.as_str());
            let idc = chars_of(id.as_str());
            let mut seen_before = false;
            let mut k: usize = 0;
            while k < seen.len()
                invariant
                    k <= seen@.len(),
                    idc@ == id@,
                    !seen_before ==> forall|w: int| 0 <= w < k ==> #[trigger] seen@[w]@ != id@,
                    seen_before ==> string_views(seen@).contains(id@),
                decreases seen@.len() - k,
            {
                let sc = chars_of(seen[k].as_str());
                if eq_chars(sc.as_slice(), idc.as_slice()) {
                    assert(string_views(seen@)[k as int] == id@);
                    seen_before = true;
                }
                k += 1;
            }
            proof {
                if !seen_before {
                    assert forall|w: int| 0 <= w < string_views(seen@).len() implies string_views(seen@)[w] != id@ by {
                        assert(seen@[w]@ != id@);
                    }
                }
            }
            if !seen_before {
                let ghost sv = string_views(seen@);
                seen.push(id.clone());
                assert(string_views(seen@) =~= sv.push(id@));
                match &e.name {
                    None => {},
                    Some(name) => {
                        let class = match &e.startup_class {
                            Some(c) => c.clone(),
                            None => String::new(),
                        };
                        let executable = match &e.program {
                            Some(p) => match file_name_of(p.as_str()) {
                                Some(n) => n,
                                None => String::new(),
                            },
                            None => String::new(),
                        };
                        let app = Application {
                            id,
                            name: name.clone(),
                            desktop_file: e.path.clone(),
                            startup_class: class,
                            executable,
                        };
                        proof {
                            assert forall|j: int| 0 <= j < apps@.len() implies #[trigger] apps@[j].id@ != app.id@ by {
                                assert(app_views(apps@).contains(app_views(apps@)[j]));
                                assert(g.1.contains(app_views(apps@)[j]));
                                let w = choose|w: int| 0 <= w < g.1.len() && g.1[w] == app_views(apps@)[j];
                                assert(g.0.contains(g.1[w].0));
                            }
                        }
                        let ghost v = app_view(app);
                        insert_by_id(&mut apps, app);
                        proof {
                            lemma_push_contains(g.1, v);
                        }
                    },
                }
            }
        }
        i += 1;
    }
    assert(entries@.take(i as int) =~= entries@);
    apps
}

/// An exact hit: the desktop ID up to case and suffix, or the file path.
pub open spec fn exact_hit(a: Application, q: Seq<char>) -> bool {
    normalized(a.id@) == normalized(q) || a.desktop_file@ == q
}

/// The position of the first exact hit.
pub open spec fn first_exact(s: Seq<Application>, q: Seq<char>) -> Option<int>
    decreases s.len(),
{
    if s.len() == 0 {
        None
    } else if exact_hit(s[0], q) {
        Some(0)
    } else {
        match first_exact(s.drop_first(), q) {
            Some(i) => Some(i + 1),
            None => None,
        }
    }
}

/// The applications `q` names, in order.
pub open spec fn named_by(s: Seq<Application>, q: Seq<char>) -> Seq<Application>
    decreases s.len(),
{
    if s.len() == 0 {
        Seq::empty()
    } else if app_matches(s.last(), q) {
        named_by(s.drop_last(), q).push(s.last())
    } else {
        named_by(s.drop_last(), q)
    }
}

/// `{:?}` of a list of IDs.
pub open spec fn id_list(s: Seq<Application>) -> Seq<char> {
    "["@ + join(s.map_values(|a: Application| debug_text(a.id@)), ", "@) + "]"@
}

/// The application `query` names: the first exact desktop ID or path hit,
/// else the only application it matches; none or several are refused.
pub fn find(query: &str, applications: &[Application]) -> (r: Result<Application, ToolError>)
    ensures
        match first_exact(applications@, query@) {
            Some(i) => r matches Ok(a) && app_view(a) == app_view(applications@[i]),
            None => {
                let m = named_by(applications@, query@);
                if m.len() == 1 {
                    r matches Ok(a) && app_view(a) == app_view(m[0])
                } else if m.len() == 0 {
                    r matches Err(e) && e.code@ == "app_not_found"@ && !e.retryable && e.message@
                        == "No installed application matches "@ + debug_text(query@)
                        + "; use agentdesktop.listApps()"@
                } else {
                    r matches Err(e) && e.code@ == "ambiguous_app"@ && !e.retryable && e.message@
                        == "Use an exact desktop ID: "@ + id_list(m)
                }
            },
        },
{
    let q = chars_of(query);
    let nq = normalized_vec(query);
    let mut i: usize = 0;
    assert(applications@.skip(0) =~= applications@);
    while i < applications.len()
        invariant
            i <= applications@.len(),
            q@ == query@,
            nq@ == normalized(query@),
            first_exact(applications@, query@) == match first_exact(applications@.skip(i as int), query@) {
                Some(k) => Some(k + i),
                None => None,
            },
        decreases applications@.len() - i,
    {
        let a = &applications[i];
        proof {
            assert(applications@.skip(i as int)[0] == *a);
            assert(applications@.skip(i as int).drop_first() =~= applications@.skip(i + 1));
        }
        let nid = normalized_vec(a.id.as_str());
        let f = chars_of(a.desktop_file.as_str());
        if eq_chars(nid.as_slice(), nq.as_slice()) || eq_chars(f.as_slice(), q.as_slice()) {
            return Ok(a.duplicate());
        }
        i += 1;
    }
    let mut found: Vec<usize> = Vec::new();
    let mut k: usize = 0;
    while k < applications.len()
        invariant
            k <= applications@.len(),
            found@.len() == named_by(applications@.take(k as int), query@).len(),
            forall|j: int| #![trigger found@[j]] 0 <= j < found@.len() ==> found@[j] < k && applications@[found@[j] as int]
                == named_by(applications@.take(k as int), query@)[j],
        decreases applications@.len() - k,
    {
        proof {
            assert(applications@.take(k + 1).drop_last() =~= applications@.take(k as int));
        }
        if applications[k].matches(query) {
            found.push(k);
        }
        k += 1;
    }
    assert(applications@.take(k as int) =~= applications@);
    let ghost m = named_by(applications@, query@);
    if found.len() == 1 {
        return Ok(applications[found[0]].duplicate());
    }
    if found.len() == 0 {
        let mut msg = String::from_str("No installed application matches ");
        let d = debug_quoted(query);
        msg.append(d.as_str());
        msg.append("; use agentdesktop.listApps()");
        return Err(fail("app_not_found", msg.as_str()));
    }
    let mut ids: Vec<String> = Vec::new();
    let mut j: usize = 0;
    while j < found.len()
        invariant
            j <= found@.len(),
            found@.len() == m.len(),
            forall|w: int| #![trigger found@[w]] 0 <= w < found@.len() ==> found@[w] < applications@.len() && applications@[found@[w] as int] == m[w],
            string_views(ids@) == m.map_values(|a: Application| debug_text(a.id@)).take(j as int),
        decreases found@.len() - j,
    {
        let ghost before = ids@;
        ids.push(debug_quoted(applications[found[j]].id.as_str()));
        j += 1;
        assert(string_views(ids@) =~= m.map_values(|a: Application| debug_text(a.id@)).take(j as int)) by {
            assert(string_views(ids@) =~= string_views(before).push(ids@.last()@));
        }
    }
    assert(m.map_values(|a: Application| debug_text(a.id@)).take(j as int) =~= m.map_values(|a: Application| debug_text(a.id@)));
    let mut msg = String::from_str("Use an exact desktop ID: ");
    msg.append("[");
    let inner = join_strings(ids.as_slice(), ", ");
    msg.append(inner.as_str());
    msg.append("]");
    Err(fail("ambiguous_app", msg.as_str()))
}

} // verus!
