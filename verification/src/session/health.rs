//! Seat health: what the liveness of a seat's helpers, the presence of
//! leftover members and a readiness probe say about the seat together.
use crate::session::process::ProcessIdentity;
use crate::text::{decimal, decimal_string, join, join_strings, string_views};
use vstd::prelude::*;

verus! {

/// The state a seat is in.
#[derive(Debug, Clone, Copy, PartialEq, Eq, Structural)]
pub enum Health {
    Ready,
    Degraded,
    Stopped,
}

/// A seat's health with the pids of exited helpers and the issues found.
#[derive(Debug)]
pub struct SeatHealth {
    pub health: Health,
    pub dead_pids: Vec<i32>,
    pub issues: Vec<String>,
}

/// What the helpers' liveness alone says: the exited pids, the issues so far,
/// and whether every helper has exited (which decides the next check).
#[derive(Debug)]
pub struct Liveness {
    pub dead_pids: Vec<i32>,
    pub issues: Vec<String>,
    pub all_exited: bool,
}

/// `n` in decimal, with a minus sign when negative.
pub open spec fn signed_decimal(n: int) -> Seq<char> {
    if n < 0 {
        "-"@ + decimal((-n) as nat)
    } else {
        decimal(n as nat)
    }
}

/// The decimal spellings of a list of pids.
pub open spec fn pid_texts(p: Seq<i32>) -> Seq<Seq<char>> {
    p.map_values(|x: i32| signed_decimal(x as int))
}

/// `{:?}` of a list of pids: `[1, 2, 3]`.
pub open spec fn pid_list(p: Seq<i32>) -> Seq<char> {
    "["@ + join(pid_texts(p), ", "@) + "]"@
}

/// The pids among the first `n` helpers that are not alive, in order.
pub open spec fn dead_upto(ps: Seq<ProcessIdentity>, alive: Seq<bool>, n: int) -> Seq<i32>
    decreases n,
{
    if n <= 0 {
        Seq::empty()
    } else if !alive[n - 1] {
        dead_upto(ps, alive, n - 1).push(ps[n - 1].pid)
    } else {
        dead_upto(ps, alive, n - 1)
    }
}

/// The issues liveness reports.
pub open spec fn liveness_issues(ps: Seq<ProcessIdentity>, dead: Seq<i32>) -> Seq<Seq<char>> {
    if ps.len() == 0 {
        seq!["No tracked session helpers"@]
    } else if dead.len() > 0 {
        seq!["Session helpers exited: "@ + pid_list(dead)]
    } else {
        Seq::empty()
    }
}

/// The issue reported when helpers of an exited seat are still running.
pub open spec fn leftover_issue() -> Seq<char> {
    "Owned helper processes remain after the session exited"@
}

/// The health of a seat whose helpers all exited.
pub open spec fn exited_health(has_members: bool) -> Health {
    if has_members {
        Health::Degraded
    } else {
        Health::Stopped
    }
}

/// The health a whole inspection reports: liveness first; a seat whose
/// helpers all exited is stopped (or degraded while members remain); else it
/// is ready exactly when nothing was found, the probe included.
pub open spec fn seat_verdict(
    ps: Seq<ProcessIdentity>,
    alive: Seq<bool>,
    has_members: bool,
    probe_ok: bool,
) -> Health {
    let dead = dead_upto(ps, alive, ps.len() as int);
    if dead.len() == ps.len() {
        exited_health(has_members)
    } else if liveness_issues(ps, dead).len() == 0 && probe_ok {
        Health::Ready
    } else {
        Health::Degraded
    }
}

proof fn lemma_dead_len(ps: Seq<ProcessIdentity>, alive: Seq<bool>, n: int)
    requires
        0 <= n,
    ensures
        dead_upto(ps, alive, n).len() <= n,
        (exists|i: int| 0 <= i < n && !alive[i]) ==> dead_upto(ps, alive, n).len() > 0,
    decreases n,
{
    if n > 0 {
        lemma_dead_len(ps, alive, n - 1);
        if exists|i: int| 0 <= i < n && !alive[i] {
            let i = choose|i: int| 0 <= i < n && !alive[i];
            if i < n - 1 {
                assert(exists|j: int| 0 <= j < n - 1 && !alive[j]);
            }
        }
    }
}

/// A seat with an exited or untracked helper is never reported ready.
pub proof fn law_exited_helper_is_never_ready(
    ps: Seq<ProcessIdentity>,
    alive: Seq<bool>,
    has_members: bool,
    probe_ok: bool,
)
    requires
        alive.len() == ps.len(),
        ps.len() == 0 || exists|i: int| 0 <= i < ps.len() && !alive[i],
    ensures
        seat_verdict(ps, alive, has_members, probe_ok) != Health::Ready,
{
    lemma_dead_len(ps, alive, ps.len() as int);
}

/// A seat whose helpers all run is ready exactly when the probe passes.
pub proof fn law_live_seat_ready_iff_probe(
    ps: Seq<ProcessIdentity>,
    alive: Seq<bool>,
    has_members: bool,
    probe_ok: bool,
)
    requires
        alive.len() == ps.len(),
        ps.len() > 0,
        forall|i: int| 0 <= i < ps.len() ==> alive[i],
    ensures
        (seat_verdict(ps, alive, has_members, probe_ok) == Health::Ready) == probe_ok,
{
    lemma_all_alive(ps, alive, ps.len() as int);
}

proof fn lemma_all_alive(ps: Seq<ProcessIdentity>, alive: Seq<bool>, n: int)
    requires
        0 <= n <= alive.len(),
        forall|i: int| 0 <= i < n ==> alive[i],
    ensures
        dead_upto(ps, alive, n).len() == 0,
    decreases n,
{
    if n > 0 {
        lemma_all_alive(ps, alive, n - 1);
    }
}

/// `n` spelled in decimal.
pub fn signed_decimal_string(n: i32) -> (s: String)
    ensures
        s@ == signed_decimal(n as int),
{
    if n < 0 {
        let m: i64 = 0 - (n as i64);
        let mut s = String::from_str("-");
        let digits = decimal_string(m as u64);
        s.append(digits.as_str());
        proof {
            reveal_strlit("-");
        }
        s
    } else {
        decimal_string(n as u64)
    }
}

/// `format!("{:?}", pids)`.
pub fn pid_list_string(pids: &[i32]) -> (s: String)
    ensures
        s@ == pid_list(pids@),
{
    let mut parts: Vec<String> = Vec::new();
    let mut i: usize = 0;
    while i < pids.len()
        invariant
            i <= pids@.len(),
            string_views(parts@) == pid_texts(pids@).take(i as int),
        decreases pids@.len() - i,
    {
        let ghost before = parts@;
        parts.push(signed_decimal_string(pids[i]));
        i += 1;
        assert(string_views(parts@) =~= pid_texts(pids@).take(i as int)) by {
            assert(string_views(parts@) =~= string_views(before).push(parts@.last()@));
        }
    }
    assert(pid_texts(pids@).take(i as int) =~= pid_texts(pids@));
    let mut s = String::from_str("[");
    let inner = join_strings(parts.as_slice(), ", ");
    s.append(inner.as_str());
    s.append("]");
    s
}

/// Liveness of a seat's helpers; `alive[i]` says whether `processes[i]` still
/// runs.
pub fn assess_liveness(processes: &[ProcessIdentity], alive: &[bool]) -> (r: Liveness)
    requires
        alive@.len() == processes@.len(),
    ensures
        r.dead_pids@ == dead_upto(processes@, alive@, processes@.len() as int),
        string_views(r.issues@) == liveness_issues(processes@, r.dead_pids@),
        r.all_exited == (r.dead_pids@.len() == processes@.len()),
{
    let mut dead: Vec<i32> = Vec::new();
    let mut i: usize = 0;
    while i < processes.len()
        invariant
            i <= processes@.len(),
            alive@.len() == processes@.len(),
            dead@ == dead_upto(processes@, alive@, i as int),
        decreases processes@.len() - i,
    {
        if !alive[i] {
            dead.push(processes[i].pid);
        }
        i += 1;
    }
    let mut issues: Vec<String> = Vec::new();
    if processes.len() == 0 {
        issues.push(String::from_str("No tracked session helpers"));
    } else if dead.len() > 0 {
        let mut m = String::from_str("Session helpers exited: ");
        let list = pid_list_string(dead.as_slice());
        m.append(list.as_str());
        issues.push(m);
    }
    assert(string_views(issues@) =~= liveness_issues(processes@, dead@));
    let all_exited = dead.len() == processes.len();
    Liveness { dead_pids: dead, issues, all_exited }
}

impl Liveness {
    /// The report once every helper exited; `has_members` says whether
    /// processes of the seat's runtime are still running.
    pub fn after_exit(self, has_members: bool) -> (r: SeatHealth)
        ensures
            r.health == exited_health(has_members),
            r.dead_pids@ == self.dead_pids@,
            string_views(r.issues@) == if has_members {
                string_views(self.issues@).push(leftover_issue())
            } else {
                string_views(self.issues@)
            },
    {
        let mut issues = self.issues;
        let ghost before = issues@;
        if has_members {
            issues.push(String::from_str("Owned helper processes remain after the session exited"));
            assert(string_views(issues@) =~= string_views(before).push(leftover_issue()));
        }
        SeatHealth {
            health: if has_members {
                Health::Degraded
            } else {
                Health::Stopped
            },
            dead_pids: self.dead_pids,
            issues,
        }
    }

    /// The report of a seat with running helpers once its readiness probe
    /// answered; a failed probe adds its reason.
    pub fn after_probe(self, probe: Result<(), String>) -> (r: SeatHealth)
        ensures
            r.dead_pids@ == self.dead_pids@,
            string_views(r.issues@) == match probe {
                Ok(()) => string_views(self.issues@),
                Err(e) => string_views(self.issues@).push(e@),
            },
            r.health == if r.issues@.len() == 0 {
                Health::Ready
            } else {
                Health::Degraded
            },
    {
        let mut issues = self.issues;
        let ghost before = issues@;
        match probe {
            Ok(()) => {},
            Err(e) => {
                issues.push(e);
                assert(string_views(issues@) =~= string_views(before).push(issues@.last()@));
            },
        }
        let health = if issues.len() == 0 {
            Health::Ready
        } else {
            Health::Degraded
        };
        SeatHealth { health, dead_pids: self.dead_pids, issues }
    }
}

} // verus!
