//! Process identities: a pid together with its start time, so that a reused
//! pid is never mistaken for a process the seat started.
use crate::text::{
    after_last, byte_views, chars_of, eq_bytes, eq_lit, last_match, parse_i32, parse_i32_vec,
    parse_u64, parse_u64_vec, split, split_bytes, utf8, utf8_of, words, words_vec,
};
use vstd::prelude::*;

verus! {

/// A process as `/proc/<pid>/stat` describes it: its pid and its start time
/// in clock ticks since boot.
#[derive(Debug, Clone, Copy, PartialEq, Eq, Structural)]
pub struct ProcessIdentity {
    pub pid: i32,
    pub started: u64,
}

/// The fields of a stat line after the command name, which is the text up to
/// the last `") "`.
pub open spec fn stat_fields(stat: Seq<char>) -> Option<Seq<char>> {
    match last_match(stat, ") "@) {
        Some(i) => Some(stat.skip(i + 2)),
        None => None,
    }
}

/// The identity a stat line gives to `pid`: none for a zombie (`Z`) or dead
/// (`X`) process, else the start time in the 20th field after the state.
pub open spec fn stat_identity(pid: i32, stat: Seq<char>) -> Option<ProcessIdentity> {
    match stat_fields(stat) {
        None => None,
        Some(f) => {
            let w = words(f);
            if w.len() == 0 || w[0] == "Z"@ || w[0] == "X"@ || w.len() <= 19 {
                None
            } else {
                match parse_u64(w[19]) {
                    Some(s) => Some(ProcessIdentity { pid, started: s }),
                    None => None,
                }
            }
        }
    }
}

/// Whether a NUL-separated `environ` block holds the entry `key=value`.
pub open spec fn environ_has(environ: Seq<u8>, key: Seq<char>, value: Seq<char>) -> bool {
    split(environ, 0u8).contains(utf8(key + "="@ + value))
}

impl ProcessIdentity {
    /// The identity that the text of `/proc/<pid>/stat` gives.
    pub fn parse_stat(pid: i32, stat: &str) -> (r: Option<ProcessIdentity>)
        ensures
            r == stat_identity(pid, stat@),
    {
        let s = chars_of(stat);
        let pat = chars_of(") ");
        proof {
            reveal_strlit(") ");
        }
        let fields = match after_last(s.as_slice(), pat.as_slice()) {
            Some(f) => f,
            None => return None,
        };
        let w = words_vec(fields.as_slice());
        proof {
            assert(crate::text::views(w@) == words(fields@));
        }
        if w.len() == 0 {
            return None;
        }
        proof {
            assert(w@[0]@ == words(fields@)[0]);
        }
        if eq_lit(w[0].as_slice(), "Z") || eq_lit(w[0].as_slice(), "X") {
            return None;
        }
        if w.len() <= 19 {
            return None;
        }
        proof {
            assert(w@[19]@ == words(fields@)[19]);
        }
        match parse_u64_vec(w[19].as_slice()) {
            Some(started) => Some(ProcessIdentity { pid, started }),
            None => None,
        }
    }

    /// Whether this process still runs: `current` is what `/proc` says of the
    /// same pid now, and a different start time means the pid was reused.
    pub fn alive(&self, current: Option<ProcessIdentity>) -> (b: bool)
        ensures
            b == (current matches Some(c) && c.started == self.started),
    {
        match current {
            Some(c) => c.started == self.started,
            None => false,
        }
    }
}

/// The pid a `/proc` directory entry names, if its name is a number.
pub fn proc_entry_pid(name: &str) -> (r: Option<i32>)
    ensures
        r == parse_i32(name@),
{
    let v = chars_of(name);
    parse_i32_vec(v.as_slice())
}

/// Whether a process's environment block carries `key=value` exactly.
pub fn environ_contains(environ: &[u8], key: &str, value: &str) -> (b: bool)
    ensures
        b == environ_has(environ@, key@, value@),
{
    let mut entry = chars_of(key);
    entry.push('=');
    let mut v = chars_of(value);
    entry.append(&mut v);
    proof {
        reveal_strlit("=");
        assert(entry@ =~= key@ + "="@ + value@);
    }
    let expected = utf8_of(entry.as_slice());
    let fields = split_bytes(environ, 0u8);
    let ghost all = split(environ@, 0u8);
    let mut i: usize = 0;
    while i < fields.len()
        invariant
            i <= fields@.len(),
            byte_views(fields@) == all,
            all == split(environ@, 0u8),
            expected@ == utf8(key@ + "="@ + value@),
            forall|j: int| 0 <= j < i ==> all[j] != expected@,
        decreases fields@.len() - i,
    {
        proof {
            assert(all[i as int] == fields@[i as int]@);
        }
        if eq_bytes(fields[i].as_slice(), expected.as_slice()) {
            assert(all.contains(expected@));
            return true;
        }
        i += 1;
    }
    false
}

/// Whether a `/proc` entry is a member of a seat: a process other than this
/// one whose environment carries the seat's `key=value` and which is alive.
pub fn is_member(
    pid: i32,
    own_pid: i32,
    identity: Option<ProcessIdentity>,
    environ: &[u8],
    key: &str,
    value: &str,
    current: Option<ProcessIdentity>,
) -> (r: Option<ProcessIdentity>)
    ensures
        r == if pid != own_pid && identity is Some && environ_has(environ@, key@, value@)
            && (current matches Some(c) && c.started == identity->0.started) {
            identity
        } else {
            None
        },
{
    if pid == own_pid {
        return None;
    }
    match identity {
        None => None,
        Some(id) => {
            if environ_contains(environ, key, value) && id.alive(current) {
                Some(id)
            } else {
                None
            }
        },
    }
}

/// Which signal ends a process.
#[derive(Debug, Clone, Copy, PartialEq, Eq, Structural)]
pub enum SignalKind {
    Terminate,
    Kill,
}

/// One signal of a seat's teardown: to the process, or to its whole process
/// group when `group` is set (helpers lead their own sessions). It is only
/// sent while that process (same pid, same start time) still runs.
#[derive(Debug, Clone, Copy, PartialEq, Eq, Structural)]
pub struct Signal {
    pub process: ProcessIdentity,
    pub group: bool,
    pub kind: SignalKind,
}

/// The signals for other members of the seat, each to its own process.
pub open spec fn member_signals(members: Seq<ProcessIdentity>, kind: SignalKind) -> Seq<Signal> {
    members.map_values(|m: ProcessIdentity| Signal { process: m, group: false, kind: kind })
}

/// The signals for the seat's own helpers, each to its process group,
/// newest helper first.
pub open spec fn helper_signals(helpers: Seq<ProcessIdentity>, kind: SignalKind) -> Seq<Signal> {
    Seq::new(
        helpers.len(),
        |i: int| Signal { process: helpers[helpers.len() - 1 - i], group: true, kind: kind },
    )
}

fn push_members(out: &mut Vec<Signal>, members: &[ProcessIdentity], kind: SignalKind)
    ensures
        final(out)@ == old(out)@ + member_signals(members@, kind),
{
    let ghost start = out@;
    let mut i: usize = 0;
    while i < members.len()
        invariant
            i <= members@.len(),
            out@ == start + member_signals(members@.take(i as int), kind),
        decreases members@.len() - i,
    {
        out.push(Signal { process: members[i], group: false, kind });
        i += 1;
        proof {
            assert(out@ =~= start + member_signals(members@.take(i as int), kind));
        }
    }
    proof {
        assert(members@.take(members@.len() as int) == members@);
    }
}

fn push_helpers(out: &mut Vec<Signal>, helpers: &[ProcessIdentity], kind: SignalKind)
    ensures
        final(out)@ == old(out)@ + helper_signals(helpers@, kind),
{
    let ghost start = out@;
    let n = helpers.len();
    let mut i: usize = 0;
    while i < n
        invariant
            n == helpers@.len(),
            i <= n,
            out@ == start + helper_signals(helpers@, kind).take(i as int),
        decreases n - i,
    {
        out.push(Signal { process: helpers[n - 1 - i], group: true, kind });
        i += 1;
        proof {
            assert(out@ =~= start + helper_signals(helpers@, kind).take(i as int));
        }
    }
    proof {
        assert(helper_signals(helpers@, kind).take(n as int) == helper_signals(helpers@, kind));
    }
}

/// The first round of a teardown: the seat's other members are asked to
/// terminate, then the helpers' groups, newest first.
pub fn termination_round(helpers: &[ProcessIdentity], members: &[ProcessIdentity]) -> (r: Vec<Signal>)
    ensures
        r@ == member_signals(members@, SignalKind::Terminate) + helper_signals(helpers@, SignalKind::Terminate),
{
    let mut r: Vec<Signal> = Vec::new();
    push_members(&mut r, members, SignalKind::Terminate);
    push_helpers(&mut r, helpers, SignalKind::Terminate);
    proof {
        assert(r@ =~= member_signals(members@, SignalKind::Terminate) + helper_signals(helpers@, SignalKind::Terminate));
    }
    r
}

/// The last round, once the grace period is over: the helpers' groups are
/// killed, newest first, then every member seen (before, and again now).
pub fn kill_round(helpers: &[ProcessIdentity], members: &[ProcessIdentity]) -> (r: Vec<Signal>)
    ensures
        r@ == helper_signals(helpers@, SignalKind::Kill) + member_signals(members@, SignalKind::Kill),
{
    let mut r: Vec<Signal> = Vec::new();
    push_helpers(&mut r, helpers, SignalKind::Kill);
    push_members(&mut r, members, SignalKind::Kill);
    proof {
        assert(r@ =~= helper_signals(helpers@, SignalKind::Kill) + member_signals(members@, SignalKind::Kill));
    }
    r
}

/// Whether a teardown has anything to stop: a detached seat's teardown
/// names no runtime directory and leaves every process alone.
pub fn has_runtime(runtime: &str) -> (b: bool)
    ensures
        b == (runtime@.len() > 0),
{
    runtime.unicode_len() > 0
}

/// How long terminated processes get to exit before they are killed, in
/// milliseconds.
pub const EXIT_GRACE_MS: u64 = 2000;

/// Whether to keep waiting for terminated processes to exit: while one of
/// them is alive and the grace period since `signalled_at` has not passed
/// (times in milliseconds of one clock).
pub fn await_exit(any_alive: bool, signalled_at: u64, now: u64) -> (b: bool)
    ensures
        b == (any_alive && now < signalled_at + EXIT_GRACE_MS),
{
    any_alive && !(now >= signalled_at && now - signalled_at >= EXIT_GRACE_MS)
}

} // verus!
