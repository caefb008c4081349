//! Opaque handles with a time to live: only references minted by a recent
//! observation are accepted, and using one renews it. Times are milliseconds
//! of a monotonic clock, given by the caller.
use crate::text::{chars_of, eq_chars};
use crate::types::Ref;
use vstd::prelude::*;

verus! {

/// How long a reference stays valid without use, in milliseconds.
pub const REF_TTL_MS: u64 = 300_000;

/// Whether a reference minted or used at `t` has expired at `now`.
pub open spec fn expired(t: u64, now: u64) -> bool {
    now > t && now - t > REF_TTL_MS
}

/// The live references and when each was last minted or used, and which of
/// them name windows.
#[derive(Debug)]
pub struct RefStore {
    live: Vec<(String, u64)>,
    windows: Vec<String>,
}

/// The time at which `key` was last minted or used, if it is recorded.
pub open spec fn stamp(live: Seq<(String, u64)>, key: Seq<char>) -> Option<u64>
    decreases live.len(),
{
    if live.len() == 0 {
        None
    } else if live[0].0@ == key {
        Some(live[0].1)
    } else {
        stamp(live.drop_first(), key)
    }
}

pub open spec fn texts(v: Seq<String>) -> Seq<Seq<char>> {
    v.map_values(|s: String| s@)
}

fn same(a: &String, b: &str) -> (r: bool)
    ensures
        r == (a@ == b@),
{
    let x = chars_of(a.as_str());
    let y = chars_of(b);
    eq_chars(x.as_slice(), y.as_slice())
}

proof fn lemma_stamp_update(live: Seq<(String, u64)>, i: int, entry: (String, u64), k: Seq<char>)
    requires
        0 <= i < live.len(),
        live[i].0@ == entry.0@,
        forall|j: int| 0 <= j < i ==> #[trigger] live[j].0@ != entry.0@,
    ensures
        stamp(live.update(i, entry), k) == if k == entry.0@ { Some(entry.1) } else { stamp(live, k) },
    decreases live.len(),
{
    if i == 0 {
        assert(live.update(i, entry).drop_first() =~= live.drop_first());
    } else {
        assert(live.update(i, entry).drop_first() =~= live.drop_first().update(i - 1, entry));
        assert(live[0].0@ != entry.0@);
        assert forall|j: int| 0 <= j < i - 1 implies #[trigger] live.drop_first()[j].0@ != entry.0@ by {
            assert(live.drop_first()[j] == live[j + 1]);
        }
        lemma_stamp_update(live.drop_first(), i - 1, entry, k);
    }
}

proof fn lemma_stamp_push(live: Seq<(String, u64)>, entry: (String, u64), k: Seq<char>)
    ensures
        stamp(live.push(entry), k) == match stamp(live, k) {
            Some(t) => Some(t),
            None => if k == entry.0@ { Some(entry.1) } else { None },
        },
    decreases live.len(),
{
    if live.len() == 0 {
        assert(live.push(entry).drop_first() =~= Seq::<(String, u64)>::empty());
        assert(live.push(entry)[0] == entry);
        assert(stamp(Seq::<(String, u64)>::empty(), k) is None);
        assert(stamp(live, k) is None);
        if entry.0@ == k {
            assert(stamp(live.push(entry), k) == Some(entry.1));
        } else {
            assert(stamp(live.push(entry), k) == stamp(Seq::<(String, u64)>::empty(), k));
        }
    } else {
        assert(live.push(entry)[0] == live[0]);
        assert(live.push(entry).drop_first() =~= live.drop_first().push(entry));
        lemma_stamp_push(live.drop_first(), entry, k);
        if live[0].0@ != k {
            assert(stamp(live.push(entry), k) == stamp(live.drop_first().push(entry), k));
            assert(stamp(live, k) == stamp(live.drop_first(), k));
        }
    }
}

proof fn lemma_stamp_none(live: Seq<(String, u64)>, k: Seq<char>)
    requires
        forall|j: int| 0 <= j < live.len() ==> #[trigger] live[j].0@ != k,
    ensures
        stamp(live, k) is None,
    decreases live.len(),
{
    if live.len() > 0 {
        assert forall|j: int| 0 <= j < live.drop_first().len() implies #[trigger] live.drop_first()[j].0@ != k by {
            assert(live.drop_first()[j] == live[j + 1]);
        }
        lemma_stamp_none(live.drop_first(), k);
    }
}

/// Each reference is recorded once.
pub open spec fn unique_keys(s: Seq<(String, u64)>) -> bool {
    forall|i: int, j: int| 0 <= i < j < s.len() ==> #[trigger] s[i].0@ != #[trigger] s[j].0@
}

/// Records `id` as used at `now`.
fn touch_entries(live: &mut Vec<(String, u64)>, id: &str, now: u64)
    requires
        unique_keys(old(live)@),
    ensures
        unique_keys(final(live)@),
        forall|k: Seq<char>| #[trigger] stamp(final(live)@, k) == if k == id@ {
            Some(now)
        } else {
            stamp(old(live)@, k)
        },
{
    let ghost before = live@;
    let mut i: usize = 0;
    while i < live.len()
        invariant
            i <= live@.len(),
            live@ == before,
            before == old(live)@,
            unique_keys(before),
            forall|j: int| 0 <= j < i ==> #[trigger] before[j].0@ != id@,
        decreases live@.len() - i,
    {
        if same(&live[i].0, id) {
            let entry = (String::from_str(id), now);
            let ghost e = entry;
            live.set(i, entry);
            proof {
                assert forall|k: Seq<char>| #[trigger] stamp(live@, k) == if k == id@ {
                    Some(now)
                } else {
                    stamp(before, k)
                } by {
                    lemma_stamp_update(before, i as int, e, k);
                }
                assert forall|a: int, b: int| 0 <= a < b < live@.len() implies #[trigger] live@[a].0@ != #[trigger] live@[b].0@ by {
                    if a != i && b != i {
                        assert(live@[a] == before[a] && live@[b] == before[b]);
                    } else if a == i {
                        assert(live@[b] == before[b]);
                        assert(before[i as int].0@ != before[b].0@);
                    } else {
                        assert(live@[a] == before[a]);
                        assert(before[a].0@ != before[i as int].0@);
                    }
                }
            }
            return;
        }
        i += 1;
    }
    let entry = (String::from_str(id), now);
    let ghost e = entry;
    live.push(entry);
    proof {
        lemma_stamp_none(before, id@);
        assert forall|k: Seq<char>| #[trigger] stamp(live@, k) == if k == id@ {
            Some(now)
        } else {
            stamp(before, k)
        } by {
            lemma_stamp_push(before, e, k);
        }
        assert forall|a: int, b: int| 0 <= a < b < live@.len() implies #[trigger] live@[a].0@ != #[trigger] live@[b].0@ by {
            assert(live@[a] == before[a]);
            if b < before.len() {
                assert(live@[b] == before[b]);
            }
        }
    }
}

impl RefStore {
    #[verifier::type_invariant]
    spec fn recorded_once(self) -> bool {
        unique_keys(self.live@)
    }

    /// The stamp of each recorded reference.
    pub closed spec fn stamps(&self) -> Seq<(String, u64)> {
        self.live@
    }

    /// The references that name windows.
    pub closed spec fn window_refs(&self) -> Seq<Seq<char>> {
        texts(self.windows@)
    }

    /// No reference yet.
    pub fn new() -> (s: RefStore)
        ensures
            forall|k: Seq<char>| #[trigger] stamp(s.stamps(), k) is None,
            s.window_refs().len() == 0,
    {
        let s = RefStore { live: Vec::new(), windows: Vec::new() };
        assert(texts(s.windows@) =~= Seq::<Seq<char>>::empty());
        s
    }

    /// Mints element references: each becomes valid from `now`.
    pub fn mint_elements(&mut self, ids: Vec<String>, now: u64) -> (refs: Vec<Ref>)
        ensures
            refs@.len() == ids@.len(),
            forall|i: int| 0 <= i < ids@.len() ==> (#[trigger] refs@[i]).0@ == ids@[i]@,
            forall|k: Seq<char>| #[trigger] stamp(final(self).stamps(), k) == if texts(ids@).contains(k) {
                Some(now)
            } else {
                stamp(old(self).stamps(), k)
            },
            final(self).window_refs() == old(self).window_refs(),
    {
        self.mint(ids, now, false)
    }

    /// Mints window references: each becomes valid from `now` and is known
    /// to name a window.
    pub fn mint_windows(&mut self, ids: Vec<String>, now: u64) -> (refs: Vec<Ref>)
        ensures
            refs@.len() == ids@.len(),
            forall|i: int| 0 <= i < ids@.len() ==> (#[trigger] refs@[i]).0@ == ids@[i]@,
            forall|k: Seq<char>| #[trigger] stamp(final(self).stamps(), k) == if texts(ids@).contains(k) {
                Some(now)
            } else {
                stamp(old(self).stamps(), k)
            },
            final(self).window_refs() == old(self).window_refs() + texts(ids@),
    {
        self.mint(ids, now, true)
    }

    fn mint(&mut self, ids: Vec<String>, now: u64, windows: bool) -> (refs: Vec<Ref>)
        ensures
            refs@.len() == ids@.len(),
            forall|i: int| 0 <= i < ids@.len() ==> (#[trigger] refs@[i]).0@ == ids@[i]@,
            forall|k: Seq<char>| #[trigger] stamp(final(self).stamps(), k) == if texts(ids@).contains(k) {
                Some(now)
            } else {
                stamp(old(self).stamps(), k)
            },
            final(self).window_refs() == if windows {
                old(self).window_refs() + texts(ids@)
            } else {
                old(self).window_refs()
            },
    {
        proof {
            use_type_invariant(&*self);
        }
        let mut live: Vec<(String, u64)> = Vec::new();
        std::mem::swap(&mut live, &mut self.live);
        let mut wins: Vec<String> = Vec::new();
        std::mem::swap(&mut wins, &mut self.windows);
        let ghost start = live@;
        let ghost start_windows = texts(wins@);
        let mut refs: Vec<Ref> = Vec::new();
        let mut i: usize = 0;
        while i < ids.len()
            invariant
                i <= ids@.len(),
                refs@.len() == i,
                unique_keys(live@),
                forall|j: int| 0 <= j < i ==> (#[trigger] refs@[j]).0@ == ids@[j]@,
                forall|k: Seq<char>| #[trigger] stamp(live@, k) == if texts(ids@.take(i as int)).contains(k) {
                    Some(now)
                } else {
                    stamp(start, k)
                },
                texts(wins@) == if windows {
                    start_windows + texts(ids@.take(i as int))
                } else {
                    start_windows
                },
            decreases ids@.len() - i,
        {
            let ghost before_windows = texts(wins@);
            touch_entries(&mut live, ids[i].as_str(), now);
            if windows {
                wins.push(ids[i].clone());
            }
            refs.push(Ref(ids[i].clone()));
            proof {
                let t0 = texts(ids@.take(i as int));
                let t1 = texts(ids@.take(i + 1));
                assert(t1 =~= t0.push(ids@[i as int]@));
                assert forall|k: Seq<char>| #[trigger] t1.contains(k) <==> (t0.contains(k) || k == ids@[i as int]@) by {
                    if t0.contains(k) {
                        let w = choose|w: int| 0 <= w < t0.len() && t0[w] == k;
                        assert(t1[w] == k);
                    }
                    if k == ids@[i as int]@ {
                        assert(t1[i as int] == k);
                    }
                    if t1.contains(k) {
                        let w = choose|w: int| 0 <= w < t1.len() && t1[w] == k;
                        if w < i {
                            assert(t0[w] == k);
                        }
                    }
                }
                if windows {
                    assert(texts(wins@) =~= before_windows.push(ids@[i as int]@));
                }
            }
            i += 1;
        }
        assert(ids@.take(i as int) =~= ids@);
        self.live = live;
        self.windows = wins;
        refs
    }

    /// Whether `r` is still valid at `now`: expired references are dropped
    /// first; a valid one is renewed.
    pub fn check(&mut self, r: &Ref, now: u64) -> (ok: bool)
        ensures
            ok == (stamp(old(self).stamps(), r.0@) matches Some(t) && !expired(t, now)),
            forall|k: Seq<char>| #[trigger] stamp(final(self).stamps(), k) == if ok && k == r.0@ {
                Some(now)
            } else {
                match stamp(old(self).stamps(), k) {
                    Some(t) => if expired(t, now) { None } else { Some(t) },
                    None => None,
                }
            },
            final(self).window_refs() == old(self).window_refs(),
    {
        proof {
            use_type_invariant(&*self);
        }
        let mut rest: Vec<(String, u64)> = Vec::new();
        std::mem::swap(&mut rest, &mut self.live);
        let ghost start = rest@;
        let n = rest.len();
        let mut kept: Vec<(String, u64)> = Vec::new();
        let mut k: usize = 0;
        assert(start.skip(0) =~= start);
        while rest.len() > 0
            invariant
                k <= start.len(),
                start.len() == n,
                start == old(self).live@,
                self.windows == old(self).windows,
                unique_keys(start),
                rest@ == start.skip(k as int),
                unique_keys(kept@),
                forall|key: Seq<char>| #[trigger] stamp(kept@, key) == match stamp(start.take(k as int), key) {
                    Some(t) => if expired(t, now) { None } else { Some(t) },
                    None => None,
                },
                forall|j: int| 0 <= j < kept@.len() ==> stamp(start.take(k as int), #[trigger] kept@[j].0@) is Some,
            decreases rest@.len(),
        {
            let e = rest.remove(0);
            let ghost key0 = e.0@;
            let ghost ge = e;
            proof {
                assert(rest@ =~= start.skip(k + 1));
                assert(start.skip(k as int)[0] == e);
                assert(start[k as int] == e);
                assert forall|j: int| 0 <= j < k implies #[trigger] start.take(k as int)[j].0@ != key0 by {
                    assert(start.take(k as int)[j] == start[j]);
                }
                lemma_stamp_none(start.take(k as int), key0);
                lemma_stamp_take_step(start, k as int);
            }
            let fresh = !(now > e.1 && now - e.1 > REF_TTL_MS);
            let ghost old_kept = kept@;
            if fresh {
                kept.push(e);
            }
            proof {
                assert forall|key: Seq<char>| #[trigger] stamp(kept@, key) == match stamp(start.take(k + 1), key) {
                    Some(t) => if expired(t, now) { None } else { Some(t) },
                    None => None,
                } by {
                    if fresh {
                        assert(kept@ =~= old_kept.push(ge));
                        lemma_stamp_push(old_kept, ge, key);
                    }
                }
                assert forall|j: int| 0 <= j < kept@.len() implies stamp(start.take(k + 1), #[trigger] kept@[j].0@) is Some by {
                    if j < old_kept.len() {
                        assert(kept@[j] == old_kept[j]);
                    }
                }
                assert forall|a: int, b: int| 0 <= a < b < kept@.len() implies #[trigger] kept@[a].0@ != #[trigger] kept@[b].0@ by {
                    if b < old_kept.len() {
                        assert(kept@[a] == old_kept[a] && kept@[b] == old_kept[b]);
                    } else {
                        assert(kept@[a] == old_kept[a]);
                        assert(stamp(start.take(k as int), old_kept[a].0@) is Some);
                    }
                }
            }
            k += 1;
        }
        assert(start.take(k as int) =~= start) by {
            assert(start.skip(k as int).len() == 0);
        }
        let mut i: usize = 0;
        while i < kept.len()
            invariant
                i <= kept@.len(),
                unique_keys(kept@),
                start == old(self).live@,
                self.windows == old(self).windows,
                forall|j: int| 0 <= j < i ==> #[trigger] kept@[j].0@ != r.0@,
                forall|key: Seq<char>| #[trigger] stamp(kept@, key) == match stamp(start, key) {
                    Some(t) => if expired(t, now) { None } else { Some(t) },
                    None => None,
                },
            decreases kept@.len() - i,
        {
            if same(&kept[i].0, r.0.as_str()) {
                proof {
                    lemma_stamp_first(kept@, i as int);
                }
                touch_entries(&mut kept, r.0.as_str(), now);
                self.live = kept;
                return true;
            }
            i += 1;
        }
        proof {
            lemma_stamp_none(kept@, r.0@);
        }
        self.live = kept;
        false
    }

    /// Whether `r` names a window.
    pub fn is_window(&self, r: &Ref) -> (b: bool)
        ensures
            b == self.window_refs().contains(r.0@),
    {
        let mut i: usize = 0;
        while i < self.windows.len()
            invariant
                i <= self.windows@.len(),
                forall|j: int| 0 <= j < i ==> #[trigger] self.windows@[j]@ != r.0@,
            decreases self.windows@.len() - i,
        {
            if same(&self.windows[i], r.0.as_str()) {
                assert(texts(self.windows@)[i as int] == r.0@);
                return true;
            }
            i += 1;
        }
        assert forall|j: int| 0 <= j < texts(self.windows@).len() implies texts(self.windows@)[j] != r.0@ by {
            assert(self.windows@[j]@ != r.0@);
        }
        false
    }
}

proof fn lemma_stamp_first(live: Seq<(String, u64)>, i: int)
    requires
        0 <= i < live.len(),
        forall|j: int| 0 <= j < i ==> #[trigger] live[j].0@ != live[i].0@,
    ensures
        stamp(live, live[i].0@) == Some(live[i].1),
    decreases i,
{
    if i > 0 {
        assert forall|j: int| 0 <= j < i - 1 implies #[trigger] live.drop_first()[j].0@ != live.drop_first()[i - 1].0@ by {
            assert(live.drop_first()[j] == live[j + 1]);
        }
        lemma_stamp_first(live.drop_first(), i - 1);
    }
}

proof fn lemma_stamp_split(s: Seq<(String, u64)>, k: int)
    requires
        0 <= k <= s.len(),
    ensures
        forall|key: Seq<char>| #[trigger] stamp(s, key) == match stamp(s.take(k), key) {
            Some(t) => Some(t),
            None => stamp(s.skip(k), key),
        },
    decreases k,
{
    if k > 0 {
        assert(s.drop_first().take(k - 1) =~= s.take(k).drop_first());
        assert(s.drop_first().skip(k - 1) =~= s.skip(k));
        lemma_stamp_split(s.drop_first(), k - 1);
        assert forall|key: Seq<char>| #[trigger] stamp(s, key) == match stamp(s.take(k), key) {
            Some(t) => Some(t),
            None => stamp(s.skip(k), key),
        } by {
            assert(s.take(k)[0] == s[0]);
            assert(stamp(s, key) == if s[0].0@ == key { Some(s[0].1) } else { stamp(s.drop_first(), key) });
            assert(stamp(s.take(k), key) == if s[0].0@ == key { Some(s[0].1) } else { stamp(s.take(k).drop_first(), key) });
            assert(stamp(s.drop_first(), key) == match stamp(s.drop_first().take(k - 1), key) {
                Some(t) => Some(t),
                None => stamp(s.drop_first().skip(k - 1), key),
            });
        }
    } else {
        assert(s.skip(0) =~= s);
        assert forall|key: Seq<char>| #[trigger] stamp(s.take(0), key) is None by {
            assert(s.take(0) =~= Seq::<(String, u64)>::empty());
        }
    }
}

proof fn lemma_stamp_take_step(s: Seq<(String, u64)>, k: int)
    requires
        0 <= k < s.len(),
    ensures
        forall|key: Seq<char>| #[trigger] stamp(s.take(k + 1), key) == match stamp(s.take(k), key) {
            Some(t) => Some(t),
            None => if s[k].0@ == key { Some(s[k].1) } else { None },
        },
{
    let s1 = s.take(k + 1);
    lemma_stamp_split(s1, k);
    assert(s1.take(k) =~= s.take(k));
    let one = seq![s[k]];
    assert(s1.skip(k) =~= one);
    assert(one.drop_first() =~= Seq::<(String, u64)>::empty());
    assert forall|key: Seq<char>| #[trigger] stamp(s.take(k + 1), key) == match stamp(s.take(k), key) {
        Some(t) => Some(t),
        None => if s[k].0@ == key { Some(s[k].1) } else { None },
    } by {
        assert(stamp(s1, key) == match stamp(s1.take(k), key) {
            Some(t) => Some(t),
            None => stamp(s1.skip(k), key),
        });
        assert(one[0] == s[k]);
        assert(stamp(Seq::<(String, u64)>::empty(), key) is None);
        assert(stamp(one, key) == if s[k].0@ == key { Some(s[k].1) } else { stamp(one.drop_first(), key) });
    }
}

/// A reference is honoured within its time to live of being minted or used,
/// and refused after it.
pub proof fn law_reference_lifetime(stamps: Seq<(String, u64)>, key: Seq<char>, minted: u64, now: u64)
    requires
        stamp(stamps, key) == Some(minted),
    ensures
        now <= minted + REF_TTL_MS ==> !expired(minted, now),
        now > minted + REF_TTL_MS ==> expired(minted, now),
{
}

} // verus!
