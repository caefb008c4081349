//! A table of text values keyed by text, kept in key order: the library's
//! `BTreeMap<String, String>`, with its contents as an ordered sequence of
//! key/value views.
use crate::text::{chars_of, eq_lit, lemma_lex_irreflexive, lemma_lex_total, lemma_lex_transitive, lex_lt, str_less};
use vstd::prelude::*;

verus! {
/// The table as key/value views, in table order.
pub open spec fn pair_views(v: Seq<(String, String)>) -> Seq<(Seq<char>, Seq<char>)> {
    v.map_values(|p: (String, String)| (p.0@, p.1@))
}

/// Keys strictly increasing: each key once, in `str` order.
pub open spec fn sorted_keys(s: Seq<(Seq<char>, Seq<char>)>) -> bool {
    forall|i: int, j: int| 0 <= i < j < s.len() ==> lex_lt(#[trigger] s[i].0, #[trigger] s[j].0)
}

/// Whether some entry has key `k`.
pub open spec fn has_key(s: Seq<(Seq<char>, Seq<char>)>, k: Seq<char>) -> bool {
    exists|i: int| 0 <= i < s.len() && #[trigger] s[i].0 == k
}

/// A position whose key is `k`, where there is one.
pub open spec fn key_index(s: Seq<(Seq<char>, Seq<char>)>, k: Seq<char>) -> int {
    choose|i: int| 0 <= i < s.len() && #[trigger] s[i].0 == k
}

/// The value stored under `k`, if any.
pub open spec fn lookup(s: Seq<(Seq<char>, Seq<char>)>, k: Seq<char>) -> Option<Seq<char>> {
    if has_key(s, k) {
        Some(s[key_index(s, k)].1)
    } else {
        None
    }
}

pub proof fn lemma_lookup_at(s: Seq<(Seq<char>, Seq<char>)>, n: int)
    requires
        sorted_keys(s),
        0 <= n < s.len(),
    ensures
        lookup(s, s[n].0) == Some(s[n].1),
{
    let k = s[n].0;
    assert(s[n].0 == k);
    assert(has_key(s, k));
    let j = key_index(s, k);
    if j != n {
        lemma_lex_irreflexive(k);
        if j < n {
            assert(lex_lt(s[j].0, s[n].0));
        } else {
            assert(lex_lt(s[n].0, s[j].0));
        }
    }
}

pub proof fn lemma_lookup_none(s: Seq<(Seq<char>, Seq<char>)>, k: Seq<char>)
    requires
        forall|i: int| 0 <= i < s.len() ==> #[trigger] s[i].0 != k,
    ensures
        lookup(s, k) is None,
{
}

/// A table of text values keyed by text, kept in key order like a `BTreeMap`.
#[derive(Debug)]
pub struct TextTable {
    entries: Vec<(String, String)>,
}

impl View for TextTable {
    type V = Seq<(Seq<char>, Seq<char>)>;

    closed spec fn view(&self) -> Seq<(Seq<char>, Seq<char>)> {
        pair_views(self.entries@)
    }
}

impl TextTable {
    #[verifier::type_invariant]
    spec fn ordered(self) -> bool {
        sorted_keys(pair_views(self.entries@))
    }

    /// An empty table.
    pub fn new() -> (r: TextTable)
        ensures
            r@ == Seq::<(Seq<char>, Seq<char>)>::empty(),
    {
        let r = TextTable { entries: Vec::new() };
        assert(r@ =~= Seq::<(Seq<char>, Seq<char>)>::empty());
        r
    }

    /// The number of variables.
    pub fn len(&self) -> (n: usize)
        ensures
            n == self@.len(),
    {
        self.entries.len()
    }

    /// Keys are in strictly increasing order.
    pub fn ordered_view(&self)
        ensures
            sorted_keys(self@),
    {
        proof {
            use_type_invariant(self);
        }
    }

    /// The value of `key`, if it is set.
    pub fn get(&self, key: &str) -> (r: Option<String>)
        ensures
            match lookup(self@, key@) {
                Some(v) => r matches Some(s) && s@ == v,
                None => r is None,
            },
    {
        proof {
            use_type_invariant(self);
        }
        let mut i: usize = 0;
        while i < self.entries.len()
            invariant
                i <= self@.len(),
                self@.len() == self.entries@.len(),
                self@ == pair_views(self.entries@),
                sorted_keys(self@),
                forall|j: int| 0 <= j < i ==> #[trigger] self@[j].0 != key@,
            decreases self@.len() - i,
        {
            let k = &self.entries[i].0;
            let kv = chars_of(k.as_str());
            if eq_lit(kv.as_slice(), key) {
                proof {
                    lemma_lookup_at(self@, i as int);
                }
                return Some(self.entries[i].1.clone());
            }
            i += 1;
        }
        proof {
            lemma_lookup_none(self@, key@);
        }
        None
    }

    /// Whether `key` is set.
    pub fn contains_key(&self, key: &str) -> (b: bool)
        ensures
            b == lookup(self@, key@) is Some,
    {
        self.get(key).is_some()
    }

    /// Sets `key` to `value`, replacing any earlier value.
    pub fn insert(&mut self, key: String, value: String)
        ensures
            sorted_keys(final(self)@),
            forall|k: Seq<char>|
                #[trigger] lookup(final(self)@, k) == if k == key@ {
                    Some(value@)
                } else {
                    lookup(old(self)@, k)
                },
    {
        proof {
            use_type_invariant(&*self);
        }
        let ghost before = self@;
        let n = self.entries.len();
        let mut i: usize = 0;
        while i < n && str_less(self.entries[i].0.as_str(), key.as_str())
            invariant
                n == self.entries@.len(),
                i <= n,
                self@ == before,
                before == pair_views(self.entries@),
                sorted_keys(before),
                forall|j: int| 0 <= j < i ==> lex_lt(#[trigger] before[j].0, key@),
            decreases n - i,
        {
            i += 1;
        }
        let same = i < n && self.entries[i].0 == key;
        let mut entries: Vec<(String, String)> = Vec::new();
        std::mem::swap(&mut entries, &mut self.entries);
        let ghost kv = key@;
        let ghost vv = value@;
        if same {
            let ghost after = before.update(i as int, (kv, vv));
            proof {
                assert(sorted_keys(after)) by {
                    assert forall|a: int, b: int| 0 <= a < b < after.len() implies lex_lt(
                        #[trigger] after[a].0,
                        #[trigger] after[b].0,
                    ) by {
                        assert(after[a].0 == before[a].0);
                        assert(after[b].0 == before[b].0);
                    }
                }
                assert(pair_views(entries@.update(i as int, (key, value))) =~= after);
            }
            entries.set(i, (key, value));
            self.entries = entries;
            proof {
                assert forall|k: Seq<char>| #[trigger]
                    lookup(after, k) == if k == kv {
                        Some(vv)
                    } else {
                        lookup(before, k)
                    } by {
                    if k == kv {
                        lemma_lookup_at(after, i as int);
                    } else if exists|j: int| 0 <= j < before.len() && #[trigger] before[j].0 == k {
                        let j = choose|j: int| 0 <= j < before.len() && #[trigger] before[j].0 == k;
                        lemma_lookup_at(before, j);
                        assert(after[j].0 == k);
                        lemma_lookup_at(after, j);
                    } else {
                        assert forall|j: int| 0 <= j < after.len() implies #[trigger] after[j].0
                            != k by {
                            if j != i {
                                assert(after[j] == before[j]);
                            }
                        }
                        lemma_lookup_none(after, k);
                    }
                }
            }
        } else {
            let ghost after = before.insert(i as int, (kv, vv));
            proof {
                if i < n {
                    lemma_lex_total(before[i as int].0, kv);
                }
                assert(sorted_keys(after)) by {
                    assert forall|a: int, b: int| 0 <= a < b < after.len() implies lex_lt(
                        #[trigger] after[a].0,
                        #[trigger] after[b].0,
                    ) by {
                        if b < i {
                            assert(after[a] == before[a] && after[b] == before[b]);
                        } else if b == i {
                            assert(after[a] == before[a]);
                        } else if a == i {
                            assert(after[b] == before[b - 1]);
                            if b - 1 > i {
                                lemma_lex_transitive(kv, before[i as int].0, before[b - 1].0);
                            }
                        } else if a < i {
                            assert(after[a] == before[a] && after[b] == before[b - 1]);
                        } else {
                            assert(after[a] == before[a - 1] && after[b] == before[b - 1]);
                        }
                    }
                }
                assert(pair_views(entries@.insert(i as int, (key, value))) =~= after);
            }
            entries.insert(i, (key, value));
            self.entries = entries;
            proof {
                assert forall|k: Seq<char>| #[trigger]
                    lookup(after, k) == if k == kv {
                        Some(vv)
                    } else {
                        lookup(before, k)
                    } by {
                    if k == kv {
                        lemma_lookup_at(after, i as int);
                    } else if exists|j: int| 0 <= j < before.len() && #[trigger] before[j].0 == k {
                        let j = choose|j: int| 0 <= j < before.len() && #[trigger] before[j].0 == k;
                        lemma_lookup_at(before, j);
                        if j < i {
                            assert(after[j] == before[j]);
                            lemma_lookup_at(after, j);
                        } else {
                            assert(after[j + 1] == before[j]);
                            lemma_lookup_at(after, j + 1);
                        }
                    } else {
                        assert forall|j: int| 0 <= j < after.len() implies #[trigger] after[j].0
                            != k by {
                            if j < i {
                                assert(after[j] == before[j]);
                            } else if j > i {
                                assert(after[j] == before[j - 1]);
                            }
                        }
                        lemma_lookup_none(after, k);
                    }
                }
            }
        }
    }

    /// The variables in key order.
    pub fn pairs(&self) -> (r: Vec<(String, String)>)
        ensures
            pair_views(r@) == self@,
    {
        let mut r: Vec<(String, String)> = Vec::new();
        let mut i: usize = 0;
        while i < self.entries.len()
            invariant
                i <= self.entries@.len(),
                pair_views(r@) == pair_views(self.entries@).take(i as int),
            decreases self.entries@.len() - i,
        {
            let k = self.entries[i].0.clone();
            let v = self.entries[i].1.clone();
            let ghost before = r@;
            r.push((k, v));
            proof {
                assert(r@ == before.push(r@.last()));
                assert(pair_views(r@) =~= pair_views(before).push((r@.last().0@, r@.last().1@)));
                assert(pair_views(self.entries@)[i as int] == (self.entries@[i as int].0@, self.entries@[i as int].1@));
            }
            i += 1;
            assert(pair_views(r@) =~= pair_views(self.entries@).take(i as int));
        }
        assert(pair_views(self.entries@).take(i as int) =~= pair_views(self.entries@));
        r
    }
}

/// The file form of a table: one `KEY=value` line per variable, in order.
pub open spec fn rendered(s: Seq<(Seq<char>, Seq<char>)>) -> Seq<char>
    decreases s.len(),
{
    if s.len() == 0 {
        Seq::empty()
    } else {
        rendered(s.drop_last()) + s.last().0 + "="@ + s.last().1 + "\n"@
    }
}

impl TextTable {
    /// The table written out as an environment file.
    pub fn render(&self) -> (r: String)
        ensures
            r@ == rendered(self@),
    {
        let mut r = String::new();
        let mut i: usize = 0;
        while i < self.entries.len()
            invariant
                i <= self.entries@.len(),
                self@ == pair_views(self.entries@),
                r@ == rendered(self@.take(i as int)),
            decreases self.entries@.len() - i,
        {
            proof {
                assert(self@.take(i + 1).drop_last() =~= self@.take(i as int));
            }
            r.append(self.entries[i].0.as_str());
            r.append("=");
            r.append(self.entries[i].1.as_str());
            r.append("\n");
            i += 1;
        }
        assert(self@.take(i as int) =~= self@);
        r
    }

    /// Takes over every variable of `other` whose value is not empty.
    pub fn merge_nonempty(&mut self, other: &TextTable)
        ensures
            sorted_keys(final(self)@),
            forall|k: Seq<char>|
                #[trigger] lookup(final(self)@, k) == match lookup(other@, k) {
                    Some(v) => if v.len() > 0 {
                        Some(v)
                    } else {
                        lookup(old(self)@, k)
                    },
                    None => lookup(old(self)@, k),
                },
    {
        other.ordered_view();
        self.ordered_view();
        let ghost start = self@;
        let pairs = other.pairs();
        let mut i: usize = 0;
        while i < pairs.len()
            invariant
                i <= pairs@.len(),
                pair_views(pairs@) == other@,
                sorted_keys(other@),
                sorted_keys(self@),
                forall|k: Seq<char>|
                    #[trigger] lookup(self@, k) == if exists|j: int|
                        0 <= j < i && #[trigger] other@[j].0 == k && other@[j].1.len() > 0 {
                        lookup(other@, k)
                    } else {
                        lookup(start, k)
                    },
            decreases pairs@.len() - i,
        {
            let ghost before = self@;
            let k = pairs[i].0.clone();
            let v = pairs[i].1.clone();
            proof {
                assert(other@[i as int] == (k@, v@));
                lemma_lookup_at(other@, i as int);
            }
            if !v.as_str().is_empty() {
                self.insert(k, v);
            }
            i += 1;
            proof {
                assert forall|kk: Seq<char>| #[trigger] lookup(self@, kk) == if exists|j: int|
                    0 <= j < i && #[trigger] other@[j].0 == kk && other@[j].1.len() > 0 {
                    lookup(other@, kk)
                } else {
                    lookup(start, kk)
                } by {
                    if exists|j: int| 0 <= j < i && #[trigger] other@[j].0 == kk && other@[j].1.len() > 0 {
                        let j = choose|j: int| 0 <= j < i && #[trigger] other@[j].0 == kk && other@[j].1.len() > 0;
                        lemma_lookup_at(other@, j);
                        if j == i - 1 {
                        } else {
                            if kk == other@[i - 1].0 {
                                lemma_lex_irreflexive(kk);
                                assert(lex_lt(other@[j].0, other@[i - 1].0));
                            }
                        }
                    } else {
                        if kk == other@[i - 1].0 {
                            assert(!(other@[i - 1].1.len() > 0));
                        }
                    }
                }
            }
        }
        proof {
            assert forall|k: Seq<char>| #[trigger] lookup(self@, k) == match lookup(other@, k) {
                Some(v) => if v.len() > 0 {
                    Some(v)
                } else {
                    lookup(start, k)
                },
                None => lookup(start, k),
            } by {
                if exists|j: int| 0 <= j < i && #[trigger] other@[j].0 == k && other@[j].1.len() > 0 {
                    let j = choose|j: int| 0 <= j < i && #[trigger] other@[j].0 == k && other@[j].1.len() > 0;
                    lemma_lookup_at(other@, j);
                } else if has_key(other@, k) {
                    let j = key_index(other@, k);
                    lemma_lookup_at(other@, j);
                }
            }
        }
    }
}

/// The value the last assignment to `k` gave it.
pub open spec fn last_assigned(a: Seq<(Seq<char>, Seq<char>)>, k: Seq<char>) -> Option<Seq<char>>
    decreases a.len(),
{
    if a.len() == 0 {
        None
    } else if a.last().0 == k {
        Some(a.last().1)
    } else {
        last_assigned(a.drop_last(), k)
    }
}

} // verus!
