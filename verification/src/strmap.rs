//! A map from single names to values, used for dependency tables, preludes,
//! and textual macro scopes. Lookups go by the name's character sequence.

use vstd::prelude::*;

verus! {

/// First-match lookup in an association list of name-keyed entries.
pub open spec fn sassoc_get<V>(s: Seq<(String, V)>, k: Seq<char>) -> Option<V>
    decreases s.len(),
{
    if s.len() == 0 {
        None
    } else if s[0].0@ == k {
        Some(s[0].1)
    } else {
        sassoc_get(s.drop_first(), k)
    }
}

/// No two entries share a key.
pub open spec fn skeys_distinct<V>(s: Seq<(String, V)>) -> bool {
    forall|i: int, j: int|
        0 <= i < j < s.len() ==> s[i].0@ != s[j].0@
}

/// If no entry among the first `n` matches `k`, lookup may skip them.
proof fn lemma_sassoc_skip<V>(s: Seq<(String, V)>, k: Seq<char>, n: int)
    requires
        0 <= n <= s.len(),
        forall|j: int| 0 <= j < n ==> s[j].0@ != k,
    ensures
        sassoc_get(s, k) == sassoc_get(s.skip(n), k),
    decreases n,
{
    if n > 0 {
        assert(s.drop_first().skip(n - 1) =~= s.skip(n));
        lemma_sassoc_skip(s.drop_first(), k, n - 1);
    } else {
        assert(s.skip(0) =~= s);
    }
}

/// A lookup that matches at entry `i` of a distinct-keyed list yields that
/// entry's value.
proof fn lemma_sassoc_at<V>(s: Seq<(String, V)>, i: int)
    requires
        skeys_distinct(s),
        0 <= i < s.len(),
    ensures
        sassoc_get(s, s[i].0@) == Some(s[i].1),
    decreases i,
{
    if i == 0 {
    } else {
        lemma_sassoc_at(s.drop_first(), i - 1);
    }
}

/// Updating entry `i` in place rewrites exactly the binding of its key.
proof fn lemma_sassoc_update<V>(
    s: Seq<(String, V)>,
    i: int,
    e: (String, V),
    k: Seq<char>,
)
    requires
        skeys_distinct(s),
        0 <= i < s.len(),
        e.0@ == s[i].0@,
    ensures
        e.0@ == k ==> sassoc_get(s.update(i, e), k) == Some(e.1),
        e.0@ != k ==> sassoc_get(s.update(i, e), k) == sassoc_get(s, k),
    decreases i,
{
    let t = s.update(i, e);
    if i == 0 {
        assert(t[0] == e);
        assert(t.drop_first() =~= s.drop_first());
    } else {
        assert(t[0] == s[0]);
        assert(t.drop_first() =~= s.drop_first().update(i - 1, e));
        lemma_sassoc_update(s.drop_first(), i - 1, e, k);
    }
}

/// Appending an entry whose key is absent adds exactly that binding.
proof fn lemma_sassoc_push<V>(s: Seq<(String, V)>, e: (String, V), k: Seq<char>)
    requires
        sassoc_get(s, e.0@) is None,
    ensures
        e.0@ == k ==> sassoc_get(s.push(e), k) == Some(e.1),
        e.0@ != k ==> sassoc_get(s.push(e), k) == sassoc_get(s, k),
    decreases s.len(),
{
    reveal_with_fuel(sassoc_get, 3);
    if s.len() == 0 {
        assert(s.push(e)[0] == e);
        assert(s.push(e).drop_first() =~= Seq::<(String, V)>::empty());
    } else {
        let t = s.push(e);
        assert(t[0] == s[0]);
        assert(t.drop_first() =~= s.drop_first().push(e));
        if s[0].0@ == e.0@ {
            assert(sassoc_get(s, e.0@) is Some);
        }
        lemma_sassoc_push(s.drop_first(), e, k);
        if s[0].0@ == k {
            assert(sassoc_get(t, k) == Some(s[0].1));
            assert(sassoc_get(s, k) == Some(s[0].1));
        } else {
            assert(sassoc_get(t, k) == sassoc_get(t.drop_first(), k));
            assert(sassoc_get(s, k) == sassoc_get(s.drop_first(), k));
        }
    }
}

/// A successful lookup names some entry.
proof fn lemma_sassoc_index<V>(s: Seq<(String, V)>, k: Seq<char>)
    requires
        sassoc_get(s, k) is Some,
    ensures
        exists|i: int|
            0 <= i < s.len() && #[trigger] s[i].0@ == k && s[i].1 == sassoc_get(s, k)->Some_0,
    decreases s.len(),
{
    if s[0].0@ == k {
        assert(s[0].0@ == k);
    } else {
        lemma_sassoc_index(s.drop_first(), k);
        let i = choose|i: int|
            0 <= i < s.drop_first().len() && #[trigger] s.drop_first()[i].0@ == k
                && s.drop_first()[i].1 == sassoc_get(s.drop_first(), k)->Some_0;
        assert(s[i + 1] == s.drop_first()[i]);
    }
}

/// A map from names to values, backed by a list of entries with
/// pairwise-distinct keys.
pub struct StrMap<V> {
    pub entries: Vec<(String, V)>,
}

impl<V> View for StrMap<V> {
    type V = Map<Seq<char>, V>;

    open spec fn view(&self) -> Map<Seq<char>, V> {
        Map::new(
            |k: Seq<char>| sassoc_get(self.entries@, k) is Some,
            |k: Seq<char>| sassoc_get(self.entries@, k)->Some_0,
        )
    }
}

impl<V> StrMap<V> {
    /// The entry list itself, for iteration.
    pub open spec fn seq_view(&self) -> Seq<(String, V)> {
        self.entries@
    }

    /// Every operation preserves this: no two entries share a key.
    pub open spec fn wf(&self) -> bool {
        skeys_distinct(self.entries@)
    }

    pub fn new() -> (r: StrMap<V>)
        ensures
            r.wf(),
            r@ == Map::<Seq<char>, V>::empty(),
            r.seq_view() == Seq::<(String, V)>::empty(),
    {
        let r = StrMap { entries: Vec::new() };
        proof {
            assert(r@ =~= Map::<Seq<char>, V>::empty());
        }
        r
    }

    /// The number of entries; with distinct keys this is the number of keys.
    pub fn len(&self) -> (r: usize)
        ensures
            r == self.seq_view().len(),
    {
        self.entries.len()
    }

    /// The entry at position `i`.
    pub fn idx(&self, i: usize) -> (r: (&String, &V))
        requires
            i < self.seq_view().len(),
        ensures
            r.0 == self.seq_view()[i as int].0,
            r.1 == self.seq_view()[i as int].1,
    {
        let e = &self.entries[i];
        (&e.0, &e.1)
    }

    /// Lookup by name.
    pub fn get(&self, k: &String) -> (r: Option<&V>)
        requires
            self.wf(),
        ensures
            match r {
                Some(v) => self@.contains_key(k@) && *v == self@[k@],
                None => !self@.contains_key(k@),
            },
    {
        let n = self.entries.len();
        let mut i: usize = 0;
        while i < n
            invariant
                self.wf(),
                n == self.entries@.len(),
                i <= n,
                forall|j: int| 0 <= j < i ==> self.entries@[j].0@ != k@,
            decreases n - i,
        {
            if self.entries[i].0 == *k {
                proof {
                    lemma_sassoc_at(self.entries@, i as int);
                }
                return Some(&self.entries[i].1);
            }
            i += 1;
        }
        proof {
            lemma_sassoc_skip(self.entries@, k@, n as int);
            assert(self.entries@.skip(n as int).len() == 0);
        }
        None
    }

    /// Insert `v` at `k`, handing back the value previously there, if any.
    pub fn insert(&mut self, k: String, v: V) -> (r: Option<V>)
        requires
            old(self).wf(),
        ensures
            final(self).wf(),
            final(self)@ == old(self)@.insert(k@, v),
            match r {
                Some(prev) => old(self)@.contains_key(k@) && prev == old(
                    self,
                )@[k@] && final(self).seq_view().len() == old(
                    self,
                ).seq_view().len(),
                None => !old(self)@.contains_key(k@) && final(self).seq_view()
                    == old(self).seq_view().push((k, v)),
            },
    {
        let ghost kv = k@;
        let ghost s0 = self.entries@;
        let ghost e2 = (k, v);
        let n = self.entries.len();
        let mut i: usize = 0;
        while i < n
            invariant
                self.wf(),
                self == old(self),
                s0 == self.entries@,
                e2 == (k, v),
                kv == k@,
                n == self.entries@.len(),
                i <= n,
                forall|j: int| 0 <= j < i ==> self.entries@[j].0@ != k@,
            decreases n - i,
        {
            if self.entries[i].0 == k {
                proof {
                    lemma_sassoc_at(s0, i as int);
                }
                let prev = self.entries.remove(i);
                self.entries.insert(i, (k, v));
                proof {
                    let s1 = self.entries@;
                    assert(s1 =~= s0.update(i as int, e2));
                    assert(s1[i as int] == e2);
                    assert(s1[i as int].0@ == kv);
                    assert forall|k2: Seq<char>| true implies #[trigger] sassoc_get(s1, k2)
                        == (if k2 == kv {
                        Some(v)
                    } else {
                        sassoc_get(s0, k2)
                    }) by {
                        lemma_sassoc_update(s0, i as int, e2, k2);
                    }
                    assert forall|x: int, y: int| 0 <= x < y < s1.len() implies s1[x].0@
                        != s1[y].0@ by {
                        assert(s1[x].0@ == s0[x].0@);
                        assert(s1[y].0@ == s0[y].0@);
                    }
                    assert(self@ =~= old(self)@.insert(kv, v));
                }
                return Some(prev.1);
            }
            i += 1;
        }
        proof {
            lemma_sassoc_skip(s0, kv, n as int);
            assert(s0.skip(n as int).len() == 0);
        }
        self.entries.push((k, v));
        proof {
            let s1 = self.entries@;
            assert(s1 =~= s0.push(e2));
            assert forall|k2: Seq<char>| true implies #[trigger] sassoc_get(s1, k2) == (if k2
                == kv {
                Some(v)
            } else {
                sassoc_get(s0, k2)
            }) by {
                lemma_sassoc_push(s0, e2, k2);
            }
            assert forall|x: int, y: int| 0 <= x < y < s1.len() implies s1[x].0@
                != s1[y].0@ by {
                if y == s1.len() - 1 {
                    assert(s1[y].0@ == kv);
                    assert(s1[x].0@ == s0[x].0@);
                } else {
                    assert(s1[x].0@ == s0[x].0@);
                    assert(s1[y].0@ == s0[y].0@);
                }
            }
            assert(self@ =~= old(self)@.insert(kv, v));
        }
        None
    }

    /// The entry list and the map agree: each entry is in the map, and each
    /// key in the map names some entry.
    pub proof fn lemma_view_entries(&self)
        requires
            self.wf(),
        ensures
            forall|i: int|
                0 <= i < self.seq_view().len() ==> self@.contains_key(
                    #[trigger] self.seq_view()[i].0@,
                ) && self@[self.seq_view()[i].0@] == self.seq_view()[i].1,
            forall|k: Seq<char>|
                #[trigger] self@.contains_key(k) ==> exists|i: int|
                    0 <= i < self.seq_view().len() && #[trigger] self.seq_view()[i].0@ == k,
    {
        assert forall|i: int| 0 <= i < self.seq_view().len() implies self@.contains_key(
            #[trigger] self.seq_view()[i].0@,
        ) && self@[self.seq_view()[i].0@] == self.seq_view()[i].1 by {
            lemma_sassoc_at(self.entries@, i);
        }
        assert forall|k: Seq<char>| #[trigger] self@.contains_key(k) implies exists|i: int|
            0 <= i < self.seq_view().len() && #[trigger] self.seq_view()[i].0@ == k by {
            lemma_sassoc_index(self.entries@, k);
        }
    }
}

} // verus!
