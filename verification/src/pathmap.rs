//! A map from relative paths to values, the store behind each namespace's
//! item and binding tables. Lookups go by the path's character sequences, so
//! two distinct `Vec<String>` values naming the same path hit the same entry.

use vstd::prelude::*;

use crate::paths::{path_eq, path_view};

verus! {

/// First-match lookup in an association list of path-keyed entries.
pub open spec fn assoc_get<V>(s: Seq<(Vec<String>, V)>, k: Seq<Seq<char>>) -> Option<V>
    decreases s.len(),
{
    if s.len() == 0 {
        None
    } else if path_view(s[0].0@) == k {
        Some(s[0].1)
    } else {
        assoc_get(s.drop_first(), k)
    }
}

/// No two entries share a key.
pub open spec fn keys_distinct<V>(s: Seq<(Vec<String>, V)>) -> bool {
    forall|i: int, j: int|
        0 <= i < j < s.len() ==> path_view(s[i].0@) != path_view(s[j].0@)
}

/// If no entry among the first `n` matches `k`, lookup may skip them.
proof fn lemma_assoc_skip<V>(s: Seq<(Vec<String>, V)>, k: Seq<Seq<char>>, n: int)
    requires
        0 <= n <= s.len(),
        forall|j: int| 0 <= j < n ==> path_view(s[j].0@) != k,
    ensures
        assoc_get(s, k) == assoc_get(s.skip(n), k),
    decreases n,
{
    if n > 0 {
        assert(s.drop_first().skip(n - 1) =~= s.skip(n));
        lemma_assoc_skip(s.drop_first(), k, n - 1);
    } else {
        assert(s.skip(0) =~= s);
    }
}

/// A lookup that matches at entry `i` of a distinct-keyed list yields that
/// entry's value.
proof fn lemma_assoc_at<V>(s: Seq<(Vec<String>, V)>, i: int)
    requires
        keys_distinct(s),
        0 <= i < s.len(),
    ensures
        assoc_get(s, path_view(s[i].0@)) == Some(s[i].1),
    decreases i,
{
    if i == 0 {
    } else {
        lemma_assoc_at(s.drop_first(), i - 1);
    }
}

/// Updating entry `i` in place rewrites exactly the binding of its key.
proof fn lemma_assoc_update<V>(
    s: Seq<(Vec<String>, V)>,
    i: int,
    e: (Vec<String>, V),
    k: Seq<Seq<char>>,
)
    requires
        keys_distinct(s),
        0 <= i < s.len(),
        path_view(e.0@) == path_view(s[i].0@),
    ensures
        path_view(e.0@) == k ==> assoc_get(s.update(i, e), k) == Some(e.1),
        path_view(e.0@) != k ==> assoc_get(s.update(i, e), k) == assoc_get(s, k),
    decreases i,
{
    let t = s.update(i, e);
    if i == 0 {
        assert(t[0] == e);
        assert(t.drop_first() =~= s.drop_first());
    } else {
        assert(t[0] == s[0]);
        assert(t.drop_first() =~= s.drop_first().update(i - 1, e));
        lemma_assoc_update(s.drop_first(), i - 1, e, k);
    }
}

/// Appending an entry whose key is absent adds exactly that binding.
proof fn lemma_assoc_push<V>(s: Seq<(Vec<String>, V)>, e: (Vec<String>, V), k: Seq<Seq<char>>)
    requires
        assoc_get(s, path_view(e.0@)) is None,
    ensures
        path_view(e.0@) == k ==> assoc_get(s.push(e), k) == Some(e.1),
        path_view(e.0@) != k ==> assoc_get(s.push(e), k) == assoc_get(s, k),
    decreases s.len(),
{
    reveal_with_fuel(assoc_get, 3);
    if s.len() == 0 {
        assert(s.push(e)[0] == e);
        assert(s.push(e).drop_first() =~= Seq::<(Vec<String>, V)>::empty());
    } else {
        let t = s.push(e);
        assert(t[0] == s[0]);
        assert(t.drop_first() =~= s.drop_first().push(e));
        if path_view(s[0].0@) == path_view(e.0@) {
            assert(assoc_get(s, path_view(e.0@)) is Some);
        }
        lemma_assoc_push(s.drop_first(), e, k);
        if path_view(s[0].0@) == k {
            assert(assoc_get(t, k) == Some(s[0].1));
            assert(assoc_get(s, k) == Some(s[0].1));
        } else {
            assert(assoc_get(t, k) == assoc_get(t.drop_first(), k));
            assert(assoc_get(s, k) == assoc_get(s.drop_first(), k));
        }
    }
}

/// A successful lookup names some entry.
proof fn lemma_assoc_index<V>(s: Seq<(Vec<String>, V)>, k: Seq<Seq<char>>)
    requires
        assoc_get(s, k) is Some,
    ensures
        exists|i: int|
            0 <= i < s.len() && path_view(#[trigger] s[i].0@) == k && s[i].1 == assoc_get(
                s,
                k,
            )->Some_0,
    decreases s.len(),
{
    if path_view(s[0].0@) == k {
        assert(path_view(s[0].0@) == k);
    } else {
        lemma_assoc_index(s.drop_first(), k);
        let i = choose|i: int|
            0 <= i < s.drop_first().len() && path_view(#[trigger] s.drop_first()[i].0@) == k
                && s.drop_first()[i].1 == assoc_get(s.drop_first(), k)->Some_0;
        assert(s[i + 1] == s.drop_first()[i]);
    }
}

/// A map from relative paths to values, backed by a list of entries with
/// pairwise-distinct keys.
pub struct PathMap<V> {
    pub entries: Vec<(Vec<String>, V)>,
}

impl<V> View for PathMap<V> {
    type V = Map<Seq<Seq<char>>, V>;

    open spec fn view(&self) -> Map<Seq<Seq<char>>, V> {
        Map::new(
            |k: Seq<Seq<char>>| assoc_get(self.entries@, k) is Some,
            |k: Seq<Seq<char>>| assoc_get(self.entries@, k)->Some_0,
        )
    }
}

impl<V> PathMap<V> {
    /// The entry list itself, for iteration.
    pub open spec fn seq_view(&self) -> Seq<(Vec<String>, V)> {
        self.entries@
    }

    /// Every operation preserves this: no two entries share a key.
    pub open spec fn wf(&self) -> bool {
        keys_distinct(self.entries@)
    }

    pub fn new() -> (r: PathMap<V>)
        ensures
            r.wf(),
            r@ == Map::<Seq<Seq<char>>, V>::empty(),
            r.seq_view() == Seq::<(Vec<String>, V)>::empty(),
    {
        let r = PathMap { entries: Vec::new() };
        proof {
            assert(r@ =~= Map::<Seq<Seq<char>>, V>::empty());
        }
        r
    }

    /// The number of entries; with distinct keys this is the number of keys.
    pub fn len(&self) -> (r: usize)
        ensures
            r == self.seq_view().len(),
    {
        self.entries.len()
    }

    /// The entry at position `i`.
    pub fn idx(&self, i: usize) -> (r: (&Vec<String>, &V))
        requires
            i < self.seq_view().len(),
        ensures
            r.0 == self.seq_view()[i as int].0,
            r.1 == self.seq_view()[i as int].1,
    {
        let e = &self.entries[i];
        (&e.0, &e.1)
    }

    /// Lookup by path.
    pub fn get(&self, k: &Vec<String>) -> (r: Option<&V>)
        requires
            self.wf(),
        ensures
            match r {
                Some(v) => self@.contains_key(path_view(k@)) && *v == self@[path_view(k@)],
                None => !self@.contains_key(path_view(k@)),
            },
    {
        let n = self.entries.len();
        let mut i: usize = 0;
        while i < n
            invariant
                self.wf(),
                n == self.entries@.len(),
                i <= n,
                forall|j: int| 0 <= j < i ==> path_view(self.entries@[j].0@) != path_view(k@),
            decreases n - i,
        {
            if path_eq(&self.entries[i].0, &k) {
                proof {
                    lemma_assoc_at(self.entries@, i as int);
                }
                return Some(&self.entries[i].1);
            }
            i += 1;
        }
        proof {
            lemma_assoc_skip(self.entries@, path_view(k@), n as int);
            assert(self.entries@.skip(n as int).len() == 0);
        }
        None
    }

    /// Mutable lookup by path.
    pub fn get_mut(&mut self, k: &Vec<String>) -> (r: Option<&mut V>)
        requires
            old(self).wf(),
        ensures
            r is Some <==> old(self)@.contains_key(path_view(k@)),
    {
        let n = self.entries.len();
        let mut found: Option<usize> = None;
        let mut i: usize = 0;
        while i < n
            invariant
                self.wf(),
                self == old(self),
                n == self.entries@.len(),
                i <= n,
                match found {
                    Some(fi) => fi < n && path_view(self.entries@[fi as int].0@) == path_view(
                        k@,
                    ),
                    None => forall|j: int|
                        0 <= j < i ==> path_view(self.entries@[j].0@) != path_view(k@),
                },
            decreases n - i + (if found is Some {
                0int
            } else {
                1int
            }),
        {
            match found {
                Some(_) => {
                    i = n;
                },
                None => {
                    if path_eq(&self.entries[i].0, k) {
                        found = Some(i);
                    } else {
                        i += 1;
                    }
                },
            }
        }
        match found {
            Some(fi) => {
                proof {
                    lemma_assoc_at(self.entries@, fi as int);
                }
                Some(&mut self.entries[fi].1)
            },
            None => {
                proof {
                    lemma_assoc_skip(self.entries@, path_view(k@), n as int);
                    assert(self.entries@.skip(n as int).len() == 0);
                }
                None
            },
        }
    }

    /// Insert `v` at `k`, handing back the value previously there, if any.
    pub fn insert(&mut self, k: Vec<String>, v: V) -> (r: Option<V>)
        requires
            old(self).wf(),
        ensures
            final(self).wf(),
            final(self)@ == old(self)@.insert(path_view(k@), v),
            match r {
                Some(prev) => old(self)@.contains_key(path_view(k@)) && prev == old(
                    self,
                )@[path_view(k@)] && final(self).seq_view().len() == old(
                    self,
                ).seq_view().len(),
                None => !old(self)@.contains_key(path_view(k@)) && final(self).seq_view()
                    == old(self).seq_view().push((k, v)),
            },
    {
        let ghost kv = path_view(k@);
        let ghost s0 = self.entries@;
        let ghost e2 = (k, v);
        let n = self.entries.len();
        let mut i: usize = 0;
        while i < n
            invariant
                self.wf(),
                self == old(self),
                s0 == self.entries@,
                e2 == (k, v),
                kv == path_view(k@),
                n == self.entries@.len(),
                i <= n,
                forall|j: int| 0 <= j < i ==> path_view(self.entries@[j].0@) != path_view(k@),
            decreases n - i,
        {
            if path_eq(&self.entries[i].0, &k) {
                proof {
                    lemma_assoc_at(s0, i as int);
                }
                let prev = self.entries.remove(i);
                self.entries.insert(i, (k, v));
                proof {
                    let s1 = self.entries@;
                    assert(s1 =~= s0.update(i as int, e2));
                    assert(s1[i as int] == e2);
                    assert(path_view(s1[i as int].0@) == kv);
                    assert forall|k2: Seq<Seq<char>>| true implies #[trigger] assoc_get(s1, k2)
                        == (if k2 == kv {
                        Some(v)
                    } else {
                        assoc_get(s0, k2)
                    }) by {
                        lemma_assoc_update(s0, i as int, e2, k2);
                    }
                    assert forall|x: int, y: int| 0 <= x < y < s1.len() implies path_view(
                        s1[x].0@,
                    ) != path_view(s1[y].0@) by {
                        assert(path_view(s1[x].0@) == path_view(s0[x].0@));
                        assert(path_view(s1[y].0@) == path_view(s0[y].0@));
                    }
                    assert(self@ =~= old(self)@.insert(kv, v));
                }
                return Some(prev.1);
            }
            i += 1;
        }
        proof {
            lemma_assoc_skip(s0, kv, n as int);
            assert(s0.skip(n as int).len() == 0);
        }
        self.entries.push((k, v));
        proof {
            let s1 = self.entries@;
            assert(s1 =~= s0.push(e2));
            assert forall|k2: Seq<Seq<char>>| true implies #[trigger] assoc_get(s1, k2) == (if k2
                == kv {
                Some(v)
            } else {
                assoc_get(s0, k2)
            }) by {
                lemma_assoc_push(s0, e2, k2);
            }
            assert forall|x: int, y: int| 0 <= x < y < s1.len() implies path_view(s1[x].0@)
                != path_view(s1[y].0@) by {
                if y == s1.len() - 1 {
                    assert(path_view(s1[y].0@) == kv);
                    assert(path_view(s1[x].0@) == path_view(s0[x].0@));
                } else {
                    assert(path_view(s1[x].0@) == path_view(s0[x].0@));
                    assert(path_view(s1[y].0@) == path_view(s0[y].0@));
                }
            }
            assert(self@ =~= old(self)@.insert(kv, v));
        }
        None
    }

    /// The entry list and the map agree: each entry is in the map, and each
    /// key in the map names some entry.
    pub proof fn lemma_view_entries(&self)
        requires
            self.wf(),
        ensures
            forall|i: int|
                0 <= i < self.seq_view().len() ==> self@.contains_key(
                    path_view(#[trigger] self.seq_view()[i].0@),
                ) && self@[path_view(self.seq_view()[i].0@)] == self.seq_view()[i].1,
            forall|k: Seq<Seq<char>>|
                #[trigger] self@.contains_key(k) ==> exists|i: int|
                    0 <= i < self.seq_view().len() && path_view(#[trigger] self.seq_view()[i].0@)
                        == k,
    {
        assert forall|i: int| 0 <= i < self.seq_view().len() implies self@.contains_key(
            path_view(#[trigger] self.seq_view()[i].0@),
        ) && self@[path_view(self.seq_view()[i].0@)] == self.seq_view()[i].1 by {
            lemma_assoc_at(self.entries@, i);
        }
        assert forall|k: Seq<Seq<char>>| #[trigger] self@.contains_key(k) implies exists|i: int|
            0 <= i < self.seq_view().len() && path_view(#[trigger] self.seq_view()[i].0@)
                == k by {
            lemma_assoc_index(self.entries@, k);
        }
    }
}

} // verus!
