//! A small map keyed by `char` (register, mark and macro names).
use vstd::prelude::*;

verus! {

/// A map keyed by `char`, kept as entries in insertion order. A key's value is
/// that of its first entry; `insert` rewrites that entry, so the entries the
/// methods build never repeat a key.
#[derive(Debug)]
pub struct CharMap<V: DeepView> {
    entries: Vec<(char, V)>,
}

/// The map that the entries `e` describe, each key with its first value.
pub open spec fn entries_map<V: DeepView>(e: Seq<(char, V)>) -> Map<char, V::V>
    decreases e.len(),
{
    if e.len() == 0 {
        Map::empty()
    } else {
        let m = entries_map(e.drop_last());
        if m.contains_key(e.last().0) {
            m
        } else {
            m.insert(e.last().0, e.last().1.deep_view())
        }
    }
}

/// `k` does not occur among the first `j` entries.
pub open spec fn first_at<V>(e: Seq<(char, V)>, j: int) -> bool {
    forall|i: int| 0 <= i < j ==> #[trigger] e[i].0 != e[j].0
}

/// The value of a key is that of its first entry.
pub proof fn lemma_entries_map_lookup<V: DeepView>(e: Seq<(char, V)>, j: int)
    requires
        0 <= j < e.len(),
        first_at(e, j),
    ensures
        entries_map(e).contains_key(e[j].0),
        entries_map(e)[e[j].0] == e[j].1.deep_view(),
    decreases e.len(),
{
    if j < e.len() - 1 {
        assert(e.drop_last()[j] == e[j]);
        assert forall|i: int| 0 <= i < j implies #[trigger] e.drop_last()[i].0 != e.drop_last()[j].0 by {
            assert(e[i].0 != e[j].0);
        }
        lemma_entries_map_lookup(e.drop_last(), j);
    } else {
        lemma_entries_map_absent(e.drop_last(), e.last().0);
    }
}

pub proof fn lemma_entries_map_absent<V: DeepView>(e: Seq<(char, V)>, k: char)
    requires
        forall|i: int| 0 <= i < e.len() ==> #[trigger] e[i].0 != k,
    ensures
        !entries_map(e).contains_key(k),
    decreases e.len(),
{
    if e.len() > 0 {
        lemma_entries_map_absent(e.drop_last(), k);
    }
}

pub proof fn lemma_entries_map_domain<V: DeepView>(e: Seq<(char, V)>, k: char)
    ensures
        entries_map(e).contains_key(k) <==> exists|i: int| 0 <= i < e.len() && #[trigger] e[i].0 == k,
    decreases e.len(),
{
    if e.len() > 0 {
        lemma_entries_map_domain(e.drop_last(), k);
        if entries_map(e.drop_last()).contains_key(k) {
            let i = choose|i: int| 0 <= i < e.drop_last().len() && #[trigger] e.drop_last()[i].0 == k;
            assert(e[i].0 == k);
        }
        if exists|i: int| 0 <= i < e.len() && #[trigger] e[i].0 == k {
            let i = choose|i: int| 0 <= i < e.len() && #[trigger] e[i].0 == k;
            if i < e.len() - 1 {
                assert(e.drop_last()[i].0 == k);
            }
        }
    }
}

/// Replacing the value of a key's first entry updates the map at that key.
pub proof fn lemma_entries_map_update<V: DeepView>(e: Seq<(char, V)>, j: int, v: V)
    requires
        0 <= j < e.len(),
        first_at(e, j),
    ensures
        entries_map(e.update(j, (e[j].0, v))) == entries_map(e).insert(e[j].0, v.deep_view()),
    decreases e.len(),
{
    let k = e[j].0;
    let e2 = e.update(j, (k, v));
    if j == e.len() - 1 {
        assert(e2.drop_last() =~= e.drop_last());
        lemma_entries_map_absent(e.drop_last(), k);
        assert(entries_map(e) =~= entries_map(e.drop_last()).insert(k, e[j].1.deep_view()));
        assert(entries_map(e2) =~= entries_map(e.drop_last()).insert(k, v.deep_view()));
    } else {
        let d = e.drop_last();
        assert(e2.drop_last() =~= d.update(j, (k, v)));
        assert(d[j] == e[j]);
        assert forall|i: int| 0 <= i < j implies #[trigger] d[i].0 != d[j].0 by {
            assert(e[i].0 != e[j].0);
        }
        lemma_entries_map_update(d, j, v);
        lemma_entries_map_lookup(d, j);
        let last = e.last();
        assert(e2.last() == last);
        let m = entries_map(d);
        let m2 = entries_map(e2.drop_last());
        lemma_entries_map_domain(d, last.0);
        lemma_entries_map_domain(e2.drop_last(), last.0);
        if last.0 == k {
            assert(entries_map(e2) =~= entries_map(e).insert(k, v.deep_view()));
        } else {
            if m.contains_key(last.0) {
                let i = choose|i: int| 0 <= i < d.len() && #[trigger] d[i].0 == last.0;
                assert(e2.drop_last()[i].0 == last.0);
            }
            if m2.contains_key(last.0) {
                let i = choose|i: int| 0 <= i < e2.drop_last().len() && #[trigger] e2.drop_last()[i].0 == last.0;
                if i == j {
                    assert(false);
                }
                assert(d[i].0 == last.0);
            }
            assert(entries_map(e2) =~= entries_map(e).insert(k, v.deep_view()));
        }
    }
}

impl<V: DeepView> CharMap<V> {
    pub closed spec fn map(&self) -> Map<char, V::V> {
        entries_map(self.entries@)
    }

    /// An empty map.
    pub fn new() -> (r: Self)
        ensures
            r.map() == Map::<char, V::V>::empty(),
    {
        CharMap { entries: Vec::new() }
    }

    fn position(&self, k: char) -> (r: Option<usize>)
        ensures
            match r {
                Some(j) => j < self.entries@.len() && self.entries@[j as int].0 == k && first_at(
                    self.entries@,
                    j as int,
                ),
                None => forall|i: int| 0 <= i < self.entries@.len() ==> #[trigger] self.entries@[i].0 != k,
            },
    {
        let mut i: usize = 0;
        while i < self.entries.len()
            invariant
                i <= self.entries@.len(),
                forall|m: int| 0 <= m < i ==> #[trigger] self.entries@[m].0 != k,
            decreases self.entries.len() - i,
        {
            if self.entries[i].0 == k {
                assert(first_at(self.entries@, i as int));
                return Some(i);
            }
            i = i + 1;
        }
        None
    }

    /// Whether `k` has a value.
    pub fn contains_key(&self, k: &char) -> (r: bool)
        ensures
            r == self.map().contains_key(*k),
    {
        proof {
            lemma_entries_map_domain(self.entries@, *k);
        }
        match self.position(*k) {
            Some(_) => true,
            None => false,
        }
    }

    /// The value of `k`, if any.
    pub fn get(&self, k: &char) -> (r: Option<&V>)
        ensures
            match r {
                Some(v) => self.map().contains_key(*k) && self.map()[*k] == v.deep_view(),
                None => !self.map().contains_key(*k),
            },
    {
        match self.position(*k) {
            Some(j) => {
                proof {
                    lemma_entries_map_lookup(self.entries@, j as int);
                }
                Some(&self.entries[j].1)
            },
            None => {
                proof {
                    lemma_entries_map_absent(self.entries@, *k);
                }
                None
            },
        }
    }

    /// Set the value of `k`, returning the previous one.
    pub fn insert(&mut self, k: char, v: V) -> (r: Option<V>)
        ensures
            final(self).map() == old(self).map().insert(k, v.deep_view()),
            match r {
                Some(o) => old(self).map().contains_key(k) && old(self).map()[k] == o.deep_view(),
                None => !old(self).map().contains_key(k),
            },
    {
        match self.position(k) {
            Some(j) => {
                proof {
                    lemma_entries_map_update(self.entries@, j as int, v);
                    lemma_entries_map_lookup(self.entries@, j as int);
                }
                let (_, old_v) = self.entries.remove(j);
                self.entries.insert(j, (k, v));
                proof {
                    assert(self.entries@ =~= old(self).entries@.update(j as int, (k, v)));
                }
                Some(old_v)
            },
            None => {
                proof {
                    lemma_entries_map_absent(self.entries@, k);
                }
                self.entries.push((k, v));
                proof {
                    assert(self.entries@.drop_last() =~= old(self).entries@);
                }
                None
            },
        }
    }

    /// A mutable reference to the value of `k`, if any.
    pub fn get_mut(&mut self, k: &char) -> (r: Option<&mut V>)
        ensures
            match r {
                Some(v) => old(self).map().contains_key(*k) && old(self).map()[*k] == v.deep_view()
                    && final(self).map() == old(self).map().insert(*k, final(v).deep_view()),
                None => !old(self).map().contains_key(*k) && final(self).map() == old(self).map(),
            },
    {
        match self.position(*k) {
            Some(j) => {
                proof {
                    lemma_entries_map_lookup(self.entries@, j as int);
                }
                let ghost e0 = self.entries@;
                let entry = &mut self.entries[j];
                let r = &mut entry.1;
                proof {
                    lemma_entries_map_update(e0, j as int, *final(r));
                }
                Some(r)
            },
            None => {
                proof {
                    lemma_entries_map_absent(self.entries@, *k);
                }
                None
            },
        }
    }
}

} // verus!
