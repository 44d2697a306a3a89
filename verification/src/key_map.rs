//! A map from plain keys to values.

use vstd::map::*;
use vstd::prelude::*;

verus! {

/// A key that can be told apart from others.
pub trait MapKey: Copy {
    fn same(&self, other: &Self) -> (b: bool)
        ensures
            b == (*self == *other),
    ;
}

/// A map from keys to values, kept as a list in which no key stands twice.
#[derive(Debug, Clone)]
pub struct KeyMap<K, V> {
    entries: Vec<(K, V)>,
}

/// No key stands twice.
pub open spec fn distinct<K, V>(entries: Seq<(K, V)>) -> bool {
    forall|i: int, j: int|
        0 <= i < j < entries.len() ==> (#[trigger] entries[i]).0 != (#[trigger] entries[j]).0
}

/// The map that a list of entries stands for.
pub open spec fn mapped<K, V>(entries: Seq<(K, V)>) -> Map<K, V>
    decreases entries.len(),
{
    if entries.len() == 0 {
        Map::empty()
    } else {
        mapped(entries.drop_last()).insert(entries.last().0, entries.last().1)
    }
}

proof fn lemma_distinct_front<K, V>(entries: Seq<(K, V)>)
    requires
        distinct(entries),
        entries.len() > 0,
    ensures
        distinct(entries.drop_last()),
{
    let front = entries.drop_last();
    assert forall|a: int, b: int| 0 <= a < b < front.len() implies (#[trigger] front[a]).0 != (
    #[trigger] front[b]).0 by {
        assert(front[a] == entries[a] && front[b] == entries[b]);
    }
}

/// Every entry of a list without repeated keys is in its map.
pub proof fn lemma_mapped_entry<K, V>(entries: Seq<(K, V)>, i: int)
    requires
        distinct(entries),
        0 <= i < entries.len(),
    ensures
        mapped(entries).dom().contains(entries[i].0),
        mapped(entries)[entries[i].0] == entries[i].1,
    decreases entries.len(),
{
    lemma_distinct_front(entries);
    if i < entries.len() - 1 {
        lemma_mapped_entry(entries.drop_last(), i);
        assert(entries[i].0 != entries[entries.len() - 1].0);
    }
}

/// Every key of a map stands in its list.
pub proof fn lemma_mapped_key<K, V>(entries: Seq<(K, V)>, k: K) -> (i: int)
    requires
        mapped(entries).dom().contains(k),
    ensures
        0 <= i < entries.len(),
        entries[i].0 == k,
    decreases entries.len(),
{
    if entries.last().0 == k {
        entries.len() - 1
    } else {
        lemma_mapped_key(entries.drop_last(), k)
    }
}

/// A map has as many keys as its list has entries.
pub proof fn lemma_mapped_len<K, V>(entries: Seq<(K, V)>)
    requires
        distinct(entries),
    ensures
        mapped(entries).dom().finite(),
        mapped(entries).dom().len() == entries.len(),
    decreases entries.len(),
{
    if entries.len() > 0 {
        let front = entries.drop_last();
        lemma_distinct_front(entries);
        lemma_mapped_len(front);
        let k = entries.last().0;
        if mapped(front).dom().contains(k) {
            let i = lemma_mapped_key(front, k);
            assert(entries[i].0 != entries[entries.len() - 1].0);
        }
    }
}

/// Taking an entry out of the list takes its key out of the map.
pub proof fn lemma_mapped_remove<K, V>(entries: Seq<(K, V)>, i: int)
    requires
        distinct(entries),
        0 <= i < entries.len(),
    ensures
        distinct(entries.remove(i)),
        mapped(entries.remove(i)) == mapped(entries).remove(entries[i].0),
{
    let after = entries.remove(i);
    assert forall|a: int, b: int| 0 <= a < b < after.len() implies (#[trigger] after[a]).0 != (
    #[trigger] after[b]).0 by {
        let x = if a < i {
            a
        } else {
            a + 1
        };
        let y = if b < i {
            b
        } else {
            b + 1
        };
        assert(after[a] == entries[x] && after[b] == entries[y]);
    }
    let l = mapped(after);
    let r = mapped(entries).remove(entries[i].0);
    assert forall|k: K| #[trigger] l.dom().contains(k) implies r.dom().contains(k) && l[k]
        == r[k] by {
        let a = lemma_mapped_key(after, k);
        let x = if a < i {
            a
        } else {
            a + 1
        };
        assert(after[a] == entries[x]);
        lemma_mapped_entry(entries, x);
        lemma_mapped_entry(after, a);
        if x < i {
            assert(entries[x].0 != entries[i].0);
        } else {
            assert(entries[i].0 != entries[x].0);
        }
    }
    assert forall|k: K| #[trigger] r.dom().contains(k) implies l.dom().contains(k) by {
        let x = lemma_mapped_key(entries, k);
        let a = if x < i {
            x
        } else {
            x - 1
        };
        assert(after[a] == entries[x]);
        lemma_mapped_entry(after, a);
    }
    assert(l =~= r);
}

/// Changing the value of an entry changes the value of its key.
pub proof fn lemma_mapped_update<K, V>(entries: Seq<(K, V)>, i: int, v: V)
    requires
        distinct(entries),
        0 <= i < entries.len(),
    ensures
        distinct(entries.update(i, (entries[i].0, v))),
        mapped(entries.update(i, (entries[i].0, v))) == mapped(entries).insert(entries[i].0, v),
{
    let after = entries.update(i, (entries[i].0, v));
    assert forall|a: int, b: int| 0 <= a < b < after.len() implies (#[trigger] after[a]).0 != (
    #[trigger] after[b]).0 by {
        assert(after[a].0 == entries[a].0 && after[b].0 == entries[b].0);
    }
    let l = mapped(after);
    let r = mapped(entries).insert(entries[i].0, v);
    lemma_mapped_entry(entries, i);
    assert forall|k: K| #[trigger] l.dom().contains(k) implies r.dom().contains(k) && l[k]
        == r[k] by {
        let a = lemma_mapped_key(after, k);
        lemma_mapped_entry(after, a);
        lemma_mapped_entry(entries, a);
        if a < i {
            assert(entries[a].0 != entries[i].0);
        } else if a > i {
            assert(entries[i].0 != entries[a].0);
        }
    }
    assert forall|k: K| #[trigger] r.dom().contains(k) implies l.dom().contains(k) by {
        if k == entries[i].0 {
            lemma_mapped_entry(after, i);
        } else {
            let a = lemma_mapped_key(entries, k);
            assert(after[a].0 == entries[a].0);
            lemma_mapped_entry(after, a);
        }
    }
    assert(l =~= r);
}

impl<K, V> View for KeyMap<K, V> {
    type V = Map<K, V>;

    closed spec fn view(&self) -> Map<K, V> {
        mapped(self.entries@)
    }
}

impl<K, V> KeyMap<K, V> {
    /// The invariant of the list: no key stands twice.
    pub closed spec fn wf(&self) -> bool {
        distinct(self.entries@)
    }

    /// The entries in the order in which they are kept.
    pub closed spec fn listed(&self) -> Seq<(K, V)> {
        self.entries@
    }

    /// The map is that of the listed entries.
    pub broadcast proof fn lemma_listed(&self)
        requires
            self.wf(),
        ensures
            #![trigger self.listed()]
            distinct(self.listed()),
            self@ == mapped(self.listed()),
    {
    }
}

impl<K: MapKey, V> KeyMap<K, V> {
    pub fn new() -> (m: KeyMap<K, V>)
        ensures
            m.wf(),
            m@ == Map::<K, V>::empty(),
            m.listed().len() == 0,
    {
        let m = KeyMap { entries: Vec::new() };
        assert(m@ =~= Map::<K, V>::empty());
        m
    }

    pub fn len(&self) -> (n: usize)
        requires
            self.wf(),
        ensures
            n == self@.dom().len(),
            self@.dom().finite(),
            n == self.listed().len(),
    {
        proof {
            lemma_mapped_len(self.entries@);
        }
        self.entries.len()
    }

    /// Where a key stands in the list.
    pub fn find(&self, key: &K) -> (r: Option<usize>)
        requires
            self.wf(),
        ensures
            match r {
                Some(i) => i < self.listed().len() && self.listed()[i as int].0 == *key
                    && self@.dom().contains(*key) && self@[*key] == self.listed()[i as int].1,
                None => !self@.dom().contains(*key),
            },
    {
        let mut i: usize = 0;
        while i < self.entries.len()
            invariant
                i <= self.entries@.len(),
                forall|j: int| 0 <= j < i ==> (#[trigger] self.entries@[j]).0 != *key,
                distinct(self.entries@),
            decreases self.entries@.len() - i,
        {
            if self.entries[i].0.same(key) {
                proof {
                    lemma_mapped_entry(self.entries@, i as int);
                }
                return Some(i);
            }
            i = i + 1;
        }
        proof {
            if self@.dom().contains(*key) {
                let j = lemma_mapped_key(self.entries@, *key);
            }
        }
        None
    }

    pub fn contains_key(&self, key: &K) -> (b: bool)
        requires
            self.wf(),
        ensures
            b == self@.dom().contains(*key),
    {
        self.find(key).is_some()
    }

    pub fn get(&self, key: &K) -> (r: Option<&V>)
        requires
            self.wf(),
        ensures
            match r {
                Some(v) => self@.dom().contains(*key) && *v == self@[*key],
                None => !self@.dom().contains(*key),
            },
    {
        match self.find(key) {
            Some(i) => Some(&self.entries[i].1),
            None => None,
        }
    }

    /// The value at a place of the list.
    pub fn value_at(&self, i: usize) -> (v: &V)
        requires
            i < self.listed().len(),
        ensures
            *v == self.listed()[i as int].1,
    {
        &self.entries[i].1
    }

    /// Changes the value at a place of the list.
    pub fn set_value_at(&mut self, i: usize, value: V)
        requires
            old(self).wf(),
            i < old(self).listed().len(),
        ensures
            final(self).wf(),
            final(self).listed() == old(self).listed().update(
                i as int,
                (old(self).listed()[i as int].0, value),
            ),
            final(self)@ == old(self)@.insert(old(self).listed()[i as int].0, value),
    {
        proof {
            lemma_mapped_update(self.entries@, i as int, value);
        }
        let key: K = self.entries[i].0;
        self.entries[i] = (key, value);
    }

    /// Takes the entry at a place of the list out.
    pub fn remove_at(&mut self, i: usize) -> (v: V)
        requires
            old(self).wf(),
            i < old(self).listed().len(),
        ensures
            final(self).wf(),
            final(self).listed() == old(self).listed().remove(i as int),
            final(self)@ == old(self)@.remove(old(self).listed()[i as int].0),
            v == old(self).listed()[i as int].1,
    {
        proof {
            lemma_mapped_remove(self.entries@, i as int);
        }
        let (_, value) = self.entries.remove(i);
        value
    }

    /// Drops a key and hands its value out.
    pub fn remove(&mut self, key: &K) -> (r: Option<V>)
        requires
            old(self).wf(),
        ensures
            final(self).wf(),
            final(self)@ == old(self)@.remove(*key),
            match r {
                Some(v) => old(self)@.dom().contains(*key) && v == old(self)@[*key],
                None => !old(self)@.dom().contains(*key),
            },
    {
        match self.find(key) {
            None => {
                assert(self@ =~= old(self)@.remove(*key));
                None
            },
            Some(i) => Some(self.remove_at(i)),
        }
    }

    /// Sets the value of a key.
    pub fn insert(&mut self, key: K, value: V)
        requires
            old(self).wf(),
        ensures
            final(self).wf(),
            final(self)@ == old(self)@.insert(key, value),
    {
        match self.find(&key) {
            Some(i) => self.set_value_at(i, value),
            None => {
                let ghost before = self.entries@;
                proof {
                    let after = before.push((key, value));
                    assert forall|i: int, j: int| 0 <= i < j < after.len() implies (
                    #[trigger] after[i]).0 != (#[trigger] after[j]).0 by {
                        if j == before.len() {
                            lemma_mapped_entry(before, i);
                        }
                    }
                    assert(after.drop_last() =~= before);
                }
                self.entries.push((key, value));
            },
        }
    }

    pub fn clear(&mut self)
        ensures
            final(self).wf(),
            final(self)@ == Map::<K, V>::empty(),
            final(self).listed().len() == 0,
    {
        self.entries = Vec::new();
        assert(self@ =~= Map::<K, V>::empty());
    }
}

} // verus!
