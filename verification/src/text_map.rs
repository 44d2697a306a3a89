//! A map from texts to values.

use crate::text::same_text;
use vstd::map::*;
use vstd::prelude::*;
use vstd::string::*;

verus! {

/// A map from texts to values, kept as a list in which no key stands twice.
#[derive(Debug, Clone)]
pub struct TextMap<V> {
    entries: Vec<(String, V)>,
}

/// No key stands twice.
pub open spec fn keys_distinct<V>(entries: Seq<(String, V)>) -> bool {
    forall|i: int, j: int|
        0 <= i < j < entries.len() ==> (#[trigger] entries[i]).0@ != (#[trigger] entries[j]).0@
}

/// The map that a list of entries stands for.
pub open spec fn map_of<V>(entries: Seq<(String, V)>) -> Map<Seq<char>, V>
    decreases entries.len(),
{
    if entries.len() == 0 {
        Map::empty()
    } else {
        map_of(entries.drop_last()).insert(entries.last().0@, entries.last().1)
    }
}

/// Every entry of a list without repeated keys is in its map.
proof fn lemma_map_of_entry<V>(entries: Seq<(String, V)>, i: int)
    requires
        keys_distinct(entries),
        0 <= i < entries.len(),
    ensures
        map_of(entries).dom().contains(entries[i].0@),
        map_of(entries)[entries[i].0@] == entries[i].1,
    decreases entries.len(),
{
    let front = entries.drop_last();
    assert(keys_distinct(front)) by {
        assert forall|a: int, b: int| 0 <= a < b < front.len() implies (#[trigger] front[a]).0@ != (
        #[trigger] front[b]).0@ by {
            assert(front[a] == entries[a] && front[b] == entries[b]);
        }
    }
    if i < front.len() {
        lemma_map_of_entry(front, i);
        assert(entries[i].0@ != entries[entries.len() - 1].0@);
    }
}

/// Every key of a map stands in its list.
proof fn lemma_map_of_key<V>(entries: Seq<(String, V)>, k: Seq<char>) -> (i: int)
    requires
        map_of(entries).dom().contains(k),
    ensures
        0 <= i < entries.len(),
        entries[i].0@ == k,
    decreases entries.len(),
{
    if entries.last().0@ == k {
        entries.len() - 1
    } else {
        lemma_map_of_key(entries.drop_last(), k)
    }
}

/// A map has as many keys as its list has entries.
proof fn lemma_map_of_len<V>(entries: Seq<(String, V)>)
    requires
        keys_distinct(entries),
    ensures
        map_of(entries).dom().finite(),
        map_of(entries).dom().len() == entries.len(),
    decreases entries.len(),
{
    if entries.len() > 0 {
        let front = entries.drop_last();
        assert forall|a: int, b: int| 0 <= a < b < front.len() implies (#[trigger] front[a]).0@ != (
        #[trigger] front[b]).0@ by {
            assert(front[a] == entries[a] && front[b] == entries[b]);
        }
        lemma_map_of_len(front);
        let k = entries.last().0@;
        if map_of(front).dom().contains(k) {
            let i = lemma_map_of_key(front, k);
            assert(entries[i].0@ != entries[entries.len() - 1].0@);
        }
    }
}

impl<V> View for TextMap<V> {
    type V = Map<Seq<char>, V>;

    closed spec fn view(&self) -> Map<Seq<char>, V> {
        map_of(self.entries@)
    }
}

impl<V> TextMap<V> {
    /// The invariant of the list: no key stands twice.
    pub closed spec fn wf(&self) -> bool {
        keys_distinct(self.entries@)
    }

    pub fn new() -> (m: TextMap<V>)
        ensures
            m.wf(),
            m@ == Map::<Seq<char>, V>::empty(),
    {
        let m = TextMap { entries: Vec::new() };
        assert(m@ =~= Map::<Seq<char>, V>::empty());
        m
    }

    /// The entries of the map, each key once.
    pub fn into_entries(self) -> (entries: Vec<(String, V)>)
        requires
            self.wf(),
        ensures
            keys_distinct(entries@),
            map_of(entries@) == self@,
    {
        self.entries
    }

    pub fn len(&self) -> (n: usize)
        requires
            self.wf(),
        ensures
            n == self@.dom().len(),
            self@.dom().finite(),
    {
        proof {
            lemma_map_of_len(self.entries@);
        }
        self.entries.len()
    }

    pub fn is_empty(&self) -> (b: bool)
        requires
            self.wf(),
        ensures
            b == (self@.dom().len() == 0),
            self@.dom().finite(),
    {
        self.len() == 0
    }

    /// Where a key stands.
    fn find(&self, key: &str) -> (r: Option<usize>)
        requires
            self.wf(),
        ensures
            match r {
                Some(i) => i < self.entries@.len() && self.entries@[i as int].0@ == key@
                    && self@.dom().contains(key@) && self@[key@] == self.entries@[i as int].1,
                None => !self@.dom().contains(key@),
            },
    {
        let mut i: usize = 0;
        while i < self.entries.len()
            invariant
                i <= self.entries@.len(),
                forall|j: int| 0 <= j < i ==> (#[trigger] self.entries@[j]).0@ != key@,
                keys_distinct(self.entries@),
            decreases self.entries@.len() - i,
        {
            if same_text(self.entries[i].0.as_str(), key) {
                proof {
                    lemma_map_of_entry(self.entries@, i as int);
                }
                return Some(i);
            }
            i = i + 1;
        }
        proof {
            if self@.dom().contains(key@) {
                let j = lemma_map_of_key(self.entries@, key@);
            }
        }
        None
    }

    pub fn contains_key(&self, key: &str) -> (b: bool)
        requires
            self.wf(),
        ensures
            b == self@.dom().contains(key@),
    {
        self.find(key).is_some()
    }

    pub fn get(&self, key: &str) -> (r: Option<&V>)
        requires
            self.wf(),
        ensures
            match r {
                Some(v) => self@.dom().contains(key@) && *v == self@[key@],
                None => !self@.dom().contains(key@),
            },
    {
        match self.find(key) {
            Some(i) => Some(&self.entries[i].1),
            None => None,
        }
    }

    /// Sets the value of a key.
    pub fn insert(&mut self, key: String, value: V)
        requires
            old(self).wf(),
        ensures
            final(self).wf(),
            final(self)@ == old(self)@.insert(key@, value),
    {
        self.remove(key.as_str());
        let ghost before = self.entries@;
        let ghost added = (key, value);
        proof {
            let after = before.push(added);
            assert forall|i: int, j: int| 0 <= i < j < after.len() implies (#[trigger] after[i]).0@
                != (#[trigger] after[j]).0@ by {
                if j == before.len() {
                    assert(after[i] == before[i]);
                    if before[i].0@ == key@ {
                        lemma_map_of_entry(before, i);
                    }
                }
            }
            assert(after.drop_last() =~= before);
        }
        self.entries.push((key, value));
        assert(self@ =~= old(self)@.insert(key@, value));
    }

    /// Drops a key and hands its value out.
    pub fn remove(&mut self, key: &str) -> (r: Option<V>)
        requires
            old(self).wf(),
        ensures
            final(self).wf(),
            final(self)@ == old(self)@.remove(key@),
            match r {
                Some(v) => old(self)@.dom().contains(key@) && v == old(self)@[key@],
                None => !old(self)@.dom().contains(key@),
            },
    {
        let ghost before = self.entries@;
        match self.find(key) {
            None => {
                assert(self@ =~= old(self)@.remove(key@));
                None
            },
            Some(i) => {
                proof {
                    let after = before.remove(i as int);
                    assert forall|a: int, b: int| 0 <= a < b < after.len() implies (
                    #[trigger] after[a]).0@ != (#[trigger] after[b]).0@ by {
                        let x = if a < i {
                            a
                        } else {
                            a + 1
                        };
                        let y = if b < i {
                            b
                        } else {
                            b + 1
                        };
                        assert(after[a] == before[x] && after[b] == before[y]);
                    }
                    lemma_removed(before, i as int);
                }
                let (_, value) = self.entries.remove(i);
                Some(value)
            },
        }
    }

    pub fn clear(&mut self)
        ensures
            final(self).wf(),
            final(self)@ == Map::<Seq<char>, V>::empty(),
    {
        self.entries = Vec::new();
        assert(self@ =~= Map::<Seq<char>, V>::empty());
    }
}

/// Taking an entry out of the list takes its key out of the map.
proof fn lemma_removed<V>(entries: Seq<(String, V)>, i: int)
    requires
        keys_distinct(entries),
        0 <= i < entries.len(),
        keys_distinct(entries.remove(i)),
    ensures
        map_of(entries.remove(i)) == map_of(entries).remove(entries[i].0@),
{
    let after = entries.remove(i);
    let l = map_of(after);
    let r = map_of(entries).remove(entries[i].0@);
    assert forall|k: Seq<char>| #[trigger] l.dom().contains(k) implies r.dom().contains(k) && l[k]
        == r[k] by {
        let a = lemma_map_of_key(after, k);
        let x = if a < i {
            a
        } else {
            a + 1
        };
        assert(after[a] == entries[x]);
        lemma_map_of_entry(entries, x);
        lemma_map_of_entry(after, a);
        if x < i {
            assert(entries[x].0@ != entries[i].0@);
        } else {
            assert(entries[i].0@ != entries[x].0@);
        }
    }
    assert forall|k: Seq<char>| #[trigger] r.dom().contains(k) implies l.dom().contains(k) by {
        let x = lemma_map_of_key(entries, k);
        let a = if x < i {
            x
        } else {
            x - 1
        };
        assert(after[a] == entries[x]);
        lemma_map_of_entry(after, a);
    }
    assert(l =~= r);
}

} // verus!
