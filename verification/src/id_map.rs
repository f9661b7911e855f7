//! A map from textual identifiers to values, kept as a list of entries.

use vstd::prelude::*;

verus! {

/// Values filed under textual identifiers. No identifier occurs twice.
pub struct IdMap<T> {
    pub entries: Vec<(String, T)>,
}

/// Whether some entry is filed under `key`.
pub open spec fn has_key<T>(entries: Seq<(String, T)>, key: Seq<char>) -> bool {
    exists|i: int| 0 <= i < entries.len() && (#[trigger] entries[i]).0@ == key
}

/// The position of an entry that is filed under `key`.
pub open spec fn key_index<T>(entries: Seq<(String, T)>, key: Seq<char>) -> int {
    choose|i: int| 0 <= i < entries.len() && (#[trigger] entries[i]).0@ == key
}

/// No identifier occurs twice.
pub open spec fn distinct_keys<T>(entries: Seq<(String, T)>) -> bool {
    forall|i: int, j: int|
        0 <= i < j < entries.len() ==> (#[trigger] entries[i]).0@ != (#[trigger] entries[j]).0@
}

/// What a list of entries stands for.
pub open spec fn entries_map<T: View>(entries: Seq<(String, T)>) -> Map<Seq<char>, T::V> {
    Map::new(
        |key: Seq<char>| has_key(entries, key),
        |key: Seq<char>| entries[key_index(entries, key)].1@,
    )
}

/// The entries of `map` that are not filed with `value`.
pub open spec fn without_value<K, V>(map: Map<K, V>, value: V) -> Map<K, V> {
    Map::new(|key: K| map.contains_key(key) && map[key] != value, |key: K| map[key])
}

impl<T: View> View for IdMap<T> {
    type V = Map<Seq<char>, T::V>;

    open spec fn view(&self) -> Map<Seq<char>, T::V> {
        entries_map(self.entries@)
    }
}

impl<T: View> IdMap<T> {
    /// No identifier occurs twice.
    pub open spec fn wf(&self) -> bool {
        distinct_keys(self.entries@)
    }
}

/// Each entry is what the map holds under its identifier.
pub proof fn lemma_entry<T: View>(entries: Seq<(String, T)>, i: int)
    requires
        distinct_keys(entries),
        0 <= i < entries.len(),
    ensures
        has_key(entries, entries[i].0@),
        key_index(entries, entries[i].0@) == i,
        entries_map(entries).contains_key(entries[i].0@),
        entries_map(entries)[entries[i].0@] == entries[i].1@,
{
    let k = key_index(entries, entries[i].0@);
    assert(entries[i].0@ == entries[i].0@);
    assert(0 <= k < entries.len() && entries[k].0@ == entries[i].0@);
}

/// Replacing the values of a list of entries one by one keeps the identifiers.
pub proof fn lemma_values_replaced<T: View>(
    before: Seq<(String, T)>,
    after: Seq<(String, T)>,
    change: spec_fn(T::V) -> T::V,
)
    requires
        distinct_keys(before),
        before.len() == after.len(),
        forall|i: int|
            0 <= i < before.len() ==> (#[trigger] after[i]).0@ == before[i].0@ && after[i].1@
                == change(before[i].1@),
    ensures
        distinct_keys(after),
        entries_map(after) == entries_map(before).map_values(change),
{
    assert forall|i: int, j: int| 0 <= i < j < after.len() implies (#[trigger] after[i]).0@
        != (#[trigger] after[j]).0@ by {
        assert(before[i].0@ != before[j].0@);
    }
    let m = entries_map(before).map_values(change);
    assert forall|key: Seq<char>|
        entries_map(after).contains_key(key) <==> m.contains_key(key) by {
        if has_key(after, key) {
            let i = key_index(after, key);
            assert(before[i].0@ == key);
        }
        if has_key(before, key) {
            let i = key_index(before, key);
            assert(after[i].0@ == key);
        }
    }
    assert forall|key: Seq<char>| entries_map(after).contains_key(key) implies entries_map(
        after,
    )[key] == m[key] by {
        let i = key_index(after, key);
        assert(after[i].0@ == key);
        lemma_entry(before, i);
    }
    assert(entries_map(after) =~= m);
}

/// A map has as many identifiers as entries.
pub proof fn lemma_len<T: View>(entries: Seq<(String, T)>)
    requires
        distinct_keys(entries),
    ensures
        entries_map(entries).dom().finite(),
        entries_map(entries).dom().len() == entries.len(),
    decreases entries.len(),
{
    if entries.len() == 0 {
        assert(entries_map(entries).dom() =~= Set::empty());
    } else {
        let init = entries.drop_last();
        let key = entries.last().0@;
        lemma_len(init);
        lemma_pushed(init, entries.last());
        assert(init.push(entries.last()) =~= entries);
        assert(!has_key(init, key)) by {
            if has_key(init, key) {
                let i = key_index(init, key);
                assert(entries[i].0@ != entries[entries.len() - 1].0@);
            }
        }
        assert(entries_map(entries).dom() =~= entries_map(init).dom().insert(key));
    }
}

pub proof fn lemma_pushed<T: View>(entries: Seq<(String, T)>, entry: (String, T))
    requires
        distinct_keys(entries.push(entry)),
    ensures
        entries_map(entries.push(entry)) == entries_map(entries).insert(entry.0@, entry.1@),
{
    let pushed = entries.push(entry);
    assert forall|i: int, j: int| 0 <= i < j < entries.len() implies (#[trigger] entries[i]).0@
        != (#[trigger] entries[j]).0@ by {
        assert(pushed[i].0@ != pushed[j].0@);
    }
    let m = entries_map(entries).insert(entry.0@, entry.1@);
    assert forall|key: Seq<char>|
        entries_map(pushed).contains_key(key) <==> m.contains_key(key) by {
        if has_key(pushed, key) {
            let i = key_index(pushed, key);
            if i < entries.len() {
                assert(entries[i].0@ == key);
            }
        }
        if has_key(entries, key) {
            let i = key_index(entries, key);
            assert(pushed[i].0@ == key);
        }
        assert(pushed[entries.len() as int].0@ == entry.0@);
    }
    assert forall|key: Seq<char>| entries_map(pushed).contains_key(key) implies entries_map(
        pushed,
    )[key] == m[key] by {
        let i = key_index(pushed, key);
        if i < entries.len() {
            assert(pushed[i].0@ != pushed[entries.len() as int].0@);
            lemma_entry(entries, i);
        }
    }
    assert(entries_map(pushed) =~= m);
}

pub proof fn lemma_removed<T: View>(entries: Seq<(String, T)>, i: int)
    requires
        distinct_keys(entries),
        0 <= i < entries.len(),
    ensures
        distinct_keys(entries.remove(i)),
        entries_map(entries.remove(i)) == entries_map(entries).remove(entries[i].0@),
{
    let rest = entries.remove(i);
    let old_index = |j: int| if j < i { j } else { j + 1 };
    assert forall|j: int, k: int| 0 <= j < k < rest.len() implies (#[trigger] rest[j]).0@ != (
    #[trigger] rest[k]).0@ by {
        assert(rest[j] == entries[old_index(j)]);
        assert(rest[k] == entries[old_index(k)]);
    }
    let m = entries_map(entries).remove(entries[i].0@);
    assert forall|key: Seq<char>| entries_map(rest).contains_key(key) <==> m.contains_key(key) by {
        if has_key(rest, key) {
            let j = key_index(rest, key);
            assert(entries[old_index(j)].0@ == key);
            assert(old_index(j) != i);
        }
        if has_key(entries, key) && key != entries[i].0@ {
            let j = key_index(entries, key);
            if j < i {
                assert(rest[j].0@ == key);
            } else {
                assert(rest[j - 1].0@ == key);
            }
        }
    }
    assert forall|key: Seq<char>| entries_map(rest).contains_key(key) implies entries_map(rest)[key]
        == m[key] by {
        let j = key_index(rest, key);
        assert(rest[j] == entries[old_index(j)]);
        lemma_entry(entries, old_index(j));
    }
    assert(entries_map(rest) =~= m);
}

pub proof fn lemma_replaced<T: View>(entries: Seq<(String, T)>, i: int, entry: (String, T))
    requires
        distinct_keys(entries),
        0 <= i < entries.len(),
        entries[i].0@ == entry.0@,
    ensures
        distinct_keys(entries.update(i, entry)),
        entries_map(entries.update(i, entry)) == entries_map(entries).insert(entry.0@, entry.1@),
{
    let after = entries.update(i, entry);
    assert forall|j: int, k: int| 0 <= j < k < after.len() implies (#[trigger] after[j]).0@ != (
    #[trigger] after[k]).0@ by {
        assert(entries[j].0@ != entries[k].0@);
    }
    let m = entries_map(entries).insert(entry.0@, entry.1@);
    assert forall|key: Seq<char>| entries_map(after).contains_key(key) <==> m.contains_key(key) by {
        if has_key(after, key) {
            let j = key_index(after, key);
            assert(entries[j].0@ == key);
        }
        if has_key(entries, key) {
            let j = key_index(entries, key);
            assert(after[j].0@ == key);
        }
        assert(after[i].0@ == entry.0@);
    }
    assert forall|key: Seq<char>| entries_map(after).contains_key(key) implies entries_map(
        after,
    )[key] == m[key] by {
        let j = key_index(after, key);
        if j != i {
            if j < i {
                assert(after[j].0@ != after[i].0@);
            } else {
                assert(after[i].0@ != after[j].0@);
            }
            lemma_entry(entries, j);
        }
    }
    assert(entries_map(after) =~= m);
}

impl<T: View> IdMap<T> {
    /// A map without entries.
    pub fn new() -> (map: Self)
        ensures
            map.wf(),
            map@ == Map::<Seq<char>, T::V>::empty(),
    {
        let map = IdMap { entries: Vec::new() };
        assert(map@ =~= Map::<Seq<char>, T::V>::empty());
        map
    }

    /// The position of the entry under `key`, if there is one.
    fn find(&self, key: &String) -> (found: Option<usize>)
        requires
            self.wf(),
        ensures
            match found {
                Some(i) => i < self.entries@.len() && self.entries@[i as int].0@ == key@
                    && self@.contains_key(key@) && self@[key@] == self.entries@[i as int].1@,
                None => !self@.contains_key(key@),
            },
    {
        let mut i: usize = 0;
        while i < self.entries.len()
            invariant
                self.wf(),
                0 <= i <= self.entries@.len(),
                forall|j: int| 0 <= j < i ==> (#[trigger] self.entries@[j]).0@ != key@,
            decreases self.entries@.len() - i,
        {
            if self.entries[i].0 == *key {
                proof {
                    lemma_entry(self.entries@, i as int);
                }
                return Some(i);
            }
            i += 1;
        }
        None
    }

    /// The value under `key`.
    pub fn get(&self, key: &String) -> (value: Option<&T>)
        requires
            self.wf(),
        ensures
            match value {
                Some(value) => self@.contains_key(key@) && value@ == self@[key@],
                None => !self@.contains_key(key@),
            },
    {
        match self.find(key) {
            Some(i) => Some(&self.entries[i].1),
            None => None,
        }
    }

    /// The value under `key`, to be changed in place.
    pub fn get_mut(&mut self, key: &String) -> (value: Option<&mut T>)
        requires
            old(self).wf(),
        ensures
            match value {
                Some(value) => {
                    &&& old(self)@.contains_key(key@)
                    &&& (*value)@ == old(self)@[key@]
                    &&& final(self).wf()
                    &&& final(self)@ == old(self)@.insert(key@, (*final(value))@)
                },
                None => {
                    &&& !old(self)@.contains_key(key@)
                    &&& final(self).wf()
                    &&& final(self)@ == old(self)@
                },
            },
    {
        let ghost before = self.entries@;
        match self.find(key) {
            Some(i) => {
                let value = &mut self.entries[i].1;
                proof {
                    lemma_replaced(before, i as int, (before[i as int].0, *final(value)));
                }
                Some(value)
            },
            None => None,
        }
    }

    /// Files `value` under `key`, in place of what was there.
    pub fn insert(&mut self, key: String, value: T)
        requires
            old(self).wf(),
        ensures
            final(self).wf(),
            final(self)@ == old(self)@.insert(key@, value@),
    {
        let ghost before = self.entries@;
        match self.find(&key) {
            Some(i) => {
                proof {
                    lemma_replaced(before, i as int, (key, value));
                }
                self.entries[i] = (key, value);
                assert(self.entries@ =~= before.update(i as int, (key, value)));
            },
            None => {
                proof {
                    let pushed = before.push((key, value));
                    assert forall|i: int, j: int| 0 <= i < j < pushed.len() implies (
                    #[trigger] pushed[i]).0@ != (#[trigger] pushed[j]).0@ by {
                        if j == before.len() {
                            if before[i].0@ == key@ {
                                lemma_entry(before, i);
                            }
                        } else {
                            assert(before[i].0@ != before[j].0@);
                        }
                    }
                    lemma_pushed(before, (key, value));
                }
                self.entries.push((key, value));
            },
        }
    }

    /// Takes the value under `key` out of the map.
    pub fn remove(&mut self, key: &String) -> (value: Option<T>)
        requires
            old(self).wf(),
        ensures
            final(self).wf(),
            final(self)@ == old(self)@.remove(key@),
            match value {
                Some(value) => old(self)@.contains_key(key@) && value@ == old(self)@[key@],
                None => !old(self)@.contains_key(key@),
            },
    {
        let ghost before = self.entries@;
        match self.find(key) {
            Some(i) => {
                proof {
                    lemma_removed(before, i as int);
                }
                let entry = self.entries.remove(i);
                Some(entry.1)
            },
            None => {
                assert(self@.remove(key@) =~= self@);
                None
            },
        }
    }

    /// How many identifiers the map has.
    pub fn len(&self) -> (len: usize)
        requires
            self.wf(),
        ensures
            self@.dom().finite(),
            len == self@.dom().len(),
    {
        proof {
            lemma_len(self.entries@);
        }
        self.entries.len()
    }

    /// Takes every entry out of the map.
    pub fn clear(&mut self)
        ensures
            final(self).wf(),
            final(self)@ == Map::<Seq<char>, T::V>::empty(),
    {
        self.entries.clear();
        assert(self@ =~= Map::<Seq<char>, T::V>::empty());
    }
}

impl IdMap<String> {
    /// Takes every entry with `value` out of the map.
    pub fn remove_value(&mut self, value: &String)
        requires
            old(self).wf(),
        ensures
            final(self).wf(),
            final(self)@ == without_value(old(self)@, value@),
    {
        let ghost before = self@;
        let mut i: usize = 0;
        while i < self.entries.len()
            invariant
                self.wf(),
                0 <= i <= self.entries@.len(),
                forall|j: int| 0 <= j < i ==> (#[trigger] self.entries@[j]).1@ != value@,
                without_value(self@, value@) == without_value(before, value@),
            decreases self.entries@.len() - i,
        {
            if self.entries[i].1 == *value {
                let ghost entries = self.entries@;
                proof {
                    lemma_removed(entries, i as int);
                    lemma_entry(entries, i as int);
                }
                let ghost map = self@;
                self.entries.remove(i);
                assert(without_value(self@, value@) =~= without_value(map, value@));
            } else {
                i += 1;
            }
        }
        proof {
            assert forall|key: Seq<char>| self@.contains_key(key) implies self@[key] != value@ by {
                let j = key_index(self.entries@, key);
                lemma_entry(self.entries@, j);
            }
            assert(self@ =~= without_value(self@, value@));
        }
    }
}

} // verus!
