//! Tables keyed by strings, kept in order of first insertion.

use vstd::prelude::*;
use crate::text::same_text;

verus! {

/// Whether a key stands among the entries.
pub open spec fn has_key<V>(entries: Seq<(String, V)>, key: Seq<char>) -> bool {
    exists|i: int| 0 <= i < entries.len() && (#[trigger] entries[i]).0@ == key
}

/// The first position of a key among the entries.
pub open spec fn first_at<V>(entries: Seq<(String, V)>, key: Seq<char>, i: int) -> bool {
    &&& 0 <= i < entries.len()
    &&& entries[i].0@ == key
    &&& forall|j: int| 0 <= j < i ==> (#[trigger] entries[j]).0@ != key
}

/// The position at which a key stands first.
pub open spec fn key_position<V>(entries: Seq<(String, V)>, key: Seq<char>) -> int {
    choose|i: int| first_at(entries, key, i)
}

/// The map that a list of entries stands for: the first entry of a key counts.
pub open spec fn entries_map<V>(entries: Seq<(String, V)>) -> Map<Seq<char>, V> {
    Map::new(
        |key: Seq<char>| has_key(entries, key),
        |key: Seq<char>| entries[key_position(entries, key)].1,
    )
}


proof fn lemma_position<V>(entries: Seq<(String, V)>, key: Seq<char>, i: int)
    requires
        first_at(entries, key, i),
    ensures
        has_key(entries, key),
        key_position(entries, key) == i,
{
    let p = key_position(entries, key);
    assert(first_at(entries, key, p));
    assert(entries[i].0@ == key);
    assert(entries[p].0@ == key);
    if p < i {
        assert(entries[p].0@ != key);
    }
    if i < p {
        assert(entries[i].0@ != key);
    }
}

proof fn lemma_has_first<V>(entries: Seq<(String, V)>, key: Seq<char>)
    requires
        has_key(entries, key),
    ensures
        first_at(entries, key, key_position(entries, key)),
    decreases entries.len(),
{
    let last = entries.len() - 1;
    let w = choose|i: int| 0 <= i < entries.len() && (#[trigger] entries[i]).0@ == key;
    let front = entries.drop_last();
    if has_key(front, key) {
        lemma_has_first(front, key);
        let p = key_position(front, key);
        assert forall|j: int| 0 <= j < p implies (#[trigger] entries[j]).0@ != key by {
            assert(front[j] == entries[j]);
        }
        assert(front[p] == entries[p]);
        assert(first_at(entries, key, p));
    } else {
        assert forall|j: int| 0 <= j < last implies (#[trigger] entries[j]).0@ != key by {
            assert(front[j] == entries[j]);
        }
        assert(w == last);
        assert(first_at(entries, key, last));
    }
}

/// A map from strings to values.
#[derive(Debug)]
pub struct StrMap<V> {
    pub entries: Vec<(String, V)>,
}

impl<V> View for StrMap<V> {
    type V = Map<Seq<char>, V>;

    open spec fn view(&self) -> Map<Seq<char>, V> {
        entries_map(self.entries@)
    }
}

impl<V> StrMap<V> {
    pub fn new() -> (r: Self)
        ensures
            r@ == Map::<Seq<char>, V>::empty(),
            r.entries@.len() == 0,
    {
        let r = StrMap { entries: Vec::new() };
        assert(r@ =~= Map::<Seq<char>, V>::empty());
        r
    }

    /// The position of the entry that counts for a key.
    fn position(&self, key: &str) -> (r: Option<usize>)
        ensures
            r is Some <==> self@.dom().contains(key@),
            r matches Some(i) ==> first_at(self.entries@, key@, i as int) && self@[key@]
                == self.entries@[i as int].1,
    {
        let mut i: usize = 0;
        while i < self.entries.len()
            invariant
                i <= self.entries@.len(),
                forall|j: int| 0 <= j < i ==> (#[trigger] self.entries@[j]).0@ != key@,
            decreases self.entries@.len() - i,
        {
            if same_text(self.entries[i].0.as_str(), key) {
                proof {
                    lemma_position(self.entries@, key@, i as int);
                }
                return Some(i);
            }
            i += 1;
        }
        None
    }

    pub fn contains_key(&self, key: &str) -> (r: bool)
        ensures
            r == self@.dom().contains(key@),
    {
        match self.position(key) {
            Some(_) => true,
            None => false,
        }
    }

    pub fn get(&self, key: &str) -> (r: Option<&V>)
        ensures
            r is Some <==> self@.dom().contains(key@),
            r matches Some(v) ==> *v == self@[key@],
    {
        match self.position(key) {
            Some(i) => Some(&self.entries[i].1),
            None => None,
        }
    }

    pub fn insert(&mut self, key: String, value: V)
        ensures
            final(self)@ == old(self)@.insert(key@, value),
    {
        match self.position(key.as_str()) {
            Some(i) => {
                let ghost before = self.entries@;
                self.entries.set(i, (key, value));
                proof {
                    let after = self.entries@;
                    assert forall|k: Seq<char>| has_key(before, k) == #[trigger] has_key(
                        after,
                        k,
                    ) by {
                        if has_key(before, k) {
                            lemma_has_first(before, k);
                            let p = key_position(before, k);
                            assert(after[p].0@ == k);
                        }
                        if has_key(after, k) {
                            lemma_has_first(after, k);
                            let p = key_position(after, k);
                            assert(before[p].0@ == k);
                        }
                    }
                    assert forall|k: Seq<char>| #[trigger] has_key(after, k) implies key_position(
                        after,
                        k,
                    ) == key_position(before, k) by {
                        lemma_has_first(after, k);
                        let p = key_position(after, k);
                        assert forall|j: int| 0 <= j < p implies (#[trigger] before[j]).0@ != k by {
                            assert(after[j].0@ != k);
                        }
                        assert(before[p].0@ == k);
                        assert(first_at(before, k, p));
                        lemma_position(before, k, p);
                    }
                    lemma_position(after, key@, i as int);
                    assert forall|k: Seq<char>| #[trigger] has_key(after, k) && k != key@ implies
                        before[key_position(before, k)].1 == after[key_position(after, k)].1 by {
                        lemma_has_first(after, k);
                        assert(key_position(after, k) != i as int);
                    }
                    assert(entries_map(after) =~= entries_map(before).insert(key@, value));
                }
            },
            None => {
                let ghost before = self.entries@;
                self.entries.push((key, value));
                proof {
                    let after = self.entries@;
                    let n = before.len() as int;
                    assert(after[n].0@ == key@);
                    assert forall|k: Seq<char>| #[trigger] has_key(before, k) implies has_key(
                        after,
                        k,
                    ) && key_position(after, k) == key_position(before, k) by {
                        lemma_has_first(before, k);
                        let p = key_position(before, k);
                        assert forall|j: int| 0 <= j < p implies (#[trigger] after[j]).0@ != k by {
                            assert(before[j].0@ != k);
                        }
                        assert(after[p] == before[p]);
                        assert(first_at(after, k, p));
                        lemma_position(after, k, p);
                    }
                    assert forall|k: Seq<char>| #[trigger] has_key(after, k) implies has_key(
                        before,
                        k,
                    ) || k == key@ by {
                        let w = choose|j: int|
                            0 <= j < after.len() && (#[trigger] after[j]).0@ == k;
                        if w < n {
                            assert(before[w].0@ == k);
                        }
                    }
                    assert forall|j: int| 0 <= j < n implies (#[trigger] after[j]).0@ != key@ by {
                        assert(before[j].0@ != key@);
                    }
                    assert(first_at(after, key@, n));
                    lemma_position(after, key@, n);
                    assert forall|k: Seq<char>| #[trigger] has_key(before, k) implies
                        before[key_position(before, k)].1 == after[key_position(after, k)].1 by {
                        lemma_has_first(before, k);
                    }
                    assert(entries_map(after) =~= entries_map(before).insert(key@, value));
                }
            },
        }
    }

    pub fn is_empty(&self) -> (r: bool)
        ensures
            r == (self@ == Map::<Seq<char>, V>::empty()),
    {
        proof {
            if self.entries@.len() > 0 {
                assert(self.entries@[0].0@ == self.entries@[0].0@);
                assert(has_key(self.entries@, self.entries@[0].0@));
                assert(self@.dom().contains(self.entries@[0].0@));
            } else {
                assert(self@ =~= Map::<Seq<char>, V>::empty());
            }
        }
        self.entries.len() == 0
    }
}

/// A set of strings.
#[derive(Debug)]
pub struct StrSet {
    pub names: Vec<String>,
}

impl View for StrSet {
    type V = Set<Seq<char>>;

    open spec fn view(&self) -> Set<Seq<char>> {
        Set::new(|k: Seq<char>| exists|i: int| 0 <= i < self.names@.len() && (#[trigger] self.names@[i])@ == k)
    }
}

impl StrSet {
    pub fn new() -> (r: Self)
        ensures
            r@ == Set::<Seq<char>>::empty(),
    {
        let r = StrSet { names: Vec::new() };
        assert(r@ =~= Set::<Seq<char>>::empty());
        r
    }

    /// A copy of the set.
    pub fn copied(&self) -> (r: StrSet)
        ensures
            r@ == self@,
    {
        let mut names: Vec<String> = Vec::new();
        let mut i: usize = 0;
        while i < self.names.len()
            invariant
                i <= self.names@.len(),
                names@.len() == i,
                forall|k: int| 0 <= k < i ==> (#[trigger] names@[k])@ == self.names@[k]@,
            decreases self.names@.len() - i,
        {
            names.push(self.names[i].clone());
            i += 1;
        }
        let r = StrSet { names };
        assert forall|k: Seq<char>| r@.contains(k) == self@.contains(k) by {
            if r@.contains(k) {
                let w = choose|j: int| 0 <= j < r.names@.len() && (#[trigger] r.names@[j])@ == k;
                assert(self.names@[w]@ == k);
            }
            if self@.contains(k) {
                let w = choose|j: int|
                    0 <= j < self.names@.len() && (#[trigger] self.names@[j])@ == k;
                assert(r.names@[w]@ == k);
            }
        }
        assert(r@ =~= self@);
        r
    }

    pub fn contains(&self, name: &str) -> (r: bool)
        ensures
            r == self@.contains(name@),
    {
        let mut i: usize = 0;
        while i < self.names.len()
            invariant
                i <= self.names@.len(),
                forall|j: int| 0 <= j < i ==> (#[trigger] self.names@[j])@ != name@,
            decreases self.names@.len() - i,
        {
            if same_text(self.names[i].as_str(), name) {
                assert(self.names@[i as int]@ == name@);
                return true;
            }
            i += 1;
        }
        false
    }

    pub fn insert(&mut self, name: String)
        ensures
            final(self)@ == old(self)@.insert(name@),
    {
        if self.contains(name.as_str()) {
            assert(self@ =~= self@.insert(name@));
        } else {
            let ghost before = self.names@;
            let ghost set_before = self@;
            self.names.push(name);
            proof {
                let after = self.names@;
                assert forall|k: Seq<char>| self@.contains(k) == set_before.insert(name@).contains(
                    k,
                ) by {
                    if set_before.contains(k) {
                        let w = choose|i: int|
                            0 <= i < before.len() && (#[trigger] before[i])@ == k;
                        assert(after[w]@ == k);
                    }
                    assert(after[before.len() as int]@ == name@);
                    if self@.contains(k) {
                        let w = choose|i: int| 0 <= i < after.len() && (#[trigger] after[i])@ == k;
                        if w < before.len() {
                            assert(before[w]@ == k);
                        }
                    }
                }
                assert(self@ =~= set_before.insert(name@));
            }
        }
    }
}

/// A map from slot numbers to values, held as an array.
#[derive(Debug)]
pub struct SlotTable<V> {
    pub slots: Vec<Option<V>>,
}

impl<V> View for SlotTable<V> {
    type V = Map<u16, V>;

    open spec fn view(&self) -> Map<u16, V> {
        Map::new(
            |k: u16| (k as int) < self.slots@.len() && self.slots@[k as int] is Some,
            |k: u16| self.slots@[k as int]->0,
        )
    }
}

impl<V> SlotTable<V> {
    pub fn new() -> (r: Self)
        ensures
            r@ == Map::<u16, V>::empty(),
    {
        let r = SlotTable { slots: Vec::new() };
        assert(r@ =~= Map::<u16, V>::empty());
        r
    }

    pub fn get(&self, key: u16) -> (r: Option<&V>)
        ensures
            r is Some <==> self@.dom().contains(key),
            r matches Some(v) ==> *v == self@[key],
    {
        if (key as usize) < self.slots.len() {
            self.slots[key as usize].as_ref()
        } else {
            None
        }
    }

    pub fn contains_key(&self, key: u16) -> (r: bool)
        ensures
            r == self@.dom().contains(key),
    {
        self.get(key).is_some()
    }

    pub fn insert(&mut self, key: u16, value: V)
        ensures
            final(self)@ == old(self)@.insert(key, value),
    {
        let ghost before = self.slots@;
        while self.slots.len() <= key as usize
            invariant
                before.len() <= self.slots@.len(),
                before.len() > key ==> self.slots@.len() == before.len(),
                forall|i: int| 0 <= i < before.len() ==> self.slots@[i] == before[i],
                forall|i: int| before.len() <= i < self.slots@.len() ==> self.slots@[i] is None,
            decreases key + 1 - self.slots@.len(),
        {
            self.slots.push(None);
        }
        self.slots.set(key as usize, Some(value));
        assert(self@ =~= old(self)@.insert(key, value));
    }

    pub fn remove(&mut self, key: u16)
        ensures
            final(self)@ == old(self)@.remove(key),
    {
        if (key as usize) < self.slots.len() {
            self.slots.set(key as usize, None);
        }
        assert(self@ =~= old(self)@.remove(key));
    }

    pub fn clear(&mut self)
        ensures
            final(self)@ == Map::<u16, V>::empty(),
    {
        self.slots.clear();
        assert(self@ =~= Map::<u16, V>::empty());
    }
}

impl<V: Copy> SlotTable<V> {
    /// A copy of the table.
    pub fn copied(&self) -> (r: Self)
        ensures
            r@ == self@,
    {
        let mut slots: Vec<Option<V>> = Vec::new();
        let mut i: usize = 0;
        while i < self.slots.len()
            invariant
                i <= self.slots@.len(),
                slots@ == self.slots@.take(i as int),
            decreases self.slots@.len() - i,
        {
            slots.push(self.slots[i]);
            i += 1;
            assert(self.slots@.take(i as int) =~= self.slots@.take(i - 1).push(self.slots@[i - 1]));
        }
        assert(self.slots@.take(i as int) =~= self.slots@);
        SlotTable { slots }
    }
}

} // verus!
