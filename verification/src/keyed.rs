//! A small map keyed by text.
//!
//! Entries are kept in the order of their first insertion. The view is the mathematical map
//! from the key's characters to the value's view.

use crate::text::{same, views};
use vstd::prelude::*;

verus! {

/// Values found by a text key; no key occurs twice.
#[derive(Clone, Debug)]
pub struct Keyed<V> {
    entries: Vec<(String, V)>,
}

/// Position of the entry with key `key`, if there is one.
spec fn position_of<V>(entries: Seq<(String, V)>, key: Seq<char>) -> int {
    choose|i: int| 0 <= i < entries.len() && (#[trigger] entries[i]).0@ == key
}

spec fn has_key<V>(entries: Seq<(String, V)>, key: Seq<char>) -> bool {
    exists|i: int| 0 <= i < entries.len() && (#[trigger] entries[i]).0@ == key
}

spec fn distinct<V>(entries: Seq<(String, V)>) -> bool {
    forall|i: int, j: int|
        0 <= i < entries.len() && 0 <= j < entries.len() && (#[trigger] entries[i]).0@ == (
        #[trigger] entries[j]).0@ ==> i == j
}

spec fn map_of<V: View>(entries: Seq<(String, V)>) -> Map<Seq<char>, V::V> {
    Map::new(
        |key: Seq<char>| has_key(entries, key),
        |key: Seq<char>| entries[position_of(entries, key)].1@,
    )
}

proof fn lemma_entry<V: View>(entries: Seq<(String, V)>, i: int)
    requires
        distinct(entries),
        0 <= i < entries.len(),
    ensures
        map_of(entries).dom().contains(entries[i].0@),
        map_of(entries)[entries[i].0@] == entries[i].1@,
{
    let key = entries[i].0@;
    assert(has_key(entries, key));
    let p = position_of(entries, key);
    assert(0 <= p < entries.len() && entries[p].0@ == key);
    assert(p == i);
}

impl<V: View> View for Keyed<V> {
    type V = Map<Seq<char>, V::V>;

    closed spec fn view(&self) -> Map<Seq<char>, V::V> {
        map_of(self.entries@)
    }
}

impl<V: View> Keyed<V> {
    /// No key occurs twice.
    pub closed spec fn wf(&self) -> bool {
        distinct(self.entries@)
    }

    /// The keys, in the order of first insertion.
    pub closed spec fn keys(&self) -> Seq<Seq<char>> {
        Seq::new(self.entries@.len(), |i: int| self.entries@[i].0@)
    }

    /// Every value has the property.
    pub closed spec fn all_values(&self, property: spec_fn(V) -> bool) -> bool {
        forall|i: int| 0 <= i < self.entries@.len() ==> property((#[trigger] self.entries@[i]).1)
    }

    /// The keys list the domain of the view, each key once.
    pub proof fn lemma_keys(&self)
        requires
            self.wf(),
        ensures
            self.keys().no_duplicates(),
            forall|i: int|
                0 <= i < self.keys().len() ==> self@.dom().contains(#[trigger] self.keys()[i]),
            forall|key: Seq<char>| #[trigger]
                self@.dom().contains(key) ==> exists|i: int|
                    0 <= i < self.keys().len() && #[trigger] self.keys()[i] == key,
            self.keys().to_set() =~= self@.dom(),
            self@.dom().finite(),
            self@.dom().len() == self.keys().len(),
    {
        assert forall|i: int| 0 <= i < self.keys().len() implies self@.dom().contains(
            #[trigger] self.keys()[i],
        ) by {
            lemma_entry(self.entries@, i);
        }
        assert forall|key: Seq<char>| #[trigger] self@.dom().contains(key) implies exists|i: int|
            0 <= i < self.keys().len() && #[trigger] self.keys()[i] == key by {
            assert(has_key(self.entries@, key));
            let p = position_of(self.entries@, key);
            assert(self.keys()[p] == key);
        }
        assert(self.keys().to_set() =~= self@.dom());
        self.keys().unique_seq_to_set();
    }

    /// An empty map.
    pub fn new() -> (r: Self)
        ensures
            r.wf(),
            r@ == Map::<Seq<char>, V::V>::empty(),
            r.keys() == Seq::<Seq<char>>::empty(),
            forall|property: spec_fn(V) -> bool| #[trigger] r.all_values(property),
    {
        let r = Keyed { entries: Vec::new() };
        assert(r@ =~= Map::<Seq<char>, V::V>::empty());
        assert(r.keys() =~= Seq::<Seq<char>>::empty());
        r
    }

    /// Number of entries.
    pub fn len(&self) -> (n: usize)
        ensures
            n == self.keys().len(),
    {
        self.entries.len()
    }

    /// The key of entry `i`.
    pub fn key(&self, i: usize) -> (key: &str)
        requires
            i < self.keys().len(),
        ensures
            key@ == self.keys()[i as int],
    {
        self.entries[i].0.as_str()
    }

    /// The value of entry `i`.
    pub fn value(&self, i: usize) -> (value: &V)
        requires
            self.wf(),
            i < self.keys().len(),
        ensures
            self@.dom().contains(self.keys()[i as int]),
            value@ == self@[self.keys()[i as int]],
            forall|property: spec_fn(V) -> bool| #[trigger]
                self.all_values(property) ==> property(*value),
    {
        proof {
            lemma_entry(self.entries@, i as int);
        }
        &self.entries[i].1
    }

    /// The keys, in the order of first insertion.
    pub fn key_list(&self) -> (r: Vec<String>)
        requires
            self.wf(),
        ensures
            views(r@) == self.keys(),
            views(r@).no_duplicates(),
            forall|key: Seq<char>| #[trigger]
                views(r@).contains(key) == self@.dom().contains(key),
    {
        let mut r: Vec<String> = Vec::new();
        let mut i: usize = 0;
        while i < self.entries.len()
            invariant
                i <= self.entries@.len(),
                r@.len() == i,
                forall|j: int| 0 <= j < i ==> (#[trigger] r@[j])@ == self.keys()[j],
            decreases self.entries@.len() - i,
        {
            r.push(self.entries[i].0.clone());
            i += 1;
        }
        proof {
            let keys = self.keys();
            self.lemma_keys();
            assert(views(r@) =~= keys);
            assert forall|key: Seq<char>| #[trigger] keys.contains(key)
                == self@.dom().contains(key) by {
                if self@.dom().contains(key) {
                    let j = choose|j: int| 0 <= j < keys.len() && #[trigger] keys[j] == key;
                }
                if keys.contains(key) {
                    let j = choose|j: int| 0 <= j < keys.len() && keys[j] == key;
                    assert(self@.dom().contains(keys[j]));
                }
            }
        }
        r
    }

    fn position(&self, key: &str) -> (r: Option<usize>)
        ensures
            match r {
                Some(i) => i < self.entries@.len() && self.entries@[i as int].0@ == key@,
                None => !has_key(self.entries@, key@),
            },
    {
        let mut i: usize = 0;
        while i < self.entries.len()
            invariant
                i <= self.entries.len(),
                forall|j: int| 0 <= j < i ==> (#[trigger] self.entries@[j]).0@ != key@,
            decreases self.entries.len() - i,
        {
            if same(self.entries[i].0.as_str(), key) {
                return Some(i);
            }
            i += 1;
        }
        None
    }

    /// The value stored under `key`.
    pub fn get(&self, key: &str) -> (r: Option<&V>)
        requires
            self.wf(),
        ensures
            match r {
                Some(v) => {
                    &&& self@.dom().contains(key@)
                    &&& self@[key@] == v@
                    &&& forall|property: spec_fn(V) -> bool| #[trigger]
                        self.all_values(property) ==> property(*v)
                },
                None => !self@.dom().contains(key@),
            },
    {
        match self.position(key) {
            Some(i) => {
                proof {
                    lemma_entry(self.entries@, i as int);
                }
                Some(&self.entries[i].1)
            },
            None => None,
        }
    }

    /// The value stored under `key`, to be changed in place.
    pub fn get_mut(&mut self, key: &str) -> (r: Option<&mut V>)
        requires
            old(self).wf(),
        ensures
            final(self).wf(),
            final(self).keys() == old(self).keys(),
            match r {
                Some(v) => {
                    &&& old(self)@.dom().contains(key@)
                    &&& old(self)@[key@] == (*v)@
                    &&& final(self)@ == old(self)@.insert(key@, (*final(v))@)
                },
                None => !old(self)@.dom().contains(key@) && *final(self) == *old(self),
            },
    {
        match self.position(key) {
            Some(i) => {
                let ghost before = self.entries@;
                proof {
                    lemma_entry(before, i as int);
                    assert forall|v: V| #[trigger]
                        map_of(before.update(i as int, (before[i as int].0, v))) == map_of(
                            before,
                        ).insert(key@, v@) && distinct(
                            before.update(i as int, (before[i as int].0, v)),
                        ) by {
                        let after = before.update(i as int, (before[i as int].0, v));
                        assert(distinct(after));
                        lemma_entry(after, i as int);
                        assert forall|k: Seq<char>| has_key(after, k) == has_key(before, k) by {
                            if has_key(after, k) {
                                let p = position_of(after, k);
                                assert(before[p].0@ == k);
                            }
                            if has_key(before, k) {
                                let p = position_of(before, k);
                                assert(after[p].0@ == k);
                            }
                        }
                        assert forall|k: Seq<char>| has_key(before, k) && k != key@ implies
                            map_of(after)[k] == map_of(before)[k] by {
                            let p = position_of(before, k);
                            lemma_entry(before, p);
                            lemma_entry(after, p);
                        }
                        assert(map_of(after) =~= map_of(before).insert(key@, v@));
                    }
                }
                let entry = &mut self.entries[i];
                let v = &mut entry.1;
                assert(map_of(before.update(i as int, (before[i as int].0, *final(v)))) == map_of(
                    before,
                ).insert(key@, (*final(v))@));
                Some(v)
            },
            None => None,
        }
    }

    /// Store `value` under `key`, in place of what was stored there.
    pub fn insert(&mut self, key: String, value: V)
        requires
            old(self).wf(),
        ensures
            final(self).wf(),
            final(self)@ == old(self)@.insert(key@, value@),
            old(self)@.dom().contains(key@) ==> final(self).keys() == old(self).keys(),
            !old(self)@.dom().contains(key@) ==> final(self).keys() == old(self).keys().push(key@),
            forall|property: spec_fn(V) -> bool|
                old(self).all_values(property) && property(value) ==> #[trigger] final(self).all_values(property),
    {
        let ghost before = self.entries@;
        match self.position(key.as_str()) {
            Some(i) => {
                proof {
                    lemma_entry(before, i as int);
                }
                self.entries[i].1 = value;
                proof {
                    let after = self.entries@;
                    assert(distinct(after));
                    lemma_entry(after, i as int);
                    assert forall|k: Seq<char>| has_key(after, k) == has_key(before, k) by {
                        if has_key(after, k) {
                            let p = position_of(after, k);
                            assert(before[p].0@ == k);
                        }
                        if has_key(before, k) {
                            let p = position_of(before, k);
                            assert(after[p].0@ == k);
                        }
                    }
                    assert forall|k: Seq<char>| has_key(before, k) && k != key@ implies map_of(
                        after,
                    )[k] == map_of(before)[k] by {
                        let p = position_of(before, k);
                        lemma_entry(before, p);
                        lemma_entry(after, p);
                    }
                    assert(map_of(after) =~= map_of(before).insert(key@, value@));
                }
            },
            None => {
                self.entries.push((key, value));
                proof {
                    let after = self.entries@;
                    let last = before.len() as int;
                    assert(after[last] == (key, value));
                    assert(distinct(after)) by {
                        assert forall|i: int, j: int|
                            0 <= i < after.len() && 0 <= j < after.len() && (
                            #[trigger] after[i]).0@ == (#[trigger] after[j]).0@ implies i == j by {
                            if i < last {
                                assert(before[i] == after[i]);
                            }
                            if j < last {
                                assert(before[j] == after[j]);
                            }
                        }
                    }
                    lemma_entry(after, last);
                    assert forall|k: Seq<char>| has_key(after, k) == (has_key(before, k) || k
                        == key@) by {
                        if has_key(after, k) && k != key@ {
                            let p = position_of(after, k);
                            assert(before[p].0@ == k);
                        }
                        if has_key(before, k) {
                            let p = position_of(before, k);
                            assert(after[p].0@ == k);
                        }
                    }
                    assert forall|k: Seq<char>| has_key(before, k) && k != key@ implies map_of(
                        after,
                    )[k] == map_of(before)[k] by {
                        let p = position_of(before, k);
                        lemma_entry(before, p);
                        assert(after[p] == before[p]);
                        lemma_entry(after, p);
                    }
                    assert(map_of(after) =~= map_of(before).insert(key@, value@));
                    assert(self.keys() =~= old(self).keys().push(key@));
                }
            },
        }
    }

    /// Take out the value stored under `key`.
    pub fn remove(&mut self, key: &str) -> (r: Option<V>)
        requires
            old(self).wf(),
        ensures
            final(self).wf(),
            final(self)@ == old(self)@.remove(key@),
            match r {
                Some(v) => {
                    &&& old(self)@.dom().contains(key@)
                    &&& old(self)@[key@] == v@
                    &&& forall|property: spec_fn(V) -> bool| #[trigger]
                        old(self).all_values(property) ==> property(v)
                },
                None => !old(self)@.dom().contains(key@),
            },
            forall|property: spec_fn(V) -> bool|
                old(self).all_values(property) ==> #[trigger] final(self).all_values(property),
    {
        let ghost before = self.entries@;
        match self.position(key) {
            Some(i) => {
                proof {
                    lemma_entry(before, i as int);
                }
                let (_, value) = self.entries.remove(i);
                proof {
                    let after = self.entries@;
                    let at = i as int;
                    assert(after =~= before.remove(at));
                    assert(distinct(after)) by {
                        assert forall|x: int, y: int|
                            0 <= x < after.len() && 0 <= y < after.len() && (
                            #[trigger] after[x]).0@ == (#[trigger] after[y]).0@ implies x == y by {
                            let bx = if x < at { x } else { x + 1 };
                            let by = if y < at { y } else { y + 1 };
                            assert(before[bx] == after[x]);
                            assert(before[by] == after[y]);
                        }
                    }
                    assert forall|k: Seq<char>| has_key(after, k) == (has_key(before, k) && k
                        != key@) by {
                        if has_key(after, k) {
                            let p = position_of(after, k);
                            let bp = if p < at { p } else { p + 1 };
                            assert(before[bp].0@ == k);
                            assert(before[at].0@ == key@);
                        }
                        if has_key(before, k) && k != key@ {
                            let p = position_of(before, k);
                            let ap = if p < at { p } else { p - 1 };
                            assert(after[ap].0@ == k);
                        }
                    }
                    assert forall|k: Seq<char>| has_key(before, k) && k != key@ implies map_of(
                        after,
                    )[k] == map_of(before)[k] by {
                        let p = position_of(before, k);
                        let ap = if p < at { p } else { p - 1 };
                        lemma_entry(before, p);
                        assert(after[ap] == before[p]);
                        lemma_entry(after, ap);
                    }
                    assert(map_of(after) =~= map_of(before).remove(key@));
                }
                Some(value)
            },
            None => {
                assert(map_of(before) =~= map_of(before).remove(key@));
                None
            },
        }
    }
}

} // verus!
