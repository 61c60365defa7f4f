//! An ordered map from paths to values, kept as a sorted list.
use crate::text::{
    before, lemma_precedes_irreflexive, lemma_precedes_total, lemma_precedes_transitive, precedes,
    same,
};
use vstd::prelude::*;

verus! {

/// A map keyed by text. Its entries stand in the order of their keys.
#[derive(Debug, PartialEq, Eq)]
pub struct PathMap<V> {
    entries: Vec<(String, V)>,
}

/// The map that a list of entries makes.
pub open spec fn map_of<V>(entries: Seq<(String, V)>) -> Map<Seq<char>, V>
    decreases entries.len(),
{
    if entries.len() == 0 {
        Map::empty()
    } else {
        map_of(entries.drop_last()).insert(entries.last().0@, entries.last().1)
    }
}

/// Whether a list of texts is strictly ascending.
pub open spec fn ascending(keys: Seq<Seq<char>>) -> bool {
    forall|i: int, j: int| 0 <= i < j < keys.len() ==> #[trigger] precedes(keys[i], keys[j])
}

/// The keys of a list of entries.
pub open spec fn keys_of<V>(entries: Seq<(String, V)>) -> Seq<Seq<char>> {
    entries.map_values(|e: (String, V)| e.0@)
}

impl<V> View for PathMap<V> {
    type V = Map<Seq<char>, V>;

    closed spec fn view(&self) -> Map<Seq<char>, V> {
        map_of(self.entries@)
    }
}

proof fn lemma_map_of<V>(entries: Seq<(String, V)>, key: Seq<char>)
    requires
        ascending(keys_of(entries)),
    ensures
        map_of(entries).dom().finite(),
        map_of(entries).dom().len() == entries.len(),
        map_of(entries).contains_key(key) <==> keys_of(entries).contains(key),
        forall|i: int|
            0 <= i < entries.len() && #[trigger] keys_of(entries)[i] == key ==> map_of(entries)[key]
                == entries[i].1,
    decreases entries.len(),
{
    if entries.len() > 0 {
        let front = entries.drop_last();
        let n = entries.len() - 1;
        assert(keys_of(front) =~= keys_of(entries).drop_last());
        assert forall|i: int, j: int| 0 <= i < j < front.len() implies #[trigger] precedes(
            keys_of(front)[i],
            keys_of(front)[j],
        ) by {
            assert(precedes(keys_of(entries)[i], keys_of(entries)[j]));
        }
        lemma_map_of(front, key);
        assert(!map_of(front).contains_key(entries.last().0@)) by {
            lemma_map_of(front, entries.last().0@);
            if keys_of(front).contains(entries.last().0@) {
                let i = choose|i: int|
                    0 <= i < keys_of(front).len() && keys_of(front)[i] == entries.last().0@;
                assert(precedes(keys_of(entries)[i], keys_of(entries)[n]));
                lemma_precedes_irreflexive(entries.last().0@);
            }
        }
        assert forall|i: int|
            0 <= i < entries.len() && #[trigger] keys_of(entries)[i] == key implies map_of(
            entries,
        )[key] == entries[i].1 by {
            if i < n {
                assert(keys_of(front)[i] == key);
                assert(precedes(keys_of(entries)[i], keys_of(entries)[n]));
                lemma_precedes_irreflexive(key);
            }
        }
        assert(map_of(entries).contains_key(key) <==> keys_of(entries).contains(key)) by {
            if key == entries.last().0@ {
                assert(keys_of(entries)[n] == key);
            } else if keys_of(entries).contains(key) {
                let i = choose|i: int| 0 <= i < keys_of(entries).len() && keys_of(entries)[i] == key;
                assert(keys_of(front)[i] == key);
            } else if keys_of(front).contains(key) {
                let i = choose|i: int| 0 <= i < keys_of(front).len() && keys_of(front)[i] == key;
                assert(keys_of(entries)[i] == key);
            }
        }
    } else {
        assert(map_of(entries).dom() =~= Set::empty());
    }
}

impl<V> PathMap<V> {
    /// The keys, in ascending order.
    pub closed spec fn keys(self) -> Seq<Seq<char>> {
        keys_of(self.entries@)
    }

    /// The entries are in strictly ascending order of their keys.
    pub closed spec fn wf(self) -> bool {
        ascending(keys_of(self.entries@))
    }

    /// The keys are those of the map, each once, in ascending order.
    pub proof fn lemma_keys(self)
        requires
            self.wf(),
        ensures
            ascending(self.keys()),
            self@.dom().finite(),
            self@.dom().len() == self.keys().len(),
            forall|k: Seq<char>| #[trigger] self@.contains_key(k) <==> self.keys().contains(k),
            forall|i: int| 0 <= i < self.keys().len() ==> self@.contains_key(#[trigger] self.keys()[i]),
    {
        lemma_map_of(self.entries@, Seq::empty());
        assert forall|k: Seq<char>| #[trigger] self@.contains_key(k) <==> self.keys().contains(k) by {
            lemma_map_of(self.entries@, k);
        }
        assert forall|i: int| 0 <= i < self.keys().len() implies self@.contains_key(
            #[trigger] self.keys()[i],
        ) by {
            assert(self.keys().contains(self.keys()[i]));
        }
    }

    /// An empty map.
    pub fn new() -> (r: PathMap<V>)
        ensures
            r.wf(),
            r@ == Map::<Seq<char>, V>::empty(),
            r.keys() == Seq::<Seq<char>>::empty(),
    {
        let r = PathMap { entries: Vec::new() };
        assert(r.keys() =~= Seq::<Seq<char>>::empty());
        r
    }

    /// The number of keys.
    pub fn len(&self) -> (n: usize)
        ensures
            n == self.keys().len(),
    {
        self.entries.len()
    }

    /// Whether there is no key.
    pub fn is_empty(&self) -> (r: bool)
        ensures
            r == (self.keys().len() == 0),
    {
        self.entries.len() == 0
    }

    /// The key at a place in the order.
    pub fn key_at(&self, i: usize) -> (r: &str)
        requires
            i < self.keys().len(),
        ensures
            r@ == self.keys()[i as int],
    {
        self.entries[i].0.as_str()
    }

    /// The value of the key at a place in the order.
    pub fn value_at(&self, i: usize) -> (r: &V)
        requires
            self.wf(),
            i < self.keys().len(),
        ensures
            self@.contains_key(self.keys()[i as int]),
            *r == self@[self.keys()[i as int]],
    {
        proof {
            lemma_map_of(self.entries@, self.keys()[i as int]);
            self.lemma_keys();
        }
        &self.entries[i].1
    }

    /// The number of keys before `key`, and whether `key` is there itself.
    fn locate(&self, key: &str) -> (r: (usize, bool))
        requires
            self.wf(),
        ensures
            r.0 <= self.entries@.len(),
            forall|j: int| 0 <= j < r.0 ==> precedes(#[trigger] self.keys()[j], key@),
            r.1 ==> r.0 < self.entries@.len() && self.keys()[r.0 as int] == key@,
            !r.1 ==> forall|j: int|
                r.0 <= j < self.entries@.len() ==> precedes(key@, #[trigger] self.keys()[j]),
    {
        let mut low: usize = 0;
        let mut high: usize = self.entries.len();
        while low < high
            invariant
                low <= high <= self.entries@.len(),
                self.wf(),
                forall|j: int| 0 <= j < low ==> precedes(#[trigger] self.keys()[j], key@),
                forall|j: int|
                    high <= j < self.entries@.len() ==> precedes(key@, #[trigger] self.keys()[j]),
            decreases high - low,
        {
            let mid: usize = low + (high - low) / 2;
            let here = self.entries[mid].0.as_str();
            assert(self.keys()[mid as int] == here@);
            if same(here, key) {
                assert forall|j: int| 0 <= j < mid implies precedes(
                    #[trigger] self.keys()[j],
                    key@,
                ) by {}
                return (mid, true);
            }
            if before(here, key) {
                assert forall|j: int| 0 <= j < mid + 1 implies precedes(
                    #[trigger] self.keys()[j],
                    key@,
                ) by {
                    if j < mid {
                        lemma_precedes_transitive(
                            self.keys()[j],
                            self.keys()[mid as int],
                            key@,
                        );
                    }
                }
                low = mid + 1;
            } else {
                proof {
                    lemma_precedes_total(here@, key@);
                }
                assert forall|j: int| mid <= j < self.entries@.len() implies precedes(
                    key@,
                    #[trigger] self.keys()[j],
                ) by {
                    if j > mid {
                        lemma_precedes_transitive(
                            key@,
                            self.keys()[mid as int],
                            self.keys()[j],
                        );
                    }
                }
                high = mid;
            }
        }
        (low, false)
    }

    proof fn lemma_absent(self, at: int, key: Seq<char>)
        requires
            self.wf(),
            0 <= at <= self.entries@.len(),
            forall|j: int| 0 <= j < at ==> precedes(#[trigger] self.keys()[j], key),
            forall|j: int| at <= j < self.entries@.len() ==> precedes(key, #[trigger] self.keys()[j]),
        ensures
            !self@.contains_key(key),
    {
        lemma_map_of(self.entries@, key);
        lemma_precedes_irreflexive(key);
        if self.keys().contains(key) {
            let i = choose|i: int| 0 <= i < self.keys().len() && self.keys()[i] == key;
            assert(self.keys()[i] == key);
        }
    }

    /// The value of a key.
    pub fn get(&self, key: &str) -> (r: Option<&V>)
        requires
            self.wf(),
        ensures
            match r {
                Some(v) => self@.contains_key(key@) && *v == self@[key@],
                None => !self@.contains_key(key@),
            },
    {
        let (at, found) = self.locate(key);
        if found {
            proof {
                lemma_map_of(self.entries@, key@);
                assert(self.keys()[at as int] == key@);
            }
            Some(&self.entries[at].1)
        } else {
            proof {
                self.lemma_absent(at as int, key@);
            }
            None
        }
    }

    /// Whether a key is in the map.
    pub fn contains_key(&self, key: &str) -> (r: bool)
        requires
            self.wf(),
        ensures
            r == self@.contains_key(key@),
    {
        self.get(key).is_some()
    }

    /// Puts a value under a key, in place of the value it had.
    pub fn insert(&mut self, key: String, value: V)
        requires
            old(self).wf(),
        ensures
            final(self).wf(),
            final(self)@ == old(self)@.insert(key@, value),
    {
        let (at, found) = self.locate(key.as_str());
        let ghost old_self = *self;
        let ghost old_entries = self.entries@;
        let ghost old_map = self@;
        let ghost k = key@;
        if found {
            self.entries[at] = (key, value);
            proof {
                assert(keys_of(self.entries@) =~= keys_of(old_entries));
            }
        } else {
            self.entries.insert(at, (key, value));
            proof {
                let new = keys_of(self.entries@);
                let was = keys_of(old_entries);
                assert forall|i: int, j: int| 0 <= i < j < new.len() implies #[trigger] precedes(
                    new[i],
                    new[j],
                ) by {
                    let a = if i < at { i } else { i - 1 };
                    let b = if j < at { j } else { j - 1 };
                    if i != at {
                        assert(new[i] == was[a]);
                    }
                    if j != at {
                        assert(new[j] == was[b]);
                    }
                    if i != at && j != at {
                        assert(precedes(was[a], was[b]));
                    } else if i == at {
                        assert(precedes(k, old_self.keys()[b]));
                    } else {
                        assert(precedes(old_self.keys()[a], k));
                    }
                }
            }
        }
        proof {
            assert forall|x: Seq<char>|
                #![trigger self@.contains_key(x)]
                #![trigger self@[x]]
                self@.contains_key(x) == old_map.insert(k, value).contains_key(x) && (
                self@.contains_key(x) ==> self@[x] == old_map.insert(k, value)[x]) by {
                lemma_map_of(old_entries, x);
                lemma_map_of(self.entries@, x);
                let new = keys_of(self.entries@);
                let was = keys_of(old_entries);
                if x == k {
                    assert(new[at as int] == k);
                } else {
                    if was.contains(x) {
                        let i = choose|i: int| 0 <= i < was.len() && was[i] == x;
                        if found || i < at {
                            assert(new[i] == x);
                        } else {
                            assert(new[i + 1] == x);
                        }
                    }
                    if new.contains(x) {
                        let i = choose|i: int| 0 <= i < new.len() && new[i] == x;
                        assert(i != at);
                        if found || i < at {
                            assert(was[i] == x);
                        } else {
                            assert(was[i - 1] == x);
                        }
                    }
                }
            }
            assert(self@ =~= old_map.insert(k, value));
        }
    }

    /// Takes a key out of the map.
    pub fn remove(&mut self, key: &str) -> (removed: bool)
        requires
            old(self).wf(),
        ensures
            final(self).wf(),
            removed == old(self)@.contains_key(key@),
            final(self)@ == old(self)@.remove(key@),
    {
        let (at, found) = self.locate(key);
        let ghost old_entries = self.entries@;
        let ghost old_map = self@;
        if !found {
            proof {
                self.lemma_absent(at as int, key@);
                assert(old_map.remove(key@) =~= old_map);
            }
            return false;
        }
        let _ = self.entries.remove(at);
        proof {
            let new = keys_of(self.entries@);
            let was = keys_of(old_entries);
            assert(was[at as int] == key@);
            lemma_map_of(old_entries, key@);
            assert forall|i: int, j: int| 0 <= i < j < new.len() implies #[trigger] precedes(
                new[i],
                new[j],
            ) by {
                let a = if i < at { i } else { i + 1 };
                let b = if j < at { j } else { j + 1 };
                assert(new[i] == was[a]);
                assert(new[j] == was[b]);
                assert(precedes(was[a], was[b]));
            }
            assert forall|x: Seq<char>|
                #![trigger self@.contains_key(x)]
                #![trigger self@[x]]
                self@.contains_key(x) == old_map.remove(key@).contains_key(x) && (
                self@.contains_key(x) ==> self@[x] == old_map.remove(key@)[x]) by {
                lemma_map_of(old_entries, x);
                lemma_map_of(self.entries@, x);
                if new.contains(x) {
                    let i = choose|i: int| 0 <= i < new.len() && new[i] == x;
                    let a = if i < at { i } else { i + 1 };
                    assert(was[a] == x);
                    if x == key@ {
                        lemma_precedes_irreflexive(x);
                        if a < at {
                            assert(precedes(was[a], was[at as int]));
                        } else {
                            assert(precedes(was[at as int], was[a]));
                        }
                    }
                }
                if was.contains(x) && x != key@ {
                    let i = choose|i: int| 0 <= i < was.len() && was[i] == x;
                    if i < at {
                        assert(new[i] == x);
                    } else {
                        assert(new[i - 1] == x);
                    }
                }
            }
            assert(self@ =~= old_map.remove(key@));
        }
        true
    }

    /// Takes every key out of the map.
    pub fn clear(&mut self)
        ensures
            final(self).wf(),
            final(self)@ == Map::<Seq<char>, V>::empty(),
            final(self).keys() == Seq::<Seq<char>>::empty(),
    {
        self.entries.clear();
        assert(self.keys() =~= Seq::<Seq<char>>::empty());
    }
}

} // verus!
