//! A map keyed by text, kept in the order in which its keys first came.

use crate::text;
use vstd::prelude::*;
use vstd::string::*;

verus! {

/// A map from texts to values. Its entries have distinct keys.
pub struct TextMap<V> {
    entries: Vec<(String, V)>,
}

impl<V> View for TextMap<V> {
    type V = Map<Seq<char>, V>;

    closed spec fn view(&self) -> Map<Seq<char>, V> {
        Map::new(
            |k: Seq<char>| exists|i: int| 0 <= i < self.entries@.len() && #[trigger] self.key(i) == k,
            |k: Seq<char>| self.value(choose|i: int|
                0 <= i < self.entries@.len() && #[trigger] self.key(i) == k),
        )
    }
}

impl<V> TextMap<V> {
    /// How many entries there are.
    pub closed spec fn count(&self) -> nat {
        self.entries@.len()
    }

    /// The key of entry `i`.
    pub closed spec fn key(&self, i: int) -> Seq<char> {
        self.entries@[i].0@
    }

    /// The value of entry `i`.
    pub closed spec fn value(&self, i: int) -> V {
        self.entries@[i].1
    }

    /// No key occurs twice.
    pub closed spec fn wf(&self) -> bool {
        forall|i: int, j: int|
            0 <= i < j < self.entries@.len() ==> #[trigger] self.key(i) != #[trigger] self.key(j)
    }

    /// The entries are the map: each is in it, once, and nothing else is.
    pub proof fn lemma_entries(&self)
        requires
            self.wf(),
        ensures
            forall|i: int, j: int|
                0 <= i < j < self.count() ==> #[trigger] self.key(i) != #[trigger] self.key(j),
            forall|i: int|
                0 <= i < self.count() ==> self@.contains_key(#[trigger] self.key(i))
                    && self@[self.key(i)] == self.value(i),
            forall|k: Seq<char>| #[trigger]
                self@.contains_key(k) ==> exists|i: int|
                    0 <= i < self.count() && #[trigger] self.key(i) == k,
    {
        assert forall|i: int| 0 <= i < self.count() implies self@.contains_key(
            #[trigger] self.key(i),
        ) && self@[self.key(i)] == self.value(i) by {
            let k = self.key(i);
            let j = choose|j: int| 0 <= j < self.entries@.len() && #[trigger] self.key(j) == k;
            assert(0 <= j < self.entries@.len() && self.key(j) == k);
            if i < j {
                assert(self.key(i) != self.key(j));
            } else if j < i {
                assert(self.key(j) != self.key(i));
            }
        }
    }

    /// Putting another value at entry `i` changes the map at that key alone.
    proof fn lemma_update(a: TextMap<V>, b: TextMap<V>, i: int)
        requires
            a.wf(),
            0 <= i < a.count(),
            b.count() == a.count(),
            forall|j: int| 0 <= j < a.count() ==> #[trigger] b.key(j) == a.key(j),
            forall|j: int| 0 <= j < a.count() && j != i ==> #[trigger] b.value(j) == a.value(j),
        ensures
            b.wf(),
            b@ == a@.insert(a.key(i), b.value(i)),
    {
        assert forall|j: int, k: int| 0 <= j < k < b.entries@.len() implies #[trigger] b.key(j)
            != #[trigger] b.key(k) by {
            assert(a.key(j) != a.key(k));
        }
        a.lemma_entries();
        b.lemma_entries();
        let want = a@.insert(a.key(i), b.value(i));
        assert forall|k: Seq<char>| #[trigger] b@.contains_key(k) == want.contains_key(k) by {
            if b@.contains_key(k) {
                let j = choose|j: int| 0 <= j < b.count() && #[trigger] b.key(j) == k;
                assert(a@.contains_key(a.key(j)));
            }
            if want.contains_key(k) && k != a.key(i) {
                let j = choose|j: int| 0 <= j < a.count() && #[trigger] a.key(j) == k;
                assert(b@.contains_key(b.key(j)));
            }
            assert(b@.contains_key(b.key(i)));
        }
        assert forall|k: Seq<char>| b@.contains_key(k) implies #[trigger] b@[k] == want[k] by {
            let j = choose|j: int| 0 <= j < b.count() && #[trigger] b.key(j) == k;
            assert(b@[b.key(j)] == b.value(j));
            assert(a@[a.key(j)] == a.value(j));
            if j != i {
                if j < i {
                    assert(a.key(j) != a.key(i));
                } else {
                    assert(a.key(i) != a.key(j));
                }
            }
        }
        assert(b@ =~= want);
    }

    pub fn new() -> (m: TextMap<V>)
        ensures
            m.wf(),
            m.count() == 0,
            m@ == Map::<Seq<char>, V>::empty(),
    {
        let m = TextMap { entries: Vec::new() };
        proof {
            assert(m@ =~= Map::<Seq<char>, V>::empty());
        }
        m
    }

    pub fn len(&self) -> (n: usize)
        requires
            self.wf(),
        ensures
            n == self.count(),
            n == self@.dom().len(),
            self@.dom().finite(),
    {
        proof {
            let keys = Seq::new(self.count(), |i: int| self.key(i));
            assert forall|i: int, j: int|
                0 <= i < keys.len() && 0 <= j < keys.len() && i != j implies keys[i] != keys[j] by {
                if i < j {
                    assert(self.key(i) != self.key(j));
                } else {
                    assert(self.key(j) != self.key(i));
                }
            }
            keys.unique_seq_to_set();
            self.lemma_entries();
            assert forall|k: Seq<char>| #[trigger] keys.to_set().contains(k) == self@.dom().contains(
                k,
            ) by {
                if self@.contains_key(k) {
                    let j = choose|j: int| 0 <= j < self.count() && #[trigger] self.key(j) == k;
                    assert(keys[j] == k);
                }
                if keys.contains(k) {
                    let j = choose|j: int| 0 <= j < keys.len() && keys[j] == k;
                    assert(self@.contains_key(self.key(j)));
                }
            }
            assert(keys.to_set() =~= self@.dom());
        }
        self.entries.len()
    }

    pub fn key_at(&self, i: usize) -> (r: &String)
        requires
            i < self.count(),
        ensures
            r@ == self.key(i as int),
    {
        &self.entries[i].0
    }

    pub fn value_at(&self, i: usize) -> (r: &V)
        requires
            i < self.count(),
        ensures
            *r == self.value(i as int),
    {
        &self.entries[i].1
    }

    fn find(&self, key: &str) -> (r: Option<usize>)
        requires
            self.wf(),
        ensures
            match r {
                Some(i) => i < self.count() && self.key(i as int) == key@ && self@.contains_key(
                    key@,
                ) && self@[key@] == self.value(i as int),
                None => !self@.contains_key(key@),
            },
    {
        let mut i: usize = 0;
        while i < self.entries.len()
            invariant
                i <= self.entries.len(),
                self.wf(),
                forall|k: int| 0 <= k < i ==> #[trigger] self.key(k) != key@,
            decreases self.entries.len() - i,
        {
            if text::same(self.entries[i].0.as_str(), key) {
                proof {
                    self.lemma_entries();
                    assert(self.key(i as int) == key@);
                }
                return Some(i);
            }
            i = i + 1;
        }
        None
    }

    pub fn get(&self, key: &str) -> (r: Option<&V>)
        requires
            self.wf(),
        ensures
            match r {
                Some(v) => self@.contains_key(key@) && self@[key@] == *v,
                None => !self@.contains_key(key@),
            },
    {
        match self.find(key) {
            Some(i) => Some(&self.entries[i].1),
            None => None,
        }
    }

    pub fn get_mut(&mut self, key: &str) -> (r: Option<&mut V>)
        requires
            old(self).wf(),
        ensures
            final(self).wf(),
            match r {
                Some(v) => old(self)@.contains_key(key@) && *v == old(self)@[key@] && final(self)@
                    == old(self)@.insert(key@, *final(v)),
                None => !old(self)@.contains_key(key@) && *final(self) == *old(self),
            },
    {
        match self.find(key) {
            Some(i) => {
                proof {
                    let a = *self;
                    assert forall|b: TextMap<V>|
                        b.entries@ == a.entries@.update(
                            i as int,
                            (a.entries@[i as int].0, b.entries@[i as int].1),
                        ) implies #[trigger] b.wf() && b@ == a@.insert(
                        key@,
                        b.entries@[i as int].1,
                    ) by {
                        Self::lemma_update(a, b, i as int);
                    }
                }
                let e = &mut self.entries[i];
                let v = &mut e.1;
                Some(v)
            },
            None => None,
        }
    }

    /// Puts a value at a key, in place of the one there was.
    pub fn insert(&mut self, key: String, value: V)
        requires
            old(self).wf(),
        ensures
            final(self).wf(),
            final(self)@ == old(self)@.insert(key@, value),
    {
        match self.find(key.as_str()) {
            Some(i) => {
                let ghost before = *self;
                self.entries.set(i, (key, value));
                proof {
                    Self::lemma_update(before, *self, i as int);
                }
            },
            None => {
                let ghost before = *self;
                self.entries.push((key, value));
                proof {
                    assert(self.entries@.drop_last() =~= before.entries@);
                    Self::lemma_push(before, *self);
                }
            },
        }
    }

    /// A new last entry with a new key adds that key.
    proof fn lemma_push(a: TextMap<V>, b: TextMap<V>)
        requires
            a.wf(),
            b.count() == a.count() + 1,
            b.entries@.drop_last() == a.entries@,
            !a@.contains_key(b.entries@.last().0@),
        ensures
            b.wf(),
            b@ == a@.insert(b.entries@.last().0@, b.entries@.last().1),
    {
        let n = a.count() as int;
        a.lemma_entries();
        assert forall|j: int| 0 <= j < n implies #[trigger] b.key(j) == a.key(j) && b.value(j)
            == a.value(j) by {
            assert(b.entries@.drop_last()[j] == a.entries@[j]);
        }
        assert forall|j: int, k: int| 0 <= j < k < b.entries@.len() implies #[trigger] b.key(j)
            != #[trigger] b.key(k) by {
            assert(b.key(j) == a.key(j));
            if k < n {
                assert(a.key(j) != a.key(k));
            } else {
                assert(a@.contains_key(a.key(j)));
            }
        }
        b.lemma_entries();
        let want = a@.insert(b.key(n), b.value(n));
        assert forall|k: Seq<char>| #[trigger] b@.contains_key(k) == want.contains_key(k) by {
            if b@.contains_key(k) {
                let j = choose|j: int| 0 <= j < b.count() && #[trigger] b.key(j) == k;
                if j < n {
                    assert(a@.contains_key(a.key(j)));
                }
            }
            if want.contains_key(k) && k != b.key(n) {
                let j = choose|j: int| 0 <= j < a.count() && #[trigger] a.key(j) == k;
                assert(b@.contains_key(b.key(j)));
            }
            assert(b@.contains_key(b.key(n)));
        }
        assert forall|k: Seq<char>| b@.contains_key(k) implies #[trigger] b@[k] == want[k] by {
            let j = choose|j: int| 0 <= j < b.count() && #[trigger] b.key(j) == k;
            assert(b@[b.key(j)] == b.value(j));
            if j < n {
                assert(a@[a.key(j)] == a.value(j));
                assert(a@.contains_key(a.key(j)));
            }
        }
        assert(b@ =~= want);
    }

    /// Takes a key and its value out.
    pub fn remove(&mut self, key: &str) -> (r: Option<V>)
        requires
            old(self).wf(),
        ensures
            final(self).wf(),
            final(self)@ == old(self)@.remove(key@),
            match r {
                Some(v) => old(self)@.contains_key(key@) && v == old(self)@[key@],
                None => !old(self)@.contains_key(key@),
            },
    {
        match self.find(key) {
            Some(i) => {
                let ghost before = *self;
                let taken = self.entries.remove(i);
                proof {
                    Self::lemma_removed(before, *self, i as int);
                }
                Some(taken.1)
            },
            None => {
                proof {
                    assert(self@.remove(key@) =~= self@);
                }
                None
            },
        }
    }

    /// Taking entry `i` out removes its key.
    proof fn lemma_removed(a: TextMap<V>, b: TextMap<V>, i: int)
        requires
            a.wf(),
            0 <= i < a.count(),
            b.entries@ == a.entries@.remove(i),
        ensures
            b.wf(),
            b@ == a@.remove(a.key(i)),
    {
        let n = b.count() as int;
        a.lemma_entries();
        assert forall|j: int| 0 <= j < n implies #[trigger] b.key(j) == a.key(
            if j < i {
                j
            } else {
                j + 1
            },
        ) && b.value(j) == a.value(
            if j < i {
                j
            } else {
                j + 1
            },
        ) by {}
        assert forall|j: int, k: int| 0 <= j < k < b.entries@.len() implies #[trigger] b.key(j)
            != #[trigger] b.key(k) by {
            let j2 = if j < i { j } else { j + 1 };
            let k2 = if k < i { k } else { k + 1 };
            assert(a.key(j2) != a.key(k2));
        }
        b.lemma_entries();
        let want = a@.remove(a.key(i));
        assert forall|k: Seq<char>| #[trigger] b@.contains_key(k) == want.contains_key(k) by {
            if b@.contains_key(k) {
                let j = choose|j: int| 0 <= j < b.count() && #[trigger] b.key(j) == k;
                let j2 = if j < i { j } else { j + 1 };
                assert(a@.contains_key(a.key(j2)));
                if j2 < i {
                    assert(a.key(j2) != a.key(i));
                } else {
                    assert(a.key(i) != a.key(j2));
                }
            }
            if want.contains_key(k) {
                let j = choose|j: int| 0 <= j < a.count() && #[trigger] a.key(j) == k;
                let j2 = if j < i { j } else { j - 1 };
                assert(b.key(j2) == a.key(j));
                assert(b@.contains_key(b.key(j2)));
            }
        }
        assert forall|k: Seq<char>| b@.contains_key(k) implies #[trigger] b@[k] == want[k] by {
            let j = choose|j: int| 0 <= j < b.count() && #[trigger] b.key(j) == k;
            assert(b@[b.key(j)] == b.value(j));
            let j2 = if j < i { j } else { j + 1 };
            assert(a@[a.key(j2)] == a.value(j2));
        }
        assert(b@ =~= want);
    }
}

} // verus!
