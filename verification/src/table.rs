//! Ordered tables keyed by text.

use crate::text;
use crate::text::precedes;
use vstd::prelude::*;

verus! {

/// A table from text to `V`, walked in the order of its keys. No key occurs twice.
#[derive(Debug, PartialEq, Eq)]
pub struct StrMap<V> {
    entries: Vec<(String, V)>,
}

/// The keys ascend strictly.
pub open spec fn ascending(keys: Seq<Seq<char>>) -> bool {
    forall|i: int, j: int|
        0 <= i < j < keys.len() ==> precedes(#[trigger] keys[i], #[trigger] keys[j])
}

impl<V> StrMap<V> {
    #[verifier::type_invariant]
    spec fn inv(self) -> bool {
        ascending(self.keys())
    }

    /// The keys, in ascending order.
    pub closed spec fn keys(self) -> Seq<Seq<char>> {
        Seq::new(self.entries@.len(), |i: int| self.entries@[i].0@)
    }

    /// The values, each at its key's position.
    pub closed spec fn values(self) -> Seq<V> {
        Seq::new(self.entries@.len(), |i: int| self.entries@[i].1)
    }

    /// What holds of every table: the keys ascend, and the contents are the values at the keys.
    pub open spec fn laid_out(self) -> bool {
        &&& ascending(self.keys())
        &&& self.keys().len() == self.values().len()
        &&& forall|i: int|
            0 <= i < self.keys().len() ==> self@.contains_key(#[trigger] self.keys()[i])
                && self@[self.keys()[i]] == self.values()[i]
        &&& forall|k: Seq<char>| #[trigger]
            self@.contains_key(k) ==> exists|i: int| 0 <= i < self.keys().len() && #[trigger] self.keys()[i] == k
    }

    proof fn lemma_layout(self)
        requires
            self.inv(),
        ensures
            self.laid_out(),
    {
        assert forall|i: int| 0 <= i < self.keys().len() implies self@.contains_key(
            #[trigger] self.keys()[i],
        ) && self@[self.keys()[i]] == self.values()[i] by {
            let k = self.keys()[i];
            let j = choose|j: int| 0 <= j < self.keys().len() && #[trigger] self.keys()[j] == k;
            text::order_is_strict(k, k);
            assert(!(i < j) && !(j < i)) by {
                if i < j {
                    assert(precedes(self.keys()[i], self.keys()[j]));
                }
                if j < i {
                    assert(precedes(self.keys()[j], self.keys()[i]));
                }
            }
            assert(self@.contains_key(k));
            assert(self@[k] == self.values()[j]);
        }
    }

    /// The empty table.
    pub fn new() -> (r: Self)
        ensures
            r@ == Map::<Seq<char>, V>::empty(),
            r.keys() == Seq::<Seq<char>>::empty(),
            r.laid_out(),
    {
        let r = StrMap { entries: Vec::new() };
        assert(r@ == Map::<Seq<char>, V>::empty());
        proof {
            r.lemma_layout();
        }
        r
    }

    /// Every table is laid out by its keys.
    pub fn layout(&self)
        ensures
            self.laid_out(),
    {
        proof {
            use_type_invariant(self);
            self.lemma_layout();
        }
    }

    /// The number of entries.
    pub fn len(&self) -> (r: usize)
        ensures
            r == self.keys().len(),
            self.laid_out(),
    {
        self.layout();
        self.entries.len()
    }

    /// The key at a position.
    pub fn key_at(&self, i: usize) -> (r: &String)
        requires
            i < self.keys().len(),
        ensures
            r@ == self.keys()[i as int],
    {
        &self.entries[i].0
    }

    /// The value at a position.
    pub fn value_at(&self, i: usize) -> (r: &V)
        requires
            i < self.keys().len(),
        ensures
            *r == self.values()[i as int],
    {
        &self.entries[i].1
    }

    /// The first position whose key does not come before `key`.
    fn place(&self, key: &str) -> (r: usize)
        ensures
            r <= self.keys().len(),
            forall|i: int| 0 <= i < r ==> precedes(#[trigger] self.keys()[i], key@),
            r < self.keys().len() ==> !precedes(self.keys()[r as int], key@),
    {
        let mut i: usize = 0;
        while i < self.entries.len()
            invariant
                i <= self.keys().len(),
                self.keys().len() == self.entries.len(),
                forall|j: int| 0 <= j < i ==> precedes(#[trigger] self.keys()[j], key@),
            decreases self.entries.len() - i,
        {
            assert(self.keys()[i as int] == self.entries@[i as int].0@);
            if !text::before(self.entries[i].0.as_str(), key) {
                return i;
            }
            i = i + 1;
        }
        i
    }

    /// The position of `key`, if the table holds it.
    pub fn find(&self, key: &str) -> (r: Option<usize>)
        ensures
            self.laid_out(),
            r is Some <==> self@.contains_key(key@),
            r matches Some(i) ==> i < self.keys().len() && self.keys()[i as int] == key@,
    {
        self.layout();
        let p: usize = self.place(key);
        let here: bool = p < self.entries.len() && text::same(self.entries[p].0.as_str(), key);
        proof {
            if p < self.entries.len() {
                assert(self.keys()[p as int] == self.entries@[p as int].0@);
            }
            if self@.contains_key(key@) {
                let i = choose|i: int| 0 <= i < self.keys().len() && #[trigger] self.keys()[i] == key@;
                text::order_is_strict(key@, key@);
                assert(i >= p);
                if i > p {
                    assert(precedes(self.keys()[p as int], self.keys()[i]));
                }
            }
        }
        if here {
            Some(p)
        } else {
            None
        }
    }

    /// The value at `key`.
    pub fn get(&self, key: &str) -> (r: Option<&V>)
        ensures
            r == if self@.contains_key(key@) {
                Some(&self@[key@])
            } else {
                None
            },
    {
        match self.find(key) {
            Some(i) => Some(self.value_at(i)),
            None => None,
        }
    }

    /// Whether the table holds `key`.
    pub fn contains_key(&self, key: &str) -> (r: bool)
        ensures
            r == self@.contains_key(key@),
    {
        self.find(key).is_some()
    }

    /// Puts `value` at `key`, in place of what was there.
    pub fn insert(&mut self, key: String, value: V)
        ensures
            final(self)@ == old(self)@.insert(key@, value),
    {
        self.layout();
        let found: Option<usize> = self.find(key.as_str());
        let p: usize = match found {
            Some(i) => i,
            None => self.place(key.as_str()),
        };
        let ghost before = *self;
        let mut entries: Vec<(String, V)> = Vec::new();
        std::mem::swap(&mut entries, &mut self.entries);
        let ghost k = key@;
        if found.is_some() {
            entries.set(p, (key, value));
        } else {
            entries.insert(p, (key, value));
        }
        proof {
            let after = StrMap { entries };
            let ks = after.keys();
            let shift: int = if found is Some { 0 } else { 1 };
            assert(ks.len() == before.keys().len() + shift);
            assert(forall|i: int| 0 <= i < p ==> ks[i] == before.keys()[i]);
            assert(forall|i: int|
                p < i < ks.len() ==> #[trigger] ks[i] == before.keys()[i - shift]);
            assert(ks[p as int] == k);
            assert forall|i: int, j: int| 0 <= i < j < ks.len() implies precedes(
                #[trigger] ks[i],
                #[trigger] ks[j],
            ) by {
                if found is None {
                    if i == p {
                        let q = before.keys()[p as int];
                        text::order_is_total(q, k);
                        assert(precedes(k, q));
                        if j - 1 > p {
                            text::order_is_transitive(k, q, before.keys()[j - 1]);
                        }
                    } else if j < p {
                        assert(precedes(before.keys()[i], before.keys()[j]));
                    } else if j > p && i < p {
                        assert(precedes(before.keys()[i], before.keys()[j - 1]));
                    } else if i > p {
                        assert(precedes(before.keys()[i - 1], before.keys()[j - 1]));
                    }
                } else {
                    assert(ks =~= before.keys());
                }
            }
            assert(after.inv());
            after.lemma_layout();
            before.lemma_layout();
            assert forall|x: Seq<char>| after@.contains_key(x) == before@.insert(
                k,
                value,
            ).contains_key(x) by {
                if after@.contains_key(x) {
                    let i = choose|i: int| 0 <= i < ks.len() && #[trigger] ks[i] == x;
                    if i < p {
                        assert(before.keys()[i] == x);
                    } else if i > p {
                        assert(before.keys()[i - shift] == x);
                    }
                }
                if before@.contains_key(x) {
                    let i = choose|i: int| 0 <= i < before.keys().len() && #[trigger] before.keys()[i] == x;
                    if i < p {
                        assert(ks[i] == x);
                    } else {
                        assert(ks[i + shift] == before.keys()[i] || (found is Some && i == p));
                    }
                }
            }
            assert forall|x: Seq<char>| after@.contains_key(x) implies after@[x] == before@.insert(
                k,
                value,
            )[x] by {
                let i = choose|i: int| 0 <= i < ks.len() && #[trigger] ks[i] == x;
                assert(after@[ks[i]] == after.values()[i]);
                if i == p {
                } else {
                    let j = if i < p { i } else { i - shift };
                    assert(before.keys()[j] == x);
                    assert(before.values()[j] == after.values()[i]);
                    if x == k {
                        assert(ks[p as int] == k);
                        text::order_is_strict(k, k);
                    }
                }
            }
            assert(after@ == before@.insert(k, value));
        }
        self.entries = entries;
    }

    /// Takes the value at `key` out.
    pub fn remove(&mut self, key: &str) -> (r: Option<V>)
        ensures
            final(self)@ == old(self)@.remove(key@),
            r == if old(self)@.contains_key(key@) {
                Some(old(self)@[key@])
            } else {
                None
            },
    {
        self.layout();
        match self.find(key) {
            None => {
                assert(self@ == self@.remove(key@));
                None
            },
            Some(p) => {
                let ghost before = *self;
                let mut entries: Vec<(String, V)> = Vec::new();
                std::mem::swap(&mut entries, &mut self.entries);
                let taken: (String, V) = entries.remove(p);
                proof {
                    let after = StrMap { entries };
                    let ks = after.keys();
                    assert(taken.1 == before.values()[p as int]);
                    assert(forall|i: int| 0 <= i < p ==> ks[i] == before.keys()[i]);
                    assert(forall|i: int| p <= i < ks.len() ==> #[trigger] ks[i] == before.keys()[i + 1]);
                    assert forall|i: int, j: int| 0 <= i < j < ks.len() implies precedes(
                        #[trigger] ks[i],
                        #[trigger] ks[j],
                    ) by {
                        let a = if i < p { i } else { i + 1 };
                        let b = if j < p { j } else { j + 1 };
                        assert(precedes(before.keys()[a], before.keys()[b]));
                    }
                    assert(after.inv());
                    after.lemma_layout();
                    before.lemma_layout();
                    text::order_is_strict(key@, key@);
                    assert forall|x: Seq<char>| after@.contains_key(x) == before@.remove(
                        key@,
                    ).contains_key(x) by {
                        if after@.contains_key(x) {
                            let i = choose|i: int| 0 <= i < ks.len() && #[trigger] ks[i] == x;
                            let a = if i < p { i } else { i + 1 };
                            assert(before.keys()[a] == x);
                        }
                        if before@.contains_key(x) && x != key@ {
                            let i = choose|i: int| 0 <= i < before.keys().len() && #[trigger] before.keys()[i] == x;
                            let a = if i < p { i } else { i - 1 };
                            assert(ks[a] == x);
                        }
                    }
                    assert forall|x: Seq<char>| after@.contains_key(x) implies after@[x] == before@[x] by {
                        let i = choose|i: int| 0 <= i < ks.len() && #[trigger] ks[i] == x;
                        let a = if i < p { i } else { i + 1 };
                        assert(before.keys()[a] == x);
                        assert(after@[ks[i]] == after.values()[i]);
                        assert(before@[before.keys()[a]] == before.values()[a]);
                    }
                    assert(after@ == before@.remove(key@));
                }
                self.entries = entries;
                Some(taken.1)
            },
        }
    }
}

impl<V> View for StrMap<V> {
    type V = Map<Seq<char>, V>;

    closed spec fn view(&self) -> Map<Seq<char>, V> {
        Map::new(
            |k: Seq<char>| exists|i: int| 0 <= i < self.keys().len() && #[trigger] self.keys()[i] == k,
            |k: Seq<char>|
                self.values()[choose|i: int| 0 <= i < self.keys().len() && #[trigger] self.keys()[i] == k],
        )
    }
}

} // verus!
