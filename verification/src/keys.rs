//! The key under which identical requests are one, and tables by that key.

use crate::text;
use vstd::prelude::*;

verus! {

/// The same command of the same user in the same workspace.
#[derive(Debug, PartialEq, Eq)]
pub struct CoalesceKey {
    pub digest: String,
    pub uid: u32,
    pub workspace: String,
}

pub struct CoalesceKeyView {
    pub digest: Seq<char>,
    pub uid: u32,
    pub workspace: Seq<char>,
}

impl DeepView for CoalesceKey {
    type V = CoalesceKeyView;

    open spec fn deep_view(&self) -> CoalesceKeyView {
        CoalesceKeyView { digest: self.digest@, uid: self.uid, workspace: self.workspace@ }
    }
}

impl Clone for CoalesceKey {
    fn clone(&self) -> (r: CoalesceKey)
        ensures
            r.deep_view() == self.deep_view(),
    {
        CoalesceKey {
            digest: self.digest.clone(),
            uid: self.uid,
            workspace: self.workspace.clone(),
        }
    }
}

impl CoalesceKey {
    /// Whether two keys are the same.
    pub fn same(&self, other: &CoalesceKey) -> (r: bool)
        ensures
            r == (self.deep_view() == other.deep_view()),
    {
        self.uid == other.uid && text::same(self.digest.as_str(), other.digest.as_str())
            && text::same(self.workspace.as_str(), other.workspace.as_str())
    }
}

/// A table by key. No key occurs twice.
pub struct KeyTable<V> {
    entries: Vec<(CoalesceKey, V)>,
}

/// The keys are pairwise different.
spec fn distinct<V>(entries: Seq<(CoalesceKey, V)>) -> bool {
    forall|i: int, j: int|
        0 <= i < j < entries.len() ==> (#[trigger] entries[i]).0.deep_view() != (
        #[trigger] entries[j]).0.deep_view()
}

/// What a list of entries holds.
spec fn contents<V>(entries: Seq<(CoalesceKey, V)>) -> Map<CoalesceKeyView, V> {
    Map::new(
        |k: CoalesceKeyView|
            exists|i: int| 0 <= i < entries.len() && (#[trigger] entries[i]).0.deep_view() == k,
        |k: CoalesceKeyView|
            entries[choose|i: int|
                0 <= i < entries.len() && (#[trigger] entries[i]).0.deep_view() == k].1,
    )
}

proof fn lemma_contents<V>(entries: Seq<(CoalesceKey, V)>)
    requires
        distinct(entries),
    ensures
        forall|i: int|
            0 <= i < entries.len() ==> contents(entries).contains_key(
                (#[trigger] entries[i]).0.deep_view(),
            ) && contents(entries)[entries[i].0.deep_view()] == entries[i].1,
{
    assert forall|i: int| 0 <= i < entries.len() implies contents(entries).contains_key(
        (#[trigger] entries[i]).0.deep_view(),
    ) && contents(entries)[entries[i].0.deep_view()] == entries[i].1 by {
        let k = entries[i].0.deep_view();
        let j = choose|j: int| 0 <= j < entries.len() && (#[trigger] entries[j]).0.deep_view() == k;
        assert(j == i);
    }
}

proof fn lemma_push<V>(entries: Seq<(CoalesceKey, V)>, e: (CoalesceKey, V))
    requires
        distinct(entries),
        !contents(entries).contains_key(e.0.deep_view()),
    ensures
        distinct(entries.push(e)),
        contents(entries.push(e)) == contents(entries).insert(e.0.deep_view(), e.1),
{
    let after = entries.push(e);
    assert(after[entries.len() as int] == e);
    assert forall|i: int, j: int| 0 <= i < j < after.len() implies (#[trigger] after[i]).0.deep_view()
        != (#[trigger] after[j]).0.deep_view() by {
        if j == entries.len() {
            assert(entries[i].0.deep_view() != e.0.deep_view());
        } else {
            assert(entries[i].0.deep_view() != entries[j].0.deep_view());
        }
    }
    lemma_contents(entries);
    lemma_contents(after);
    let target = contents(entries).insert(e.0.deep_view(), e.1);
    assert forall|k: CoalesceKeyView| contents(after).contains_key(k) == target.contains_key(k) by {
        if contents(after).contains_key(k) {
            let i = choose|i: int| 0 <= i < after.len() && (#[trigger] after[i]).0.deep_view() == k;
            if i < entries.len() {
                assert(entries[i].0.deep_view() == k);
            }
        }
        if contents(entries).contains_key(k) {
            let i = choose|i: int|
                0 <= i < entries.len() && (#[trigger] entries[i]).0.deep_view() == k;
            assert(after[i].0.deep_view() == k);
        }
    }
    assert forall|k: CoalesceKeyView| contents(after).contains_key(k) implies contents(after)[k]
        == target[k] by {
        let i = choose|i: int| 0 <= i < after.len() && (#[trigger] after[i]).0.deep_view() == k;
        if i < entries.len() {
            assert(entries[i].0.deep_view() == k);
            assert(contents(entries)[k] == entries[i].1);
        }
    }
    assert(contents(after) == target);
}

proof fn lemma_remove<V>(entries: Seq<(CoalesceKey, V)>, at: int)
    requires
        distinct(entries),
        0 <= at < entries.len(),
    ensures
        distinct(entries.remove(at)),
        contents(entries.remove(at)) == contents(entries).remove(entries[at].0.deep_view()),
{
    let after = entries.remove(at);
    let gone = entries[at].0.deep_view();
    assert forall|i: int, j: int| 0 <= i < j < after.len() implies (#[trigger] after[i]).0.deep_view()
        != (#[trigger] after[j]).0.deep_view() by {
        let a = if i < at { i } else { i + 1 };
        let b = if j < at { j } else { j + 1 };
        assert(entries[a].0.deep_view() != entries[b].0.deep_view());
    }
    lemma_contents(entries);
    lemma_contents(after);
    let target = contents(entries).remove(gone);
    assert forall|k: CoalesceKeyView| contents(after).contains_key(k) == target.contains_key(k) by {
        if contents(after).contains_key(k) {
            let i = choose|i: int| 0 <= i < after.len() && (#[trigger] after[i]).0.deep_view() == k;
            let a = if i < at { i } else { i + 1 };
            assert(entries[a].0.deep_view() == k);
            if a < at {
                assert(entries[a].0.deep_view() != entries[at].0.deep_view());
            } else {
                assert(entries[at].0.deep_view() != entries[a].0.deep_view());
            }
        }
        if target.contains_key(k) {
            let i = choose|i: int|
                0 <= i < entries.len() && (#[trigger] entries[i]).0.deep_view() == k;
            let a = if i < at { i } else { i - 1 };
            assert(after[a].0.deep_view() == k);
        }
    }
    assert forall|k: CoalesceKeyView| contents(after).contains_key(k) implies contents(after)[k]
        == target[k] by {
        let i = choose|i: int| 0 <= i < after.len() && (#[trigger] after[i]).0.deep_view() == k;
        let a = if i < at { i } else { i + 1 };
        assert(entries[a].0.deep_view() == k);
        assert(contents(entries)[k] == entries[a].1);
    }
    assert(contents(after) == target);
}

impl<V> KeyTable<V> {
    #[verifier::type_invariant]
    spec fn inv(self) -> bool {
        distinct(self.entries@)
    }

    /// The empty table.
    pub fn new() -> (r: Self)
        ensures
            r@ == Map::<CoalesceKeyView, V>::empty(),
    {
        let r = KeyTable { entries: Vec::new() };
        assert(r@ == Map::<CoalesceKeyView, V>::empty());
        r
    }

    /// The position of `key`, if the table holds it.
    fn find(&self, key: &CoalesceKey) -> (r: Option<usize>)
        ensures
            r is Some <==> self@.contains_key(key.deep_view()),
            r matches Some(i) ==> i < self.entries.len() && self.entries[i as int].0.deep_view()
                == key.deep_view() && self@[key.deep_view()] == self.entries[i as int].1,
    {
        proof {
            use_type_invariant(self);
        }
        let mut i: usize = 0;
        while i < self.entries.len()
            invariant
                i <= self.entries.len(),
                self.inv(),
                forall|j: int|
                    0 <= j < i ==> (#[trigger] self.entries[j]).0.deep_view() != key.deep_view(),
            decreases self.entries.len() - i,
        {
            if self.entries[i].0.same(key) {
                proof {
                    lemma_contents(self.entries@);
                }
                return Some(i);
            }
            i = i + 1;
        }
        None
    }

    /// The value at `key`.
    pub fn get(&self, key: &CoalesceKey) -> (r: Option<&V>)
        ensures
            r == if self@.contains_key(key.deep_view()) {
                Some(&self@[key.deep_view()])
            } else {
                None
            },
    {
        match self.find(key) {
            Some(i) => Some(&self.entries[i].1),
            None => None,
        }
    }

    /// Takes the value at `key` out.
    pub fn remove(&mut self, key: &CoalesceKey)
        ensures
            final(self)@ == old(self)@.remove(key.deep_view()),
    {
        proof {
            use_type_invariant(&*self);
        }
        match self.find(key) {
            Some(i) => {
                proof {
                    lemma_remove(self.entries@, i as int);
                }
                let mut entries: Vec<(CoalesceKey, V)> = Vec::new();
                std::mem::swap(&mut entries, &mut self.entries);
                let _ = entries.remove(i);
                self.entries = entries;
            },
            None => {
                assert(self@ == self@.remove(key.deep_view()));
            },
        }
    }

    /// Puts `value` at `key`, in place of what was there.
    pub fn insert(&mut self, key: CoalesceKey, value: V)
        ensures
            final(self)@ == old(self)@.insert(key.deep_view(), value),
    {
        let ghost before = self@;
        self.remove(&key);
        proof {
            use_type_invariant(&*self);
            lemma_push(self.entries@, (key, value));
        }
        let mut entries: Vec<(CoalesceKey, V)> = Vec::new();
        std::mem::swap(&mut entries, &mut self.entries);
        entries.push((key, value));
        self.entries = entries;
        assert(before.remove(key.deep_view()).insert(key.deep_view(), value) == before.insert(
            key.deep_view(),
            value,
        ));
    }
}

impl<V> View for KeyTable<V> {
    type V = Map<CoalesceKeyView, V>;

    closed spec fn view(&self) -> Map<CoalesceKeyView, V> {
        contents(self.entries@)
    }
}

/// The deadlines that lie after `now`.
pub open spec fn deadlines_after(m: Map<CoalesceKeyView, u128>, now: int) -> Map<
    CoalesceKeyView,
    u128,
> {
    Map::new(|k: CoalesceKeyView| m.contains_key(k) && m[k] > now, |k: CoalesceKeyView| m[k])
}

impl KeyTable<u128> {
    /// Keeps the deadlines that lie after `now`.
    pub fn retain_after(&mut self, now: u64)
        ensures
            final(self)@ == deadlines_after(old(self)@, now as int),
    {
        proof {
            use_type_invariant(&*self);
        }
        let ghost before = self@;
        let mut kept: KeyTable<u128> = KeyTable::new();
        let mut i: usize = 0;
        while i < self.entries.len()
            invariant
                i <= self.entries.len(),
                self.inv(),
                before == contents(self.entries@),
                forall|k: CoalesceKeyView| #[trigger]
                    kept@.contains_key(k) <==> exists|j: int|
                        0 <= j < i && (#[trigger] self.entries[j]).0.deep_view() == k
                            && self.entries[j].1 > now,
                forall|k: CoalesceKeyView| #[trigger] kept@.contains_key(k) ==> kept@[k] == before[k],
            decreases self.entries.len() - i,
        {
            proof {
                lemma_contents(self.entries@);
            }
            let ghost had = kept@;
            let ghost key = self.entries[i as int].0.deep_view();
            let until: u128 = self.entries[i].1;
            assert(before[key] == until);
            if until > now as u128 {
                kept.insert(self.entries[i].0.clone(), until);
            }
            assert forall|k: CoalesceKeyView| #[trigger] kept@.contains_key(k) <==> exists|j: int|
                0 <= j < i + 1 && (#[trigger] self.entries[j]).0.deep_view() == k
                    && self.entries[j].1 > now by {
                if kept@.contains_key(k) {
                    if k == key && until > now {
                        assert(self.entries[i as int].0.deep_view() == k);
                    } else {
                        assert(had.contains_key(k));
                        let j = choose|j: int|
                            0 <= j < i && (#[trigger] self.entries[j]).0.deep_view() == k
                                && self.entries[j].1 > now;
                        assert(self.entries[j].0.deep_view() == k);
                    }
                }
                if exists|j: int|
                    0 <= j < i + 1 && (#[trigger] self.entries[j]).0.deep_view() == k
                        && self.entries[j].1 > now {
                    let j = choose|j: int|
                        0 <= j < i + 1 && (#[trigger] self.entries[j]).0.deep_view() == k
                            && self.entries[j].1 > now;
                    if j < i {
                        assert(had.contains_key(k));
                    }
                }
            }
            i = i + 1;
        }
        proof {
            lemma_contents(self.entries@);
            assert forall|k: CoalesceKeyView| kept@.contains_key(k) == deadlines_after(
                before,
                now as int,
            ).contains_key(k) by {
                if before.contains_key(k) && before[k] > now {
                    let j = choose|j: int|
                        0 <= j < self.entries.len() && (#[trigger] self.entries[j]).0.deep_view()
                            == k;
                    assert(before[self.entries[j].0.deep_view()] == self.entries[j].1);
                    assert(self.entries[j].1 > now);
                }
            }
            assert(kept@ == deadlines_after(before, now as int));
        }
        *self = kept;
    }
}

} // verus!
