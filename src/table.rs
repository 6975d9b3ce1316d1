use vstd::prelude::*;
use crate::entities::{Bytes32, ContractsAssetKey, ContractsStateKey, UtxoId};

verus! {

/// A key type whose equality can be tested in executable code.
pub trait TableKey: Copy + Sized {
    fn same(&self, other: &Self) -> (r: bool)
        ensures
            r == (*self == *other),
    ;
}

impl TableKey for Bytes32 {
    fn same(&self, other: &Self) -> (r: bool) {
        *self == *other
    }
}

impl TableKey for UtxoId {
    fn same(&self, other: &Self) -> (r: bool) {
        *self == *other
    }
}

impl TableKey for ContractsStateKey {
    fn same(&self, other: &Self) -> (r: bool) {
        *self == *other
    }
}

impl TableKey for ContractsAssetKey {
    fn same(&self, other: &Self) -> (r: bool) {
        *self == *other
    }
}

pub open spec fn has_key<K, V>(s: Seq<(K, V)>, k: K) -> bool {
    exists|i: int| 0 <= i < s.len() && (#[trigger] s[i]).0 == k
}

pub open spec fn keys_unique<K, V>(s: Seq<(K, V)>) -> bool {
    forall|i: int, j: int|
        0 <= i < s.len() && 0 <= j < s.len() && (#[trigger] s[i]).0 == (#[trigger] s[j]).0
            ==> i == j
}

/// The position of key `k` in `s`, where it occurs.
pub open spec fn key_index<K, V>(s: Seq<(K, V)>, k: K) -> int {
    choose|i: int| 0 <= i < s.len() && (#[trigger] s[i]).0 == k
}

/// The value stored under `k`, if any.
pub open spec fn lookup<K, V>(s: Seq<(K, V)>, k: K) -> Option<V> {
    if has_key(s, k) {
        Some(s[key_index(s, k)].1)
    } else {
        None
    }
}

/// `s` with `v` stored under `k`: in place where `k` occurs, else at the end.
pub open spec fn upserted<K, V>(s: Seq<(K, V)>, k: K, v: V) -> Seq<(K, V)> {
    if has_key(s, k) {
        s.update(key_index(s, k), (k, v))
    } else {
        s.push((k, v))
    }
}

/// `s` with each pair of `t` stored in turn.
pub open spec fn upserted_all<K, V>(s: Seq<(K, V)>, t: Seq<(K, V)>) -> Seq<(K, V)>
    decreases t.len(),
{
    if t.len() == 0 {
        s
    } else {
        let u = upserted_all(s, t.drop_last());
        upserted(u, t.last().0, t.last().1)
    }
}

pub proof fn lemma_key_index<K, V>(s: Seq<(K, V)>, k: K, i: int)
    requires
        keys_unique(s),
        0 <= i < s.len(),
        s[i].0 == k,
    ensures
        has_key(s, k),
        key_index(s, k) == i,
        lookup(s, k) == Some(s[i].1),
{
    assert(has_key(s, k));
}

pub proof fn lemma_push_unique<K, V>(s: Seq<(K, V)>, k: K, v: V)
    requires
        keys_unique(s),
        !has_key(s, k),
    ensures
        keys_unique(s.push((k, v))),
{
    let t = s.push((k, v));
    assert forall|i: int, j: int|
        0 <= i < t.len() && 0 <= j < t.len() && (#[trigger] t[i]).0 == (#[trigger] t[j]).0
        implies i == j by {
        if i < s.len() && j == s.len() {
            assert(s[i].0 == k);
        }
        if j < s.len() && i == s.len() {
            assert(s[j].0 == k);
        }
    }
}

pub proof fn lemma_concat_unique<K, V>(a: Seq<(K, V)>, b: Seq<(K, V)>)
    requires
        keys_unique(a + b),
    ensures
        keys_unique(a),
        keys_unique(b),
{
    let all = a + b;
    assert forall|i: int, j: int|
        0 <= i < a.len() && 0 <= j < a.len() && (#[trigger] a[i]).0 == (#[trigger] a[j]).0
        implies i == j by {
        assert(all[i] == a[i] && all[j] == a[j]);
    }
    assert forall|i: int, j: int|
        0 <= i < b.len() && 0 <= j < b.len() && (#[trigger] b[i]).0 == (#[trigger] b[j]).0
        implies i == j by {
        assert(all[a.len() + i] == b[i] && all[a.len() + j] == b[j]);
    }
}

pub proof fn lemma_upserted_unique<K, V>(s: Seq<(K, V)>, k: K, v: V)
    requires
        keys_unique(s),
    ensures
        keys_unique(upserted(s, k, v)),
        has_key(upserted(s, k, v), k),
        lookup(upserted(s, k, v), k) == Some(v),
{
    if has_key(s, k) {
        let i = key_index(s, k);
        let t = s.update(i, (k, v));
        assert forall|a: int, b: int|
            0 <= a < t.len() && 0 <= b < t.len() && (#[trigger] t[a]).0 == (#[trigger] t[b]).0
            implies a == b by {
            assert(s[a].0 == t[a].0);
            assert(s[b].0 == t[b].0);
        }
        lemma_key_index(t, k, i);
    } else {
        lemma_push_unique(s, k, v);
        lemma_key_index(s.push((k, v)), k, s.len() as int);
    }
}

pub proof fn lemma_upserted_all_unique<K, V>(s: Seq<(K, V)>, t: Seq<(K, V)>)
    requires
        keys_unique(s),
    ensures
        keys_unique(upserted_all(s, t)),
    decreases t.len(),
{
    if t.len() > 0 {
        lemma_upserted_all_unique(s, t.drop_last());
        lemma_upserted_unique(upserted_all(s, t.drop_last()), t.last().0, t.last().1);
    }
}

/// The items of `v` in the opposite order, so that popping yields them first to last.
pub fn reversed<T>(v: Vec<T>) -> (r: Vec<T>)
    ensures
        r@.len() == v@.len(),
        forall|i: int| 0 <= i < v@.len() ==> r@[i] == v@[v@.len() - 1 - i],
{
    let ghost orig = v@;
    let mut v = v;
    let mut r: Vec<T> = Vec::new();
    while v.len() > 0
        invariant
            v@ == orig.subrange(0, v@.len() as int),
            r@.len() + v@.len() == orig.len(),
            forall|i: int| 0 <= i < r@.len() ==> r@[i] == orig[orig.len() - 1 - i],
        decreases v@.len(),
    {
        let x = v.pop().unwrap();
        r.push(x);
    }
    r
}

/// A table of the store: pairs in order of insertion, no key twice.
pub struct Table<K, V> {
    entries: Vec<(K, V)>,
}

impl<K, V> View for Table<K, V> {
    type V = Seq<(K, V)>;

    closed spec fn view(&self) -> Seq<(K, V)> {
        self.entries@
    }
}

impl<K: TableKey, V> Table<K, V> {
    pub open spec fn wf(&self) -> bool {
        keys_unique(self@)
    }

    pub fn new() -> (r: Self)
        ensures
            r@ == Seq::<(K, V)>::empty(),
            r.wf(),
    {
        Table { entries: Vec::new() }
    }

    pub fn len(&self) -> (r: usize)
        ensures
            r == self@.len(),
    {
        self.entries.len()
    }

    /// The position of `k`, if the table holds it.
    pub fn find(&self, k: &K) -> (r: Option<usize>)
        requires
            self.wf(),
        ensures
            r.is_none() == !has_key(self@, *k),
            r matches Some(i) ==> i < self@.len() && self@[i as int].0 == *k && key_index(
                self@,
                *k,
            ) == i,
    {
        let mut i: usize = 0;
        while i < self.entries.len()
            invariant
                0 <= i <= self.entries@.len(),
                keys_unique(self.entries@),
                forall|j: int| 0 <= j < i ==> (#[trigger] self.entries@[j]).0 != *k,
            decreases self.entries@.len() - i,
        {
            if self.entries[i].0.same(k) {
                proof {
                    lemma_key_index(self@, *k, i as int);
                }
                return Some(i);
            }
            i += 1;
        }
        None
    }

    pub fn contains_key(&self, k: &K) -> (r: bool)
        requires
            self.wf(),
        ensures
            r == has_key(self@, *k),
    {
        self.find(k).is_some()
    }

    /// The value stored under `k`, if any.
    pub fn get(&self, k: &K) -> (r: Option<&V>)
        requires
            self.wf(),
        ensures
            r matches Some(v) ==> lookup(self@, *k) == Some(*v),
            r.is_none() ==> lookup(self@, *k).is_none(),
    {
        match self.find(k) {
            Some(i) => Some(&self.entries[i].1),
            None => None,
        }
    }

    /// The pair at position `i`.
    pub fn entry_at(&self, i: usize) -> (r: &(K, V))
        requires
            i < self@.len(),
        ensures
            *r == self@[i as int],
    {
        &self.entries[i]
    }

    /// Moves every pair of `other` to the end of this table.
    pub fn append(&mut self, other: Table<K, V>)
        requires
            keys_unique(old(self)@ + other@),
        ensures
            final(self).wf(),
            final(self)@ == old(self)@ + other@,
    {
        let mut other = other;
        self.entries.append(&mut other.entries);
    }

    /// Adds a pair whose key the table does not hold.
    pub fn insert_new(&mut self, k: K, v: V)
        requires
            old(self).wf(),
            !has_key(old(self)@, k),
        ensures
            final(self).wf(),
            final(self)@ == old(self)@.push((k, v)),
    {
        proof {
            lemma_push_unique(self@, k, v);
        }
        self.entries.push((k, v));
    }

    /// Stores `v` under `k`, replacing what was stored there.
    pub fn upsert(&mut self, k: K, v: V)
        requires
            old(self).wf(),
        ensures
            final(self).wf(),
            final(self)@ == upserted(old(self)@, k, v),
    {
        proof {
            lemma_upserted_unique(self@, k, v);
        }
        match self.find(&k) {
            Some(i) => {
                self.entries.set(i, (k, v));
            },
            None => {
                self.entries.push((k, v));
            },
        }
    }
}

} // verus!
