//! Key-value storage used by the pallets: an association list with distinct
//! keys, seen by contracts as a `Map`.
use vstd::prelude::*;

verus! {

/// Identifier of an application that runs challenge games.
pub type AppId = [u8; 8];

/// A key of a storage map: a plain value whose equality can be decided.
pub trait MapKey: Sized {
    fn key_eq(&self, other: &Self) -> (b: bool)
        ensures
            b == (*self == *other),
    ;
}

impl MapKey for u64 {
    fn key_eq(&self, other: &Self) -> (b: bool) {
        *self == *other
    }
}

/// A key made of two accounts.
#[derive(Clone, Copy, PartialEq, Eq, Structural, Debug)]
pub struct AccountPair {
    pub first: u64,
    pub second: u64,
}

impl MapKey for AccountPair {
    fn key_eq(&self, other: &Self) -> (b: bool) {
        self.first == other.first && self.second == other.second
    }
}

impl Duplicate for AccountPair {
    fn duplicate(&self) -> (r: Self) {
        *self
    }
}

/// Byte-wise equality of two application identifiers.
pub fn app_id_eq(a: &AppId, b: &AppId) -> (r: bool)
    ensures
        r == (*a == *b),
{
    let mut i: usize = 0;
    while i < 8
        invariant
            0 <= i <= 8,
            forall|j: int| 0 <= j < i ==> a[j] == b[j],
        decreases 8 - i,
    {
        if a[i] != b[i] {
            return false;
        }
        i = i + 1;
    }
    proof {
        broadcast use vstd::array::axiom_array_ext_equal;

        assert(*a =~= *b);
    }
    true
}

/// A key made of an application and an account.
#[derive(Clone, Copy, PartialEq, Eq, Debug)]
pub struct AppAccount {
    pub app_id: AppId,
    pub account: u64,
}

impl MapKey for AppAccount {
    fn key_eq(&self, other: &Self) -> (b: bool) {
        self.account == other.account && app_id_eq(&self.app_id, &other.app_id)
    }
}

impl MapKey for AppId {
    fn key_eq(&self, other: &Self) -> (b: bool) {
        app_id_eq(self, other)
    }
}

/// Values that can be duplicated with a proof that the copy is equal.
pub trait Duplicate: Sized {
    fn duplicate(&self) -> (r: Self)
        ensures
            r == *self,
    ;
}

/// A map from keys to values, kept as a list of pairs with distinct keys.
pub struct StorageMap<K: MapKey, V> {
    entries: Vec<(K, V)>,
}

/// Whether the keys of `s` are pairwise distinct.
pub open spec fn keys_distinct<K, V>(s: Seq<(K, V)>) -> bool {
    forall|i: int, j: int| 0 <= i < s.len() && 0 <= j < s.len() && i != j ==> #[trigger] s[i].0 != #[trigger] s[j].0
}

/// Whether `k` occurs as a key in `s`.
pub open spec fn has_key<K, V>(s: Seq<(K, V)>, k: K) -> bool {
    exists|i: int| 0 <= i < s.len() && #[trigger] s[i].0 == k
}

/// The position of key `k` in `s`.
pub open spec fn key_index<K, V>(s: Seq<(K, V)>, k: K) -> int {
    choose|i: int| 0 <= i < s.len() && #[trigger] s[i].0 == k
}

/// The map that a list of pairs with distinct keys stands for.
pub open spec fn pairs_to_map<K, V>(s: Seq<(K, V)>) -> Map<K, V> {
    Map::new(|k: K| has_key(s, k), |k: K| s[key_index(s, k)].1)
}

/// In a list with distinct keys, the key at position `i` is found at `i`.
pub proof fn lemma_key_index<K, V>(s: Seq<(K, V)>, i: int)
    requires
        keys_distinct(s),
        0 <= i < s.len(),
    ensures
        has_key(s, s[i].0),
        key_index(s, s[i].0) == i,
        pairs_to_map(s).contains_key(s[i].0),
        pairs_to_map(s)[s[i].0] == s[i].1,
{
    assert(s[i].0 == s[i].0);
    let j = key_index(s, s[i].0);
    assert(0 <= j < s.len() && s[j].0 == s[i].0);
}

/// The domain of the map is finite: it is the set of keys of the list.
pub proof fn lemma_pairs_to_map_finite<K, V>(s: Seq<(K, V)>)
    ensures
        pairs_to_map(s).dom() == s.map_values(|p: (K, V)| p.0).to_set(),
        pairs_to_map(s).dom().finite(),
{
    let ks = s.map_values(|p: (K, V)| p.0);
    assert forall|k: K| pairs_to_map(s).dom().contains(k) <==> ks.to_set().contains(k) by {
        if pairs_to_map(s).dom().contains(k) {
            let i = choose|i: int| 0 <= i < s.len() && #[trigger] s[i].0 == k;
            assert(ks[i] == k);
        }
        if ks.to_set().contains(k) {
            let i = choose|i: int| 0 <= i < ks.len() && ks[i] == k;
            assert(s[i].0 == k);
        }
    }
    assert(pairs_to_map(s).dom() =~= ks.to_set());
    vstd::seq_lib::seq_to_set_is_finite(ks);
}

impl<K: MapKey, V> StorageMap<K, V> {
    #[verifier::type_invariant]
    spec fn inv(self) -> bool {
        keys_distinct(self.entries@)
    }

    /// The pairs of the map, in iteration order.
    pub closed spec fn pairs(&self) -> Seq<(K, V)> {
        self.entries@
    }

    /// The map's contents.
    pub open spec fn view(&self) -> Map<K, V> {
        pairs_to_map(self.pairs())
    }

    /// An empty map.
    pub fn new() -> (m: Self)
        ensures
            m@ == Map::<K, V>::empty(),
            m.pairs().len() == 0,
    {
        let m = StorageMap { entries: Vec::new() };
        assert(m@ =~= Map::<K, V>::empty());
        m
    }

    /// The number of entries.
    pub fn len(&self) -> (n: usize)
        ensures
            n == self.pairs().len(),
            n == self@.len(),
            keys_distinct(self.pairs()),
    {
        proof {
            use_type_invariant(self);
            lemma_pairs_len(self.entries@);
        }
        self.entries.len()
    }

    /// The position of `k` among the pairs, if present.
    fn find(&self, k: &K) -> (r: Option<usize>)
        ensures
            match r {
                Some(i) => i < self.pairs().len() && self.pairs()[i as int].0 == *k,
                None => !has_key(self.pairs(), *k),
            },
            r is Some <==> self@.contains_key(*k),
    {
        proof {
            use_type_invariant(self);
        }
        let mut i: usize = 0;
        while i < self.entries.len()
            invariant
                0 <= i <= self.entries@.len(),
                forall|j: int| 0 <= j < i ==> self.entries@[j].0 != *k,
            decreases self.entries@.len() - i,
        {
            if self.entries[i].0.key_eq(k) {
                return Some(i);
            }
            i = i + 1;
        }
        None
    }

    /// Whether the map holds `k`.
    pub fn contains_key(&self, k: &K) -> (b: bool)
        ensures
            b == self@.contains_key(*k),
    {
        self.find(k).is_some()
    }

    /// The value under `k`, if any.
    pub fn get(&self, k: &K) -> (r: Option<&V>)
        ensures
            match r {
                Some(v) => self@.contains_key(*k) && *v == self@[*k],
                None => !self@.contains_key(*k),
            },
    {
        match self.find(k) {
            Some(i) => {
                proof {
                    use_type_invariant(self);
                    lemma_key_index(self.entries@, i as int);
                }
                Some(&self.entries[i].1)
            },
            None => None,
        }
    }

    /// The key and value of the `i`-th pair.
    pub fn pair_at(&self, i: usize) -> (r: (&K, &V))
        requires
            i < self.pairs().len(),
        ensures
            *r.0 == self.pairs()[i as int].0,
            *r.1 == self.pairs()[i as int].1,
            self@.contains_key(*r.0),
            self@[*r.0] == *r.1,
    {
        proof {
            use_type_invariant(self);
            lemma_key_index(self.entries@, i as int);
        }
        (&self.entries[i].0, &self.entries[i].1)
    }

    /// Empties the map and hands out its pairs, in iteration order.
    pub fn take_all(&mut self) -> (r: Vec<(K, V)>)
        ensures
            r@ == old(self).pairs(),
            keys_distinct(r@),
            pairs_to_map(r@) == old(self)@,
            final(self)@ == Map::<K, V>::empty(),
            final(self).pairs().len() == 0,
    {
        proof {
            use_type_invariant(&*self);
        }
        let mut e = Vec::new();
        std::mem::swap(&mut e, &mut self.entries);
        assert(self@ =~= Map::<K, V>::empty());
        e
    }

    /// Sets the value under `k` to `v`.
    pub fn insert(&mut self, k: K, v: V)
        ensures
            final(self)@ == old(self)@.insert(k, v),
    {
        proof {
            use_type_invariant(&*self);
        }
        let ghost s0 = self.entries@;
        match self.find(&k) {
            Some(i) => {
                let mut e = Vec::new();
                std::mem::swap(&mut e, &mut self.entries);
                e.set(i, (k, v));
                proof {
                    let s1 = e@;
                    assert(s1 == s0.update(i as int, (k, v)));
                    assert(keys_distinct(s1)) by {
                        assert forall|a: int, b: int|
                            0 <= a < s1.len() && 0 <= b < s1.len() && a != b implies #[trigger] s1[a].0
                            != #[trigger] s1[b].0 by {
                            assert(s0[a].0 != s0[b].0);
                        }
                    }
                }
                self.entries = e;
                proof {
                    let s1 = self.entries@;
                    assert(s1 == s0.update(i as int, (k, v)));
                    assert(keys_distinct(s1)) by {
                        assert forall|a: int, b: int|
                            0 <= a < s1.len() && 0 <= b < s1.len() && a != b implies #[trigger] s1[a].0
                            != #[trigger] s1[b].0 by {
                            assert(s0[a].0 != s0[b].0);
                        }
                    }
                    assert forall|kk: K| #[trigger]
                        pairs_to_map(s1).contains_key(kk) == s0_map_ins(s0, k, v).contains_key(kk)
                        && (pairs_to_map(s1).contains_key(kk) ==> pairs_to_map(s1)[kk] == s0_map_ins(
                        s0,
                        k,
                        v,
                    )[kk]) by {
                        if has_key(s1, kk) {
                            let j = choose|j: int| 0 <= j < s1.len() && #[trigger] s1[j].0 == kk;
                            lemma_key_index(s1, j);
                            if kk != k {
                                lemma_key_index(s0, j);
                            }
                        }
                        if has_key(s0, kk) {
                            let j = choose|j: int| 0 <= j < s0.len() && #[trigger] s0[j].0 == kk;
                            assert(s1[j].0 == kk);
                        }
                    }
                    assert(pairs_to_map(s1) =~= s0_map_ins(s0, k, v));
                }
            },
            None => {
                let mut e = Vec::new();
                std::mem::swap(&mut e, &mut self.entries);
                e.push((k, v));
                proof {
                    let s1 = e@;
                    assert(s1 == s0.push((k, v)));
                    assert(keys_distinct(s1)) by {
                        assert forall|a: int, b: int|
                            0 <= a < s1.len() && 0 <= b < s1.len() && a != b implies #[trigger] s1[a].0
                            != #[trigger] s1[b].0 by {
                            if a < s0.len() && b < s0.len() {
                                assert(s0[a].0 != s0[b].0);
                            } else if a < s0.len() {
                                assert(s0[a].0 == s1[a].0);
                            } else {
                                assert(s0[b].0 == s1[b].0);
                            }
                        }
                    }
                }
                self.entries = e;
                proof {
                    let s1 = self.entries@;
                    assert(s1 == s0.push((k, v)));
                    assert(keys_distinct(s1)) by {
                        assert forall|a: int, b: int|
                            0 <= a < s1.len() && 0 <= b < s1.len() && a != b implies #[trigger] s1[a].0
                            != #[trigger] s1[b].0 by {
                            if a < s0.len() && b < s0.len() {
                                assert(s0[a].0 != s0[b].0);
                            } else if a < s0.len() {
                                assert(s0[a].0 == s1[a].0);
                            } else {
                                assert(s0[b].0 == s1[b].0);
                            }
                        }
                    }
                    assert forall|kk: K| #[trigger]
                        pairs_to_map(s1).contains_key(kk) == s0_map_ins(s0, k, v).contains_key(kk)
                        && (pairs_to_map(s1).contains_key(kk) ==> pairs_to_map(s1)[kk] == s0_map_ins(
                        s0,
                        k,
                        v,
                    )[kk]) by {
                        if has_key(s1, kk) {
                            let j = choose|j: int| 0 <= j < s1.len() && #[trigger] s1[j].0 == kk;
                            lemma_key_index(s1, j);
                            if j < s0.len() {
                                lemma_key_index(s0, j);
                            }
                        }
                        if has_key(s0, kk) {
                            let j = choose|j: int| 0 <= j < s0.len() && #[trigger] s0[j].0 == kk;
                            assert(s1[j].0 == kk);
                        }
                        if kk == k {
                            assert(s1[s0.len() as int].0 == kk);
                        }
                    }
                    assert(pairs_to_map(s1) =~= s0_map_ins(s0, k, v));
                }
            },
        }
    }

    /// Removes the entry under `k` and returns its value.
    pub fn remove(&mut self, k: &K) -> (r: Option<V>)
        ensures
            final(self)@ == old(self)@.remove(*k),
            match r {
                Some(v) => old(self)@.contains_key(*k) && v == old(self)@[*k],
                None => !old(self)@.contains_key(*k),
            },
    {
        proof {
            use_type_invariant(&*self);
        }
        let ghost s0 = self.entries@;
        match self.find(k) {
            Some(i) => {
                proof {
                    lemma_key_index(s0, i as int);
                }
                let mut e = Vec::new();
                std::mem::swap(&mut e, &mut self.entries);
                let (_, v) = e.remove(i);
                proof {
                    let s1 = e@;
                    assert(s1 == s0.remove(i as int));
                    assert(keys_distinct(s1)) by {
                        assert forall|a: int, b: int|
                            0 <= a < s1.len() && 0 <= b < s1.len() && a != b implies #[trigger] s1[a].0
                            != #[trigger] s1[b].0 by {
                            let a0 = if a < i { a } else { a + 1 };
                            let b0 = if b < i { b } else { b + 1 };
                            assert(s1[a] == s0[a0]);
                            assert(s1[b] == s0[b0]);
                            assert(s0[a0].0 != s0[b0].0);
                        }
                    }
                }
                self.entries = e;
                proof {
                    let s1 = self.entries@;
                    assert(s1 == s0.remove(i as int));
                    assert(keys_distinct(s1)) by {
                        assert forall|a: int, b: int|
                            0 <= a < s1.len() && 0 <= b < s1.len() && a != b implies #[trigger] s1[a].0
                            != #[trigger] s1[b].0 by {
                            let a0 = if a < i { a } else { a + 1 };
                            let b0 = if b < i { b } else { b + 1 };
                            assert(s1[a] == s0[a0]);
                            assert(s1[b] == s0[b0]);
                            assert(s0[a0].0 != s0[b0].0);
                        }
                    }
                    assert forall|kk: K| #[trigger]
                        pairs_to_map(s1).contains_key(kk) == pairs_to_map(s0).remove(*k).contains_key(
                            kk,
                        ) && (pairs_to_map(s1).contains_key(kk) ==> pairs_to_map(s1)[kk]
                        == pairs_to_map(s0).remove(*k)[kk]) by {
                        if has_key(s1, kk) {
                            let j = choose|j: int| 0 <= j < s1.len() && #[trigger] s1[j].0 == kk;
                            let j0 = if j < i { j } else { j + 1 };
                            assert(s1[j] == s0[j0]);
                            lemma_key_index(s1, j);
                            lemma_key_index(s0, j0);
                            assert(j0 != i);
                        }
                        if has_key(s0, kk) && kk != *k {
                            let j = choose|j: int| 0 <= j < s0.len() && #[trigger] s0[j].0 == kk;
                            assert(j != i);
                            let j1 = if j < i { j } else { j - 1 };
                            assert(s1[j1] == s0[j]);
                        }
                    }
                    assert(pairs_to_map(s1) =~= pairs_to_map(s0).remove(*k));
                }
                Some(v)
            },
            None => {
                proof {
                    assert(pairs_to_map(s0).remove(*k) =~= pairs_to_map(s0));
                }
                None
            },
        }
    }
}

impl<K: MapKey + Duplicate, V: Duplicate> StorageMap<K, V> {
    /// A copy of the map.
    pub fn duplicate(&self) -> (r: Self)
        ensures
            r.pairs() == self.pairs(),
            r@ == self@,
    {
        proof {
            use_type_invariant(self);
        }
        let mut e: Vec<(K, V)> = Vec::new();
        let mut i: usize = 0;
        while i < self.entries.len()
            invariant
                0 <= i <= self.entries@.len(),
                e@ == self.entries@.subrange(0, i as int),
            decreases self.entries@.len() - i,
        {
            let k = self.entries[i].0.duplicate();
            let v = self.entries[i].1.duplicate();
            e.push((k, v));
            assert(e@ =~= self.entries@.subrange(0, i + 1));
            i = i + 1;
        }
        assert(e@ =~= self.entries@);
        StorageMap { entries: e }
    }
}

impl<V> StorageMap<AccountPair, V> {
    /// Removes every entry whose key starts with `first`.
    pub fn remove_prefix(&mut self, first: &u64)
        ensures
            final(self)@ == Map::new(
                |k: AccountPair| old(self)@.contains_key(k) && k.first != *first,
                |k: AccountPair| old(self)@[k],
            ),
    {
        let ghost m0 = self@;
        let ghost p0 = self.pairs();
        let n = self.len();
        let mut ks: Vec<AccountPair> = Vec::new();
        let mut i: usize = 0;
        while i < n
            invariant
                0 <= i <= n,
                n == self.pairs().len(),
                self@ == m0,
                self.pairs() == p0,
                m0 == pairs_to_map(p0),
                forall|x: AccountPair| #[trigger] ks@.contains(x) ==> m0.contains_key(x) && x.first == *first,
                forall|j: int| 0 <= j < i && (#[trigger] self.pairs()[j]).0.first == *first ==> ks@.contains(
                    self.pairs()[j].0,
                ),
            decreases n - i,
        {
            let (k, _) = self.pair_at(i);
            if k.first == *first {
                let ghost before = ks@;
                assert(m0.contains_key(*k));
                ks.push(*k);
                proof {
                    assert forall|x: AccountPair| #[trigger] ks@.contains(x) implies m0.contains_key(x) && x.first
                        == *first by {
                        if x != *k {
                            let j = choose|j: int| 0 <= j < ks@.len() && ks@[j] == x;
                            assert(before[j] == x);
                            assert(before.contains(x));
                        }
                    }
                    assert forall|j: int| 0 <= j < i + 1 && (#[trigger] self.pairs()[j]).0.first == *first implies ks@.contains(
                        self.pairs()[j].0,
                    ) by {
                        if j < i {
                            let jj = choose|jj: int| 0 <= jj < before.len() && before[jj] == self.pairs()[j].0;
                            assert(ks@[jj] == self.pairs()[j].0);
                        } else {
                            assert(ks@[before.len() as int] == *k);
                        }
                    }
                }
            }
            i = i + 1;
        }
        proof {
            assert forall|x: AccountPair| m0.contains_key(x) && x.first == *first implies #[trigger] ks@.contains(x) by {
                let jj = choose|jj: int| 0 <= jj < p0.len() && #[trigger] p0[jj].0 == x;
                assert(p0[jj].0.first == *first);
            }
        }
        let mut j: usize = 0;
        while j < ks.len()
            invariant
                0 <= j <= ks@.len(),
                forall|x: AccountPair| #[trigger] ks@.contains(x) ==> m0.contains_key(x) && x.first == *first,
                forall|x: AccountPair|
                    m0.contains_key(x) && x.first == *first ==> #[trigger] ks@.contains(x),
                self@ == Map::new(
                    |k: AccountPair| m0.contains_key(k) && !ks@.subrange(0, j as int).contains(k),
                    |k: AccountPair| m0[k],
                ),
            decreases ks@.len() - j,
        {
            let k = ks[j];
            let ghost before = self@;
            let _ = self.remove(&k);
            proof {
                let s1 = ks@.subrange(0, j + 1);
                let s0 = ks@.subrange(0, j as int);
                assert forall|x: AccountPair| #[trigger] s1.contains(x) <==> (s0.contains(x) || x == k) by {
                    if s1.contains(x) && x != k {
                        let t = choose|t: int| 0 <= t < s1.len() && s1[t] == x;
                        assert(s0[t] == x);
                    }
                    if s0.contains(x) {
                        let t = choose|t: int| 0 <= t < s0.len() && s0[t] == x;
                        assert(s1[t] == x);
                    }
                    assert(s1[j as int] == k);
                }
                assert(self@ =~= Map::new(
                    |kk: AccountPair| m0.contains_key(kk) && !s1.contains(kk),
                    |kk: AccountPair| m0[kk],
                ));
            }
            j = j + 1;
        }
        proof {
            assert(ks@.subrange(0, ks@.len() as int) =~= ks@);
            assert(self@ =~= Map::new(
                |k: AccountPair| m0.contains_key(k) && k.first != *first,
                |k: AccountPair| m0[k],
            ));
        }
    }
}

/// The number of pairs of a list with distinct keys is the size of its map.
pub proof fn lemma_pairs_len<K, V>(s: Seq<(K, V)>)
    requires
        keys_distinct(s),
    ensures
        s.len() == pairs_to_map(s).len(),
{
    lemma_pairs_to_map_finite(s);
    let ks = s.map_values(|p: (K, V)| p.0);
    assert forall|i: int, j: int| 0 <= i < ks.len() && 0 <= j < ks.len() && i != j implies ks[i]
        != ks[j] by {
        assert(s[i].0 != s[j].0);
    }
    assert(ks.no_duplicates());
    ks.unique_seq_to_set();
}

/// The map of `s` with `k` set to `v`.
pub open spec fn s0_map_ins<K, V>(s: Seq<(K, V)>, k: K, v: V) -> Map<K, V> {
    pairs_to_map(s).insert(k, v)
}

/// The value under `k` in `m`, or `d` when `m` has none.
pub open spec fn get_or<K, V>(m: Map<K, V>, k: K, d: V) -> V {
    if m.contains_key(k) {
        m[k]
    } else {
        d
    }
}

} // verus!
