//! An ordered set of accounts backed by a `Vec`.
use crate::primitives::AccountId;
use vstd::prelude::*;

verus! {

/// Whether `s` is strictly increasing.
pub open spec fn sorted(s: Seq<AccountId>) -> bool {
    forall|i: int, j: int| 0 <= i < j < s.len() ==> s[i] < s[j]
}

/// Whether `s[lo..hi]` is strictly increasing.
pub open spec fn sorted_between(s: Seq<AccountId>, lo: int, hi: int) -> bool {
    forall|i: int, j: int| lo <= i < j < hi ==> s[i] < s[j]
}

/// The strictly increasing sequence of the elements of `s`.
pub open spec fn sorted_seq_of(s: Set<AccountId>) -> Seq<AccountId> {
    choose|q: Seq<AccountId>| sorted(q) && q.to_set() == s
}

/// A strictly increasing sequence is the sorted sequence of its elements.
pub proof fn lemma_sorted_seq_of(q: Seq<AccountId>)
    requires
        sorted(q),
    ensures
        sorted_seq_of(q.to_set()) == q,
{
    assert(sorted(q) && q.to_set() == q.to_set());
    let r = sorted_seq_of(q.to_set());
    assert(sorted(r) && r.to_set() == q.to_set());
    lemma_sorted_unique(r, q);
}

/// An ordered set backed by a `Vec`: its elements are strictly increasing.
#[derive(PartialEq, Eq, Debug)]
pub struct OrderedSet(pub Vec<AccountId>);

/// Two strictly increasing sequences with the same elements are equal.
pub proof fn lemma_sorted_unique(a: Seq<AccountId>, b: Seq<AccountId>)
    requires
        sorted(a),
        sorted(b),
        a.to_set() == b.to_set(),
    ensures
        a == b,
    decreases a.len() + b.len(),
{
    if a.len() == 0 {
        if b.len() > 0 {
            assert(b.to_set().contains(b[0]));
            assert(a.to_set().contains(b[0]));
        }
        assert(a =~= b);
    } else if b.len() == 0 {
        assert(a.to_set().contains(a[0]));
        assert(b.to_set().contains(a[0]));
    } else {
        let la = a.last();
        let lb = b.last();
        assert(a.to_set().contains(la));
        assert(b.to_set().contains(lb));
        assert(b.to_set().contains(la));
        assert(a.to_set().contains(lb));
        let ia = choose|i: int| 0 <= i < a.len() && a[i] == lb;
        let ib = choose|i: int| 0 <= i < b.len() && b[i] == la;
        assert(la == lb) by {
            if la < lb {
                assert(a[ia] <= la);
            } else if lb < la {
                assert(b[ib] <= lb);
            }
        }
        let a2 = a.drop_last();
        let b2 = b.drop_last();
        assert forall|x: AccountId| a2.to_set().contains(x) <==> b2.to_set().contains(x) by {
            if a2.to_set().contains(x) {
                let i = choose|i: int| 0 <= i < a2.len() && a2[i] == x;
                assert(a[i] == x && x < la);
                assert(b.to_set().contains(x));
                let j = choose|j: int| 0 <= j < b.len() && b[j] == x;
                assert(j != b.len() - 1);
                assert(b2[j] == x);
            }
            if b2.to_set().contains(x) {
                let i = choose|i: int| 0 <= i < b2.len() && b2[i] == x;
                assert(b[i] == x && x < lb);
                assert(a.to_set().contains(x));
                let j = choose|j: int| 0 <= j < a.len() && a[j] == x;
                assert(j != a.len() - 1);
                assert(a2[j] == x);
            }
        }
        assert(a2.to_set() =~= b2.to_set());
        lemma_sorted_unique(a2, b2);
        assert(a =~= a2.push(la));
        assert(b =~= b2.push(lb));
    }
}

/// Removing an element that was just inserted gives the set back: for sorted sequences, the
/// sorted sequence of `s` plus `v`, less `v`, is `s` again when `v` was not in `s`.
pub proof fn law_remove_undoes_insert(s: Seq<AccountId>, v: AccountId, s1: Seq<AccountId>, s2: Seq<AccountId>)
    requires
        sorted(s),
        !s.contains(v),
        sorted(s1),
        s1.to_set() == s.to_set().insert(v),
        sorted(s2),
        s2.to_set() == s1.to_set().remove(v),
    ensures
        s1.contains(v),
        s2 == s,
{
    assert(s1.to_set().contains(v));
    assert(s.to_set().insert(v).remove(v) =~= s.to_set());
    lemma_sorted_unique(s2, s);
}

impl OrderedSet {
    /// A copy of the set.
    pub fn duplicate(&self) -> (r: Self)
        ensures
            r@ == self@,
    {
        let mut v: Vec<AccountId> = Vec::new();
        let mut i: usize = 0;
        while i < self.0.len()
            invariant
                0 <= i <= self.0@.len(),
                v@ == self.0@.subrange(0, i as int),
            decreases self.0@.len() - i,
        {
            v.push(self.0[i]);
            assert(v@ =~= self.0@.subrange(0, i + 1));
            i = i + 1;
        }
        assert(v@ =~= self.0@);
        OrderedSet(v)
    }
}

/// Searches `x` in `s[lo..hi]`: `Ok(i)` when `s[lo + i] == x`, otherwise `Err(i)` where
/// `lo + i` is the first position in the range holding a greater element.
pub fn search_range(s: &Vec<AccountId>, lo: usize, hi: usize, x: AccountId) -> (r: Result<usize, usize>)
    requires
        lo <= hi <= s@.len(),
        sorted_between(s@, lo as int, hi as int),
    ensures
        match r {
            Ok(i) => lo + i < hi && s@[lo + i] == x,
            Err(i) => lo + i <= hi && (forall|j: int| lo <= j < lo + i ==> s@[j] < x) && (forall|j: int|
                lo + i <= j < hi ==> s@[j] > x),
        },
{
    let mut a = lo;
    let mut b = hi;
    while a < b
        invariant
            lo <= a <= b <= hi,
            hi <= s@.len(),
            sorted_between(s@, lo as int, hi as int),
            forall|j: int| lo <= j < a ==> s@[j] < x,
            forall|j: int| b <= j < hi ==> s@[j] > x,
        decreases b - a,
    {
        let m = a + (b - a) / 2;
        if s[m] == x {
            return Ok(m - lo);
        } else if s[m] < x {
            a = m + 1;
        } else {
            b = m;
        }
    }
    Err(a - lo)
}

/// Removing an element keeps a sequence strictly increasing and removes exactly that element.
pub proof fn lemma_remove_sorted(s0: Seq<AccountId>, p: int)
    requires
        sorted(s0),
        0 <= p < s0.len(),
    ensures
        sorted(s0.remove(p)),
        forall|x: AccountId| s0.remove(p).contains(x) <==> (s0.contains(x) && x != s0[p]),
{
    let s1 = s0.remove(p);
    assert forall|a: int, b: int| 0 <= a < b < s1.len() implies s1[a] < s1[b] by {
        if b < p {
        } else if a < p {
            assert(s1[b] == s0[b + 1]);
        } else {
            assert(s1[a] == s0[a + 1]);
            assert(s1[b] == s0[b + 1]);
        }
    }
    assert forall|x: AccountId| s1.contains(x) <==> (s0.contains(x) && x != s0[p]) by {
        if s1.contains(x) {
            let j = choose|j: int| 0 <= j < s1.len() && s1[j] == x;
            if j < p {
                assert(s0[j] == x);
                assert(s0[j] < s0[p]);
            } else {
                assert(s0[j + 1] == x);
                assert(s0[j + 1] > s0[p]);
            }
        }
        if s0.contains(x) && x != s0[p] {
            let j = choose|j: int| 0 <= j < s0.len() && s0[j] == x;
            assert(j != p);
            if j < p {
                assert(s1[j] == x);
            } else {
                assert(s1[j - 1] == x);
            }
        }
    }
}

impl OrderedSet {
    /// The elements in order.
    pub open spec fn view(&self) -> Seq<AccountId> {
        self.0@
    }

    /// Whether the elements are strictly increasing.
    pub open spec fn wf(&self) -> bool {
        sorted(self@)
    }

    /// An empty set.
    pub fn new() -> (s: Self)
        ensures
            s@ == Seq::<AccountId>::empty(),
            s.wf(),
    {
        OrderedSet(Vec::new())
    }

    /// A set of the elements of `v`: sorted, without duplicates.
    pub fn from(v: Vec<AccountId>) -> (s: Self)
        ensures
            s.wf(),
            s@.to_set() == v@.to_set(),
    {
        let mut s = OrderedSet::new();
        let mut i: usize = 0;
        while i < v.len()
            invariant
                0 <= i <= v@.len(),
                s.wf(),
                s@.to_set() == v@.subrange(0, i as int).to_set(),
            decreases v@.len() - i,
        {
            let _ = s.insert(v[i]);
            proof {
                let a = v@.subrange(0, i as int);
                let b = v@.subrange(0, i + 1);
                assert(b =~= a.push(v@[i as int]));
                a.lemma_push_to_set_commute(v@[i as int]);
            }
            i = i + 1;
        }
        assert(v@.subrange(0, v@.len() as int) =~= v@);
        s
    }

    /// A set made from `v`, which is assumed to be sorted without duplicates.
    pub fn from_sorted_set(v: Vec<AccountId>) -> (s: Self)
        ensures
            s@ == v@,
    {
        OrderedSet(v)
    }

    /// Inserts `value`; returns whether the insertion happened.
    pub fn insert(&mut self, value: AccountId) -> (inserted: bool)
        requires
            old(self).wf(),
        ensures
            final(self).wf(),
            inserted == !old(self)@.contains(value),
            final(self)@.to_set() == old(self)@.to_set().insert(value),
            !inserted ==> final(self)@ == old(self)@,
            inserted ==> final(self)@.len() == old(self)@.len() + 1,
    {
        let ghost s0 = self@;
        let n = self.0.len();
        match search_range(&self.0, 0, n, value) {
            Ok(i) => {
                assert(s0.contains(value)) by {
                    assert(s0[i as int] == value);
                }
                assert(s0.to_set().insert(value) =~= s0.to_set());
                false
            },
            Err(loc) => {
                self.0.insert(loc, value);
                proof {
                    let s1 = self@;
                    assert(s1 == s0.insert(loc as int, value));
                    assert(!s0.contains(value)) by {
                        if s0.contains(value) {
                            let j = choose|j: int| 0 <= j < s0.len() && s0[j] == value;
                            assert(s0[j] != value);
                        }
                    }
                    assert forall|a: int, b: int| 0 <= a < b < s1.len() implies s1[a] < s1[b] by {
                        if b < loc {
                        } else if a < loc && b == loc {
                        } else if a < loc {
                            assert(s1[b] == s0[b - 1]);
                        } else if a == loc {
                            assert(s1[b] == s0[b - 1]);
                        } else {
                            assert(s1[a] == s0[a - 1]);
                            assert(s1[b] == s0[b - 1]);
                        }
                    }
                    assert forall|x: AccountId| s1.to_set().contains(x) <==> s0.to_set().insert(value).contains(x) by {
                        if s1.contains(x) {
                            let j = choose|j: int| 0 <= j < s1.len() && s1[j] == x;
                            if j < loc {
                                assert(s0[j] == x);
                            } else if j > loc {
                                assert(s0[j - 1] == x);
                            }
                        }
                        if s0.contains(x) {
                            let j = choose|j: int| 0 <= j < s0.len() && s0[j] == x;
                            if j < loc {
                                assert(s1[j] == x);
                            } else {
                                assert(s1[j + 1] == x);
                            }
                        }
                        if x == value {
                            assert(s1[loc as int] == x);
                        }
                    }
                    assert(s1.to_set() =~= s0.to_set().insert(value));
                }
                true
            },
        }
    }

    /// Removes `value`; returns whether the removal happened.
    pub fn remove(&mut self, value: &AccountId) -> (removed: bool)
        requires
            old(self).wf(),
        ensures
            final(self).wf(),
            removed == old(self)@.contains(*value),
            final(self)@.to_set() == old(self)@.to_set().remove(*value),
            !removed ==> final(self)@ == old(self)@,
            removed ==> final(self)@.len() + 1 == old(self)@.len(),
    {
        let ghost s0 = self@;
        let n = self.0.len();
        match search_range(&self.0, 0, n, *value) {
            Ok(loc) => {
                self.0.remove(loc);
                proof {
                    let s1 = self@;
                    assert(s1 == s0.remove(loc as int));
                    assert(s0.contains(*value)) by {
                        assert(s0[loc as int] == *value);
                    }
                    assert forall|a: int, b: int| 0 <= a < b < s1.len() implies s1[a] < s1[b] by {
                        if b < loc {
                        } else if a < loc {
                            assert(s1[b] == s0[b + 1]);
                        } else {
                            assert(s1[a] == s0[a + 1]);
                            assert(s1[b] == s0[b + 1]);
                        }
                    }
                    assert forall|x: AccountId| s1.to_set().contains(x) <==> s0.to_set().remove(*value).contains(x) by {
                        if s1.contains(x) {
                            let j = choose|j: int| 0 <= j < s1.len() && s1[j] == x;
                            if j < loc {
                                assert(s0[j] == x);
                                assert(s0[j] < s0[loc as int]);
                            } else {
                                assert(s0[j + 1] == x);
                                assert(s0[j + 1] > s0[loc as int]);
                            }
                        }
                        if s0.contains(x) && x != *value {
                            let j = choose|j: int| 0 <= j < s0.len() && s0[j] == x;
                            assert(j != loc);
                            if j < loc {
                                assert(s1[j] == x);
                            } else {
                                assert(s1[j - 1] == x);
                            }
                        }
                    }
                    assert(s1.to_set() =~= s0.to_set().remove(*value));
                }
                true
            },
            Err(_) => {
                assert(!s0.contains(*value)) by {
                    if s0.contains(*value) {
                        let j = choose|j: int| 0 <= j < s0.len() && s0[j] == *value;
                        assert(s0[j] != *value);
                    }
                }
                assert(s0.to_set().remove(*value) =~= s0.to_set());
                false
            },
        }
    }

    /// Whether the set contains `value`.
    pub fn contains(&self, value: &AccountId) -> (b: bool)
        requires
            self.wf(),
        ensures
            b == self@.contains(*value),
    {
        let n = self.0.len();
        match search_range(&self.0, 0, n, *value) {
            Ok(i) => {
                assert(self@[i as int] == *value);
                true
            },
            Err(_) => {
                assert(!self@.contains(*value)) by {
                    if self@.contains(*value) {
                        let j = choose|j: int| 0 <= j < self@.len() && self@[j] == *value;
                        assert(self@[j] != *value);
                    }
                }
                false
            },
        }
    }

    /// Empties the set.
    pub fn clear(&mut self)
        ensures
            final(self)@ == Seq::<AccountId>::empty(),
            final(self).wf(),
    {
        self.0.clear();
    }

    /// The number of elements.
    pub fn len(&self) -> (n: usize)
        ensures
            n == self@.len(),
    {
        self.0.len()
    }

    /// Removes the elements of `value` from the set: the set becomes the difference of the
    /// two, whatever the order of `value`. Each element is found by binary search.
    pub fn sub_set(&mut self, value: &Vec<AccountId>)
        requires
            old(self).wf(),
        ensures
            final(self).wf(),
            final(self)@.to_set() == old(self)@.to_set().difference(value@.to_set()),
    {
        let ghost s0 = self@;
        let mut i: usize = 0;
        while i < value.len()
            invariant
                0 <= i <= value@.len(),
                self.wf(),
                self@.to_set() == s0.to_set().difference(value@.subrange(0, i as int).to_set()),
            decreases value@.len() - i,
        {
            let v = value[i];
            let _ = self.remove(&v);
            proof {
                assert(value@.subrange(0, i + 1) =~= value@.subrange(0, i as int).push(v));
                Seq::<AccountId>::lemma_to_set_insert_commutes(value@.subrange(0, i as int), v);
                assert(value@.subrange(0, i + 1) =~= value@.subrange(0, i as int) + seq![v]);
                assert(self@.to_set() =~= s0.to_set().difference(value@.subrange(0, i + 1).to_set()));
            }
            i = i + 1;
        }
        assert(value@.subrange(0, value@.len() as int) =~= value@);
    }
}

} // verus!
