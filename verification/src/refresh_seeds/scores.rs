//! The centrality scores of the candidates, in ascending order, and the highest of them,
//! which become the seeds.
use crate::primitives::AccountId;
use crate::refresh_seeds::Candidate;
use crate::storage::{keys_distinct, lemma_key_index, lemma_pairs_to_map_finite, pairs_to_map, StorageMap};
use vstd::prelude::*;

verus! {

/// Whether `s` is in ascending order.
pub open spec fn ascending(s: Seq<u64>) -> bool {
    forall|i: int, j: int| 0 <= i <= j < s.len() ==> s[i] <= s[j]
}

/// The number of candidates in `m` whose score is `v`.
pub open spec fn score_count(m: Map<AccountId, Candidate>, v: u64) -> nat {
    m.dom().filter(|k: AccountId| m[k].score == v).len()
}

/// Whether `s` lists the scores of the candidates `m`, each as often as it occurs, in
/// ascending order.
pub open spec fn lists_scores_of(m: Map<AccountId, Candidate>, s: Seq<u64>) -> bool {
    &&& ascending(s)
    &&& forall|v: u64| #[trigger] s.to_multiset().count(v) == score_count(m, v)
}

/// The scores of the candidates `m` in ascending order.
pub open spec fn sorted_scores(m: Map<AccountId, Candidate>) -> Seq<u64> {
    choose|s: Seq<u64>| lists_scores_of(m, s)
}

/// The `n` highest scores of the candidates `m` (all of them when there are fewer), in
/// ascending order.
pub open spec fn top_scores(m: Map<AccountId, Candidate>, n: nat) -> Seq<u64> {
    let s = sorted_scores(m);
    if s.len() > n {
        s.subrange(s.len() - n, s.len() as int)
    } else {
        s
    }
}

/// The position of the first `x` in `s`.
pub open spec fn first_index(s: Seq<u64>, x: u64) -> int {
    choose|i: int| 0 <= i < s.len() && s[i] == x && forall|j: int| 0 <= j < i ==> s[j] != x
}

/// `s` without its first `x`; `s` itself when it holds none.
pub open spec fn remove_score(s: Seq<u64>, x: u64) -> Seq<u64> {
    if s.contains(x) {
        s.remove(first_index(s, x))
    } else {
        s
    }
}

/// The scores of a list of candidates, in its order.
pub open spec fn pair_scores(p: Seq<(AccountId, Candidate)>) -> Seq<u64> {
    p.map_values(|e: (AccountId, Candidate)| e.1.score)
}

/// A list of candidates with distinct accounts holds each score as often as the map it
/// stands for.
pub proof fn lemma_pair_scores_count(p: Seq<(AccountId, Candidate)>, v: u64)
    requires
        keys_distinct(p),
    ensures
        pair_scores(p).to_multiset().count(v) == score_count(pairs_to_map(p), v),
    decreases p.len(),
{
    broadcast use vstd::seq_lib::group_to_multiset_ensures;

    let m = pairs_to_map(p);
    lemma_pairs_to_map_finite(p);
    if p.len() == 0 {
        assert(m.dom() =~= Set::<AccountId>::empty());
        assert(m.dom().filter(|k: AccountId| m[k].score == v) =~= Set::<AccountId>::empty());
        assert(pair_scores(p) =~= Seq::<u64>::empty());
    } else {
        let q = p.drop_last();
        let e = p.last();
        let mq = pairs_to_map(q);
        assert(keys_distinct(q));
        lemma_pair_scores_count(q, v);
        lemma_pairs_to_map_finite(q);
        assert(pair_scores(p) =~= pair_scores(q).push(e.1.score));
        lemma_key_index(p, p.len() - 1);
        assert(!mq.dom().contains(e.0)) by {
            if mq.dom().contains(e.0) {
                let i = choose|i: int| 0 <= i < q.len() && #[trigger] q[i].0 == e.0;
                assert(p[i].0 == p[p.len() - 1].0);
            }
        }
        assert forall|k: AccountId| mq.dom().contains(k) implies m.dom().contains(k) && m[k] == mq[k] by {
            let i = choose|i: int| 0 <= i < q.len() && #[trigger] q[i].0 == k;
            lemma_key_index(q, i);
            lemma_key_index(p, i);
        }
        assert(m.dom() =~= mq.dom().insert(e.0)) by {
            assert forall|k: AccountId| m.dom().contains(k) implies mq.dom().contains(k) || k == e.0 by {
                let i = choose|i: int| 0 <= i < p.len() && #[trigger] p[i].0 == k;
                if i < p.len() - 1 {
                    assert(q[i].0 == k);
                }
            }
        }
        let s = m.dom().filter(|k: AccountId| m[k].score == v);
        let t = mq.dom().filter(|k: AccountId| mq[k].score == v);
        mq.dom().lemma_len_filter(|k: AccountId| mq[k].score == v);
        if e.1.score == v {
            assert(s =~= t.insert(e.0));
        } else {
            assert(s =~= t);
        }
    }
}

/// Two ascending lists of the scores of the same candidates are equal.
pub proof fn lemma_lists_scores_unique(m: Map<AccountId, Candidate>, a: Seq<u64>, b: Seq<u64>)
    requires
        lists_scores_of(m, a),
        lists_scores_of(m, b),
    ensures
        a == b,
{
    let leq = |x: u64, y: u64| x <= y;
    assert(a.to_multiset() =~= b.to_multiset()) by {
        assert forall|v: u64| a.to_multiset().count(v) == b.to_multiset().count(v) by {
            assert(a.to_multiset().count(v) == score_count(m, v));
            assert(b.to_multiset().count(v) == score_count(m, v));
        }
    }
    assert(vstd::relations::sorted_by(a, leq)) by {
        assert forall|i: int, j: int| 0 <= i < j < a.len() implies #[trigger] leq(a[i], a[j]) by {}
    }
    assert(vstd::relations::sorted_by(b, leq)) by {
        assert forall|i: int, j: int| 0 <= i < j < b.len() implies #[trigger] leq(b[i], b[j]) by {}
    }
    assert(vstd::relations::total_ordering(leq));
    vstd::seq_lib::lemma_sorted_unique(a, b, leq);
}

/// A list of the scores of `m` in ascending order is the one `sorted_scores` names.
pub proof fn lemma_sorted_scores(m: Map<AccountId, Candidate>, s: Seq<u64>)
    requires
        lists_scores_of(m, s),
    ensures
        sorted_scores(m) == s,
{
    let r = sorted_scores(m);
    assert(lists_scores_of(m, r));
    lemma_lists_scores_unique(m, r, s);
}

/// The position of the first score in the ascending list `s` that is not below `x`.
pub fn lower_bound(s: &Vec<u64>, x: u64) -> (i: usize)
    requires
        ascending(s@),
    ensures
        i <= s.len(),
        forall|j: int| 0 <= j < i ==> s[j] < x,
        forall|j: int| i <= j < s.len() ==> s[j] >= x,
{
    let mut lo: usize = 0;
    let mut hi: usize = s.len();
    while lo < hi
        invariant
            0 <= lo <= hi <= s.len(),
            ascending(s@),
            forall|j: int| 0 <= j < lo ==> s[j] < x,
            forall|j: int| hi <= j < s.len() ==> s[j] >= x,
        decreases hi - lo,
    {
        let mid = lo + (hi - lo) / 2;
        if s[mid] < x {
            lo = mid + 1;
        } else {
            hi = mid;
        }
    }
    lo
}

/// Inserts `x` into the ascending list `s`, which stays ascending.
pub fn insert_sorted(s: &mut Vec<u64>, x: u64)
    requires
        ascending(old(s)@),
    ensures
        ascending(final(s)@),
        final(s)@.to_multiset() == old(s)@.to_multiset().insert(x),
{
    broadcast use vstd::seq_lib::group_to_multiset_ensures;

    let i = lower_bound(s, x);
    s.insert(i, x);
}

/// The scores of the candidates `cands` in ascending order.
pub fn candidate_scores(cands: &StorageMap<AccountId, Candidate>) -> (s: Vec<u64>)
    ensures
        lists_scores_of(cands@, s@),
        s@ == sorted_scores(cands@),
{
    broadcast use vstd::seq_lib::group_to_multiset_ensures;

    let n = cands.len();
    let ghost p = cands.pairs();
    let mut v: Vec<u64> = Vec::new();
    let mut i: usize = 0;
    while i < n
        invariant
            0 <= i <= n,
            n == p.len(),
            p == cands.pairs(),
            ascending(v@),
            v@.to_multiset() == pair_scores(p.take(i as int)).to_multiset(),
        decreases n - i,
    {
        let (_, c) = cands.pair_at(i);
        insert_sorted(&mut v, c.score);
        assert(pair_scores(p.take(i + 1)) =~= pair_scores(p.take(i as int)).push(c.score));
        proof {
            vstd::seq_lib::to_multiset_build(pair_scores(p.take(i as int)), c.score);
        }
        i = i + 1;
    }
    proof {
        assert(p.take(n as int) =~= p);
        assert forall|x: u64| #[trigger] v@.to_multiset().count(x) == score_count(cands@, x) by {
            lemma_pair_scores_count(p, x);
        }
        lemma_sorted_scores(cands@, v@);
    }
    v
}

/// The `n` highest scores of the candidates `cands` (all of them when there are fewer), in
/// ascending order.
pub fn highest_scores(cands: &StorageMap<AccountId, Candidate>, n: u32) -> (r: Vec<u64>)
    ensures
        r@ == top_scores(cands@, n as nat),
        ascending(r@),
        r@.len() <= n,
{
    let s = candidate_scores(cands);
    let len = s.len();
    let keep = n as usize;
    if len > keep {
        let start = len - keep;
        let mut r: Vec<u64> = Vec::new();
        let mut k: usize = start;
        while k < len
            invariant
                start <= k <= len,
                len == s@.len(),
                r@ == s@.subrange(start as int, k as int),
            decreases len - k,
        {
            r.push(s[k]);
            k = k + 1;
        }
        r
    } else {
        s
    }
}

/// In an ascending list, the lower bound of `x` is the position of its first copy, when it
/// holds one.
pub proof fn lemma_lower_bound_first(s: Seq<u64>, x: u64, i: int)
    requires
        ascending(s),
        0 <= i <= s.len(),
        forall|j: int| 0 <= j < i ==> s[j] < x,
        forall|j: int| i <= j < s.len() ==> s[j] >= x,
    ensures
        s.contains(x) <==> (i < s.len() && s[i] == x),
        s.contains(x) ==> first_index(s, x) == i,
        s.contains(x) ==> remove_score(s, x) == s.remove(i),
{
    if i < s.len() && s[i] == x {
        assert(s.contains(x));
        assert(0 <= i < s.len() && s[i] == x && forall|j: int| 0 <= j < i ==> s[j] != x);
        let f = first_index(s, x);
        assert(0 <= f < s.len() && s[f] == x && forall|j: int| 0 <= j < f ==> s[j] != x);
        if f < i {
            assert(s[f] < x);
        }
        if f > i {
            assert(s[i] != x);
        }
    }
    if s.contains(x) {
        let k = choose|k: int| 0 <= k < s.len() && s[k] == x;
        assert(k >= i);
        assert(s[i] <= s[k]);
    }
}

/// Removing an element keeps a list ascending.
pub proof fn lemma_remove_ascending(s: Seq<u64>, i: int)
    requires
        ascending(s),
        0 <= i < s.len(),
    ensures
        ascending(s.remove(i)),
{
    let r = s.remove(i);
    assert forall|a: int, b: int| 0 <= a <= b < r.len() implies r[a] <= r[b] by {
        let a2 = if a < i { a } else { a + 1 };
        let b2 = if b < i { b } else { b + 1 };
        assert(r[a] == s[a2]);
        assert(r[b] == s[b2]);
    }
}

/// A copy of the list `s`.
pub fn copy_scores(s: &Vec<u64>) -> (r: Vec<u64>)
    ensures
        r@ == s@,
{
    let mut r: Vec<u64> = Vec::new();
    let mut k: usize = 0;
    while k < s.len()
        invariant
            0 <= k <= s.len(),
            r@ == s@.subrange(0, k as int),
        decreases s.len() - k,
    {
        r.push(s[k]);
        k = k + 1;
    }
    assert(r@ =~= s@);
    r
}

/// When `s` holds `x`, its first copy exists.
pub proof fn lemma_first_index(s: Seq<u64>, x: u64)
    requires
        s.contains(x),
    ensures
        0 <= first_index(s, x) < s.len(),
        s[first_index(s, x)] == x,
        forall|j: int| 0 <= j < first_index(s, x) ==> s[j] != x,
        remove_score(s, x).len() + 1 == s.len(),
{
    let k = choose|k: int| 0 <= k < s.len() && s[k] == x;
    lemma_first_exists(s, x, k);
}

/// Below a copy of `x` at `k` there is a first copy.
proof fn lemma_first_exists(s: Seq<u64>, x: u64, k: int)
    requires
        0 <= k < s.len(),
        s[k] == x,
    ensures
        exists|i: int| 0 <= i < s.len() && s[i] == x && forall|j: int| 0 <= j < i ==> s[j] != x,
    decreases k,
{
    if exists|j: int| 0 <= j < k && s[j] == x {
        let j = choose|j: int| 0 <= j < k && s[j] == x;
        lemma_first_exists(s, x, j);
    } else {
        assert(0 <= k < s.len() && s[k] == x && forall|j: int| 0 <= j < k ==> s[j] != x);
    }
}

} // verus!
