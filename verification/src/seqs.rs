//! Sequence helpers shared by the tracking structures: sorting, membership and keyed
//! lookups over vectors of pairs.
use vstd::prelude::*;

verus! {

broadcast use vstd::seq_lib::group_seq_properties, vstd::seq_lib::group_to_multiset_ensures;

/// Whether `s` is in ascending order.
pub open spec fn sorted(s: Seq<u64>) -> bool {
    forall|i: int, j: int| 0 <= i <= j < s.len() ==> s[i] <= s[j]
}

/// Returns the values of `v` in ascending order.
pub fn sort_ascending(v: &Vec<u64>) -> (out: Vec<u64>)
    ensures
        sorted(out@),
        out@.to_multiset() == v@.to_multiset(),
{
    let mut out: Vec<u64> = Vec::new();
    let mut i: usize = 0;
    while i < v.len()
        invariant
            0 <= i <= v@.len(),
            sorted(out@),
            out@.to_multiset() == v@.subrange(0, i as int).to_multiset(),
        decreases v@.len() - i,
    {
        let x = v[i];
        let mut pos: usize = 0;
        while pos < out.len() && out[pos] <= x
            invariant
                0 <= pos <= out@.len(),
                forall|j: int| 0 <= j < pos ==> out@[j] <= x,
            decreases out@.len() - pos,
        {
            pos = pos + 1;
        }
        let ghost before = out@;
        out.insert(pos, x);
        proof {
            vstd::seq_lib::to_multiset_insert(before, pos as int, x);
            before.insert_ensures(pos as int, x);
            assert(out@ == before.insert(pos as int, x));
            assert(v@.subrange(0, i as int + 1) =~= v@.subrange(0, i as int).push(x));
            assert forall|a: int, b: int| 0 <= a <= b < out@.len() implies out@[a] <= out@[b] by {
                if b < pos {
                } else if a > pos {
                    assert(out@[a] == before[a - 1]);
                    assert(out@[b] == before[b - 1]);
                } else if a == pos && b == pos {
                } else if a == pos {
                    assert(out@[b] == before[b - 1]);
                    assert(pos < before.len());
                    assert(!(before[pos as int] <= x));
                    assert(before[pos as int] <= before[b - 1]);
                } else if a < pos && b == pos {
                    assert(out@[a] == before[a]);
                } else {
                    assert(out@[a] == before[a]);
                    assert(out@[b] == before[b - 1]);
                }
            }
        }
        i = i + 1;
    }
    assert(v@.subrange(0, v@.len() as int) =~= v@);
    out
}

/// Whether `x` occurs in `s`.
pub fn contains_u64(s: &[u64], x: u64) -> (b: bool)
    ensures
        b == s@.contains(x),
{
    let mut i: usize = 0;
    while i < s.len()
        invariant
            0 <= i <= s@.len(),
            forall|j: int| 0 <= j < i ==> s@[j] != x,
        decreases s@.len() - i,
    {
        if s[i] == x {
            assert(s@[i as int] == x);
            return true;
        }
        i = i + 1;
    }
    false
}

/// The predicate "does not occur in `removed`".
pub open spec fn not_in(removed: Seq<u64>) -> spec_fn(u64) -> bool {
    |x: u64| !removed.contains(x)
}

/// Filtering keeps exactly the elements that satisfy the predicate, and keeps a sequence
/// free of repeats.
pub proof fn lemma_filter_facts(s: Seq<u64>, p: spec_fn(u64) -> bool)
    ensures
        forall|x: u64| #[trigger] s.filter(p).contains(x) <==> s.contains(x) && p(x),
        s.no_duplicates() ==> s.filter(p).no_duplicates(),
        s.filter(p).len() <= s.len(),
    decreases s.len(),
{
    reveal(Seq::filter);
    if s.len() > 0 {
        let d = s.drop_last();
        let x = s.last();
        lemma_filter_facts(d, p);
        assert(s =~= d.push(x));
        assert forall|y: u64| #[trigger] s.filter(p).contains(y) <==> s.contains(y) && p(y) by {
            if s.filter(p).contains(y) {
                if p(x) {
                    assert(s.filter(p) =~= d.filter(p).push(x));
                    if y != x {
                        let k = choose|k: int| 0 <= k < s.filter(p).len() && s.filter(p)[k] == y;
                        assert(d.filter(p)[k] == y);
                        assert(d.filter(p).contains(y));
                    }
                } else {
                    assert(s.filter(p) =~= d.filter(p));
                }
            }
            if s.contains(y) && p(y) {
                let k = choose|k: int| 0 <= k < s.len() && s[k] == y;
                if k < d.len() {
                    assert(d[k] == y);
                    assert(d.filter(p).contains(y));
                    let j = choose|j: int| 0 <= j < d.filter(p).len() && d.filter(p)[j] == y;
                    if p(x) {
                        assert(s.filter(p)[j] == y);
                    } else {
                        assert(s.filter(p) =~= d.filter(p));
                    }
                } else {
                    assert(s.filter(p) =~= d.filter(p).push(x));
                    assert(s.filter(p)[d.filter(p).len() as int] == y);
                }
            }
        }
        if s.no_duplicates() {
            assert(d.no_duplicates()) by {
                assert forall|i: int, j: int| 0 <= i < d.len() && 0 <= j < d.len() && i != j implies d[i] != d[j] by {
                    assert(d[i] == s[i] && d[j] == s[j]);
                }
            }
            if p(x) {
                let f = s.filter(p);
                assert(f =~= d.filter(p).push(x));
                assert(!d.contains(x)) by {
                    if d.contains(x) {
                        let k = choose|k: int| 0 <= k < d.len() && d[k] == x;
                        assert(s[k] == s[s.len() - 1]);
                    }
                }
                assert(!d.filter(p).contains(x));
                assert forall|i: int, j: int| 0 <= i < f.len() && 0 <= j < f.len() && i != j implies f[i] != f[j] by {
                    if i < f.len() - 1 && j < f.len() - 1 {
                        assert(f[i] == d.filter(p)[i] && f[j] == d.filter(p)[j]);
                    } else if i == f.len() - 1 {
                        assert(f[j] == d.filter(p)[j]);
                        assert(d.filter(p).contains(f[j]));
                    } else {
                        assert(f[i] == d.filter(p)[i]);
                        assert(d.filter(p).contains(f[i]));
                    }
                }
            } else {
                assert(s.filter(p) =~= d.filter(p));
            }
        }
    }
}

/// The values of `v` that do not occur in `removed`, in their order.
pub fn without_values(v: &Vec<u64>, removed: &[u64]) -> (out: Vec<u64>)
    ensures
        out@ == v@.filter(not_in(removed@)),
{
    let ghost pred = not_in(removed@);
    let mut out: Vec<u64> = Vec::new();
    let mut i: usize = 0;
    while i < v.len()
        invariant
            0 <= i <= v@.len(),
            out@ == v@.subrange(0, i as int).filter(pred),
            pred == not_in(removed@),
        decreases v@.len() - i,
    {
        let x = v[i];
        proof {
            assert(v@.subrange(0, i as int + 1) =~= v@.subrange(0, i as int).push(x));
            v@.subrange(0, i as int).lemma_filter_push(x, pred);
            assert(pred(x) == !removed@.contains(x));
        }
        if !contains_u64(removed, x) {
            out.push(x);
        }
        i = i + 1;
    }
    assert(v@.subrange(0, v@.len() as int) =~= v@);
    out
}

/// Whether the first components of the pairs in `s` are pairwise distinct.
pub open spec fn keys_distinct<K, V>(s: Seq<(K, V)>) -> bool {
    forall|i: int, j: int| 0 <= i < s.len() && 0 <= j < s.len() && i != j ==> s[i].0 != s[j].0
}

/// Whether some pair of `s` has key `k`.
pub open spec fn has_key<K, V>(s: Seq<(K, V)>, k: K) -> bool {
    exists|i: int| 0 <= i < s.len() && s[i].0 == k
}

/// The value paired with `k` in `s` (meaningful when `k` occurs).
pub open spec fn value_of<K, V>(s: Seq<(K, V)>, k: K) -> V {
    s[choose|i: int| 0 <= i < s.len() && s[i].0 == k].1
}

/// The map from keys to values that a vector of pairs with distinct keys stands for.
pub open spec fn pairs_map<K, V>(s: Seq<(K, V)>) -> Map<K, V> {
    Map::new(|k: K| has_key(s, k), |k: K| value_of(s, k))
}

/// With distinct keys, the value of the key at index `i` is the value at index `i`.
pub proof fn lemma_value_at<K, V>(s: Seq<(K, V)>, i: int)
    requires
        keys_distinct(s),
        0 <= i < s.len(),
    ensures
        has_key(s, s[i].0),
        value_of(s, s[i].0) == s[i].1,
        pairs_map(s)[s[i].0] == s[i].1,
{
    assert(has_key(s, s[i].0));
    let j = choose|j: int| 0 <= j < s.len() && s[j].0 == s[i].0;
    assert(j == i);
}

} // verus!
