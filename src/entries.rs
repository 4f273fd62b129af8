//! Amounts keyed by identity, modelled as a list of `(key, amount)` entries.
//! A key without an entry stands for the amount 0.
use vstd::prelude::*;

verus! {

/// Position of the last entry whose key is `k`, or -1 when there is none.
pub open spec fn index_of<K>(s: Seq<(K, u64)>, k: K) -> int
    decreases s.len(),
{
    if s.len() == 0 {
        -1
    } else if s.last().0 == k {
        s.len() - 1
    } else {
        index_of(s.drop_last(), k)
    }
}

/// The amount recorded for `k`; 0 when `k` has no entry.
pub open spec fn lookup<K>(s: Seq<(K, u64)>, k: K) -> u64 {
    let i = index_of(s, k);
    if i >= 0 {
        s[i].1
    } else {
        0
    }
}

/// The entries with the amount of `k` set to `v`: the entry of `k` is
/// overwritten in place, or a new one is appended at the end.
pub open spec fn put<K>(s: Seq<(K, u64)>, k: K, v: u64) -> Seq<(K, u64)> {
    let i = index_of(s, k);
    if i >= 0 {
        s.update(i, (k, v))
    } else {
        s.push((k, v))
    }
}

/// No key has two entries.
pub open spec fn keys_unique<K>(s: Seq<(K, u64)>) -> bool {
    forall|i: int, j: int| 0 <= i < j < s.len() ==> s[i].0 != s[j].0
}

/// The keys of the entries, in order.
pub open spec fn keys<K>(s: Seq<(K, u64)>) -> Seq<K> {
    s.map_values(|e: (K, u64)| e.0)
}

/// The sum of all recorded amounts.
pub open spec fn total<K>(s: Seq<(K, u64)>) -> int
    decreases s.len(),
{
    if s.len() == 0 {
        0
    } else {
        total(s.drop_last()) + s.last().1
    }
}

/// The sum of the amounts looked up for each of `ids`.
pub open spec fn sum_lookups<K>(s: Seq<(K, u64)>, ids: Seq<K>) -> int
    decreases ids.len(),
{
    if ids.len() == 0 {
        0
    } else {
        sum_lookups(s, ids.drop_last()) + lookup(s, ids.last())
    }
}

pub proof fn lemma_index_of<K>(s: Seq<(K, u64)>, k: K)
    ensures
        -1 <= index_of(s, k) < s.len(),
        index_of(s, k) >= 0 ==> s[index_of(s, k)].0 == k,
        index_of(s, k) >= 0 ==> forall|j: int| index_of(s, k) < j < s.len() ==> s[j].0 != k,
        index_of(s, k) == -1 ==> forall|j: int| 0 <= j < s.len() ==> s[j].0 != k,
    decreases s.len(),
{
    if s.len() > 0 && s.last().0 != k {
        lemma_index_of(s.drop_last(), k);
        assert forall|j: int| 0 <= j < s.len() - 1 implies s[j].0 == s.drop_last()[j].0 by {}
    }
}

/// The last entry with key `k` is the one at `i`.
pub proof fn lemma_index_of_at<K>(s: Seq<(K, u64)>, k: K, i: int)
    requires
        0 <= i < s.len(),
        s[i].0 == k,
        forall|j: int| i < j < s.len() ==> s[j].0 != k,
    ensures
        index_of(s, k) == i,
{
    lemma_index_of(s, k);
    if index_of(s, k) != i {
        assert(s[index_of(s, k)].0 == k);
    }
}

/// Overwriting an amount leaves every key where it was.
pub proof fn lemma_index_of_update<K>(s: Seq<(K, u64)>, i: int, v: u64, w: K)
    requires
        0 <= i < s.len(),
    ensures
        index_of(s.update(i, (s[i].0, v)), w) == index_of(s, w),
    decreases s.len(),
{
    let t = s.update(i, (s[i].0, v));
    if s.len() > 0 && s.last().0 != w && i < s.len() - 1 {
        assert(t.drop_last() =~= s.drop_last().update(i, (s[i].0, v)));
        lemma_index_of_update(s.drop_last(), i, v, w);
    } else if s.len() > 0 && s.last().0 != w {
        assert(t.drop_last() =~= s.drop_last());
    }
}

pub proof fn lemma_lookup_put<K>(s: Seq<(K, u64)>, k: K, v: u64, w: K)
    ensures
        lookup(put(s, k, v), w) == if w == k {
            v
        } else {
            lookup(s, w)
        },
{
    lemma_index_of(s, k);
    lemma_index_of(s, w);
    let i = index_of(s, k);
    if i >= 0 {
        let t = s.update(i, (s[i].0, v));
        assert(put(s, k, v) == t);
        lemma_index_of_update(s, i, v, w);
        lemma_index_of_update(s, i, v, k);
        if w != k && index_of(s, w) >= 0 {
            assert(t[index_of(s, w)] == s[index_of(s, w)]);
        }
    } else {
        let t = s.push((k, v));
        assert(t.drop_last() =~= s);
        assert(t.last() == (k, v));
        if w != k {
            assert(index_of(t, w) == index_of(s, w));
            if index_of(s, w) >= 0 {
                assert(t[index_of(s, w)] == s[index_of(s, w)]);
            }
        }
    }
}

pub proof fn lemma_put_keys_unique<K>(s: Seq<(K, u64)>, k: K, v: u64)
    requires
        keys_unique(s),
    ensures
        keys_unique(put(s, k, v)),
        index_of(s, k) == -1 ==> keys(put(s, k, v)) == keys(s).push(k),
        index_of(s, k) >= 0 ==> keys(put(s, k, v)) == keys(s),
{
    lemma_index_of(s, k);
    let t = put(s, k, v);
    if index_of(s, k) >= 0 {
        assert(keys(t) =~= keys(s));
    } else {
        assert(keys(t) =~= keys(s).push(k));
    }
}

pub proof fn lemma_total_update<K>(s: Seq<(K, u64)>, i: int, e: (K, u64))
    requires
        0 <= i < s.len(),
    ensures
        total(s.update(i, e)) == total(s) - s[i].1 + e.1,
    decreases s.len(),
{
    let t = s.update(i, e);
    if i < s.len() - 1 {
        assert(t.drop_last() =~= s.drop_last().update(i, e));
        lemma_total_update(s.drop_last(), i, e);
    } else {
        assert(t.drop_last() =~= s.drop_last());
    }
}

pub proof fn lemma_total_put<K>(s: Seq<(K, u64)>, k: K, v: u64)
    ensures
        total(put(s, k, v)) == total(s) - lookup(s, k) + v,
{
    lemma_index_of(s, k);
    if index_of(s, k) >= 0 {
        lemma_total_update(s, index_of(s, k), (k, v));
    } else {
        assert(s.push((k, v)).drop_last() =~= s);
    }
}

pub proof fn lemma_total_nonneg<K>(s: Seq<(K, u64)>)
    ensures
        0 <= total(s),
    decreases s.len(),
{
    if s.len() > 0 {
        lemma_total_nonneg(s.drop_last());
    }
}

pub proof fn lemma_entry_le_total<K>(s: Seq<(K, u64)>, i: int)
    requires
        0 <= i < s.len(),
    ensures
        s[i].1 <= total(s),
    decreases s.len(),
{
    lemma_total_nonneg(s.drop_last());
    if i < s.len() - 1 {
        lemma_entry_le_total(s.drop_last(), i);
    }
}

pub proof fn lemma_lookup_le_total<K>(s: Seq<(K, u64)>, k: K)
    ensures
        lookup(s, k) <= total(s),
        0 <= total(s),
{
    lemma_index_of(s, k);
    lemma_total_nonneg(s);
    if index_of(s, k) >= 0 {
        lemma_entry_le_total(s, index_of(s, k));
    }
}

/// Summing lookups over `ids` depends only on what is looked up for them.
pub proof fn lemma_sum_lookups_congruent<K>(s1: Seq<(K, u64)>, s2: Seq<(K, u64)>, ids: Seq<K>)
    requires
        forall|i: int| 0 <= i < ids.len() ==> lookup(s1, ids[i]) == lookup(s2, ids[i]),
    ensures
        sum_lookups(s1, ids) == sum_lookups(s2, ids),
    decreases ids.len(),
{
    if ids.len() > 0 {
        lemma_sum_lookups_congruent(s1, s2, ids.drop_last());
    }
}

/// With unique keys, summing the lookup of every key gives the total.
pub proof fn lemma_sum_lookups_keys<K>(s: Seq<(K, u64)>)
    requires
        keys_unique(s),
    ensures
        sum_lookups(s, keys(s)) == total(s),
    decreases s.len(),
{
    if s.len() > 0 {
        let p = s.drop_last();
        assert(keys(s).drop_last() =~= keys(p));
        assert forall|i: int| 0 <= i < keys(p).len() implies lookup(s, keys(p)[i]) == lookup(
            p,
            keys(p)[i],
        ) by {
            let x = keys(p)[i];
            assert(x == s[i].0);
            assert(s[i].0 != s[s.len() - 1].0);
            assert(index_of(s, x) == index_of(p, x));
            lemma_index_of(p, x);
        }
        lemma_sum_lookups_congruent(s, p, keys(p));
        lemma_sum_lookups_keys(p);
    }
}

/// After `put`, `k` has an entry.
pub proof fn lemma_put_contains<K>(s: Seq<(K, u64)>, k: K, v: u64)
    ensures
        keys(put(s, k, v)).contains(k),
{
    lemma_index_of(s, k);
    let t = put(s, k, v);
    if index_of(s, k) >= 0 {
        assert(keys(t)[index_of(s, k)] == k);
    } else {
        assert(keys(t)[s.len() as int] == k);
    }
}

/// `put` removes no key.
pub proof fn lemma_put_keeps_keys<K>(s: Seq<(K, u64)>, k: K, v: u64, w: K)
    requires
        keys(s).contains(w),
    ensures
        keys(put(s, k, v)).contains(w),
{
    lemma_index_of(s, k);
    let j = choose|j: int| 0 <= j < keys(s).len() && keys(s)[j] == w;
    let t = put(s, k, v);
    assert(keys(t)[j] == w);
}

} // verus!
