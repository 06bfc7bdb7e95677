//! Spec-level machinery for keyed sequences: association lists of
//! `(key, value)` pairs, first-match lookup, key uniqueness, and sums of
//! integer weights. The balance table and the vault store are both modelled
//! this way.

use vstd::prelude::*;

verus! {

/// The index of the first entry whose key is `k`, or `-1` when no entry has it.
pub open spec fn key_index<V>(s: Seq<(Seq<u8>, V)>, k: Seq<u8>) -> int
    decreases s.len(),
{
    if s.len() == 0 {
        -1
    } else if s[0].0 == k {
        0
    } else {
        let r = key_index(s.drop_first(), k);
        if r < 0 {
            -1
        } else {
            r + 1
        }
    }
}

/// Whether some entry has key `k`.
pub open spec fn has_key<V>(s: Seq<(Seq<u8>, V)>, k: Seq<u8>) -> bool {
    key_index(s, k) >= 0
}

/// The value stored under `k`, when present.
pub open spec fn key_lookup<V>(s: Seq<(Seq<u8>, V)>, k: Seq<u8>) -> Option<V> {
    if has_key(s, k) {
        Some(s[key_index(s, k)].1)
    } else {
        None
    }
}

/// No two entries share a key.
pub open spec fn keys_unique<V>(s: Seq<(Seq<u8>, V)>) -> bool {
    forall|i: int, j: int| 0 <= i < j < s.len() ==> s[i].0 != s[j].0
}

/// What `key_index` means entry by entry: it is in range, it lands on `k`,
/// nothing before it has `k`, and `-1` means no entry has `k` at all.
pub proof fn lemma_key_index<V>(s: Seq<(Seq<u8>, V)>, k: Seq<u8>)
    ensures
        -1 <= key_index(s, k) < s.len(),
        key_index(s, k) >= 0 ==> s[key_index(s, k)].0 == k,
        key_index(s, k) == -1 ==> forall|j: int| 0 <= j < s.len() ==> s[j].0 != k,
        forall|j: int| 0 <= j < s.len() && s[j].0 == k ==> 0 <= key_index(s, k) <= j,
    decreases s.len(),
{
    if s.len() == 0 {
    } else if s[0].0 == k {
    } else {
        let t = s.drop_first();
        lemma_key_index(t, k);
        assert forall|j: int| 0 <= j < s.len() && s[j].0 == k implies 0 <= key_index(s, k) <= j by {
            assert(t[j - 1] == s[j]);
        }
        if key_index(s, k) == -1 {
            assert forall|j: int| 0 <= j < s.len() implies s[j].0 != k by {
                if j > 0 {
                    assert(t[j - 1] == s[j]);
                }
            }
        } else {
            assert(t[key_index(t, k)] == s[key_index(s, k)]);
        }
    }
}

/// Pushing an entry: an already-present key keeps its index, the pushed key is
/// found at the end when it was absent, and every other key stays absent.
pub proof fn lemma_key_index_push<V>(s: Seq<(Seq<u8>, V)>, k: Seq<u8>, v: V, k2: Seq<u8>)
    ensures
        key_index(s.push((k, v)), k2) == if has_key(s, k2) {
            key_index(s, k2)
        } else if k2 == k {
            s.len() as int
        } else {
            -1
        },
    decreases s.len(),
{
    if s.len() == 0 {
        assert(key_index(Seq::<(Seq<u8>, V)>::empty(), k2) == -1);
        assert(s =~= Seq::<(Seq<u8>, V)>::empty());
        assert(s.push((k, v)).drop_first() =~= Seq::<(Seq<u8>, V)>::empty());
    } else {
        lemma_key_index_push(s.drop_first(), k, v, k2);
        assert(s.push((k, v)).drop_first() =~= s.drop_first().push((k, v)));
    }
}

/// Two sequences with the same keys in the same places index every key alike.
pub proof fn lemma_key_index_same_keys<V>(s: Seq<(Seq<u8>, V)>, t: Seq<(Seq<u8>, V)>, k: Seq<u8>)
    requires
        s.len() == t.len(),
        forall|i: int| 0 <= i < s.len() ==> s[i].0 == t[i].0,
    ensures
        key_index(s, k) == key_index(t, k),
    decreases s.len(),
{
    if s.len() > 0 {
        lemma_key_index_same_keys(s.drop_first(), t.drop_first(), k);
    }
}

/// Removing the entry of `k` under unique keys: `k` is gone afterwards, and
/// every other key keeps its value.
pub proof fn lemma_key_remove<V>(s: Seq<(Seq<u8>, V)>, k: Seq<u8>, k2: Seq<u8>)
    requires
        keys_unique(s),
        has_key(s, k),
    ensures
        ({
            let t = s.remove(key_index(s, k));
            if k2 == k {
                !has_key(t, k2)
            } else {
                key_lookup(t, k2) == key_lookup(s, k2)
            }
        }),
{
    let i = key_index(s, k);
    lemma_key_index(s, k);
    let t = s.remove(i);
    s.remove_ensures(i);
    lemma_key_index(t, k2);
    lemma_key_index(s, k2);
    if k2 == k {
        if has_key(t, k2) {
            let y = key_index(t, k2);
            let jy: int = if y < i { y } else { y + 1 };
            assert(t[y] == s[jy]);
            assert(s[jy].0 == k && s[i].0 == k && jy != i);
        }
    } else {
        if has_key(s, k2) {
            let j = key_index(s, k2);
            let x: int = if j < i { j } else { j - 1 };
            assert(t[x] == s[j]);
            assert(has_key(t, k2));
            let y = key_index(t, k2);
            let jy: int = if y < i { y } else { y + 1 };
            assert(t[y] == s[jy]);
            assert(s[jy].0 == k2 && s[j].0 == k2);
            assert(jy == j);
        } else {
            if has_key(t, k2) {
                let y = key_index(t, k2);
                let jy: int = if y < i { y } else { y + 1 };
                assert(t[y] == s[jy]);
            }
        }
    }
}

/// The sum of a sequence of integers.
pub open spec fn sum_seq(s: Seq<int>) -> int
    decreases s.len(),
{
    if s.len() == 0 {
        0
    } else {
        s[0] + sum_seq(s.drop_first())
    }
}

/// A sum of non-negative terms is non-negative.
pub proof fn lemma_sum_seq_nonneg(s: Seq<int>)
    requires
        forall|i: int| 0 <= i < s.len() ==> s[i] >= 0,
    ensures
        sum_seq(s) >= 0,
    decreases s.len(),
{
    if s.len() > 0 {
        lemma_sum_seq_nonneg(s.drop_first());
    }
}

/// Appending a term adds it to the sum.
pub proof fn lemma_sum_seq_push(s: Seq<int>, v: int)
    ensures
        sum_seq(s.push(v)) == sum_seq(s) + v,
    decreases s.len(),
{
    if s.len() == 0 {
        assert(sum_seq(Seq::<int>::empty()) == 0);
        assert(s =~= Seq::<int>::empty());
        assert(s.push(v).drop_first() =~= Seq::<int>::empty());
    } else {
        lemma_sum_seq_push(s.drop_first(), v);
        assert(s.push(v).drop_first() =~= s.drop_first().push(v));
    }
}

/// Replacing a term moves the sum by the difference.
pub proof fn lemma_sum_seq_update(s: Seq<int>, i: int, v: int)
    requires
        0 <= i < s.len(),
    ensures
        sum_seq(s.update(i, v)) == sum_seq(s) - s[i] + v,
    decreases s.len(),
{
    if i == 0 {
        assert(s.update(0, v).drop_first() =~= s.drop_first());
    } else {
        lemma_sum_seq_update(s.drop_first(), i - 1, v);
        assert(s.update(i, v).drop_first() =~= s.drop_first().update(i - 1, v));
        assert(s.update(i, v)[0] == s[0]);
    }
}

/// Removing a term takes it out of the sum.
pub proof fn lemma_sum_seq_remove(s: Seq<int>, i: int)
    requires
        0 <= i < s.len(),
    ensures
        sum_seq(s.remove(i)) == sum_seq(s) - s[i],
    decreases s.len(),
{
    if i == 0 {
        assert(s.remove(0) =~= s.drop_first());
    } else {
        lemma_sum_seq_remove(s.drop_first(), i - 1);
        assert(s.remove(i).drop_first() =~= s.drop_first().remove(i - 1));
        assert(s.remove(i)[0] == s[0]);
    }
}

/// Each non-negative term is at most the whole sum.
pub proof fn lemma_sum_seq_bound(s: Seq<int>, i: int)
    requires
        forall|j: int| 0 <= j < s.len() ==> s[j] >= 0,
        0 <= i < s.len(),
    ensures
        s[i] <= sum_seq(s),
    decreases s.len(),
{
    if i == 0 {
        lemma_sum_seq_nonneg(s.drop_first());
    } else {
        lemma_sum_seq_bound(s.drop_first(), i - 1);
        assert(s[0] >= 0);
    }
}

/// A sum splits over concatenation.
pub proof fn lemma_sum_seq_concat(a: Seq<int>, b: Seq<int>)
    ensures
        sum_seq(a + b) == sum_seq(a) + sum_seq(b),
    decreases a.len(),
{
    if a.len() == 0 {
        assert(a + b =~= b);
    } else {
        lemma_sum_seq_concat(a.drop_first(), b);
        assert((a + b).drop_first() =~= a.drop_first() + b);
        assert((a + b)[0] == a[0]);
    }
}

/// A prefix of non-negative terms sums to at most the whole.
pub proof fn lemma_sum_seq_prefix(s: Seq<int>, i: int)
    requires
        forall|j: int| 0 <= j < s.len() ==> s[j] >= 0,
        0 <= i <= s.len(),
    ensures
        sum_seq(s.subrange(0, i)) <= sum_seq(s),
{
    assert(s =~= s.subrange(0, i) + s.subrange(i, s.len() as int));
    lemma_sum_seq_concat(s.subrange(0, i), s.subrange(i, s.len() as int));
    lemma_sum_seq_nonneg(s.subrange(i, s.len() as int));
}

} // verus!
