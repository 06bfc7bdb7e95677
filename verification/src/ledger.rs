//! The balance table of the host ledger, as far as the escrow logic needs it:
//! who holds how many units, with atomic credit and debit.

use vstd::prelude::*;

use crate::kvseq::has_key;
use crate::kvseq::key_index;
use crate::kvseq::key_lookup;
use crate::kvseq::keys_unique;
use crate::kvseq::lemma_key_index;
use crate::kvseq::lemma_key_index_push;
use crate::kvseq::lemma_key_index_same_keys;
use crate::kvseq::lemma_sum_seq_bound;
use crate::kvseq::lemma_sum_seq_nonneg;
use crate::kvseq::lemma_sum_seq_prefix;
use crate::kvseq::lemma_sum_seq_push;
use crate::kvseq::lemma_sum_seq_update;
use crate::kvseq::sum_seq;
use crate::pubkey::Pubkey;

verus! {

/// The balance held by `k`: zero when `k` has no entry.
pub open spec fn balance_of(s: Seq<(Seq<u8>, u64)>, k: Seq<u8>) -> u64 {
    match key_lookup(s, k) {
        Some(v) => v,
        None => 0,
    }
}

/// The table after adding `a` to `k`'s balance; an entry appears on first
/// credit.
pub open spec fn bal_credit(s: Seq<(Seq<u8>, u64)>, k: Seq<u8>, a: u64) -> Seq<(Seq<u8>, u64)> {
    if has_key(s, k) {
        s.update(key_index(s, k), (k, (balance_of(s, k) + a) as u64))
    } else {
        s.push((k, a))
    }
}

/// The table after taking `a` out of `k`'s balance.
pub open spec fn bal_debit(s: Seq<(Seq<u8>, u64)>, k: Seq<u8>, a: u64) -> Seq<(Seq<u8>, u64)> {
    if has_key(s, k) {
        s.update(key_index(s, k), (k, (balance_of(s, k) - a) as u64))
    } else {
        s
    }
}

/// The balances as plain integer weights, for conservation sums.
pub open spec fn bal_weights(s: Seq<(Seq<u8>, u64)>) -> Seq<int> {
    s.map_values(|p: (Seq<u8>, u64)| p.1 as int)
}

/// A balance never exceeds the sum of all balances.
pub proof fn lemma_balance_le_sum(s: Seq<(Seq<u8>, u64)>, k: Seq<u8>)
    ensures
        balance_of(s, k) <= sum_seq(bal_weights(s)),
{
    lemma_key_index(s, k);
    if has_key(s, k) {
        lemma_sum_seq_bound(bal_weights(s), key_index(s, k));
    } else {
        lemma_sum_seq_nonneg(bal_weights(s));
    }
}

/// What a credit does: `k` gains exactly `a`, every other key is untouched,
/// key uniqueness survives, and the sum of balances grows by exactly `a`.
pub proof fn lemma_bal_credit(s: Seq<(Seq<u8>, u64)>, k: Seq<u8>, a: u64)
    requires
        balance_of(s, k) + a <= u64::MAX,
    ensures
        balance_of(bal_credit(s, k, a), k) == balance_of(s, k) + a,
        forall|k2: Seq<u8>| k2 != k ==> #[trigger] key_lookup(bal_credit(s, k, a), k2)
            == key_lookup(s, k2),
        keys_unique(s) ==> keys_unique(bal_credit(s, k, a)),
        sum_seq(bal_weights(bal_credit(s, k, a))) == sum_seq(bal_weights(s)) + a,
    decreases s.len(),
{
    lemma_key_index(s, k);
    let t = bal_credit(s, k, a);
    if has_key(s, k) {
        let i = key_index(s, k);
        assert forall|k2: Seq<u8>| true implies key_index(t, k2) == key_index(s, k2) by {
            lemma_key_index_same_keys(s, t, k2);
        }
        assert forall|k2: Seq<u8>| k2 != k implies #[trigger] key_lookup(t, k2) == key_lookup(
            s,
            k2,
        ) by {
            lemma_key_index(s, k2);
            if has_key(s, k2) {
                assert(s[key_index(s, k2)].0 == k2);
                assert(t[key_index(s, k2)] == s[key_index(s, k2)]);
            }
        }
        assert(bal_weights(t) =~= bal_weights(s).update(i, (balance_of(s, k) + a) as u64 as int));
        lemma_sum_seq_update(bal_weights(s), i, (balance_of(s, k) + a) as int);
    } else {
        assert forall|k2: Seq<u8>| true implies key_index(t, k2) == (if has_key(s, k2) {
            key_index(s, k2)
        } else if k2 == k {
            s.len() as int
        } else {
            -1
        }) by {
            lemma_key_index_push(s, k, a, k2);
        }
        assert forall|k2: Seq<u8>| k2 != k implies #[trigger] key_lookup(t, k2) == key_lookup(
            s,
            k2,
        ) by {
            lemma_key_index(s, k2);
            if has_key(s, k2) {
                assert(t[key_index(s, k2)] == s[key_index(s, k2)]);
            }
        }
        if keys_unique(s) {
            assert forall|i: int, j: int| 0 <= i < j < t.len() implies t[i].0 != t[j].0 by {
                if j == s.len() as int {
                    assert(t[i] == s[i]);
                }
            }
        }
        assert(bal_weights(t) =~= bal_weights(s).push(a as int));
        lemma_sum_seq_push(bal_weights(s), a as int);
    }
}

/// What a debit does: `k` loses exactly `a`, every other key is untouched,
/// key uniqueness survives, and the sum of balances shrinks by exactly `a`.
pub proof fn lemma_bal_debit(s: Seq<(Seq<u8>, u64)>, k: Seq<u8>, a: u64)
    requires
        balance_of(s, k) >= a,
    ensures
        balance_of(bal_debit(s, k, a), k) == balance_of(s, k) - a,
        forall|k2: Seq<u8>| k2 != k ==> #[trigger] key_lookup(bal_debit(s, k, a), k2)
            == key_lookup(s, k2),
        keys_unique(s) ==> keys_unique(bal_debit(s, k, a)),
        sum_seq(bal_weights(bal_debit(s, k, a))) == sum_seq(bal_weights(s)) - a,
{
    lemma_key_index(s, k);
    let t = bal_debit(s, k, a);
    if has_key(s, k) {
        let i = key_index(s, k);
        assert forall|k2: Seq<u8>| true implies key_index(t, k2) == key_index(s, k2) by {
            lemma_key_index_same_keys(s, t, k2);
        }
        assert forall|k2: Seq<u8>| k2 != k implies #[trigger] key_lookup(t, k2) == key_lookup(
            s,
            k2,
        ) by {
            lemma_key_index(s, k2);
            if has_key(s, k2) {
                assert(s[key_index(s, k2)].0 == k2);
                assert(t[key_index(s, k2)] == s[key_index(s, k2)]);
            }
        }
        assert(bal_weights(t) =~= bal_weights(s).update(i, (balance_of(s, k) - a) as u64 as int));
        lemma_sum_seq_update(bal_weights(s), i, (balance_of(s, k) - a) as int);
    }
}

/// The balance table: one entry per funded identity.
pub struct Balances {
    entries: Vec<(Pubkey, u64)>,
}

impl View for Balances {
    type V = Seq<(Seq<u8>, u64)>;

    closed spec fn view(&self) -> Seq<(Seq<u8>, u64)> {
        self.entries@.map_values(|p: (Pubkey, u64)| (p.0@, p.1))
    }
}

impl Balances {
    /// An empty table: nobody holds anything.
    pub fn new() -> (r: Balances)
        ensures
            r@ == Seq::<(Seq<u8>, u64)>::empty(),
    {
        let r = Balances { entries: Vec::new() };
        proof {
            assert(r@ =~= Seq::<(Seq<u8>, u64)>::empty());
        }
        r
    }

    /// The index of `k`'s entry, when it has one.
    fn find(&self, k: &Pubkey) -> (r: Option<usize>)
        ensures
            match r {
                Some(i) => i == key_index(self@, k@) && i < self.entries@.len(),
                None => !has_key(self@, k@),
            },
    {
        let mut i: usize = 0;
        while i < self.entries.len()
            invariant
                i <= self.entries@.len(),
                forall|j: int| 0 <= j < i ==> self@[j].0 != k@,
            decreases self.entries@.len() - i,
        {
            if self.entries[i].0.key_eq(k) {
                proof {
                    lemma_key_index(self@, k@);
                    assert(self@[i as int].0 == k@);
                }
                return Some(i);
            }
            i += 1;
        }
        proof {
            lemma_key_index(self@, k@);
        }
        None
    }

    /// The balance of `k`, zero when `k` has no entry.
    pub fn balance(&self, k: &Pubkey) -> (r: u64)
        ensures
            r == balance_of(self@, k@),
    {
        match self.find(k) {
            Some(i) => self.entries[i].1,
            None => 0,
        }
    }

    /// Adds `a` to `k`'s balance.
    pub fn credit(&mut self, k: Pubkey, a: u64)
        requires
            balance_of(old(self)@, k@) + a <= u64::MAX,
        ensures
            final(self)@ == bal_credit(old(self)@, k@, a),
    {
        proof {
            lemma_key_index(self@, k@);
        }
        match self.find(&k) {
            Some(i) => {
                let (key, v) = self.entries.remove(i);
                self.entries.insert(i, (key, v + a));
                proof {
                    assert(self@ =~= bal_credit(old(self)@, k@, a));
                }
            },
            None => {
                self.entries.push((k, a));
                proof {
                    assert(self@ =~= bal_credit(old(self)@, k@, a));
                }
            },
        }
    }

    /// Takes `a` out of `k`'s balance; the balance must cover it.
    pub fn debit(&mut self, k: &Pubkey, a: u64)
        requires
            balance_of(old(self)@, k@) >= a,
        ensures
            final(self)@ == bal_debit(old(self)@, k@, a),
    {
        proof {
            lemma_key_index(self@, k@);
        }
        match self.find(k) {
            Some(i) => {
                let (key, v) = self.entries.remove(i);
                self.entries.insert(i, (key, v - a));
                proof {
                    assert(self@ =~= bal_debit(old(self)@, k@, a));
                }
            },
            None => {
                proof {
                    assert(self@ =~= bal_debit(old(self)@, k@, a));
                }
            },
        }
    }

    /// The sum of all balances.
    pub fn sum_values(&self) -> (r: u64)
        requires
            sum_seq(bal_weights(self@)) <= u64::MAX,
        ensures
            r as int == sum_seq(bal_weights(self@)),
    {
        let ghost w = bal_weights(self@);
        let mut acc: u64 = 0;
        let mut i: usize = 0;
        proof {
            assert(w.subrange(0, 0) =~= Seq::<int>::empty());
        }
        while i < self.entries.len()
            invariant
                i <= self.entries@.len(),
                w == bal_weights(self@),
                w.len() == self.entries@.len(),
                sum_seq(w) <= u64::MAX,
                acc as int == sum_seq(w.subrange(0, i as int)),
            decreases self.entries@.len() - i,
        {
            let v = self.entries[i].1;
            proof {
                assert(w[i as int] == v as int);
                assert forall|j: int| 0 <= j < w.len() implies w[j] >= 0 by {
                    assert(w[j] == self@[j].1 as int);
                }
                assert(w.subrange(0, i + 1) =~= w.subrange(0, i as int).push(v as int));
                lemma_sum_seq_push(w.subrange(0, i as int), v as int);
                lemma_sum_seq_prefix(w, i + 1);
            }
            acc = acc + v;
            i += 1;
        }
        proof {
            assert(w.subrange(0, self.entries@.len() as int) =~= w);
        }
        acc
    }
}

} // verus!
