//! The vault store: durable keyed storage of escrow records, addressed by the
//! deterministic vault address. A record exists exactly while its funds are
//! held, so presence in the store is the whole escrow state.

use vstd::prelude::*;

use crate::errors::ErrorCode;
use crate::kvseq::has_key;
use crate::kvseq::key_index;
use crate::kvseq::key_lookup;
use crate::kvseq::keys_unique;
use crate::kvseq::lemma_key_index;
use crate::kvseq::lemma_key_index_push;
use crate::kvseq::lemma_key_remove;
use crate::kvseq::lemma_sum_seq_bound;
use crate::kvseq::lemma_sum_seq_prefix;
use crate::kvseq::lemma_sum_seq_push;
use crate::kvseq::lemma_sum_seq_remove;
use crate::kvseq::sum_seq;
use crate::pubkey::Pubkey;

verus! {

/// One escrow record: a deposit of `amount` by `sender` for `receiver`,
/// claimable from `timestamp` on, with the canonicalization nonce `bump` of
/// its derived address.
pub struct Bank {
    pub sender: Pubkey,
    pub receiver: Pubkey,
    pub amount: u64,
    pub timestamp: i64,
    pub bump: u8,
}

/// The mathematical image of a record: its identities as byte sequences.
pub struct BankV {
    pub sender: Seq<u8>,
    pub receiver: Seq<u8>,
    pub amount: u64,
    pub timestamp: i64,
    pub bump: u8,
}

impl View for Bank {
    type V = BankV;

    open spec fn view(&self) -> BankV {
        BankV {
            sender: self.sender@,
            receiver: self.receiver@,
            amount: self.amount,
            timestamp: self.timestamp,
            bump: self.bump,
        }
    }
}

/// The held amounts as plain integer weights, for conservation sums.
pub open spec fn vault_weights(s: Seq<(Seq<u8>, BankV)>) -> Seq<int> {
    s.map_values(|p: (Seq<u8>, BankV)| p.1.amount as int)
}

/// A held amount never exceeds the sum of all held amounts.
pub proof fn lemma_amount_le_sum(s: Seq<(Seq<u8>, BankV)>, k: Seq<u8>, b: BankV)
    requires
        key_lookup(s, k) == Some(b),
    ensures
        b.amount <= sum_seq(vault_weights(s)),
{
    lemma_key_index(s, k);
    assert forall|j: int| 0 <= j < vault_weights(s).len() implies vault_weights(s)[j] >= 0 by {
        assert(vault_weights(s)[j] == s[j].1.amount as int);
    }
    lemma_sum_seq_bound(vault_weights(s), key_index(s, k));
}

/// What storing a fresh record does: it is found afterwards, every other
/// address is untouched, key uniqueness survives, and the sum of held amounts
/// grows by exactly its amount.
pub proof fn lemma_vault_push(s: Seq<(Seq<u8>, BankV)>, k: Seq<u8>, b: BankV)
    requires
        !has_key(s, k),
    ensures
        key_lookup(s.push((k, b)), k) == Some(b),
        forall|k2: Seq<u8>| k2 != k ==> #[trigger] key_lookup(s.push((k, b)), k2) == key_lookup(
            s,
            k2,
        ),
        keys_unique(s) ==> keys_unique(s.push((k, b))),
        sum_seq(vault_weights(s.push((k, b)))) == sum_seq(vault_weights(s)) + b.amount,
{
    let t = s.push((k, b));
    lemma_key_index(s, k);
    lemma_key_index_push(s, k, b, k);
    assert forall|k2: Seq<u8>| k2 != k implies #[trigger] key_lookup(t, k2) == key_lookup(
        s,
        k2,
    ) by {
        lemma_key_index_push(s, k, b, k2);
        lemma_key_index(s, k2);
        if has_key(s, k2) {
            assert(t[key_index(s, k2)] == s[key_index(s, k2)]);
        }
    }
    if keys_unique(s) {
        assert forall|i: int, j: int| 0 <= i < j < t.len() implies t[i].0 != t[j].0 by {
            if j == s.len() as int {
                assert(t[i] == s[i]);
            }
        }
    }
    assert(vault_weights(t) =~= vault_weights(s).push(b.amount as int));
    lemma_sum_seq_push(vault_weights(s), b.amount as int);
}

/// What closing a record does under unique keys: its address is empty
/// afterwards, every other address is untouched, key uniqueness survives, and
/// the sum of held amounts shrinks by exactly its amount.
pub proof fn lemma_vault_remove(s: Seq<(Seq<u8>, BankV)>, k: Seq<u8>, b: BankV)
    requires
        keys_unique(s),
        key_lookup(s, k) == Some(b),
    ensures
        ({
            let t = s.remove(key_index(s, k));
            &&& !has_key(t, k)
            &&& forall|k2: Seq<u8>| k2 != k ==> #[trigger] key_lookup(t, k2) == key_lookup(s, k2)
            &&& keys_unique(t)
            &&& sum_seq(vault_weights(t)) == sum_seq(vault_weights(s)) - b.amount
        }),
{
    let i = key_index(s, k);
    lemma_key_index(s, k);
    let t = s.remove(i);
    s.remove_ensures(i);
    lemma_key_remove(s, k, k);
    assert forall|k2: Seq<u8>| k2 != k implies #[trigger] key_lookup(t, k2) == key_lookup(
        s,
        k2,
    ) by {
        lemma_key_remove(s, k, k2);
    }
    assert forall|x: int, y: int| 0 <= x < y < t.len() implies t[x].0 != t[y].0 by {
        let sx: int = if x < i {
            x
        } else {
            x + 1
        };
        let sy: int = if y < i {
            y
        } else {
            y + 1
        };
        assert(t[x] == s[sx] && t[y] == s[sy]);
    }
    assert(vault_weights(t) =~= vault_weights(s).remove(i));
    lemma_sum_seq_remove(vault_weights(s), i);
}

/// Durable keyed storage of escrow records.
pub struct VaultStore {
    entries: Vec<(Pubkey, Bank)>,
}

impl View for VaultStore {
    type V = Seq<(Seq<u8>, BankV)>;

    closed spec fn view(&self) -> Seq<(Seq<u8>, BankV)> {
        self.entries@.map_values(|p: (Pubkey, Bank)| (p.0@, p.1@))
    }
}

impl VaultStore {
    /// An empty store: no escrow is held.
    pub fn new() -> (r: VaultStore)
        ensures
            r@ == Seq::<(Seq<u8>, BankV)>::empty(),
    {
        let r = VaultStore { entries: Vec::new() };
        proof {
            assert(r@ =~= Seq::<(Seq<u8>, BankV)>::empty());
        }
        r
    }

    /// The index of the record stored at `address`, when one exists.
    fn find(&self, address: &Pubkey) -> (r: Option<usize>)
        ensures
            match r {
                Some(i) => i == key_index(self@, address@) && i < self.entries@.len(),
                None => !has_key(self@, address@),
            },
    {
        let mut i: usize = 0;
        while i < self.entries.len()
            invariant
                i <= self.entries@.len(),
                forall|j: int| 0 <= j < i ==> self@[j].0 != address@,
            decreases self.entries@.len() - i,
        {
            if self.entries[i].0.key_eq(address) {
                proof {
                    lemma_key_index(self@, address@);
                    assert(self@[i as int].0 == address@);
                }
                return Some(i);
            }
            i += 1;
        }
        proof {
            lemma_key_index(self@, address@);
        }
        None
    }

    /// Whether a record is held at `address`.
    pub fn has_record(&self, address: &Pubkey) -> (r: bool)
        ensures
            r == has_key(self@, address@),
    {
        self.find(address).is_some()
    }

    /// Writes a record at `address`; an address already holding one rejects
    /// the write untouched.
    pub fn create_record(&mut self, address: Pubkey, record: Bank) -> (r: Result<(), ErrorCode>)
        ensures
            has_key(old(self)@, address@) ==> r == Err::<(), ErrorCode>(ErrorCode::AlreadyExists)
                && final(self)@ == old(self)@,
            !has_key(old(self)@, address@) ==> r == Ok::<(), ErrorCode>(()) && final(self)@ == old(
                self,
            )@.push((address@, record@)),
    {
        match self.find(&address) {
            Some(_) => Err(ErrorCode::AlreadyExists),
            None => {
                self.entries.push((address, record));
                proof {
                    assert(self@ =~= old(self)@.push((address@, record@)));
                }
                Ok(())
            },
        }
    }

    /// Reads the record held at `address`.
    pub fn read_record(&self, address: &Pubkey) -> (r: Result<&Bank, ErrorCode>)
        ensures
            match r {
                Ok(b) => key_lookup(self@, address@) == Some(b@),
                Err(e) => e == ErrorCode::NotFound && !has_key(self@, address@),
            },
    {
        match self.find(address) {
            Some(i) => {
                let b = &self.entries[i].1;
                proof {
                    assert(self@[key_index(self@, address@)].1 == b@);
                }
                Ok(b)
            },
            None => Err(ErrorCode::NotFound),
        }
    }

    /// Deletes the record held at `address` and hands it back, so the caller
    /// can release its funds and return custody of the storage cost.
    pub fn close_record(&mut self, address: &Pubkey) -> (r: Result<Bank, ErrorCode>)
        ensures
            match r {
                Ok(b) => key_lookup(old(self)@, address@) == Some(b@) && final(self)@ == old(
                    self,
                )@.remove(key_index(old(self)@, address@)),
                Err(e) => e == ErrorCode::NotFound && !has_key(old(self)@, address@) && final(self)@
                    == old(self)@,
            },
    {
        match self.find(address) {
            Some(i) => {
                let (_addr, bank) = self.entries.remove(i);
                proof {
                    assert(self@ =~= old(self)@.remove(key_index(old(self)@, address@)));
                }
                Ok(bank)
            },
            None => Err(ErrorCode::NotFound),
        }
    }

    /// The sum of all held amounts.
    pub fn sum_amounts(&self) -> (r: u64)
        requires
            sum_seq(vault_weights(self@)) <= u64::MAX,
        ensures
            r as int == sum_seq(vault_weights(self@)),
    {
        let ghost w = vault_weights(self@);
        let mut acc: u64 = 0;
        let mut i: usize = 0;
        proof {
            assert(w.subrange(0, 0) =~= Seq::<int>::empty());
        }
        while i < self.entries.len()
            invariant
                i <= self.entries@.len(),
                w == vault_weights(self@),
                w.len() == self.entries@.len(),
                sum_seq(w) <= u64::MAX,
                acc as int == sum_seq(w.subrange(0, i as int)),
            decreases self.entries@.len() - i,
        {
            let v = self.entries[i].1.amount;
            proof {
                assert(w[i as int] == v as int);
                assert forall|j: int| 0 <= j < w.len() implies w[j] >= 0 by {
                    assert(w[j] == self@[j].1.amount as int);
                }
                assert(w.subrange(0, i + 1) =~= w.subrange(0, i as int).push(v as int));
                lemma_sum_seq_push(w.subrange(0, i as int), v as int);
                lemma_sum_seq_prefix(w, i + 1);
            }
            acc = acc + v;
            i += 1;
        }
        proof {
            assert(w.subrange(0, self.entries@.len() as int) =~= w);
        }
        acc
    }
}

} // verus!
