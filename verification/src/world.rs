//! The world the escrow logic acts on: the balance table and the vault store,
//! tied together by one invariant — keys are unique on both sides, and the
//! total supply (free balances plus held amounts) fits the ledger's unit.

use vstd::prelude::*;

use crate::errors::ErrorCode;
use crate::kvseq::keys_unique;
use crate::kvseq::lemma_sum_seq_nonneg;
use crate::kvseq::sum_seq;
use crate::ledger::bal_credit;
use crate::ledger::bal_weights;
use crate::ledger::balance_of;
use crate::ledger::lemma_bal_credit;
use crate::ledger::lemma_balance_le_sum;
use crate::ledger::Balances;
use crate::pubkey::Pubkey;
use crate::store::vault_weights;
use crate::store::Bank;
use crate::store::BankV;
use crate::store::VaultStore;

verus! {

/// The mathematical image of a world.
pub struct WorldV {
    pub balances: Seq<(Seq<u8>, u64)>,
    pub vault: Seq<(Seq<u8>, BankV)>,
}

/// All funds in existence: free balances plus amounts held in escrow.
pub open spec fn total(w: WorldV) -> int {
    sum_seq(bal_weights(w.balances)) + sum_seq(vault_weights(w.vault))
}

/// Well-formedness: unique keys on both tables, and a total supply the
/// ledger's 64-bit unit can carry.
pub open spec fn wf_world(w: WorldV) -> bool {
    &&& keys_unique(w.balances)
    &&& keys_unique(w.vault)
    &&& total(w) <= u64::MAX
}

/// Every weight in a world is non-negative.
pub proof fn lemma_weights_nonneg(w: WorldV)
    ensures
        forall|j: int| 0 <= j < bal_weights(w.balances).len() ==> bal_weights(w.balances)[j] >= 0,
        forall|j: int| 0 <= j < vault_weights(w.vault).len() ==> vault_weights(w.vault)[j] >= 0,
        sum_seq(bal_weights(w.balances)) >= 0,
        sum_seq(vault_weights(w.vault)) >= 0,
{
    assert forall|j: int| 0 <= j < bal_weights(w.balances).len() implies bal_weights(w.balances)[j]
        >= 0 by {
        assert(bal_weights(w.balances)[j] == w.balances[j].1 as int);
    }
    assert forall|j: int| 0 <= j < vault_weights(w.vault).len() implies vault_weights(
        w.vault,
    )[j] >= 0 by {
        assert(vault_weights(w.vault)[j] == w.vault[j].1.amount as int);
    }
    lemma_sum_seq_nonneg(bal_weights(w.balances));
    lemma_sum_seq_nonneg(vault_weights(w.vault));
}

/// The persistent state of the escrow system.
pub struct World {
    pub(crate) balances: Balances,
    pub(crate) vault: VaultStore,
}

impl View for World {
    type V = WorldV;

    open(crate) spec fn view(&self) -> WorldV {
        WorldV { balances: self.balances@, vault: self.vault@ }
    }
}

impl World {
    /// Well-formedness of the state; every public operation preserves it.
    pub open spec fn wf(&self) -> bool {
        wf_world(self@)
    }

    /// An empty world: no balances, no escrows.
    pub fn new() -> (w: World)
        ensures
            w.wf(),
            w@.balances == Seq::<(Seq<u8>, u64)>::empty(),
            w@.vault == Seq::<(Seq<u8>, BankV)>::empty(),
    {
        let w = World { balances: Balances::new(), vault: VaultStore::new() };
        proof {
            assert(bal_weights(w@.balances) =~= Seq::<int>::empty());
            assert(vault_weights(w@.vault) =~= Seq::<int>::empty());
            assert(sum_seq(Seq::<int>::empty()) == 0);
        }
        w
    }

    /// The free balance of `k`.
    pub fn balance(&self, k: &Pubkey) -> (r: u64)
        ensures
            r == balance_of(self@.balances, k@),
    {
        self.balances.balance(k)
    }

    /// Whether an escrow record is held at `address`.
    pub fn has_record(&self, address: &Pubkey) -> (r: bool)
        ensures
            r == crate::kvseq::has_key(self@.vault, address@),
    {
        self.vault.has_record(address)
    }

    /// Reads the escrow record held at `address`.
    pub fn read_record(&self, address: &Pubkey) -> (r: Result<&Bank, ErrorCode>)
        ensures
            match r {
                Ok(b) => crate::kvseq::key_lookup(self@.vault, address@) == Some(b@),
                Err(e) => e == ErrorCode::NotFound && !crate::kvseq::has_key(self@.vault, address@),
            },
    {
        self.vault.read_record(address)
    }

    /// All funds in existence.
    pub fn total_supply(&self) -> (r: u64)
        requires
            self.wf(),
        ensures
            r as int == total(self@),
    {
        proof {
            lemma_weights_nonneg(self@);
        }
        let free = self.balances.sum_values();
        let held = self.vault.sum_amounts();
        free + held
    }

    /// Mints `amount` new units for `k`, as the host ledger does when an
    /// account is funded from outside the escrow system. Refuses (and changes
    /// nothing) when the new total would not fit the ledger's unit.
    pub fn fund(&mut self, k: Pubkey, amount: u64) -> (r: bool)
        requires
            old(self).wf(),
        ensures
            final(self).wf(),
            r == (total(old(self)@) + amount <= u64::MAX),
            r ==> final(self)@ == (WorldV {
                balances: bal_credit(old(self)@.balances, k@, amount),
                vault: old(self)@.vault,
            }),
            !r ==> final(self)@ == old(self)@,
    {
        let t = self.total_supply();
        if amount > u64::MAX - t {
            return false;
        }
        proof {
            lemma_balance_le_sum(self@.balances, k@);
            lemma_weights_nonneg(self@);
            lemma_bal_credit(self@.balances, k@, amount);
        }
        self.balances.credit(k, amount);
        true
    }
}

} // verus!
