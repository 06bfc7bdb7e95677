//! The two request handlers. Each executes as one atomic step: every failure
//! leaves the world exactly as it was, and each handler's contract says it
//! behaves as the corresponding spec-level transition function.

use vstd::prelude::*;

use crate::derive::derive_address;
use crate::derive::pda_of;
use crate::errors::ErrorCode;
use crate::kvseq::has_key;
use crate::kvseq::key_index;
use crate::kvseq::key_lookup;
use crate::ledger::bal_credit;
use crate::ledger::bal_debit;
use crate::ledger::balance_of;
use crate::ledger::lemma_bal_credit;
use crate::ledger::lemma_bal_debit;
use crate::ledger::lemma_balance_le_sum;
use crate::pubkey::Pubkey;
use crate::seed::decimal_seq;
use crate::store::lemma_amount_le_sum;
use crate::store::lemma_vault_push;
use crate::store::lemma_vault_remove;
use crate::store::Bank;
use crate::store::BankV;
use crate::world::World;
use crate::world::WorldV;

verus! {

/// What a create request does to a world: derive the address, reject a held
/// triple or an uncovered amount, otherwise move the funds from the sender's
/// balance into a fresh record. On any error the world is unchanged.
pub open spec fn create_step(
    w: WorldV,
    sender: Seq<u8>,
    receiver: Seq<u8>,
    timestamp: i64,
    amount: u64,
) -> (WorldV, Result<(), ErrorCode>) {
    match pda_of(sender, receiver, decimal_seq(timestamp as int)) {
        None => (w, Err(ErrorCode::InvalidSeed)),
        Some(p) => if has_key(w.vault, p.0) {
            (w, Err(ErrorCode::AlreadyExists))
        } else if balance_of(w.balances, sender) < amount {
            (w, Err(ErrorCode::InsufficientFunds))
        } else {
            (
                WorldV {
                    balances: bal_debit(w.balances, sender, amount),
                    vault: w.vault.push(
                        (p.0, BankV { sender, receiver, amount, timestamp, bump: p.1 }),
                    ),
                },
                Ok(()),
            )
        },
    }
}

/// The record a withdraw request addresses, when the triple derives and a
/// record is held there.
pub open spec fn withdraw_record(
    w: WorldV,
    sender: Seq<u8>,
    receiver: Seq<u8>,
    timestamp: i64,
) -> Option<BankV> {
    match pda_of(sender, receiver, decimal_seq(timestamp as int)) {
        None => None,
        Some(p) => key_lookup(w.vault, p.0),
    }
}

/// What a withdraw request does to a world: re-derive the address, reject a
/// missing record, a caller or named identity that does not match the record,
/// or a time before the unlock time; otherwise move the full held amount to
/// the recorded receiver and delete the record. On any error the world is
/// unchanged.
pub open spec fn withdraw_step(
    w: WorldV,
    caller: Seq<u8>,
    sender: Seq<u8>,
    receiver: Seq<u8>,
    timestamp: i64,
    now: i64,
) -> (WorldV, Result<(), ErrorCode>) {
    match pda_of(sender, receiver, decimal_seq(timestamp as int)) {
        None => (w, Err(ErrorCode::InvalidSeed)),
        Some(p) => match key_lookup(w.vault, p.0) {
            None => (w, Err(ErrorCode::NotFound)),
            Some(b) => if b.sender != sender || b.receiver != receiver || caller != b.receiver {
                (w, Err(ErrorCode::WrongAccount))
            } else if now < b.timestamp {
                (w, Err(ErrorCode::HandsTooWeak))
            } else {
                (
                    WorldV {
                        balances: bal_credit(w.balances, b.receiver, b.amount),
                        vault: w.vault.remove(key_index(w.vault, p.0)),
                    },
                    Ok(()),
                )
            },
        },
    }
}

/// Creates an escrow: moves `amount` from `sender`'s balance into a fresh
/// record for `receiver`, claimable from `timestamp` on, at the address
/// derived from the triple. All-or-nothing: on any error nothing moves.
pub fn create_bank(
    world: &mut World,
    sender: Pubkey,
    receiver: Pubkey,
    timestamp: i64,
    amount: u64,
) -> (r: Result<(), ErrorCode>)
    requires
        old(world).wf(),
    ensures
        final(world).wf(),
        (final(world)@, r) == create_step(old(world)@, sender@, receiver@, timestamp, amount),
{
    let derived = derive_address(&sender, &receiver, timestamp);
    let (address, bump) = match derived {
        Ok(p) => p,
        Err(e) => {
            return Err(e);
        },
    };
    if world.vault.has_record(&address) {
        return Err(ErrorCode::AlreadyExists);
    }
    let bal = world.balances.balance(&sender);
    if bal < amount {
        return Err(ErrorCode::InsufficientFunds);
    }
    proof {
        lemma_bal_debit(old(world)@.balances, sender@, amount);
        lemma_vault_push(
            old(world)@.vault,
            address@,
            BankV {
                sender: sender@,
                receiver: receiver@,
                amount,
                timestamp,
                bump,
            },
        );
    }
    world.balances.debit(&sender, amount);
    let bank = Bank { sender, receiver, amount, timestamp, bump };
    let res = world.vault.create_record(address, bank);
    proof {
        assert(res == Ok::<(), ErrorCode>(()));
    }
    res
}

/// Withdraws an escrow: the caller, authenticated as `caller`, claims the
/// record of the triple `(sender, receiver, timestamp)` at time `now`. The
/// full recorded amount — never more, never less — moves to the recorded
/// receiver, and the record is deleted, so a second attempt finds nothing.
/// All-or-nothing: on any error nothing moves.
pub fn withdraw_bank(
    world: &mut World,
    caller: &Pubkey,
    sender: &Pubkey,
    receiver: &Pubkey,
    timestamp: i64,
    now: i64,
) -> (r: Result<(), ErrorCode>)
    requires
        old(world).wf(),
    ensures
        final(world).wf(),
        (final(world)@, r) == withdraw_step(
            old(world)@,
            caller@,
            sender@,
            receiver@,
            timestamp,
            now,
        ),
{
    let derived = derive_address(sender, receiver, timestamp);
    let (address, _bump) = match derived {
        Ok(p) => p,
        Err(e) => {
            return Err(e);
        },
    };
    let (ok_sender, ok_receiver, ok_caller, rec_timestamp) = match world.vault.read_record(
        &address,
    ) {
        Ok(b) => (
            b.sender.key_eq(sender),
            b.receiver.key_eq(receiver),
            caller.key_eq(&b.receiver),
            b.timestamp,
        ),
        Err(e) => {
            return Err(e);
        },
    };
    if !ok_sender || !ok_receiver || !ok_caller {
        return Err(ErrorCode::WrongAccount);
    }
    if now < rec_timestamp {
        return Err(ErrorCode::HandsTooWeak);
    }
    let bank = match world.vault.close_record(&address) {
        Ok(b) => b,
        Err(e) => {
            return Err(e);
        },
    };
    proof {
        lemma_balance_le_sum(old(world)@.balances, bank@.receiver);
        lemma_amount_le_sum(old(world)@.vault, address@, bank@);
        lemma_bal_credit(old(world)@.balances, bank@.receiver, bank.amount);
        lemma_vault_remove(old(world)@.vault, address@, bank@);
    }
    world.balances.credit(bank.receiver, bank.amount);
    Ok(())
}

} // verus!
