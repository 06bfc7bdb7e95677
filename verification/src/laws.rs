//! The laws of the escrow state machine, proved once and for all over the
//! spec-level transition functions that the handlers refine.

use vstd::prelude::*;

use crate::derive::pda_of;
use crate::errors::ErrorCode;
use crate::kvseq::has_key;
use crate::kvseq::key_lookup;
use crate::kvseq::keys_unique;
use crate::kvseq::lemma_key_index_push;
use crate::ledger::balance_of;
use crate::ledger::lemma_bal_credit;
use crate::ledger::lemma_bal_debit;
use crate::ledger::lemma_balance_le_sum;
use crate::handlers::create_step;
use crate::handlers::withdraw_record;
use crate::handlers::withdraw_step;
use crate::seed::decimal_seq;
use crate::store::lemma_amount_le_sum;
use crate::store::lemma_vault_push;
use crate::store::lemma_vault_remove;
use crate::store::BankV;
use crate::world::lemma_weights_nonneg;
use crate::world::total;
use crate::world::wf_world;
use crate::world::WorldV;

verus! {

/// Determinism: the derived address and bump are a function of the triple
/// alone, so equal triples always derive equal pairs, on every call.
pub proof fn lemma_derive_deterministic(
    sender1: Seq<u8>,
    receiver1: Seq<u8>,
    timestamp1: i64,
    sender2: Seq<u8>,
    receiver2: Seq<u8>,
    timestamp2: i64,
)
    requires
        sender1 == sender2,
        receiver1 == receiver2,
        timestamp1 == timestamp2,
    ensures
        pda_of(sender1, receiver1, decimal_seq(timestamp1 as int)) == pda_of(
            sender2,
            receiver2,
            decimal_seq(timestamp2 as int),
        ),
{
}

/// No double-create: while a triple's record is held, a second create of the
/// identical triple fails with `AlreadyExists` and changes nothing, whatever
/// amount it asks for.
pub proof fn lemma_no_double_create(
    w: WorldV,
    sender: Seq<u8>,
    receiver: Seq<u8>,
    timestamp: i64,
    amount1: u64,
    amount2: u64,
)
    requires
        create_step(w, sender, receiver, timestamp, amount1).1 is Ok,
    ensures
        ({
            let w1 = create_step(w, sender, receiver, timestamp, amount1).0;
            create_step(w1, sender, receiver, timestamp, amount2) == (
                w1,
                Err::<(), ErrorCode>(ErrorCode::AlreadyExists),
            )
        }),
{
    let d = pda_of(sender, receiver, decimal_seq(timestamp as int));
    match d {
        Some(p) => {
            let b = BankV { sender, receiver, amount: amount1, timestamp, bump: p.1 };
            lemma_key_index_push(w.vault, p.0, b, p.0);
        },
        None => {},
    }
}

/// Time gate: with the record held and every identity in place, withdrawal
/// fails with `HandsTooWeak` exactly when `now` is before the record's unlock
/// time, and succeeds exactly from the unlock time on.
pub proof fn lemma_time_gate(
    w: WorldV,
    caller: Seq<u8>,
    sender: Seq<u8>,
    receiver: Seq<u8>,
    timestamp: i64,
    now: i64,
    b: BankV,
)
    requires
        withdraw_record(w, sender, receiver, timestamp) == Some(b),
        b.sender == sender,
        b.receiver == receiver,
        caller == b.receiver,
    ensures
        (now < b.timestamp) == (withdraw_step(w, caller, sender, receiver, timestamp, now).1
            == Err::<(), ErrorCode>(ErrorCode::HandsTooWeak)),
        (now >= b.timestamp) == (withdraw_step(w, caller, sender, receiver, timestamp, now).1
            is Ok),
        now < b.timestamp ==> withdraw_step(w, caller, sender, receiver, timestamp, now).0 == w,
{
}

/// Identity gate: with the record held, a caller who is not the recorded
/// receiver is refused with `WrongAccount` and changes nothing, regardless of
/// the time.
pub proof fn lemma_identity_gate(
    w: WorldV,
    caller: Seq<u8>,
    sender: Seq<u8>,
    receiver: Seq<u8>,
    timestamp: i64,
    now: i64,
    b: BankV,
)
    requires
        withdraw_record(w, sender, receiver, timestamp) == Some(b),
        caller != b.receiver,
    ensures
        withdraw_step(w, caller, sender, receiver, timestamp, now) == (
            w,
            Err::<(), ErrorCode>(ErrorCode::WrongAccount),
        ),
{
}

/// Exactly-once withdrawal: after a successful withdrawal of a triple, any
/// repeated attempt against the same triple fails with `NotFound` and changes
/// nothing, whoever calls and whenever.
pub proof fn lemma_exactly_once(
    w: WorldV,
    caller: Seq<u8>,
    sender: Seq<u8>,
    receiver: Seq<u8>,
    timestamp: i64,
    now: i64,
    caller2: Seq<u8>,
    now2: i64,
)
    requires
        keys_unique(w.vault),
        withdraw_step(w, caller, sender, receiver, timestamp, now).1 is Ok,
    ensures
        ({
            let w1 = withdraw_step(w, caller, sender, receiver, timestamp, now).0;
            withdraw_step(w1, caller2, sender, receiver, timestamp, now2) == (
                w1,
                Err::<(), ErrorCode>(ErrorCode::NotFound),
            )
        }),
{
    let d = pda_of(sender, receiver, decimal_seq(timestamp as int));
    match d {
        Some(p) => {
            match key_lookup(w.vault, p.0) {
                Some(b) => {
                    lemma_vault_remove(w.vault, p.0, b);
                },
                None => {},
            }
        },
        None => {},
    }
}

/// What a successful creation leaves behind: the triple's record is held,
/// carrying exactly the requested identities, amount and unlock time, and the
/// sender's balance dropped by exactly the amount.
pub proof fn lemma_create_effect(
    w: WorldV,
    sender: Seq<u8>,
    receiver: Seq<u8>,
    timestamp: i64,
    amount: u64,
)
    requires
        create_step(w, sender, receiver, timestamp, amount).1 is Ok,
    ensures
        ({
            let w1 = create_step(w, sender, receiver, timestamp, amount).0;
            &&& withdraw_record(w1, sender, receiver, timestamp) matches Some(b) && b.sender
                == sender && b.receiver == receiver && b.amount == amount && b.timestamp
                == timestamp
            &&& balance_of(w1.balances, sender) == balance_of(w.balances, sender) - amount
            &&& balance_of(w.balances, sender) >= amount
        }),
{
    let d = pda_of(sender, receiver, decimal_seq(timestamp as int));
    match d {
        Some(p) => {
            let b = BankV { sender, receiver, amount, timestamp, bump: p.1 };
            lemma_bal_debit(w.balances, sender, amount);
            lemma_vault_push(w.vault, p.0, b);
        },
        None => {},
    }
}

/// Conservation at creation: a create step neither creates nor destroys
/// funds; the total supply is unchanged whether it succeeds or fails.
pub proof fn lemma_create_preserves_total(
    w: WorldV,
    sender: Seq<u8>,
    receiver: Seq<u8>,
    timestamp: i64,
    amount: u64,
)
    ensures
        total(create_step(w, sender, receiver, timestamp, amount).0) == total(w),
{
    let d = pda_of(sender, receiver, decimal_seq(timestamp as int));
    match d {
        Some(p) => {
            if !has_key(w.vault, p.0) && balance_of(w.balances, sender) >= amount {
                let b = BankV { sender, receiver, amount, timestamp, bump: p.1 };
                lemma_bal_debit(w.balances, sender, amount);
                lemma_vault_push(w.vault, p.0, b);
            }
        },
        None => {},
    }
}

/// Conservation at withdrawal: a successful withdrawal moves exactly the
/// recorded amount — never more, never less — to the recorded receiver, and
/// the total supply is unchanged.
pub proof fn lemma_withdraw_conserves(
    w: WorldV,
    caller: Seq<u8>,
    sender: Seq<u8>,
    receiver: Seq<u8>,
    timestamp: i64,
    now: i64,
    b: BankV,
)
    requires
        keys_unique(w.vault),
        total(w) <= u64::MAX,
        withdraw_record(w, sender, receiver, timestamp) == Some(b),
        withdraw_step(w, caller, sender, receiver, timestamp, now).1 is Ok,
    ensures
        ({
            let w1 = withdraw_step(w, caller, sender, receiver, timestamp, now).0;
            &&& total(w1) == total(w)
            &&& balance_of(w1.balances, b.receiver) == balance_of(w.balances, b.receiver)
                + b.amount
            &&& withdraw_record(w1, sender, receiver, timestamp) is None
        }),
{
    let d = pda_of(sender, receiver, decimal_seq(timestamp as int));
    match d {
        Some(p) => {
            lemma_weights_nonneg(w);
            lemma_balance_le_sum(w.balances, b.receiver);
            lemma_amount_le_sum(w.vault, p.0, b);
            lemma_bal_credit(w.balances, b.receiver, b.amount);
            lemma_vault_remove(w.vault, p.0, b);
        },
        None => {},
    }
}

/// A full life cycle: after a successful creation, the recorded receiver,
/// claiming at or after the unlock time, always succeeds and gains exactly
/// the escrowed amount; the total supply ends where it began.
pub proof fn lemma_create_then_withdraw(
    w: WorldV,
    sender: Seq<u8>,
    receiver: Seq<u8>,
    timestamp: i64,
    amount: u64,
    now: i64,
)
    requires
        wf_world(w),
        create_step(w, sender, receiver, timestamp, amount).1 is Ok,
        now >= timestamp,
    ensures
        ({
            let w1 = create_step(w, sender, receiver, timestamp, amount).0;
            let step2 = withdraw_step(w1, receiver, sender, receiver, timestamp, now);
            &&& step2.1 is Ok
            &&& balance_of(step2.0.balances, receiver) == balance_of(w1.balances, receiver)
                + amount
            &&& total(step2.0) == total(w)
        }),
{
    let d = pda_of(sender, receiver, decimal_seq(timestamp as int));
    match d {
        Some(p) => {
            let b = BankV { sender, receiver, amount, timestamp, bump: p.1 };
            lemma_bal_debit(w.balances, sender, amount);
            lemma_vault_push(w.vault, p.0, b);
            let w1 = create_step(w, sender, receiver, timestamp, amount).0;
            lemma_create_preserves_total(w, sender, receiver, timestamp, amount);
            lemma_withdraw_conserves(w1, receiver, sender, receiver, timestamp, now, b);
        },
        None => {},
    }
}

} // verus!
