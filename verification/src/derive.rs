//! Deterministic vault addressing: the address of an escrow record is a pure
//! function of `(sender, receiver, unlock time)`, computed by the host's
//! program-derived-address primitive over the three seeds
//! `sender bytes`, `receiver bytes`, `decimal unlock time`.

use vstd::prelude::*;

use crate::errors::ErrorCode;
use crate::pubkey::Pubkey;
use crate::seed::decimal_seq;
use crate::seed::timestamp_seed;

verus! {

/// The address and canonicalization nonce (bump) that the host's derivation
/// primitive yields for the given seeds, or `None` when the seeds cannot be
/// canonicalized: no nonce in the search space gives a valid address, or a
/// seed is over the host's length limit.
pub uninterp spec fn pda_of(sender: Seq<u8>, receiver: Seq<u8>, time_seed: Seq<u8>) -> Option<
    (Seq<u8>, u8),
>;

/// Relies on solana_program's `Pubkey::try_find_program_address`: the result
/// is a pure function of the seed slices and the program id (a SHA-256-based
/// search over bump bytes, highest first), it never panics, it returns `None`
/// exactly when a seed exceeds the host's length limit or no bump yields a
/// valid off-curve address, and a returned address is 32 bytes. The program id
/// is fixed here, so the result depends on the three seeds alone.
#[verifier::external_body]
fn find_vault_address(sender: &Vec<u8>, receiver: &Vec<u8>, time_seed: &Vec<u8>) -> (r: Option<
    (Vec<u8>, u8),
>)
    ensures
        r is Some == pda_of(sender@, receiver@, time_seed@) is Some,
        r matches Some(p) ==> pda_of(sender@, receiver@, time_seed@) == Some((p.0@, p.1)),
        r matches Some(p) ==> p.0@.len() == 32,
{
    let program_id = solana_program::pubkey::Pubkey::new_from_array(
        *b"time-locked-escrow-vault-program",
    );
    let found = solana_program::pubkey::Pubkey::try_find_program_address(
        &[sender.as_slice(), receiver.as_slice(), time_seed.as_slice()],
        &program_id,
    );
    found.map(|(address, bump)| (address.to_bytes().to_vec(), bump))
}

/// Derives the deterministic vault address and bump for a triple. The result
/// is a function of the triple alone, so re-derivation always agrees with the
/// address a record was created under.
pub fn derive_address(sender: &Pubkey, receiver: &Pubkey, timestamp: i64) -> (r: Result<
    (Pubkey, u8),
    ErrorCode,
>)
    ensures
        ({
            let d = pda_of(sender@, receiver@, decimal_seq(timestamp as int));
            match r {
                Ok(p) => d == Some((p.0@, p.1)) && p.0@.len() == 32,
                Err(e) => d is None && e == ErrorCode::InvalidSeed,
            }
        }),
{
    let time_seed = timestamp_seed(timestamp);
    match find_vault_address(sender.bytes(), receiver.bytes(), &time_seed) {
        Some((address, bump)) => Ok((Pubkey::from_bytes(address), bump)),
        None => Err(ErrorCode::InvalidSeed),
    }
}

} // verus!
