//! Identities and addresses: 32-byte public keys.

use vstd::prelude::*;

verus! {

/// The number of bytes in a public key.
pub const KEY_LEN: usize = 32;

/// A 32-byte key. It names both balance-bearing identities (sender, receiver)
/// and derived vault addresses, which live in the same key space.
pub struct Pubkey {
    bytes: Vec<u8>,
}

impl View for Pubkey {
    type V = Seq<u8>;

    closed spec fn view(&self) -> Seq<u8> {
        self.bytes@
    }
}

impl Pubkey {
    /// Builds a key from exactly 32 bytes; anything else is rejected.
    pub fn new(bytes: Vec<u8>) -> (r: Option<Pubkey>)
        ensures
            r is Some <==> bytes@.len() == KEY_LEN,
            r matches Some(k) ==> k@ == bytes@,
    {
        if bytes.len() == KEY_LEN {
            Some(Pubkey { bytes })
        } else {
            None
        }
    }

    /// Wraps raw bytes without a length check; only derivation output uses it.
    pub(crate) fn from_bytes(bytes: Vec<u8>) -> (r: Pubkey)
        ensures
            r@ == bytes@,
    {
        Pubkey { bytes }
    }

    /// The raw bytes of the key.
    pub fn bytes(&self) -> (r: &Vec<u8>)
        ensures
            r@ == self@,
    {
        &self.bytes
    }

    /// Whether two keys are the same identity.
    pub fn key_eq(&self, other: &Pubkey) -> (r: bool)
        ensures
            r == (self@ == other@),
    {
        let r = self.bytes == other.bytes;
        proof {
            if r {
                assert(self@ =~= other@);
            }
        }
        r
    }
}

} // verus!
