//! Account references.
//!
//! A payer or a payee is named by an [`Account`]: the kind of ledger entity it
//! is and that entity's 32-byte key. The payment core never looks inside the
//! key; it only copies accounts around and asks whether two of them are the
//! same.

use vstd::prelude::*;

verus! {

/// The kind of ledger entity an account reference names.
#[derive(Clone, Copy, Debug, PartialEq, Eq)]
pub enum AccountKind {
    /// A classic account, identified by its ed25519 public key.
    Wallet,
    /// A contract, identified by the hash of its contract id.
    Contract,
}

/// An immutable, equality-comparable identifier for a payer or payee.
#[derive(Clone, Copy, Debug, PartialEq, Eq)]
pub struct Account {
    pub kind: AccountKind,
    pub key: [u8; 32],
}

impl AccountKind {
    /// Whether two kinds are the same kind.
    pub fn same_as(&self, other: &AccountKind) -> (same: bool)
        ensures
            same == (*self == *other),
    {
        match (self, other) {
            (AccountKind::Wallet, AccountKind::Wallet) => true,
            (AccountKind::Contract, AccountKind::Contract) => true,
            _ => false,
        }
    }
}

impl Account {
    /// Whether two references name the same account: the same kind of entity
    /// with the same key, byte for byte.
    pub fn same_as(&self, other: &Account) -> (same: bool)
        ensures
            same == (*self == *other),
    {
        if !self.kind.same_as(&other.kind) {
            return false;
        }
        let mut i: usize = 0;
        while i < 32
            invariant
                i <= 32,
                self.kind == other.kind,
                forall|j: int| 0 <= j < i ==> self.key[j] == other.key[j],
            decreases 32 - i,
        {
            if self.key[i] != other.key[i] {
                return false;
            }
            i = i + 1;
        }
        assert(self.key =~= other.key);
        true
    }
}

} // verus!
